//! Flushing the tile cache: tiles ordered by access time, and what flushing
//! from memory does to them.
use vstd::prelude::*;
use crate::tiles::tile::{Tile, TileOrd, TileView};
use crate::tiles::table::TileTable;

verus! {

/// Keys of ordered tile entries.
pub open spec fn ord_keys(v: Seq<TileOrd>) -> Seq<Seq<char>> {
    v.map_values(|o: TileOrd| o.key@)
}

/// The disk holds more than `disk_capacity` allows.
pub open spec fn disk_over(disk_usage: i64, disk_capacity: Option<i64>) -> bool {
    disk_capacity matches Some(c) && disk_usage > c
}

/// A tile that flushing from memory reduces: above zoom level 3, holding data
/// or a surface.
pub open spec fn mem_flushable(t: TileView) -> bool {
    t.z > 3 && (t.data is Some || t.surface is Some)
}

/// Estimated memory use of a tile: the tile structure and its payload.
pub open spec fn mem_estimate(t: TileView) -> int {
    vstd::layout::size_of::<Tile>() + t.payload_bytes()
}

/// The memory estimate of the tile can be computed in machine integers.
pub open spec fn mem_estimable(t: TileView) -> bool {
    &&& t.surface is Some && !t.surface_is_temporary ==> i32::MIN <= t.width * t.height * 4 <= i32::MAX
    &&& vstd::layout::size_of::<Tile>() + (match t.data {
        Some(d) => d.len() as int,
        None => 0,
    }) <= isize::MAX
    &&& isize::MIN <= mem_estimate(t) <= isize::MAX
}

/// Sum of the memory estimates of the tiles held for the keys of `order`.
pub open spec fn mem_sum(tiles: Map<Seq<char>, TileView>, order: Seq<Seq<char>>) -> int
    decreases order.len(),
{
    if order.len() == 0 {
        0
    } else {
        mem_sum(tiles, order.drop_last()) + mem_estimate(tiles[order.last()])
    }
}

/// `order` holds each key of `tiles` once, earliest accessed first.
pub open spec fn by_access(tiles: Map<Seq<char>, TileView>, order: Seq<Seq<char>>) -> bool {
    &&& order.no_duplicates()
    &&& forall|i: int| 0 <= i < order.len() ==> tiles.dom().contains(#[trigger] order[i])
    &&& forall|k: Seq<char>| #[trigger] tiles.dom().contains(k) ==> order.contains(k)
    &&& forall|i: int, j: int|
        0 <= i < j < order.len() ==> tiles[#[trigger] order[i]].access_time <= tiles[#[trigger] order[j]].access_time
}

/// The tiles after flushing from memory in the order `order` while the memory
/// estimate `mem` is above `capacity`: each flushable tile is flushed and the
/// estimate follows.
pub open spec fn mem_flushed(
    tiles: Map<Seq<char>, TileView>,
    order: Seq<Seq<char>>,
    mem: int,
    capacity: int,
) -> Map<Seq<char>, TileView>
    decreases order.len(),
{
    if order.len() == 0 || mem <= capacity {
        tiles
    } else {
        let k = order[0];
        if tiles.dom().contains(k) && mem_flushable(tiles[k]) {
            mem_flushed(
                tiles.insert(k, tiles[k].flushed()),
                order.drop_first(),
                mem + vstd::layout::size_of::<Tile>() - mem_estimate(tiles[k]),
                capacity,
            )
        } else {
            mem_flushed(tiles, order.drop_first(), mem, capacity)
        }
    }
}

/// The tiles after the memory part of a cache check: flushed in `order`
/// while the estimate exceeds the capacity, when there is one.
pub open spec fn mem_checked(
    tiles: Map<Seq<char>, TileView>,
    order: Seq<Seq<char>>,
    mem_capacity: Option<isize>,
) -> Map<Seq<char>, TileView> {
    match mem_capacity {
        Some(c) => mem_flushed(tiles, order, mem_sum(tiles, order), c as int),
        None => tiles,
    }
}

/// The sum of estimates that can each be computed in machine integers stays
/// within `len * 2^63` of zero.
pub proof fn lemma_mem_sum_bound(tiles: Map<Seq<char>, TileView>, order: Seq<Seq<char>>)
    requires
        forall|i: int| 0 <= i < order.len() ==> mem_estimable(tiles[#[trigger] order[i]]),
    ensures
        -(order.len() * 0x8000_0000_0000_0000) <= mem_sum(tiles, order) <= order.len() * 0x8000_0000_0000_0000,
    decreases order.len(),
{
    if order.len() > 0 {
        let rest = order.drop_last();
        assert forall|i: int| 0 <= i < rest.len() implies mem_estimable(tiles[#[trigger] rest[i]]) by {
            assert(rest[i] == order[i]);
        }
        lemma_mem_sum_bound(tiles, rest);
        assert(mem_estimable(tiles[order[order.len() - 1]]));
    }
}

/// Replacing the tile of one key changes the sum by the change of its estimate
/// when the key occurs (once) in `order`.
pub proof fn lemma_mem_sum_update(
    tiles: Map<Seq<char>, TileView>,
    order: Seq<Seq<char>>,
    k: Seq<char>,
    v: TileView,
)
    requires
        order.no_duplicates(),
        tiles.dom().contains(k),
        forall|i: int| 0 <= i < order.len() ==> tiles.dom().contains(#[trigger] order[i]),
    ensures
        mem_sum(tiles.insert(k, v), order) == mem_sum(tiles, order) + (if order.contains(k) {
            mem_estimate(v) - mem_estimate(tiles[k])
        } else {
            0
        }),
    decreases order.len(),
{
    if order.len() > 0 {
        let rest = order.drop_last();
        let last = order.last();
        assert(rest.no_duplicates()) by {
            assert forall|i: int, j: int| 0 <= i < rest.len() && 0 <= j < rest.len() && i != j implies rest[i] != rest[j] by {
                assert(rest[i] == order[i] && rest[j] == order[j]);
            }
        }
        assert forall|i: int| 0 <= i < rest.len() implies tiles.dom().contains(#[trigger] rest[i]) by {
            assert(rest[i] == order[i]);
        }
        lemma_mem_sum_update(tiles, rest, k, v);
        assert(tiles.dom().contains(order[order.len() - 1]));
        if last == k {
            assert(!rest.contains(k)) by {
                if rest.contains(k) {
                    let i = choose|i: int| 0 <= i < rest.len() && rest[i] == k;
                    assert(order[i] == order[order.len() - 1]);
                }
            }
            assert(order.contains(k)) by {
                assert(order[order.len() - 1] == k);
            }
        } else {
            assert(order.contains(k) == rest.contains(k)) by {
                if order.contains(k) {
                    let i = choose|i: int| 0 <= i < order.len() && order[i] == k;
                    assert(i != order.len() - 1);
                    assert(rest[i] == k);
                }
                if rest.contains(k) {
                    let i = choose|i: int| 0 <= i < rest.len() && rest[i] == k;
                    assert(order[i] == k);
                }
            }
        }
    }
}

/// Positions of the tiles of `t` ordered by access time, earliest first;
/// positions with equal times keep their order.
pub fn order_by_access(t: &TileTable) -> (r: Vec<usize>)
    requires
        t.wf(),
    ensures
        r@.len() == t.size(),
        forall|a: int, b: int| 0 <= a < b < r@.len() ==> r@[a] != r@[b],
        forall|a: int| 0 <= a < r@.len() ==> r@[a] < t.size(),
        forall|a: int, b: int|
            0 <= a < b < r@.len() ==> t.tile_seq(r@[a] as int).access_time <= t.tile_seq(
                r@[b] as int,
            ).access_time,
        forall|p: usize| p < t.size() ==> #[trigger] r@.contains(p),
{
    proof {
        t.lemma_positions();
    }
    let n = t.len();
    let mut r: Vec<usize> = Vec::new();
    let mut i: usize = 0;
    while i < n
        invariant
            t.wf(),
            n == t.size(),
            i <= n,
            r@.len() == i,
            forall|a: int, b: int| 0 <= a < b < r@.len() ==> r@[a] != r@[b],
            forall|a: int| 0 <= a < r@.len() ==> r@[a] < i,
            forall|a: int, b: int|
                0 <= a < b < r@.len() ==> t.tile_seq(r@[a] as int).access_time <= t.tile_seq(
                    r@[b] as int,
                ).access_time,
            forall|p: usize| p < i ==> #[trigger] r@.contains(p),
        decreases n - i,
    {
        proof {
            t.lemma_positions();
        }
        let time = t.tile_at(i).access_time();
        let mut pos: usize = r.len();
        while pos > 0
            invariant
                t.wf(),
                n == t.size(),
                pos <= r@.len(),
                forall|a: int| 0 <= a < r@.len() ==> r@[a] < i,
                i < n,
                forall|q: int| pos <= q < r@.len() ==> t.tile_seq(r@[q] as int).access_time > time,
            ensures
                pos <= r@.len(),
                forall|q: int| pos <= q < r@.len() ==> t.tile_seq(r@[q] as int).access_time > time,
                pos == 0 || t.tile_seq(r@[pos - 1] as int).access_time <= time,
            decreases pos,
        {
            proof {
                t.lemma_positions();
            }
            let prev = r[pos - 1];
            assert(prev < n);
            let pt = t.tile_at(prev).access_time();
            assert(pt == t.tile_seq(prev as int).access_time);
            if pt <= time {
                break;
            }
            pos = pos - 1;
        }
        assert(time == t.tile_seq(i as int).access_time);
        let ghost old_r = r@;
        r.insert(pos, i);
        proof {
            assert(r@ == old_r.insert(pos as int, i));
            assert forall|a: int, b: int| 0 <= a < b < r@.len() implies r@[a] != r@[b] by {
                let oa = if a < pos { a } else { a - 1 };
                let ob = if b < pos { b } else { b - 1 };
                if a == pos {
                    assert(old_r[ob] < i);
                } else if b == pos {
                    assert(old_r[oa] < i);
                } else {
                    assert(r@[a] == old_r[oa] && r@[b] == old_r[ob]);
                }
            }
            assert forall|a: int, b: int|
                0 <= a < b < r@.len() implies t.tile_seq(r@[a] as int).access_time <= t.tile_seq(r@[b] as int).access_time by {
                if a == pos {
                    assert(r@[b] == old_r[b - 1]);
                } else if b == pos {
                    assert(r@[a] == old_r[a]);
                    if pos > 0 {
                        assert(t.tile_seq(old_r[pos - 1] as int).access_time <= time);
                        if a < pos - 1 {
                            assert(t.tile_seq(old_r[a] as int).access_time <= t.tile_seq(old_r[pos - 1] as int).access_time);
                        }
                    }
                } else {
                    let oa = if a < pos { a } else { a - 1 };
                    let ob = if b < pos { b } else { b - 1 };
                    assert(r@[a] == old_r[oa] && r@[b] == old_r[ob]);
                }
            }
            assert forall|p: usize| p < i + 1 implies #[trigger] r@.contains(p) by {
                if p == i {
                    assert(r@[pos as int] == i);
                } else {
                    assert(old_r.contains(p));
                    let a = choose|a: int| 0 <= a < old_r.len() && old_r[a] == p;
                    if a < pos {
                        assert(r@[a] == p);
                    } else {
                        assert(r@[a + 1] == p);
                    }
                }
            }
        }
        i = i + 1;
    }
    r
}

} // verus!
