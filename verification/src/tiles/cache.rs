use vstd::prelude::*;
use vstd::arithmetic::power2::{pow2, lemma_pow2_unfold, lemma_pow2_pos};
use crate::clock::current_timestamp;
use crate::paths::{path_joined, push_component_str};
use crate::text::{chars_of, nat_text, int_text, push_int, push_nat, push_str, string_of};
use crate::tiles::request::{
    lemma_place_key_unique, place_key, side, wrap_ok, TileFetchMode, TileRequest, TileRequestView,
};
use crate::tiles::queue::{pushed, at_level, off_level, keys_of, texts_of, TileRequestQueue};
use crate::tiles::table::TileTable;
use crate::tiles::flush::{
    by_access, disk_over, lemma_mem_sum_bound, lemma_mem_sum_update, mem_checked, mem_estimable,
    mem_estimate, mem_flushable, mem_flushed, mem_sum, ord_keys, order_by_access,
};
use crate::tiles::fetch::{TileRequestResult, TileRequestResultCode, TileRequestResultView};
use crate::tiles::tile::{
    colored_tile, default_expiry, zoom_in_ok, zoomed_tile, fresh_tile, fill, Tile, TileOrd,
    TileState, TileView,
};

verus! {

/// Notified when a tile has been fetched.
pub trait TileObserver {
    /// A new tile has been loaded for the request.
    fn tile_loaded(&self, treq: &TileRequest);
}

/// Tiles by key together with the set of queued requests.
pub struct TileWork {
    pub tiles: Map<Seq<char>, TileView>,
    pub queue: Set<TileRequestView>,
}

/// `t` zoomed out `n` levels.
pub open spec fn zoomed_out_by(t: TileRequestView, n: nat) -> TileRequestView
    decreases n,
{
    if n == 0 {
        t
    } else {
        zoomed_out_by(t, (n - 1) as nat).zoomed_out()
    }
}

/// The key holds a tile with a surface that is not a temporary stand-in.
pub open spec fn scalable(tiles: Map<Seq<char>, TileView>, key: Seq<char>) -> bool {
    tiles.dom().contains(key) && tiles[key].surface is Some && !tiles[key].surface_is_temporary
}

/// The nearest zoomed-out request, from zoom level `level` down to level 1,
/// whose tile has a lasting surface to scale up for `t`.
pub open spec fn approx_source(
    tiles: Map<Seq<char>, TileView>,
    t: TileRequestView,
    level: int,
) -> Option<TileRequestView>
    decreases level,
{
    if level < 1 || level >= t.z {
        None
    } else {
        let up = zoomed_out_by(t, (t.z - level) as nat);
        if scalable(tiles, up.key_text()) {
            Some(up)
        } else {
            approx_source(tiles, t, level - 1)
        }
    }
}

/// The tile is in the world at its zoom level: `0 <= y < 2^z`, with `2^z`
/// taken in 32-bit arithmetic.
pub open spec fn in_world(t: TileRequestView) -> bool {
    t.z < 31 && 0 <= t.y < side(t.z as nat)
}

/// The request made in advance for `base`: `-dz` levels out, moved by
/// `(dx, dy)`, with the generation moved by `dpri` (not below zero).
pub open spec fn precaution_request(
    base: TileRequestView,
    dz: i8,
    dx: i8,
    dy: i8,
    dpri: i8,
) -> TileRequestView {
    let r = zoomed_out_by(base, (-dz) as nat);
    let g = (base.generation as i64) as int + dpri;
    TileRequestView {
        precautionary: true,
        generation: (if g < 0 {
            0
        } else {
            g
        }) as u64,
        x: (r.x + dx) as i32,
        y: (r.y + dy) as i32,
        ..r
    }
}

/// Effect of requesting in advance the tile `-dz` levels out from `base` and
/// moved by `(dx, dy)`: nothing when out of range or when its tile is pending
/// or ready; else the request is queued and a black stand-in is held for it.
pub open spec fn precaution(
    w: TileWork,
    base: TileRequestView,
    dz: i8,
    dx: i8,
    dy: i8,
    dpri: i8,
    now: int,
    dir: Seq<char>,
) -> TileWork {
    if base.z + dz < 0 {
        w
    } else {
        let r = precaution_request(base, dz, dx, dy, dpri);
        let n = side(r.z as nat);
        let k = r.key_text();
        if r.x < 0 || r.x >= n || r.y < 0 || r.y >= n {
            w
        } else if w.tiles.dom().contains(k) && (w.tiles[k].state == TileState::Pending
            || w.tiles[k].state == TileState::Ready) {
            w
        } else {
            TileWork { tiles: w.tiles.insert(k, colored_tile(r, 0, 0, 0, now, dir)), queue: pushed(w.queue, r) }
        }
    }
}

/// The requests made in advance when no good approximation of `t` is held:
/// the neighbourhood three levels out, then single tiles six, nine and twelve
/// levels out.
#[verifier::opaque]
pub open spec fn precautions(w: TileWork, t: TileRequestView, now: int, dir: Seq<char>) -> TileWork {
    let w1 = precaution(w, t, -3i8, 0i8, 0i8, 1i8, now, dir);
    let w2 = precaution(w1, t, -3i8, 1i8, 0i8, 1i8, now, dir);
    let w3 = precaution(w2, t, -3i8, -1i8, 0i8, 1i8, now, dir);
    let w4 = precaution(w3, t, -3i8, 0i8, -1i8, 1i8, now, dir);
    let w5 = precaution(w4, t, -3i8, 0i8, 1i8, 1i8, now, dir);
    let w6 = precaution(w5, t, -6i8, 0i8, 0i8, 0i8, now, dir);
    let w7 = precaution(w6, t, -9i8, 0i8, 0i8, 0i8, now, dir);
    precaution(w7, t, -12i8, 0i8, 0i8, 0i8, now, dir)
}

/// The stand-in tile for `t` and the requests made for it: a scaled-up tile
/// from a nearby zoomed-out level if one is held, else a dark grey one; at
/// zoom level 0 a dark red one.
#[verifier::opaque]
pub open spec fn approximation(w: TileWork, t: TileRequestView, now: int, dir: Seq<char>) -> (TileWork, TileView) {
    if t.z == 0 {
        (w, colored_tile(t, 2, 0, 0, now, dir))
    } else {
        match approx_source(w.tiles, t, t.z - 1) {
            Some(up) => {
                let tile = zoomed_tile(w.tiles[up.key_text()], t, now);
                if t.z - up.z > 3 {
                    (precautions(w, t, now, dir), tile)
                } else {
                    (w, tile)
                }
            },
            None => (precautions(w, t, now, dir), colored_tile(t, 2, 2, 2, now, dir)),
        }
    }
}

/// A copy of `t` fetched only from the disk cache, staying pending on success.
pub open spec fn cache_request(t: TileRequestView) -> TileRequestView {
    TileRequestView { tile_fetch_mode: TileFetchMode::Cache, tile_state_on_success: TileState::Pending, ..t }
}

/// A copy of `t` fetched only from the remote source.
pub open spec fn remote_request(t: TileRequestView) -> TileRequestView {
    TileRequestView { tile_fetch_mode: TileFetchMode::Remote, ..t }
}

/// The held tile is returned as it is.
pub open spec fn returned_as_is(s: TileState) -> bool {
    s == TileState::Pending || s == TileState::Error || s == TileState::NonExistent || s
        == TileState::Unauthorized
}

/// Whether looking up `t` goes on to approximate its tile.
pub open spec fn approximates(tiles: Map<Seq<char>, TileView>, t: TileRequestView) -> bool {
    let k = t.key_text();
    in_world(t) && !(tiles.dom().contains(k) && (returned_as_is(tiles[k].state) || tiles[k].state
        == TileState::Ready))
}

/// Outcome of looking up the tile for `t` at `now`: the tiles and queued
/// requests after, whether an insert was counted, and the tile returned.
pub open spec fn lookup(w: TileWork, t: TileRequestView, now: int, dir: Seq<char>) -> (TileWork, bool, Option<TileView>) {
    let k = t.key_text();
    if !in_world(t) {
        (w, false, None)
    } else if w.tiles.dom().contains(k) && returned_as_is(w.tiles[k].state) {
        (w, false, Some(w.tiles[k]))
    } else if w.tiles.dom().contains(k) && w.tiles[k].state == TileState::Ready {
        let tile = w.tiles[k];
        if tile.expire_time < now {
            let upd = TileView { state: TileState::Pending, ..tile };
            (
                TileWork {
                    tiles: w.tiles.insert(k, upd),
                    queue: pushed(pushed(w.queue, cache_request(t)), remote_request(t)),
                },
                false,
                Some(upd),
            )
        } else {
            (w, false, Some(tile))
        }
    } else {
        let w1 = TileWork { queue: pushed(w.queue, t), ..w };
        let (w2, tile) = approximation(w1, t, now, dir);
        (TileWork { tiles: w2.tiles.insert(k, tile), ..w2 }, true, Some(tile))
    }
}

/// The tile after a failed fetch: the given state and one colour painted
/// (components in tenths).
pub open spec fn failed_tile(tile: TileView, state: TileState, red: u8, green: u8, blue: u8) -> TileView {
    TileView { state, surface: Some(fill(red, green, blue, tile.width, tile.height)), ..tile }
}

/// The request retried after a transmission error: generation and priority
/// reset, then the retry count set and the priority set to it.
pub open spec fn retry_request(r: TileRequestView, retries: u8) -> TileRequestView {
    TileRequestView { generation: 0, priority: retries as i64, retry_count: Some(retries), ..r }
}

/// Bytes of image file data of a fetch outcome.
pub open spec fn img_len(res: TileRequestResultView) -> int {
    match res.img_data {
        Some(d) => d.len() as int,
        None => 0,
    }
}

/// Outcome of handling a fetch result for the cache `c`: the tiles, the queued
/// requests and the disk usage after, and whether the observer is to be
/// notified. `retries` is the number of retries after a first transmission
/// error.
pub open spec fn handled(c: TileCacheView, res: TileRequestResultView, retries: u8) -> (TileWork, i64, bool) {
    let w = c.work();
    let k = res.request.key_text();
    if !c.tiles.dom().contains(k) {
        (w, c.disk_usage, true)
    } else {
        let tile = c.tiles[k];
        match res.code {
            TileRequestResultCode::Success => {
                let t = TileView {
                    state: res.request.tile_state_on_success,
                    data: Some(res.data),
                    width: res.tile_width,
                    height: res.tile_height,
                    expire_time: match res.expire_time {
                        Some(e) => e,
                        None => tile.expire_time,
                    },
                    filepath: Some(res.request.cache_location(c.cache_directory).1),
                    disk_usage: img_len(res) as i64,
                    ..tile
                };
                (
                    TileWork { tiles: c.tiles.insert(k, t), ..w },
                    (c.disk_usage + img_len(res) - tile.disk_usage) as i64,
                    true,
                )
            },
            TileRequestResultCode::TransmissionError => match res.request.retry_count {
                Some(rc) => if rc > 0 {
                    (TileWork { queue: pushed(w.queue, retry_request(res.request, (rc - 1) as u8)), ..w }, c.disk_usage, false)
                } else {
                    (
                        TileWork { tiles: c.tiles.insert(k, TileView { state: TileState::Error, ..tile }), ..w },
                        c.disk_usage,
                        false,
                    )
                },
                None => (TileWork { queue: pushed(w.queue, retry_request(res.request, retries)), ..w }, c.disk_usage, false),
            },
            TileRequestResultCode::NotFoundError => (
                TileWork { tiles: c.tiles.insert(k, failed_tile(tile, TileState::NonExistent, 4, 4, 4)), ..w },
                c.disk_usage,
                false,
            ),
            TileRequestResultCode::NoSourceError => (
                TileWork { tiles: c.tiles.insert(k, failed_tile(tile, TileState::NonExistent, 5, 4, 4)), ..w },
                c.disk_usage,
                false,
            ),
            TileRequestResultCode::UnauthorizedError => (
                TileWork { tiles: c.tiles.insert(k, failed_tile(tile, TileState::Unauthorized, 10, 9, 8)), ..w },
                c.disk_usage,
                false,
            ),
            TileRequestResultCode::UnknownError => (
                TileWork { tiles: c.tiles.insert(k, failed_tile(tile, TileState::Error, 7, 0, 8)), ..w },
                c.disk_usage,
                false,
            ),
        }
    }
}

/// The tiles of `tiles` with those held for `keys` made void.
pub open spec fn voided(tiles: Map<Seq<char>, TileView>, keys: Seq<Seq<char>>) -> Map<Seq<char>, TileView> {
    Map::new(
        |k: Seq<char>| tiles.dom().contains(k),
        |k: Seq<char>|
            if keys.contains(k) {
                TileView { state: TileState::Void, ..tiles[k] }
            } else {
                tiles[k]
            },
    )
}

/// A tile restored from a saved cache state: flushed, with a black stand-in
/// surface of the given size.
pub open spec fn restored_tile(t: TileView, width: i32, height: i32) -> TileView {
    TileView {
        state: TileState::Flushed,
        surface: Some(fill(0, 0, 0, width, height)),
        surface_is_temporary: true,
        ..t
    }
}

/// Sum of the disk usage of the tiles at the first `n` positions of `t`.
pub open spec fn disk_sum(t: TileTable, n: int) -> int
    decreases n,
{
    if n <= 0 {
        0
    } else {
        disk_sum(t, n - 1) + t.tile_seq(n - 1).disk_usage
    }
}

/// The main access point for tiles.
pub struct TileCache {
    tiles: TileTable,
    tile_request_queue: TileRequestQueue,
    disk_usage: i64,
    inserts_since_flush_check: u32,
    cache_directory: String,
}

/// What a tile cache holds, as plain values.
pub struct TileCacheView {
    pub tiles: Map<Seq<char>, TileView>,
    pub queue: Seq<TileRequestView>,
    pub disk_usage: i64,
    pub inserts_since_flush_check: u32,
    pub cache_directory: Seq<char>,
}

impl View for TileCache {
    type V = TileCacheView;

    closed spec fn view(&self) -> TileCacheView {
        TileCacheView {
            tiles: self.tiles@,
            queue: self.tile_request_queue@,
            disk_usage: self.disk_usage,
            inserts_since_flush_check: self.inserts_since_flush_check,
            cache_directory: self.cache_directory@,
        }
    }
}

impl TileCacheView {
    /// The tiles and the set of queued requests.
    pub open spec fn work(self) -> TileWork {
        TileWork { tiles: self.tiles, queue: self.queue.to_set() }
    }
}

/// A found approximation source holds a tile with a lasting surface, some
/// levels out from `t`.
proof fn lemma_approx_source_found(tiles: Map<Seq<char>, TileView>, t: TileRequestView, level: int)
    requires
        approx_source(tiles, t, level) is Some,
    ensures
        scalable(tiles, approx_source(tiles, t, level)->0.key_text()),
    decreases level,
{
    if !(level < 1 || level >= t.z) {
        let up = zoomed_out_by(t, (t.z - level) as nat);
        if !scalable(tiles, up.key_text()) {
            lemma_approx_source_found(tiles, t, level - 1);
        }
    }
}

/// The request `base` zoomed out keeps y within the world.
proof fn lemma_zoomed_out_in_world(t: TileRequestView, n: nat)
    requires
        t.valid(),
        in_world(t),
        n <= t.z,
    ensures
        zoomed_out_by(t, n).valid(),
        zoomed_out_by(t, n).z == t.z - n,
        0 <= zoomed_out_by(t, n).y < side((t.z - n) as nat),
        n > 0 ==> 0 <= zoomed_out_by(t, n).x < side((t.z - n) as nat),
        zoomed_out_by(t, n).generation == t.generation,
        zoomed_out_by(t, n).source == t.source,
    decreases n,
{
    if n > 0 {
        lemma_zoomed_out_in_world(t, (n - 1) as nat);
        let u = zoomed_out_by(t, (n - 1) as nat);
        let z = (t.z - (n - 1)) as nat;
        lemma_pow2_unfold(z);
        lemma_pow2_pos((z - 1) as nat);
        lemma_pow2_pos(z);
        if n == 1 {
            vstd::arithmetic::div_mod::lemma_mod_bound(t.x as int, side(t.z as nat));
        } else {
            vstd::arithmetic::div_mod::lemma_small_mod(u.x as nat, side(z) as nat);
        }
        assert(0 <= u.wrapped() < side(z));
        assert(side(z) <= 0x4000_0000) by {
            vstd::arithmetic::power2::lemma2_to64();
            if z < 30 {
                vstd::arithmetic::power2::lemma_pow2_strictly_increases(z, 30);
            }
        }
    } else {
        lemma_pow2_pos(t.z as nat);
    }
}

/// The tile is at the place of the request: its zoom level, row, wrapped
/// column and multiplier.
pub open spec fn at_place(t: TileView, r: TileRequestView) -> bool {
    t.z == r.z && t.y == r.y && t.x as int == r.wrapped() && t.mult == r.mult
}

/// The two tiles are at the same place.
pub open spec fn same_place(a: TileView, b: TileView) -> bool {
    a.z == b.z && a.y == b.y && a.x == b.x && a.mult == b.mult
}

/// `k` is the key of the tile's place, for some source.
pub open spec fn held_in_place(k: Seq<char>, t: TileView) -> bool {
    exists|slug: Seq<char>| k == place_key(slug, t.z as int, t.y as int, t.x as int, t.mult as int)
}

/// Each tile is held under the key of its place.
pub open spec fn places_match(tiles: Map<Seq<char>, TileView>) -> bool {
    forall|k: Seq<char>| #[trigger] tiles.dom().contains(k) ==> held_in_place(k, tiles[k])
}

/// The end of the key of a tile's place, after the source's slug:
/// `/z/y/x@mult`.
pub open spec fn place_suffix(t: TileView) -> Seq<char> {
    seq!['/'] + nat_text(t.z as nat) + seq!['/'] + int_text(t.y as int) + seq!['/'] + int_text(t.x as int)
        + seq!['@'] + nat_text(t.mult as nat)
}

/// `k` is held in place for `t` exactly when it ends with the suffix of the
/// tile's place.
proof fn lemma_held_is_suffix(k: Seq<char>, t: TileView)
    ensures
        held_in_place(k, t) == (k.len() >= place_suffix(t).len() && k.subrange(
            k.len() - place_suffix(t).len(),
            k.len() as int,
        ) == place_suffix(t)),
{
    let suf = place_suffix(t);
    assert forall|slug: Seq<char>| #[trigger] place_key(slug, t.z as int, t.y as int, t.x as int, t.mult as int)
        == slug + suf by {
        assert(place_key(slug, t.z as int, t.y as int, t.x as int, t.mult as int) =~= slug + suf);
    }
    if held_in_place(k, t) {
        let slug = choose|slug: Seq<char>| k == place_key(slug, t.z as int, t.y as int, t.x as int, t.mult as int);
        assert(k == slug + suf);
        assert(k.subrange(k.len() - suf.len(), k.len() as int) =~= suf);
    }
    if k.len() >= suf.len() && k.subrange(k.len() - suf.len(), k.len() as int) == suf {
        let slug = k.subrange(0, k.len() - suf.len());
        assert(k =~= slug + suf);
        assert(k == place_key(slug, t.z as int, t.y as int, t.x as int, t.mult as int));
    }
}

/// Whether `key` is held in place for `t`.
fn key_in_place(key: &String, t: &Tile) -> (r: bool)
    ensures
        r == held_in_place(key@, t@),
{
    let mut suf: Vec<char> = vec!['/'];
    push_nat(&mut suf, t.z() as u64);
    suf.push('/');
    push_int(&mut suf, t.y() as i64);
    suf.push('/');
    push_int(&mut suf, t.x() as i64);
    suf.push('@');
    push_nat(&mut suf, t.mult() as u64);
    assert(suf@ =~= place_suffix(t@));
    proof {
        lemma_held_is_suffix(key@, t@);
    }
    let k = chars_of(key.as_str());
    if k.len() < suf.len() {
        return false;
    }
    let off = k.len() - suf.len();
    let mut i: usize = 0;
    while i < suf.len()
        invariant
            k@ == key@,
            suf@ == place_suffix(t@),
            off == k@.len() - suf@.len(),
            i <= suf@.len(),
            forall|j: int| 0 <= j < i ==> k@[off + j] == suf@[j],
        decreases suf@.len() - i,
    {
        assert(off + i < k@.len());
        assert(k@.len() == k.len());
        if k[off + i] != suf[i] {
            assert(k@.subrange(off as int, k@.len() as int)[i as int] != suf@[i as int]);
            return false;
        }
        i = i + 1;
    }
    assert(k@.subrange(off as int, k@.len() as int) =~= suf@);
    true
}

/// A tile at the place of a request is held in place under its key.
pub proof fn lemma_placed(r: TileRequestView, t: TileView)
    requires
        at_place(t, r),
    ensures
        held_in_place(r.key_text(), t),
{
    r.lemma_key_is_place_key();
    assert(r.key_text() == place_key(r.source.slug, t.z as int, t.y as int, t.x as int, t.mult as int));
}

/// A tile held in place under the key of a request is at its place.
pub proof fn lemma_held_placed(r: TileRequestView, t: TileView)
    requires
        held_in_place(r.key_text(), t),
    ensures
        at_place(t, r),
{
    let slug = choose|slug: Seq<char>| r.key_text() == place_key(slug, t.z as int, t.y as int, t.x as int, t.mult as int);
    r.lemma_key_is_place_key();
    lemma_place_key_unique(
        slug,
        t.z as int,
        t.y as int,
        t.x as int,
        t.mult as int,
        r.source.slug,
        r.z as int,
        r.y as int,
        r.wrapped(),
        r.mult as int,
    );
}

/// Holding a tile in place under `k` stays so for any tile at its place.
pub proof fn lemma_same_place_held(k: Seq<char>, a: TileView, b: TileView)
    requires
        held_in_place(k, a),
        same_place(a, b),
    ensures
        held_in_place(k, b),
{
    let slug = choose|slug: Seq<char>| k == place_key(slug, a.z as int, a.y as int, a.x as int, a.mult as int);
    assert(k == place_key(slug, b.z as int, b.y as int, b.x as int, b.mult as int));
}

/// Inserting a tile held in place keeps every tile in place.
proof fn lemma_insert_held(tiles: Map<Seq<char>, TileView>, k: Seq<char>, t: TileView)
    requires
        places_match(tiles),
        held_in_place(k, t),
    ensures
        places_match(tiles.insert(k, t)),
{
    assert forall|j: Seq<char>| #[trigger] tiles.insert(k, t).dom().contains(j) implies held_in_place(
        j,
        tiles.insert(k, t)[j],
    ) by {
        if j != k {
            assert(tiles.dom().contains(j));
        }
    }
}

/// Replacing a held tile by one at its place keeps every tile in place.
proof fn lemma_replace_in_place(tiles: Map<Seq<char>, TileView>, k: Seq<char>, t: TileView)
    requires
        places_match(tiles),
        tiles.dom().contains(k),
        same_place(tiles[k], t),
    ensures
        places_match(tiles.insert(k, t)),
{
    lemma_same_place_held(k, tiles[k], t);
    lemma_insert_held(tiles, k, t);
}

/// Replacing the tile held for `k` by any tile at the place of `x`, which is
/// held in place under `k`, keeps every tile in place.
proof fn lemma_any_in_place(tiles: Map<Seq<char>, TileView>, k: Seq<char>, x: TileView)
    requires
        places_match(tiles),
        held_in_place(k, x),
    ensures
        forall|f: TileView| same_place(x, f) ==> #[trigger] places_match(tiles.insert(k, f)),
{
    assert forall|f: TileView| same_place(x, f) implies #[trigger] places_match(tiles.insert(k, f)) by {
        lemma_same_place_held(k, x, f);
        lemma_insert_held(tiles, k, f);
    }
}

/// Replacing a held tile by any tile at its place keeps every tile in place.
proof fn lemma_held_any(tiles: Map<Seq<char>, TileView>, k: Seq<char>)
    requires
        places_match(tiles),
        tiles.dom().contains(k),
    ensures
        forall|f: TileView| same_place(tiles[k], f) ==> #[trigger] places_match(tiles.insert(k, f)),
{
    lemma_any_in_place(tiles, k, tiles[k]);
}

/// The wrapped column of a request below zoom level 31 fits in 32 bits.
proof fn lemma_wrapped_fits(t: TileRequestView)
    requires
        t.z < 31,
    ensures
        0 <= t.wrapped() <= 0x4000_0000,
{
    let z = t.z as nat;
    lemma_pow2_pos(z);
    vstd::arithmetic::div_mod::lemma_mod_bound(t.x as int, side(z));
    assert(side(z) <= 0x4000_0000) by {
        vstd::arithmetic::power2::lemma2_to64();
        if z < 30 {
            vstd::arithmetic::power2::lemma_pow2_strictly_increases(z, 30);
        }
    }
}

/// A request made in advance puts its stand-in in place.
proof fn lemma_precaution_places(
    w: TileWork,
    base: TileRequestView,
    dz: i8,
    dx: i8,
    dy: i8,
    dpri: i8,
    now: int,
    dir: Seq<char>,
)
    requires
        places_match(w.tiles),
    ensures
        places_match(precaution(w, base, dz, dx, dy, dpri, now, dir).tiles),
{
    if base.z + dz >= 0 {
        let r = precaution_request(base, dz, dx, dy, dpri);
        let n = side(r.z as nat);
        if !(r.x < 0 || r.x >= n || r.y < 0 || r.y >= n) {
            lemma_pow2_pos(r.z as nat);
            vstd::arithmetic::div_mod::lemma_small_mod(r.x as nat, n as nat);
            let t = colored_tile(r, 0, 0, 0, now, dir);
            assert(at_place(t, r));
            lemma_placed(r, t);
            lemma_insert_held(w.tiles, r.key_text(), t);
        }
    }
}

/// The requests made in advance put their stand-ins in place.
proof fn lemma_precautions_places(w: TileWork, t: TileRequestView, now: int, dir: Seq<char>)
    requires
        places_match(w.tiles),
    ensures
        places_match(precautions(w, t, now, dir).tiles),
{
    reveal(precautions);
    let w1 = precaution(w, t, -3i8, 0i8, 0i8, 1i8, now, dir);
    let w2 = precaution(w1, t, -3i8, 1i8, 0i8, 1i8, now, dir);
    let w3 = precaution(w2, t, -3i8, -1i8, 0i8, 1i8, now, dir);
    let w4 = precaution(w3, t, -3i8, 0i8, -1i8, 1i8, now, dir);
    let w5 = precaution(w4, t, -3i8, 0i8, 1i8, 1i8, now, dir);
    let w6 = precaution(w5, t, -6i8, 0i8, 0i8, 0i8, now, dir);
    let w7 = precaution(w6, t, -9i8, 0i8, 0i8, 0i8, now, dir);
    lemma_precaution_places(w, t, -3i8, 0i8, 0i8, 1i8, now, dir);
    lemma_precaution_places(w1, t, -3i8, 1i8, 0i8, 1i8, now, dir);
    lemma_precaution_places(w2, t, -3i8, -1i8, 0i8, 1i8, now, dir);
    lemma_precaution_places(w3, t, -3i8, 0i8, -1i8, 1i8, now, dir);
    lemma_precaution_places(w4, t, -3i8, 0i8, 1i8, 1i8, now, dir);
    lemma_precaution_places(w5, t, -6i8, 0i8, 0i8, 0i8, now, dir);
    lemma_precaution_places(w6, t, -9i8, 0i8, 0i8, 0i8, now, dir);
    lemma_precaution_places(w7, t, -12i8, 0i8, 0i8, 0i8, now, dir);
}

/// A stand-in is made at the place of its request, and the requests made
/// meanwhile keep every tile in place.
proof fn lemma_approximation_places(w: TileWork, t: TileRequestView, now: int, dir: Seq<char>)
    requires
        places_match(w.tiles),
        t.z < 31,
    ensures
        places_match(approximation(w, t, now, dir).0.tiles),
        at_place(approximation(w, t, now, dir).1, t),
{
    reveal(approximation);
    lemma_wrapped_fits(t);
    if t.z != 0 {
        lemma_precautions_places(w, t, now, dir);
    }
}

/// Looking a tile up keeps every tile in place, and a tile it returns is at
/// the place of the request, as is any tile put under the request's key at
/// the place of the returned one.
pub proof fn lemma_lookup_places(w: TileWork, t: TileRequestView, now: int, dir: Seq<char>)
    requires
        places_match(w.tiles),
    ensures
        ({
            let (w2, counted, res) = lookup(w, t, now, dir);
            &&& places_match(w2.tiles)
            &&& res matches Some(x) ==> {
                &&& at_place(x, t)
                &&& forall|f: TileView| same_place(x, f) ==> #[trigger] places_match(w2.tiles.insert(t.key_text(), f))
            }
        }),
{
    let k = t.key_text();
    let (w2, counted, res) = lookup(w, t, now, dir);
    if !in_world(t) {
    } else if w.tiles.dom().contains(k) && returned_as_is(w.tiles[k].state) {
        lemma_held_placed(t, w.tiles[k]);
        lemma_any_in_place(w.tiles, k, w.tiles[k]);
    } else if w.tiles.dom().contains(k) && w.tiles[k].state == TileState::Ready {
        let tile = w.tiles[k];
        lemma_held_placed(t, tile);
        if tile.expire_time < now {
            let upd = TileView { state: TileState::Pending, ..tile };
            lemma_replace_in_place(w.tiles, k, upd);
            lemma_same_place_held(k, tile, upd);
            lemma_any_in_place(w2.tiles, k, upd);
        } else {
            lemma_any_in_place(w.tiles, k, tile);
        }
    } else {
        let w1 = TileWork { queue: pushed(w.queue, t), ..w };
        lemma_approximation_places(w1, t, now, dir);
        let (w3, tile) = approximation(w1, t, now, dir);
        lemma_placed(t, tile);
        lemma_insert_held(w3.tiles, k, tile);
        lemma_any_in_place(w2.tiles, k, tile);
    }
}

/// Handling a fetch result keeps every tile in place.
pub proof fn lemma_handled_places(c: TileCacheView, res: TileRequestResultView, retries: u8)
    requires
        places_match(c.tiles),
    ensures
        places_match(handled(c, res, retries).0.tiles),
{
    let k = res.request.key_text();
    if c.tiles.dom().contains(k) {
        let tile = c.tiles[k];
        let t2 = handled(c, res, retries).0.tiles;
        if t2 != c.tiles {
            assert(t2 == c.tiles.insert(k, t2[k]));
            assert(same_place(tile, t2[k]));
            lemma_replace_in_place(c.tiles, k, t2[k]);
        }
    }
}

/// Making tiles void keeps every tile in place.
pub proof fn lemma_voided_places(tiles: Map<Seq<char>, TileView>, keys: Seq<Seq<char>>)
    requires
        places_match(tiles),
    ensures
        places_match(voided(tiles, keys)),
{
    assert forall|k: Seq<char>| #[trigger] voided(tiles, keys).dom().contains(k) implies held_in_place(
        k,
        voided(tiles, keys)[k],
    ) by {
        lemma_same_place_held(k, tiles[k], voided(tiles, keys)[k]);
    }
}

/// Flushing tiles from memory keeps every tile in place.
pub proof fn lemma_mem_flushed_places(tiles: Map<Seq<char>, TileView>, order: Seq<Seq<char>>, mem: int, capacity: int)
    requires
        places_match(tiles),
    ensures
        places_match(mem_flushed(tiles, order, mem, capacity)),
    decreases order.len(),
{
    if !(order.len() == 0 || mem <= capacity) {
        let k = order[0];
        if tiles.dom().contains(k) && mem_flushable(tiles[k]) {
            lemma_replace_in_place(tiles, k, tiles[k].flushed());
            lemma_mem_flushed_places(
                tiles.insert(k, tiles[k].flushed()),
                order.drop_first(),
                mem + vstd::layout::size_of::<Tile>() - mem_estimate(tiles[k]),
                capacity,
            );
        } else {
            lemma_mem_flushed_places(tiles, order.drop_first(), mem, capacity);
        }
    }
}

impl TileCache {
    /// The tile table and queue are well formed, and each tile is held under
    /// the key of its place.
    pub closed spec fn wf(&self) -> bool {
        &&& self.tiles.wf()
        &&& self.tile_request_queue.wf()
        &&& places_match(self.tiles@)
    }

    /// An empty cache whose tile files live under `cache_directory`.
    pub fn new(cache_directory: String) -> (c: TileCache)
        ensures
            c.wf(),
            c@.tiles == Map::<Seq<char>, TileView>::empty(),
            c@.queue == Seq::<TileRequestView>::empty(),
            c@.disk_usage == 0,
            c@.inserts_since_flush_check == 0,
            c@.cache_directory == cache_directory@,
    {
        TileCache {
            tiles: TileTable::new(),
            tile_request_queue: TileRequestQueue::new(),
            disk_usage: 0,
            inserts_since_flush_check: 0,
            cache_directory,
        }
    }

    /// Requests in advance the tile `-delta_z` levels out from `base_treq`,
    /// moved by `(delta_x, delta_y)`, unless it is out of range or its tile is
    /// pending or ready; a black stand-in tile is held for it meanwhile.
    fn queue_precautionary_request(
        &mut self,
        base_treq: &TileRequest,
        delta_z: i8,
        delta_x: i8,
        delta_y: i8,
        delta_pri: i8,
        now: i64,
    )
        requires
            old(self).wf(),
            base_treq@.valid(),
            in_world(base_treq@),
            -12 <= delta_z <= -3,
            -1 <= delta_x <= 1,
            -1 <= delta_y <= 1,
            0 <= delta_pri <= 1,
            (base_treq@.generation as i64) < i64::MAX,
            -0x800_0000_0000 < now <= i64::MAX - default_expiry(),
        ensures
            final(self).wf(),
            final(self)@.work() == precaution(
                old(self)@.work(),
                base_treq@,
                delta_z,
                delta_x,
                delta_y,
                delta_pri,
                now as int,
                old(self)@.cache_directory,
            ),
            final(self)@.disk_usage == old(self)@.disk_usage,
            final(self)@.inserts_since_flush_check == old(self)@.inserts_since_flush_check,
            final(self)@.cache_directory == old(self)@.cache_directory,
    {
        proof {
            lemma_precaution_places(
                old(self)@.work(),
                base_treq@,
                delta_z,
                delta_x,
                delta_y,
                delta_pri,
                now as int,
                old(self)@.cache_directory,
            );
        }
        if (base_treq.z as i8) + delta_z < 0 {
            return;
        }
        let mut treq = base_treq.duplicate();
        let n: i8 = -delta_z;
        let mut i: i8 = 0;
        proof {
            lemma_zoomed_out_in_world(base_treq@, (-delta_z) as nat);
        }
        while i < n
            invariant
                0 <= i <= n,
                n == -delta_z,
                base_treq@.z >= n,
                base_treq@.valid(),
                in_world(base_treq@),
                treq@ == zoomed_out_by(base_treq@, i as nat),
                treq@.valid(),
            decreases n - i,
        {
            proof {
                lemma_zoomed_out_in_world(base_treq@, i as nat);
            }
            if treq.z > 0 {
                treq = treq.zoom_out();
            }
            i = i + 1;
        }
        treq.precautionary = true;
        let g: i64 = (treq.generation as i64) + (delta_pri as i64);
        treq.generation = if g < 0 {
            0
        } else {
            g as u64
        };
        let n_side = crate::tiles::request::tile_side(treq.z);
        treq.x = treq.x + delta_x as i32;
        if treq.x < 0 || treq.x >= n_side {
            return;
        }
        treq.y = treq.y + delta_y as i32;
        if treq.y < 0 || treq.y >= n_side {
            return;
        }
        assert(treq@ == precaution_request(base_treq@, delta_z, delta_x, delta_y, delta_pri));
        let key = treq.to_key();
        let enqueue = match self.tiles.get(&key) {
            Some(tile) => {
                let st = tile.state();
                !(st == TileState::Pending || st == TileState::Ready)
            },
            None => true,
        };
        if enqueue {
            self.tile_request_queue.push_request(&treq);
            let tile = Tile::new_with_color_at(&treq, 0, 0, 0, now, self.cache_directory.as_str());
            self.tiles.insert(key, tile);
        }
    }

    /// Requests in advance the neighbourhood three levels out from `treq` and
    /// single tiles six, nine and twelve levels out.
    fn queue_precautions(&mut self, treq: &TileRequest, now: i64)
        requires
            old(self).wf(),
            treq@.valid(),
            in_world(treq@),
            (treq@.generation as i64) < i64::MAX,
            -0x800_0000_0000 < now <= i64::MAX - default_expiry(),
        ensures
            final(self).wf(),
            final(self)@.work() == precautions(old(self)@.work(), treq@, now as int, old(self)@.cache_directory),
            final(self)@.disk_usage == old(self)@.disk_usage,
            final(self)@.inserts_since_flush_check == old(self)@.inserts_since_flush_check,
            final(self)@.cache_directory == old(self)@.cache_directory,
    {
        self.queue_precautionary_request(treq, -3, 0, 0, 1, now);
        self.queue_precautionary_request(treq, -3, 1, 0, 1, now);
        self.queue_precautionary_request(treq, -3, -1, 0, 1, now);
        self.queue_precautionary_request(treq, -3, 0, -1, 1, now);
        self.queue_precautionary_request(treq, -3, 0, 1, 1, now);
        self.queue_precautionary_request(treq, -6, 0, 0, 0, now);
        self.queue_precautionary_request(treq, -9, 0, 0, 0, now);
        self.queue_precautionary_request(treq, -12, 0, 0, 0, now);
        proof {
            reveal(precautions);
        }
    }

    /// The nearest zoomed-out request whose tile has a lasting surface.
    fn find_approximation_source(&self, treq: &TileRequest) -> (r: Option<TileRequest>)
        requires
            self.wf(),
            treq@.valid(),
            treq.z > 0,
        ensures
            match r {
                Some(u) => approx_source(self@.tiles, treq@, treq.z - 1) == Some(u@) && u@.valid() && u.z < treq.z,
                None => approx_source(self@.tiles, treq@, treq.z - 1) is None,
            },
    {
        let mut up = treq.zoom_out();
        assert(zoomed_out_by(treq@, 0) == treq@);
        assert(up@ == zoomed_out_by(treq@, 1));
        while up.z >= 1
            invariant
                self.wf(),
                treq@.valid(),
                up@.valid(),
                up.z < treq.z,
                up@ == zoomed_out_by(treq@, (treq.z - up.z) as nat),
                approx_source(self@.tiles, treq@, treq.z - 1) == approx_source(
                    self@.tiles,
                    treq@,
                    up.z as int,
                ),
            decreases up.z,
        {
            let key_up = up.to_key();
            match self.tiles.get(&key_up) {
                Some(tile_up) => {
                    if tile_up.has_lasting_surface() {
                        return Some(up);
                    }
                },
                None => {},
            }
            let next = up.zoom_out();
            assert(next@ == zoomed_out_by(treq@, (treq.z - next.z) as nat));
            up = next;
        }
        None
    }

    /// The stand-in tile for `treq` at `now`, with the requests made in advance
    /// for it.
    fn approximate(&mut self, treq: &TileRequest, now: i64) -> (tile: Tile)
        requires
            old(self).wf(),
            treq@.valid(),
            in_world(treq@),
            -0x800_0000_0000 < now <= i64::MAX - default_expiry(),
            treq.z > 0 ==> {
                &&& (treq@.generation as i64) < i64::MAX
                &&& match approx_source(old(self)@.tiles, treq@, treq.z - 1) {
                    Some(up) => zoom_in_ok(old(self)@.tiles[up.key_text()], treq@),
                    None => true,
                }
            },
        ensures
            final(self).wf(),
            (final(self)@.work(), tile@) == approximation(old(self)@.work(), treq@, now as int, old(self)@.cache_directory),
            final(self)@.disk_usage == old(self)@.disk_usage,
            final(self)@.inserts_since_flush_check == old(self)@.inserts_since_flush_check,
            final(self)@.cache_directory == old(self)@.cache_directory,
    {
        proof {
            reveal(approximation);
        }
        let tile: Tile;
        if treq.z > 0 {
            match self.find_approximation_source(treq) {
                Some(up) => {
                    proof {
                        lemma_approx_source_found(self@.tiles, treq@, treq.z - 1);
                    }
                    let key_up = up.to_key();
                    let src = self.tiles.get(&key_up).unwrap();
                    tile = src.zoom_in(treq, now);
                    if treq.z - up.z > 3 {
                        self.queue_precautions(treq, now);
                    }
                },
                None => {
                    tile = Tile::new_with_color_at(treq, 2, 2, 2, now, self.cache_directory.as_str());
                    self.queue_precautions(treq, now);
                },
            }
        } else {
            tile = Tile::new_with_color_at(treq, 2, 0, 0, now, self.cache_directory.as_str());
        }
        tile
    }

    /// The tile for `treq` at time `now`; the result may be an approximation.
    /// A tile out of the world gives `None`. A pending, failed, missing or
    /// unauthorized tile is returned as held; a ready one too, after queueing
    /// a refresh when it has expired. Otherwise the tile is requested and a
    /// stand-in is held and returned: scaled up from a nearby zoomed-out tile
    /// if one is held, else plain, with tiles further out requested in advance.
    pub fn get_tile_at(&mut self, treq: &TileRequest, now: i64) -> (r: Option<&mut Tile>)
        requires
            old(self).wf(),
            treq@.valid(),
            -0x800_0000_0000 < now <= i64::MAX - default_expiry(),
            old(self)@.inserts_since_flush_check < u32::MAX,
            approximates(old(self)@.tiles, treq@) && treq.z > 0 ==> {
                &&& (treq@.generation as i64) < i64::MAX
                &&& match approx_source(old(self)@.tiles, treq@, treq.z - 1) {
                    Some(up) => zoom_in_ok(old(self)@.tiles[up.key_text()], treq@),
                    None => true,
                }
            },
        ensures
            match r {
                Some(t) => same_place((*t)@, (*final(t))@) ==> final(self).wf(),
                None => final(self).wf(),
            },
            final(self)@.disk_usage == old(self)@.disk_usage,
            final(self)@.cache_directory == old(self)@.cache_directory,
            ({
                let (w, counted, res) = lookup(old(self)@.work(), treq@, now as int, old(self)@.cache_directory);
                &&& final(self)@.inserts_since_flush_check == if counted {
                    old(self)@.inserts_since_flush_check + 1
                } else {
                    old(self)@.inserts_since_flush_check as int
                }
                &&& match r {
                    None => res is None && final(self)@.work() == w,
                    Some(t) => res == Some((*t)@) && final(self)@.work() == (TileWork {
                        tiles: w.tiles.insert(treq@.key_text(), (*final(t))@),
                        queue: w.queue,
                    }),
                }
            }),
            r matches Some(t) ==> at_place((*t)@, treq@),
    {
        proof {
            lemma_lookup_places(old(self)@.work(), treq@, now as int, old(self)@.cache_directory);
        }
        if treq.y < 0 || treq.z >= 31 {
            return None;
        }
        if treq.y >= crate::tiles::request::tile_side(treq.z) {
            return None;
        }
        let tile_key = treq.to_key();
        let ghost k = tile_key@;
        let ghost w0 = old(self)@.work();
        if self.tiles.contains_key(&tile_key) {
            let st = self.tiles.get(&tile_key).unwrap().state();
            match st {
                TileState::Void => {
                    self.tile_request_queue.push_request(treq);
                },
                TileState::Ready => {
                    let expired = self.tiles.get(&tile_key).unwrap().is_expired_at(now);
                    if expired {
                        let mut treq2 = treq.duplicate();
                        treq2.tile_fetch_mode = TileFetchMode::Cache;
                        treq2.tile_state_on_success = TileState::Pending;
                        assert(treq2@ == cache_request(treq@));
                        self.tile_request_queue.push_request(&treq2);
                        let mut treq3 = treq.duplicate();
                        treq3.tile_fetch_mode = TileFetchMode::Remote;
                        assert(treq3@ == remote_request(treq@));
                        self.tile_request_queue.push_request(&treq3);
                        proof {
                            let tv = w0.tiles[k];
                            let upd = TileView { state: TileState::Pending, ..tv };
                            assert forall|f: TileView| #[trigger] w0.tiles.insert(k, f) == w0.tiles.insert(k, upd).insert(k, f) by {
                                assert(w0.tiles.insert(k, f) =~= w0.tiles.insert(k, upd).insert(k, f));
                            }
                        }
                        let tile = self.tiles.get_mut(&tile_key).unwrap();
                        tile.set_state(TileState::Pending);
                        return Some(tile);
                    }
                    return self.tiles.get_mut(&tile_key);
                },
                TileState::Flushed => {
                    let fresh = Tile::new_with_request_at(treq, now);
                    if fresh.is_expired_at(now) {
                        let mut treq2 = treq.duplicate();
                        treq2.tile_fetch_mode = TileFetchMode::Cache;
                        treq2.tile_state_on_success = TileState::Pending;
                        self.tile_request_queue.push_request(&treq2);
                        let mut treq3 = treq.duplicate();
                        treq3.tile_fetch_mode = TileFetchMode::Remote;
                        self.tile_request_queue.push_request(&treq3);
                    } else {
                        self.tile_request_queue.push_request(treq);
                    }
                },
                _ => {
                    return self.tiles.get_mut(&tile_key);
                },
            }
        } else {
            self.tile_request_queue.push_request(treq);
        }
        let ghost w1 = self@.work();
        assert(w1 == TileWork { queue: pushed(w0.queue, treq@), ..w0 });
        let tile = self.approximate(treq, now);
        self.tiles.insert(tile_key.clone(), tile);
        self.inserts_since_flush_check = self.inserts_since_flush_check + 1;
        self.tiles.get_mut(&tile_key)
    }

    /// The tile for `treq` now; see `get_tile_at`.
    pub fn get_tile(&mut self, treq: &TileRequest) -> (r: Option<&mut Tile>)
        requires
            old(self).wf(),
            treq@.valid(),
            old(self)@.inserts_since_flush_check < u32::MAX,
            approximates(old(self)@.tiles, treq@) && treq.z > 0 ==> {
                &&& (treq@.generation as i64) < i64::MAX
                &&& match approx_source(old(self)@.tiles, treq@, treq.z - 1) {
                    Some(up) => zoom_in_ok(old(self)@.tiles[up.key_text()], treq@),
                    None => true,
                }
            },
        ensures
            match r {
                Some(t) => same_place((*t)@, (*final(t))@) ==> final(self).wf(),
                None => final(self).wf(),
            },
            final(self)@.disk_usage == old(self)@.disk_usage,
            final(self)@.cache_directory == old(self)@.cache_directory,
            exists|now: int|
                -0x800_0000_0000 < now < 0x800_0000_0000 && {
                    let (w, counted, res) = #[trigger] lookup(old(self)@.work(), treq@, now, old(self)@.cache_directory);
                    &&& final(self)@.inserts_since_flush_check == if counted {
                        old(self)@.inserts_since_flush_check + 1
                    } else {
                        old(self)@.inserts_since_flush_check as int
                    }
                    &&& match r {
                        None => res is None && final(self)@.work() == w,
                        Some(t) => res == Some((*t)@) && final(self)@.work() == (TileWork {
                            tiles: w.tiles.insert(treq@.key_text(), (*final(t))@),
                            queue: w.queue,
                        }),
                    }
                },
            r matches Some(t) ==> at_place((*t)@, treq@),
    {
        let now = current_timestamp();
        self.get_tile_at(treq, now)
    }


    /// Handles the outcome of a tile fetch: a fetched tile takes on the data;
    /// a transmission error is retried (`http_retry_count` times after the
    /// first) until no retries are left, when the tile fails; other errors
    /// mark and paint the tile. Returns true if the observer is to be notified.
    pub fn handle_result(&mut self, treq_result: &TileRequestResult, http_retry_count: u8) -> (notify: bool)
        requires
            old(self).wf(),
            treq_result@.request.valid(),
            img_len(treq_result@) <= i64::MAX,
            old(self)@.tiles.dom().contains(treq_result@.request.key_text()) && treq_result@.code
                == TileRequestResultCode::Success ==> {
                let d = old(self)@.disk_usage + img_len(treq_result@);
                &&& i64::MIN <= d <= i64::MAX
                &&& i64::MIN <= d - old(self)@.tiles[treq_result@.request.key_text()].disk_usage <= i64::MAX
            },
        ensures
            final(self).wf(),
            ({
                let (w, disk, n) = handled(old(self)@, treq_result@, http_retry_count);
                &&& final(self)@.work() == w
                &&& final(self)@.disk_usage == disk
                &&& notify == n
            }),
            final(self)@.inserts_since_flush_check == old(self)@.inserts_since_flush_check,
            final(self)@.cache_directory == old(self)@.cache_directory,
    {
        proof {
            if places_match(old(self)@.tiles) {
                lemma_handled_places(old(self)@, treq_result@, http_retry_count);
            }
        }
        let key = treq_result.to_key();
        let ghost k = key@;
        let ghost t0 = old(self)@.tiles;
        match self.tiles.get_mut(&key) {
            Some(tile) => {
                match treq_result.code {
                    TileRequestResultCode::Success => {
                        let treq = &treq_result.request;
                        let old_tile_disk_usage = tile.disk_usage();
                        let img_len: i64 = match treq_result.img_data() {
                            Some(d) => d.len() as i64,
                            None => 0,
                        };
                        let (_dir, path) = treq.to_cache_path(self.cache_directory.as_str());
                        tile.assign_fetched(
                            treq.tile_state_on_success,
                            crate::tiles::tile::clone_bytes(treq_result.data()),
                            treq_result.tile_width,
                            treq_result.tile_height,
                            treq_result.expire_time,
                            path,
                            img_len,
                        );
                        self.disk_usage = self.disk_usage + img_len - old_tile_disk_usage;
                    },
                    TileRequestResultCode::TransmissionError => {
                        let mut treq = treq_result.request.duplicate();
                        treq.generation = 0;
                        treq.priority = 0;
                        match treq.retry_count {
                            Some(retry) => {
                                if retry > 0 {
                                    treq.retry_count = Some(retry - 1);
                                    treq.priority = (retry - 1) as i64;
                                    assert(treq@ == retry_request(treq_result@.request, (retry - 1) as u8));
                                    self.tile_request_queue.push_request(&treq);
                                    assert(t0.insert(k, t0[k]) =~= t0);
                                } else {
                                    tile.set_state(TileState::Error);
                                }
                                return false;
                            },
                            None => {
                                treq.retry_count = Some(http_retry_count);
                                treq.priority = http_retry_count as i64;
                                assert(treq@ == retry_request(treq_result@.request, http_retry_count));
                                self.tile_request_queue.push_request(&treq);
                                assert(t0.insert(k, t0[k]) =~= t0);
                                return false;
                            },
                        }
                    },
                    TileRequestResultCode::NotFoundError => {
                        tile.set_state(TileState::NonExistent);
                        tile.paint_with_color(4, 4, 4);
                        return false;
                    },
                    TileRequestResultCode::NoSourceError => {
                        tile.set_state(TileState::NonExistent);
                        tile.paint_with_color(5, 4, 4);
                        return false;
                    },
                    TileRequestResultCode::UnauthorizedError => {
                        tile.set_state(TileState::Unauthorized);
                        tile.paint_with_color(10, 9, 8);
                        return false;
                    },
                    TileRequestResultCode::UnknownError => {
                        tile.set_state(TileState::Error);
                        tile.paint_with_color(7, 0, 8);
                        return false;
                    },
                }
            },
            None => {},
        }
        true
    }


    /// Whether `receive_result` and `handle_result` can take the outcome: its
    /// request can be wrapped, and for a fetched tile that is held the disk
    /// usage stays within `i64` and a tile requested in advance has a width
    /// that can be painted.
    pub fn can_receive(&self, treq_result: &TileRequestResult) -> (r: bool)
        requires
            self.wf(),
        ensures
            r == {
                &&& treq_result@.request.valid()
                &&& img_len(treq_result@) <= i64::MAX
                &&& self@.tiles.dom().contains(treq_result@.request.key_text()) && treq_result@.code
                    == TileRequestResultCode::Success ==> {
                    let d = self@.disk_usage + img_len(treq_result@);
                    &&& i64::MIN <= d <= i64::MAX
                    &&& i64::MIN <= d - self@.tiles[treq_result@.request.key_text()].disk_usage <= i64::MAX
                    &&& treq_result@.request.precautionary ==> 1 <= treq_result@.tile_width <= 67108863
                }
            },
    {
        if !treq_result.request.is_valid() {
            return false;
        }
        let len: usize = match treq_result.img_data() {
            Some(d) => d.len(),
            None => 0,
        };
        if len as u64 > i64::MAX as u64 {
            return false;
        }
        let img: i64 = len as i64;
        if treq_result.code != TileRequestResultCode::Success {
            return true;
        }
        let key = treq_result.to_key();
        match self.tiles.get(&key) {
            None => true,
            Some(tile) => {
                let old = tile.disk_usage();
                let d: i128 = self.disk_usage as i128 + img as i128;
                if d < i64::MIN as i128 || d > i64::MAX as i128 {
                    return false;
                }
                let e: i128 = d - old as i128;
                if e < i64::MIN as i128 || e > i64::MAX as i128 {
                    return false;
                }
                !treq_result.request.precautionary || (1 <= treq_result.tile_width && treq_result.tile_width <= 67108863)
            },
        }
    }

    /// Takes in the outcome of a tile fetch as `handle_result` does; a tile
    /// requested in advance is then converted for painting at once. Returns
    /// true if the observer is to be notified.
    pub fn receive_result(&mut self, treq_result: &TileRequestResult, http_retry_count: u8) -> (notify: bool)
        requires
            old(self).wf(),
            treq_result@.request.valid(),
            img_len(treq_result@) <= i64::MAX,
            old(self)@.tiles.dom().contains(treq_result@.request.key_text()) && treq_result@.code
                == TileRequestResultCode::Success ==> {
                let d = old(self)@.disk_usage + img_len(treq_result@);
                &&& i64::MIN <= d <= i64::MAX
                &&& i64::MIN <= d - old(self)@.tiles[treq_result@.request.key_text()].disk_usage <= i64::MAX
                &&& treq_result@.request.precautionary ==> 1 <= treq_result@.tile_width <= 67108863
            },
        ensures
            final(self).wf(),
            ({
                let (w, disk, n) = handled(old(self)@, treq_result@, http_retry_count);
                let k = treq_result@.request.key_text();
                &&& final(self)@.queue.to_set() == w.queue
                &&& final(self)@.tiles == if n && treq_result@.request.precautionary && w.tiles.dom().contains(k) {
                    w.tiles.insert(k, w.tiles[k].surfaced())
                } else {
                    w.tiles
                }
                &&& final(self)@.disk_usage == disk
                &&& notify == n
            }),
            final(self)@.inserts_since_flush_check == old(self)@.inserts_since_flush_check,
            final(self)@.cache_directory == old(self)@.cache_directory,
    {
        proof {
            if places_match(old(self)@.tiles) {
                lemma_handled_places(old(self)@, treq_result@, http_retry_count);
            }
        }
        let notify = self.handle_result(treq_result, http_retry_count);
        if notify && treq_result.request.precautionary {
            let key = treq_result.to_key();
            match self.tiles.get_mut(&key) {
                Some(tile) => {
                    let _ = tile.get_surface();
                },
                None => {},
            }
        }
        proof {
            let (w, disk, n) = handled(old(self)@, treq_result@, http_retry_count);
            let k = treq_result@.request.key_text();
            if places_match(old(self)@.tiles) && n && treq_result@.request.precautionary && w.tiles.dom().contains(k) {
                lemma_replace_in_place(w.tiles, k, w.tiles[k].surfaced());
            }
        }
        notify
    }

    /// Drops every queued request not at zoom level `zoom_level` and makes the
    /// tiles held for them void.
    pub fn focus_on_zoom_level(&mut self, zoom_level: u8)
        requires
            old(self).wf(),
        ensures
            final(self).wf(),
            final(self)@.queue == at_level(old(self)@.queue, zoom_level),
            final(self)@.tiles == voided(old(self)@.tiles, keys_of(off_level(old(self)@.queue, zoom_level))),
            final(self)@.disk_usage == old(self)@.disk_usage,
            final(self)@.inserts_since_flush_check == old(self)@.inserts_since_flush_check,
            final(self)@.cache_directory == old(self)@.cache_directory,
    {
        proof {
            if places_match(old(self)@.tiles) {
                lemma_voided_places(old(self)@.tiles, keys_of(off_level(old(self)@.queue, zoom_level)));
            }
        }
        let mut tile_keys: Vec<String> = Vec::new();
        self.tile_request_queue.focus_on_zoom_level(zoom_level, &mut tile_keys);
        let ghost ks = texts_of(tile_keys@);
        assert(ks =~= keys_of(off_level(old(self)@.queue, zoom_level)));
        let ghost t0 = old(self)@.tiles;
        assert(voided(t0, ks.take(0)) =~= t0);
        let mut i: usize = 0;
        while i < tile_keys.len()
            invariant
                self.wf(),
                i <= tile_keys@.len(),
                ks == texts_of(tile_keys@),
                self@.tiles == voided(t0, ks.take(i as int)),
                places_match(t0),
                self@.queue == at_level(old(self)@.queue, zoom_level),
                self@.disk_usage == old(self)@.disk_usage,
                self@.inserts_since_flush_check == old(self)@.inserts_since_flush_check,
                self@.cache_directory == old(self)@.cache_directory,
            decreases tile_keys@.len() - i,
        {
            let ghost before = self@.tiles;
            let ghost k = tile_keys@[i as int]@;
            assert(ks[i as int] == k);
            assert(ks.take(i + 1) =~= ks.take(i as int).push(k));
            match self.tiles.get_mut(&tile_keys[i]) {
                Some(tile) => {
                    tile.set_state(TileState::Void);
                },
                None => {},
            }
            proof {
                lemma_voided_places(t0, ks.take(i + 1));
                assert(self@.tiles =~= voided(t0, ks.take(i + 1))) by {
                    assert forall|kk: Seq<char>| #[trigger] ks.take(i + 1).contains(kk) == (ks.take(i as int).contains(kk) || kk == k) by {
                        if ks.take(i + 1).contains(kk) {
                            let j = choose|j: int| 0 <= j < i + 1 && #[trigger] ks.take(i + 1)[j] == kk;
                            if j < i {
                                assert(ks.take(i as int)[j] == kk);
                            }
                        }
                        if ks.take(i as int).contains(kk) {
                            let j = choose|j: int| 0 <= j < i && #[trigger] ks.take(i as int)[j] == kk;
                            assert(ks.take(i + 1)[j] == kk);
                        }
                        if kk == k {
                            assert(ks.take(i + 1)[i as int] == kk);
                        }
                    }
                }
            }
            i = i + 1;
        }
        assert(ks.take(ks.len() as int) =~= ks);
    }

    /// Removes and returns the most urgent queued request.
    pub fn pull_request(&mut self) -> (r: Option<TileRequest>)
        requires
            old(self).wf(),
        ensures
            final(self).wf(),
            old(self)@.queue.len() == 0 ==> r is None && final(self)@ == old(self)@,
            old(self)@.queue.len() > 0 ==> r is Some && r->0@ == old(self)@.queue.last()
                && final(self)@ == (TileCacheView { queue: old(self)@.queue.drop_last(), ..old(self)@ }),
            final(self)@.tiles == old(self)@.tiles,
    {
        self.tile_request_queue.pull_request()
    }

    /// Number of queued requests.
    pub fn queue_len(&self) -> (n: usize)
        ensures
            n == self@.queue.len(),
    {
        self.tile_request_queue.len()
    }

    /// Number of tiles held.
    pub fn tile_count(&self) -> (n: usize)
        requires
            self.wf(),
        ensures
            n == self@.tiles.dom().len(),
    {
        self.tiles.len()
    }

    /// The tile held for `key`, to be changed in place.
    pub fn tile_mut(&mut self, key: &String) -> (r: Option<&mut Tile>)
        requires
            old(self).wf(),
        ensures
            match r {
                Some(t) => same_place((*t)@, (*final(t))@) ==> final(self).wf(),
                None => final(self).wf(),
            },
            match r {
                Some(t) => old(self)@.tiles.dom().contains(key@) && (*t)@ == old(self)@.tiles[key@]
                    && final(self)@ == (TileCacheView { tiles: old(self)@.tiles.insert(key@, (*final(t))@), ..old(self)@ }),
                None => !old(self)@.tiles.dom().contains(key@) && final(self)@ == old(self)@,
            },
    {
        proof {
            if old(self)@.tiles.dom().contains(key@) {
                lemma_held_any(old(self)@.tiles, key@);
            }
        }
        self.tiles.get_mut(key)
    }

    /// Checks the cache after enough inserts since the last check, or when
    /// `force` is set. Tiles are ordered by access time, earliest first; while
    /// the memory estimate exceeds `mem_capacity`, tiles above zoom level 3
    /// are flushed from memory in that order. When the disk usage exceeds
    /// `disk_capacity`, the ordered entries are returned: their files are to
    /// be removed in that order, each reported to `disk_file_removed`, until
    /// it says the usage fits. Otherwise nothing is returned.
    pub fn check_cache(
        &mut self,
        force: bool,
        mem_capacity: Option<isize>,
        disk_capacity: Option<i64>,
    ) -> (r: Vec<TileOrd>)
        requires
            old(self).wf(),
            forall|k: Seq<char>| #[trigger] old(self)@.tiles.dom().contains(k) ==> mem_estimable(old(self)@.tiles[k]),
        ensures
            final(self).wf(),
            final(self)@.queue == old(self)@.queue,
            final(self)@.disk_usage == old(self)@.disk_usage,
            final(self)@.cache_directory == old(self)@.cache_directory,
            old(self)@.inserts_since_flush_check < 100 && !force ==> final(self)@ == old(self)@ && r@.len() == 0,
            old(self)@.inserts_since_flush_check >= 100 || force ==> {
                &&& final(self)@.inserts_since_flush_check == 0
                &&& exists|order: Seq<Seq<char>>| {
                    &&& by_access(old(self)@.tiles, order)
                    &&& final(self)@.tiles == mem_checked(old(self)@.tiles, order, mem_capacity)
                    &&& disk_over(old(self)@.disk_usage, disk_capacity) ==> ord_keys(r@) == order
                }
                &&& forall|i: int| 0 <= i < r@.len() ==> #[trigger] r@[i].datetime == old(self)@.tiles[r@[i].key@].access_time
                &&& !disk_over(old(self)@.disk_usage, disk_capacity) ==> r@.len() == 0
            },
    {
        proof {
            if places_match(old(self)@.tiles) {
                assert forall|order: Seq<Seq<char>>| #[trigger] places_match(
                    mem_checked(old(self)@.tiles, order, mem_capacity),
                ) by {
                    match mem_capacity {
                        Some(c) => lemma_mem_flushed_places(
                            old(self)@.tiles,
                            order,
                            mem_sum(old(self)@.tiles, order),
                            c as int,
                        ),
                        None => {},
                    }
                }
            }
        }
        if self.inserts_since_flush_check < 100 && !force {
            return Vec::new();
        }
        self.inserts_since_flush_check = 0;
        vstd::layout::layout_for_type_is_valid::<Tile>();
        let perm = order_by_access(&self.tiles);
        let n = perm.len();
        let ghost tiles0 = self.tiles@;
        let mut tord: Vec<TileOrd> = Vec::new();
        let mut mem: i128 = 0;
        let mut j: usize = 0;
        while j < n
            invariant
                self.tiles.wf(),
                self.tile_request_queue.wf(),
                self@.queue == old(self)@.queue,
                self@.disk_usage == old(self)@.disk_usage,
                self@.cache_directory == old(self)@.cache_directory,
                self@.inserts_since_flush_check == 0,
                self.tiles@ == tiles0,
                n == perm@.len(),
                n == self.tiles.size(),
                j <= n,
                forall|a: int| 0 <= a < perm@.len() ==> perm@[a] < self.tiles.size(),
                forall|k: Seq<char>| #[trigger] tiles0.dom().contains(k) ==> mem_estimable(tiles0[k]),
                tord@.len() == j,
                forall|a: int| 0 <= a < j ==> (#[trigger] tord@[a]).key@ == self.tiles.key_seq(perm@[a] as int)
                    && tord@[a].datetime == self.tiles.tile_seq(perm@[a] as int).access_time,
                mem == mem_sum(tiles0, ord_keys(tord@)),
            decreases n - j,
        {
            proof {
                self.tiles.lemma_positions();
            }
            let p = perm[j];
            let tile = self.tiles.tile_at(p);
            let key = self.tiles.key_at(p);
            let ghost before = tord@;
            tord.push(TileOrd::new_with_access_time(key, tile));
            let u = tile.estimate_mem_usage();
            proof {
                assert(ord_keys(tord@).drop_last() =~= ord_keys(before));
                assert(ord_keys(tord@).last() == key@);
                assert forall|i: int| 0 <= i < ord_keys(tord@).len() implies mem_estimable(tiles0[#[trigger] ord_keys(tord@)[i]]) by {
                    assert(tiles0.dom().contains(self.tiles.key_seq(perm@[i] as int)));
                }
                lemma_mem_sum_bound(tiles0, ord_keys(tord@));
            }
            mem = mem + u as i128;
            j = j + 1;
        }
        let ghost order = ord_keys(tord@);
        proof {
            self.tiles.lemma_positions();
            assert forall|i: int| 0 <= i < order.len() implies tiles0.dom().contains(#[trigger] order[i])
                && tiles0[order[i]].access_time == self.tiles.tile_seq(perm@[i] as int).access_time by {
                assert(order[i] == tord@[i].key@);
                assert(perm@[i] < self.tiles.size());
                assert(self.tiles@.dom().contains(self.tiles.key_seq(perm@[i] as int)));
            }
            assert(order.no_duplicates()) by {
                assert forall|a: int, b: int| 0 <= a < order.len() && 0 <= b < order.len() && a != b implies order[a] != order[b] by {
                    assert(order[a] == tord@[a].key@);
                    assert(order[b] == tord@[b].key@);
                    assert(perm@[a] != perm@[b]);
                    if perm@[a] < perm@[b] {
                        assert(self.tiles.key_seq(perm@[a] as int) != self.tiles.key_seq(perm@[b] as int));
                    } else {
                        assert(self.tiles.key_seq(perm@[b] as int) != self.tiles.key_seq(perm@[a] as int));
                    }
                }
            }
            assert forall|k: Seq<char>| #[trigger] tiles0.dom().contains(k) implies order.contains(k) by {
                let p = choose|p: int| 0 <= p < self.tiles.size() && #[trigger] self.tiles.key_seq(p) == k;
                assert(perm@.contains(p as usize));
                let a = choose|a: int| 0 <= a < perm@.len() && perm@[a] == p as usize;
                assert(order[a] == tord@[a].key@);
            }
            assert forall|a: int, b: int| 0 <= a < b < order.len() implies tiles0[#[trigger] order[a]].access_time
                <= tiles0[#[trigger] order[b]].access_time by {
                assert(order[a] == tord@[a].key@);
                assert(order[b] == tord@[b].key@);
            }
            assert(by_access(tiles0, order));
            assert forall|i: int| 0 <= i < tord@.len() implies #[trigger] tord@[i].datetime == tiles0[tord@[i].key@].access_time by {
                assert(order[i] == tord@[i].key@);
            }
        }
        match mem_capacity {
            Some(cap) => {
                if mem > cap as i128 {
                    assert(order.skip(0) =~= order);
                    let mut j: usize = 0;
                    while j < n
                        invariant
                            self.tiles.wf(),
                            self.tile_request_queue.wf(),
                            self@.queue == old(self)@.queue,
                            self@.disk_usage == old(self)@.disk_usage,
                            self@.cache_directory == old(self)@.cache_directory,
                            self@.inserts_since_flush_check == 0,
                            n == tord@.len(),
                            order == ord_keys(tord@),
                            by_access(tiles0, order),
                            j <= n,
                            self.tiles@.dom() == tiles0.dom(),
                            forall|k: Seq<char>| #[trigger] self.tiles@.dom().contains(k) ==> mem_estimable(self.tiles@[k]),
                            mem == mem_sum(self.tiles@, order),
                            mem_flushed(tiles0, order, mem_sum(tiles0, order), cap as int) == mem_flushed(
                                self.tiles@,
                                order.skip(j as int),
                                mem as int,
                                cap as int,
                            ),
                            vstd::layout::size_of::<Tile>() <= isize::MAX,
                        ensures
                            self.tiles.wf(),
                            self.tile_request_queue.wf(),
                            self@.queue == old(self)@.queue,
                            self@.disk_usage == old(self)@.disk_usage,
                            self@.cache_directory == old(self)@.cache_directory,
                            self@.inserts_since_flush_check == 0,
                            self.tiles@ == mem_flushed(tiles0, order, mem_sum(tiles0, order), cap as int),
                        decreases n - j,
                    {
                        if mem <= cap as i128 {
                            break;
                        }
                        let ghost before = self.tiles@;
                        let ghost k = order[j as int];
                        assert(tord@[j as int].key@ == k);
                        assert(order.skip(j as int)[0] == k);
                        assert(order.skip(j as int).drop_first() =~= order.skip(j + 1));
                        assert(order.contains(k));
                        proof {
                            lemma_mem_sum_bound(before, order);
                        }
                        let ghost mut did_flush = false;
                        match self.tiles.get_mut(&tord[j].key) {
                            Some(tile) => {
                                if tile.z() > 3 && tile.flushable() {
                                    let tmu0 = tile.estimate_mem_usage();
                                    tile.flush();
                                    let tmu1 = tile.estimate_mem_usage();
                                    proof {
                                        did_flush = true;
                                        lemma_mem_sum_update(before, order, k, before[k].flushed());
                                        assert(before.insert(k, before[k].flushed()).dom() =~= before.dom());
                                        lemma_mem_sum_bound(before.insert(k, before[k].flushed()), order);
                                        assert(tmu0 == mem_estimate(before[k]));
                                        assert(tmu1 == vstd::layout::size_of::<Tile>());
                                    }
                                    mem = mem + (tmu1 as i128 - tmu0 as i128);
                                }
                            },
                            None => {},
                        }
                        proof {
                            assert(before.dom().contains(k));
                            if did_flush {
                                assert(mem_flushable(before[k]));
                                assert(self.tiles@ == before.insert(k, before[k].flushed()));
                            } else {
                                assert(!mem_flushable(before[k]));
                                assert(self.tiles@ =~= before);
                            }
                        }
                        j = j + 1;
                    }
                    assert(order.skip(n as int).len() == 0);
                } else {
                    assert(mem_flushed(tiles0, order, mem_sum(tiles0, order), cap as int) == tiles0);
                }
            },
            None => {},
        }
        assert(self.tiles@ == mem_checked(tiles0, order, mem_capacity));
        match disk_capacity {
            Some(c) => {
                if self.disk_usage > c {
                    return tord;
                }
            },
            None => {},
        }
        Vec::new()
    }

    /// Accounts for a tile file handled during a disk flush: `removed` is the
    /// size of the file removed for the tile held for `key`, which then leaves
    /// the cache, or `None` when no file was removed. Returns whether the disk
    /// usage now fits in `disk_capacity`, which ends the flush.
    pub fn disk_file_removed(&mut self, key: &String, removed: Option<i64>, disk_capacity: i64) -> (done: bool)
        requires
            old(self).wf(),
            removed matches Some(s) ==> i64::MIN <= old(self)@.disk_usage - s <= i64::MAX,
        ensures
            final(self).wf(),
            final(self)@.queue == old(self)@.queue,
            final(self)@.inserts_since_flush_check == old(self)@.inserts_since_flush_check,
            final(self)@.cache_directory == old(self)@.cache_directory,
            match removed {
                Some(s) => final(self)@.disk_usage == old(self)@.disk_usage - s
                    && final(self)@.tiles == old(self)@.tiles.remove(key@),
                None => final(self)@.disk_usage == old(self)@.disk_usage && final(self)@.tiles == old(self)@.tiles,
            },
            done == (final(self)@.disk_usage <= disk_capacity),
    {
        proof {
            let t0 = old(self)@.tiles;
            assert forall|k: Seq<char>| #[trigger] t0.remove(key@).dom().contains(k) && places_match(t0) implies held_in_place(
                k,
                t0.remove(key@)[k],
            ) by {
                assert(t0.dom().contains(k));
            }
        }
        if let Some(size) = removed {
            self.disk_usage = self.disk_usage - size;
            self.tiles.remove(key);
        }
        self.disk_usage <= disk_capacity
    }

    /// The file the cache state is stored in: `state` in the cache directory.
    pub fn state_file(&self) -> (p: String)
        ensures
            p@ == path_joined(self@.cache_directory, seq!['s', 't', 'a', 't', 'e']),
    {
        proof {
            reveal_strlit("state");
        }
        let mut v = chars_of(self.cache_directory.as_str());
        push_component_str(&mut v, "state");
        string_of(&v)
    }

    /// What storing the cache writes, typically before the application
    /// closes: the state file and a snapshot of the tiles.
    pub fn store(&self) -> (r: (String, TileCacheState))
        requires
            self.wf(),
        ensures
            r.0@ == path_joined(self@.cache_directory, seq!['s', 't', 'a', 't', 'e']),
            r.1.tiles.wf(),
            r.1.tiles@ == self@.tiles,
    {
        (self.state_file(), TileCacheState::new(self))
    }

    /// Debugging text of the cache: the number of tiles, the queue length,
    /// whether an observer is set (`observer`) and the disk usage.
    pub fn debug_text(&self, observer: bool) -> (s: String)
        requires
            self.wf(),
        ensures
            s@ == seq!['t', 'i', 'l', 'e', 's', '='] + nat_text(self@.tiles.dom().len()) + seq![' ', 'q', 'u', 'e', 'u', 'e', '.', 'l', 'e', 'n', '='] + nat_text(self@.queue.len())
                + seq![' ', 'o', 'b', 's', 'e', 'r', 'v', 'e', 'r', '='] + (if observer { seq!['t', 'r', 'u', 'e'] } else { seq!['f', 'a', 'l', 's', 'e'] }) + seq![' ', 'd', 'i', 's', 'k', '_', 'u', 's', 'a', 'g', 'e', '=']
                + int_text(self@.disk_usage as int),
    {
        proof {
            reveal_strlit("tiles=");
            reveal_strlit(" queue.len=");
            reveal_strlit(" observer=");
            reveal_strlit("true");
            reveal_strlit("false");
            reveal_strlit(" disk_usage=");
            assert("tiles="@ =~= seq!['t', 'i', 'l', 'e', 's', '=']);
            assert(" queue.len="@ =~= seq![' ', 'q', 'u', 'e', 'u', 'e', '.', 'l', 'e', 'n', '=']);
            assert(" observer="@ =~= seq![' ', 'o', 'b', 's', 'e', 'r', 'v', 'e', 'r', '=']);
            assert("true"@ =~= seq!['t', 'r', 'u', 'e']);
            assert("false"@ =~= seq!['f', 'a', 'l', 's', 'e']);
            assert(" disk_usage="@ =~= seq![' ', 'd', 'i', 's', 'k', '_', 'u', 's', 'a', 'g', 'e', '=']);
        }
        let mut v: Vec<char> = Vec::new();
        push_str(&mut v, "tiles=");
        push_nat(&mut v, self.tiles.len() as u64);
        push_str(&mut v, " queue.len=");
        push_nat(&mut v, self.tile_request_queue.len() as u64);
        push_str(&mut v, " observer=");
        if observer {
            push_str(&mut v, "true");
        } else {
            push_str(&mut v, "false");
        }
        push_str(&mut v, " disk_usage=");
        push_int(&mut v, self.disk_usage);
        string_of(&v)
    }

    /// Bytes of disk used by the cached tile files.
    pub fn disk_usage(&self) -> (d: i64)
        ensures
            d == self@.disk_usage,
    {
        self.disk_usage
    }

}

/// Snapshot of a tile cache, stored when the application closes and applied
/// when it starts again.
pub struct TileCacheState {
    pub tiles: TileTable,
}

impl TileCacheState {
    /// A snapshot of the tiles of `tcache`.
    pub fn new(tcache: &TileCache) -> (s: TileCacheState)
        requires
            tcache.wf(),
        ensures
            s.tiles.wf(),
            s.tiles@ == tcache@.tiles,
    {
        TileCacheState { tiles: tcache.tiles.duplicate() }
    }

    /// Whether each of the snapshot's tiles is held under the key of its
    /// place.
    pub fn tiles_in_place(&self) -> (r: bool)
        requires
            self.tiles.wf(),
        ensures
            r == places_match(self.tiles@),
    {
        proof {
            self.tiles.lemma_positions();
        }
        let n = self.tiles.len();
        let mut i: usize = 0;
        while i < n
            invariant
                self.tiles.wf(),
                n == self.tiles.size(),
                i <= n,
                forall|j: int| 0 <= j < i ==> held_in_place(self.tiles.key_seq(j), #[trigger] self.tiles.tile_seq(j)),
                forall|j: int| 0 <= j < n ==> #[trigger] self.tiles@.dom().contains(self.tiles.key_seq(j)) && self.tiles@[self.tiles.key_seq(j)] == self.tiles.tile_seq(j),
            decreases n - i,
        {
            let ok = key_in_place(self.tiles.key_at(i), self.tiles.tile_at(i));
            if !ok {
                proof {
                    let k = self.tiles.key_seq(i as int);
                    assert(self.tiles@.dom().contains(k));
                    assert(self.tiles@[k] == self.tiles.tile_seq(i as int));
                }
                return false;
            }
            i = i + 1;
        }
        proof {
            assert forall|k: Seq<char>| #[trigger] self.tiles@.dom().contains(k) implies held_in_place(
                k,
                self.tiles@[k],
            ) by {
                let j = choose|j: int| 0 <= j < self.tiles.size() && #[trigger] self.tiles.key_seq(j) == k;
                assert(held_in_place(self.tiles.key_seq(j), self.tiles.tile_seq(j)));
            }
        }
        true
    }

    /// Whether the disk usages of the snapshot's tiles add up, position by
    /// position, without leaving the range of `i64`.
    pub fn disk_sum_fits(&self) -> (r: bool)
        requires
            self.tiles.wf(),
        ensures
            r == forall|n: int| 0 <= n <= self.tiles.size() ==> i64::MIN <= #[trigger] disk_sum(self.tiles, n) <= i64::MAX,
    {
        let n = self.tiles.len();
        let mut sum: i128 = 0;
        let mut i: usize = 0;
        while i < n
            invariant
                self.tiles.wf(),
                n == self.tiles.size(),
                i <= n,
                sum == disk_sum(self.tiles, i as int),
                forall|m: int| 0 <= m <= i ==> i64::MIN <= #[trigger] disk_sum(self.tiles, m) <= i64::MAX,
            decreases n - i,
        {
            proof {
                self.tiles.lemma_positions();
            }
            let d = self.tiles.tile_at(i).disk_usage();
            assert(d == self.tiles.tile_seq(i as int).disk_usage);
            sum = sum + d as i128;
            assert(sum == disk_sum(self.tiles, i + 1));
            if sum < i64::MIN as i128 || sum > i64::MAX as i128 {
                return false;
            }
            i = i + 1;
        }
        true
    }

    /// Puts the snapshot's tiles into `tcache`, each flushed and with a black
    /// stand-in surface the size of the first tile, and sets the disk usage to
    /// the sum of theirs.
    pub fn apply(&mut self, tcache: &mut TileCache)
        requires
            old(self).tiles.wf(),
            old(tcache).wf(),
            forall|n: int| 0 <= n <= old(self).tiles.size() ==> i64::MIN <= #[trigger] disk_sum(old(self).tiles, n) <= i64::MAX,
            places_match(old(self).tiles@),
        ensures
            final(tcache).wf(),
            final(self).tiles == old(self).tiles,
            final(tcache)@.tiles.dom() == old(self).tiles@.dom(),
            old(self).tiles.size() > 0 ==> forall|k: Seq<char>| #[trigger] final(tcache)@.tiles.dom().contains(k) ==> final(tcache)@.tiles[k] == restored_tile(
                old(self).tiles@[k],
                old(self).tiles.tile_seq(0).width,
                old(self).tiles.tile_seq(0).height,
            ),
            final(tcache)@.disk_usage == disk_sum(old(self).tiles, old(self).tiles.size() as int),
            final(tcache)@.queue == old(tcache)@.queue,
            final(tcache)@.inserts_since_flush_check == old(tcache)@.inserts_since_flush_check,
            final(tcache)@.cache_directory == old(tcache)@.cache_directory,
    {
        let n = self.tiles.len();
        let mut width: i32 = 0;
        let mut height: i32 = 0;
        if n > 0 {
            width = self.tiles.tile_at(0).width();
            height = self.tiles.tile_at(0).height();
        }
        let mut restored = TileTable::new();
        let mut disk: i64 = 0;
        proof {
            self.tiles.lemma_positions();
        }
        let mut i: usize = 0;
        while i < n
            invariant
                self.tiles.wf(),
                restored.wf(),
                n == self.tiles.size(),
                i <= n,
                n > 0 ==> width == self.tiles.tile_seq(0).width && height == self.tiles.tile_seq(0).height,
                disk == disk_sum(self.tiles, i as int),
                forall|m: int| 0 <= m <= n ==> i64::MIN <= #[trigger] disk_sum(self.tiles, m) <= i64::MAX,
                forall|k: Seq<char>| #[trigger] restored@.dom().contains(k) <==> exists|j: int| 0 <= j < i && #[trigger] self.tiles.key_seq(j) == k,
                forall|k: Seq<char>| #[trigger] restored@.dom().contains(k) ==> restored@[k] == restored_tile(self.tiles@[k], width, height),
                forall|j: int| 0 <= j < n ==> #[trigger] self.tiles@.dom().contains(self.tiles.key_seq(j)) && self.tiles@[self.tiles.key_seq(j)] == self.tiles.tile_seq(j),
            decreases n - i,
        {
            let mut t = self.tiles.tile_at(i).duplicate();
            let key = self.tiles.key_at(i).clone();
            assert(self.tiles@.dom().contains(self.tiles.key_seq(i as int)));
            assert(t@ == self.tiles.tile_seq(i as int));
            assert(disk_sum(self.tiles, i + 1) == disk_sum(self.tiles, i as int) + self.tiles.tile_seq(i as int).disk_usage);
            assert(i64::MIN <= disk_sum(self.tiles, i + 1) <= i64::MAX);
            disk = disk + t.disk_usage();
            t.mark_restored(width, height);
            restored.insert(key, t);
            i = i + 1;
            proof {
                assert forall|k: Seq<char>| #[trigger] restored@.dom().contains(k) implies exists|j: int| 0 <= j < i && #[trigger] self.tiles.key_seq(j) == k by {
                    if k != self.tiles.key_seq(i - 1) {
                        let j = choose|j: int| 0 <= j < i - 1 && #[trigger] self.tiles.key_seq(j) == k;
                    }
                }
            }
        }
        proof {
            assert forall|k: Seq<char>| #[trigger] restored@.dom().contains(k) == self.tiles@.dom().contains(k) by {
                if self.tiles@.dom().contains(k) {
                    let j = choose|j: int| 0 <= j < self.tiles.size() && #[trigger] self.tiles.key_seq(j) == k;
                }
            }
            assert(restored@.dom() =~= self.tiles@.dom());
        }
        tcache.tiles = restored;
        tcache.disk_usage = disk;
        proof {
            assert forall|k: Seq<char>| #[trigger] tcache@.tiles.dom().contains(k) implies held_in_place(
                k,
                tcache@.tiles[k],
            ) by {
                assert(self.tiles@.dom().contains(k));
                lemma_same_place_held(k, self.tiles@[k], tcache@.tiles[k]);
            }
        }
    }
}

/// Creates the tile cache, with its files under `cache_directory`, and puts
/// into it the state stored when the application last closed, if one was read.
pub fn create_tile_cache(cache_directory: String, restored: Option<TileCacheState>) -> (c: TileCache)
    requires
        restored matches Some(s) ==> s.tiles.wf() && places_match(s.tiles@) && forall|n: int|
            0 <= n <= s.tiles.size() ==> i64::MIN <= #[trigger] disk_sum(s.tiles, n) <= i64::MAX,
    ensures
        c.wf(),
        c@.queue == Seq::<TileRequestView>::empty(),
        c@.inserts_since_flush_check == 0,
        c@.cache_directory == cache_directory@,
        match restored {
            None => c@.tiles == Map::<Seq<char>, TileView>::empty() && c@.disk_usage == 0,
            Some(s) => {
                &&& c@.tiles.dom() == s.tiles@.dom()
                &&& s.tiles.size() > 0 ==> forall|k: Seq<char>| #[trigger] c@.tiles.dom().contains(k) ==> c@.tiles[k] == restored_tile(
                    s.tiles@[k],
                    s.tiles.tile_seq(0).width,
                    s.tiles.tile_seq(0).height,
                )
                &&& c@.disk_usage == disk_sum(s.tiles, s.tiles.size() as int)
            },
        },
{
    let mut tcache = TileCache::new(cache_directory);
    match restored {
        Some(mut state) => {
            state.apply(&mut tcache);
        },
        None => {},
    }
    tcache
}

} // verus!
