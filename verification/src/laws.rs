//! Properties of the library that relate several of its operations or hold
//! of all their inputs, each proved from the contracts the operations state.
use vstd::prelude::*;
use vstd::arithmetic::div_mod::{lemma_mod_add_multiples_vanish, lemma_mod_bound, lemma_mod_twice};
use vstd::arithmetic::power2::lemma_pow2_pos;
use crate::tiles::request::{side, wrapped_x, TileRequestView};
use crate::tiles::queue::{pushed, at_level, off_level, sorted_requests};
use crate::tiles::flush::{mem_flushable, mem_flushed};
use crate::tiles::table::TileTable;
use crate::tiles::cache::{
    cache_request, handled, held_in_place, returned_as_is, img_len, in_world, precaution, precautions, remote_request, lemma_same_place_held, lookup, places_match, restored_tile,
    retry_request, TileCacheView, TileWork,
};
use crate::tiles::fetch::{TileRequestResultCode, TileRequestResultView};
use crate::tiles::tile::{time_order, TileOrd, TileState, TileView};
use crate::tiles::request::{fetch_rank, TileFetchMode};
use crate::tiles::worker::{worker_step, WorkerAction, WorkerEvent};
use crate::persistence::{numbered_name, safe_chars, safe_file_char, safe_name, safe_text};
use crate::gpx::{end_panics, ended, started, ReaderView};
use crate::gui::without;
use crate::id::{UniqueId, NONE};
use crate::map::text_order;
use crate::foreign::lowercase_of;

verus! {

/// A wrapped x position lies in the world: `0 <= x < 2^z`.
pub proof fn law_wrapped_in_world(x: int, z: nat)
    ensures
        0 <= wrapped_x(x, z) < side(z),
{
    lemma_pow2_pos(z);
    lemma_mod_bound(x, side(z));
}

/// Wrapping is periodic: positions a world's width apart wrap alike.
pub proof fn law_wrap_periodic(x: int, z: nat)
    ensures
        wrapped_x(x + side(z), z) == wrapped_x(x, z),
{
    lemma_pow2_pos(z);
    lemma_mod_add_multiples_vanish(x, side(z));
    assert(side(z) + x == x + side(z));
}

/// Wrapping a wrapped position changes nothing.
pub proof fn law_wrap_idempotent(x: int, z: nat)
    ensures
        wrapped_x(wrapped_x(x, z), z) == wrapped_x(x, z),
{
    lemma_pow2_pos(z);
    lemma_mod_twice(x, side(z));
}

/// Requests a world's width apart that agree otherwise share their cache key.
pub proof fn law_key_ignores_wrap(a: TileRequestView, b: TileRequestView)
    requires
        a.x == b.x + side(b.z as nat),
        a == (TileRequestView { x: a.x, ..b }),
    ensures
        a.key_text() == b.key_text(),
{
    law_wrap_periodic(b.x as int, b.z as nat);
}

/// Pushing a request twice queues it once: the second push changes nothing.
pub proof fn law_push_idempotent(q: Set<TileRequestView>, r: TileRequestView)
    ensures
        pushed(pushed(q, r), r) == pushed(q, r),
{
    if !(exists|e: TileRequestView| q.contains(e) && e.same_place(r)) {
        assert(pushed(q, r).contains(r) && r.same_place(r));
    }
}

/// Pushing keeps every queued request, and afterwards a request at the
/// pushed one's place in the queue order is queued.
pub proof fn law_push_keeps(q: Set<TileRequestView>, r: TileRequestView)
    ensures
        q.subset_of(pushed(q, r)),
        exists|e: TileRequestView| pushed(q, r).contains(e) && e.same_place(r),
{
    if !(exists|e: TileRequestView| q.contains(e) && e.same_place(r)) {
        assert(pushed(q, r).contains(r) && r.same_place(r));
    }
}

/// The request pulled from a queue, its last one, comes after every request
/// left in it.
pub proof fn law_pulled_is_most_urgent(q: Seq<TileRequestView>)
    requires
        sorted_requests(q),
        q.len() > 0,
    ensures
        forall|i: int| 0 <= i < q.len() - 1 ==> (#[trigger] q.drop_last()[i]).before(q.last()),
{
    assert forall|i: int| 0 <= i < q.len() - 1 implies (#[trigger] q.drop_last()[i]).before(q.last()) by {
        assert(q.drop_last()[i] == q[i]);
    }
}

/// Focusing on a zoom level keeps the requests at that level and drops the
/// others: together they are all the requests, and every one kept is at the
/// level.
pub proof fn law_focus_partitions(s: Seq<TileRequestView>, z: u8)
    ensures
        at_level(s, z).len() + off_level(s, z).len() == s.len(),
        forall|i: int| 0 <= i < at_level(s, z).len() ==> (#[trigger] at_level(s, z)[i]).z == z,
        forall|i: int| 0 <= i < off_level(s, z).len() ==> (#[trigger] off_level(s, z)[i]).z != z,
    decreases s.len(),
{
    reveal_with_fuel(Seq::filter, 1);
    if s.len() > 0 {
        law_focus_partitions(s.drop_last(), z);
        assert forall|i: int| 0 <= i < at_level(s, z).len() implies (#[trigger] at_level(s, z)[i]).z == z by {
            if i < at_level(s.drop_last(), z).len() {
                assert(at_level(s, z)[i] == at_level(s.drop_last(), z)[i]);
            }
        }
        assert forall|i: int| 0 <= i < off_level(s, z).len() implies (#[trigger] off_level(s, z)[i]).z != z by {
            if i < off_level(s.drop_last(), z).len() {
                assert(off_level(s, z)[i] == off_level(s.drop_last(), z)[i]);
            }
        }
    }
}

/// Flushing the cache from memory keeps every tile: each is either unchanged
/// or flushed, and only flushable tiles, above zoom level 3, are flushed.
pub proof fn law_flush_keeps_tiles(
    tiles: Map<Seq<char>, TileView>,
    order: Seq<Seq<char>>,
    mem: int,
    capacity: int,
)
    ensures
        mem_flushed(tiles, order, mem, capacity).dom() == tiles.dom(),
        forall|k: Seq<char>| #[trigger] tiles.dom().contains(k) ==> {
            ||| mem_flushed(tiles, order, mem, capacity)[k] == tiles[k]
            ||| mem_flushable(tiles[k]) && mem_flushed(tiles, order, mem, capacity)[k] == tiles[k].flushed()
        },
    decreases order.len(),
{
    if !(order.len() == 0 || mem <= capacity) {
        let k = order[0];
        if tiles.dom().contains(k) && mem_flushable(tiles[k]) {
            let t2 = tiles.insert(k, tiles[k].flushed());
            let m2 = mem + vstd::layout::size_of::<crate::tiles::tile::Tile>() - crate::tiles::flush::mem_estimate(tiles[k]);
            law_flush_keeps_tiles(t2, order.drop_first(), m2, capacity);
            assert(t2.dom() =~= tiles.dom());
            assert forall|j: Seq<char>| #[trigger] tiles.dom().contains(j) implies {
                ||| mem_flushed(tiles, order, mem, capacity)[j] == tiles[j]
                ||| mem_flushable(tiles[j]) && mem_flushed(tiles, order, mem, capacity)[j] == tiles[j].flushed()
            } by {
                assert(t2.dom().contains(j));
                if j == k {
                    assert(t2[j].flushed() == tiles[j].flushed());
                }
            }
        } else {
            law_flush_keeps_tiles(tiles, order.drop_first(), mem, capacity);
        }
    }
}

/// A successful fetch handled for a held tile gives that tile the fetched
/// data, size and success state; the other tiles stay as they were.
pub proof fn law_fetch_read_back(c: TileCacheView, res: TileRequestResultView, retries: u8)
    requires
        c.tiles.dom().contains(res.request.key_text()),
        res.code == TileRequestResultCode::Success,
    ensures
        ({
            let t = handled(c, res, retries).0.tiles;
            let k = res.request.key_text();
            &&& t.dom() == c.tiles.dom()
            &&& t[k].data == Some(res.data)
            &&& t[k].width == res.tile_width
            &&& t[k].height == res.tile_height
            &&& t[k].state == res.request.tile_state_on_success
            &&& t[k].disk_usage == img_len(res) as i64
            &&& forall|j: Seq<char>| #[trigger] c.tiles.dom().contains(j) && j != k ==> t[j] == c.tiles[j]
        }),
{
    let k = res.request.key_text();
    assert(handled(c, res, retries).0.tiles.dom() =~= c.tiles.dom());
}

/// Handling a fetch outcome changes at most the tile of its request: the set
/// of held keys and every other tile stay as they were.
pub proof fn law_handle_touches_one_tile(c: TileCacheView, res: TileRequestResultView, retries: u8)
    ensures
        handled(c, res, retries).0.tiles.dom() == c.tiles.dom(),
        forall|j: Seq<char>|
            #[trigger] c.tiles.dom().contains(j) && j != res.request.key_text() ==> handled(c, res, retries).0.tiles[j]
                == c.tiles[j],
{
    let k = res.request.key_text();
    if c.tiles.dom().contains(k) {
        assert(handled(c, res, retries).0.tiles.dom() =~= c.tiles.dom());
    }
}

/// A transmission error is retried with one retry fewer until none are left;
/// then the tile fails and nothing is queued again.
pub proof fn law_retries_run_out(c: TileCacheView, res: TileRequestResultView, retries: u8)
    requires
        c.tiles.dom().contains(res.request.key_text()),
        res.code == TileRequestResultCode::TransmissionError,
        res.request.retry_count is Some,
    ensures
        ({
            let rc = res.request.retry_count->0;
            let (w, _, notify) = handled(c, res, retries);
            &&& !notify
            &&& rc > 0 ==> w.queue == pushed(c.work().queue, retry_request(res.request, (rc - 1) as u8))
                && retry_request(res.request, (rc - 1) as u8).retry_count == Some((rc - 1) as u8)
            &&& rc == 0 ==> w.queue == c.work().queue && w.tiles[res.request.key_text()].state == TileState::Error
        }),
{
}

/// A tile restored from a stored state keeps what identifies it and its file:
/// position, zoom level, size multiplier, file path, disk usage and expiry;
/// it is flushed and shows a temporary stand-in.
pub proof fn law_restored_tile_keeps_identity(t: TileView, width: i32, height: i32)
    ensures
        ({
            let r = restored_tile(t, width, height);
            &&& r.x == t.x && r.y == t.y && r.z == t.z && r.mult == t.mult
            &&& r.filepath == t.filepath && r.disk_usage == t.disk_usage && r.expire_time == t.expire_time
            &&& r.state == TileState::Flushed
            &&& r.surface_is_temporary
        }),
{
}

/// Each character maps to safe characters.
pub proof fn law_safe_chars_are_safe(c: char)
    ensures
        forall|i: int| 0 <= i < safe_chars(c).len() ==> safe_file_char(#[trigger] safe_chars(c)[i]),
{
}

/// The safe form of characters holds only safe characters.
pub proof fn law_safe_text_is_safe(cs: Seq<char>)
    ensures
        forall|i: int| 0 <= i < safe_text(cs).len() ==> safe_file_char(#[trigger] safe_text(cs)[i]),
    decreases cs.len(),
{
    if cs.len() > 0 {
        law_safe_text_is_safe(cs.drop_last());
        law_safe_chars_are_safe(cs.last());
        let a = safe_text(cs.drop_last());
        let b = safe_chars(cs.last());
        assert forall|i: int| 0 <= i < safe_text(cs).len() implies safe_file_char(#[trigger] safe_text(cs)[i]) by {
            if i < a.len() {
                assert(safe_text(cs)[i] == a[i]);
            } else {
                assert(safe_text(cs)[i] == b[i - a.len()]);
            }
        }
    }
}

/// A safe name, whatever the name and whatever lower-casing yields, holds only
/// safe characters: in particular no `/` and no `.`.
pub proof fn law_safe_name_is_safe(name: Seq<char>)
    ensures
        forall|i: int| 0 <= i < safe_name(name).len() ==> safe_file_char(#[trigger] safe_name(name)[i]),
    decreases name.len(),
{
    if name.len() > 0 {
        law_safe_name_is_safe(name.drop_last());
        law_safe_text_is_safe(lowercase_of(name.last()));
        let a = safe_name(name.drop_last());
        let b = safe_text(lowercase_of(name.last()));
        assert forall|i: int| 0 <= i < safe_name(name).len() implies safe_file_char(#[trigger] safe_name(name)[i]) by {
            if i < a.len() {
                assert(safe_name(name)[i] == a[i]);
            } else {
                assert(safe_name(name)[i] == b[i - a.len()]);
            }
        }
    }
}

/// Every file name tried ends with a dot and the extension.
pub proof fn law_candidate_keeps_extension(safe: Seq<char>, ext: Seq<char>, i: nat)
    ensures
        ({
            let n = numbered_name(safe, ext, i);
            &&& n.len() >= ext.len() + 1
            &&& n.subrange(n.len() - ext.len() - 1, n.len() as int) == seq!['.'] + ext
        }),
{
    let n = numbered_name(safe, ext, i);
    assert(n.subrange(n.len() - ext.len() - 1, n.len() as int) =~= seq!['.'] + ext);
}

/// An element other than `ele` or `time` that starts and then ends leaves the
/// open elements as they were, and its end is never an error.
pub proof fn law_gpx_element_balanced(r: ReaderView, name: Seq<char>, attrs: Seq<(Seq<char>, Seq<char>)>)
    requires
        name != seq!['e', 'l', 'e'],
        name != seq!['t', 'i', 'm', 'e'],
    ensures
        !end_panics(started(r, name, attrs), name),
        ended(started(r, name, attrs), name).stack == r.stack,
        ended(started(r, name, attrs), name).col == started(r, name, attrs).col,
{
    assert(started(r, name, attrs).stack.drop_last() =~= r.stack);
}

/// A hidden layer is no longer visible, and showing then hiding a layer is
/// the same as hiding it.
pub proof fn law_hidden_layer_gone(s: Seq<UniqueId>, id: UniqueId)
    ensures
        !without(s, id).contains(id),
        without(s.push(id), id) == without(s, id),
    decreases s.len(),
{
    assert(s.push(id).drop_last() =~= s);
    if s.len() > 0 {
        law_hidden_layer_gone(s.drop_last(), id);
        if s.last() != id {
            let w = without(s.drop_last(), id);
            assert forall|i: int| 0 <= i < w.push(s.last()).len() implies w.push(s.last())[i] != id by {
                if i < w.len() {
                    assert(!w.contains(id));
                    assert(w.push(s.last())[i] == w[i]);
                }
            }
        }
    }
}

/// A request that may only use the cache is never downloaded, and one that
/// forces the remote is never read from the disk cache.
pub proof fn law_fetch_modes_respected(ev: WorkerEvent)
    ensures
        worker_step(TileFetchMode::Cache, ev) != WorkerAction::Download,
        worker_step(TileFetchMode::Remote, ev) != WorkerAction::ReadDisk,
{
}

/// Looking up a request outside the world changes nothing and gives no tile;
/// one inside always gives a tile, and that tile is then held under the
/// request's key.
pub proof fn law_lookup_gives_tile(w: TileWork, t: TileRequestView, now: int, dir: Seq<char>)
    ensures
        !in_world(t) ==> lookup(w, t, now, dir) == (w, false, None::<TileView>),
        in_world(t) ==> {
            let (w2, _, r) = lookup(w, t, now, dir);
            &&& r is Some
            &&& w2.tiles.dom().contains(t.key_text())
            &&& w2.tiles[t.key_text()] == r->0
        },
{
}

/// A ready tile that has not expired is given back as it is held, and the
/// lookup changes nothing.
pub proof fn law_ready_tile_read_back(w: TileWork, t: TileRequestView, now: int, dir: Seq<char>)
    requires
        in_world(t),
        w.tiles.dom().contains(t.key_text()),
        w.tiles[t.key_text()].state == TileState::Ready,
        w.tiles[t.key_text()].expire_time >= now,
    ensures
        lookup(w, t, now, dir) == (w, false, Some(w.tiles[t.key_text()])),
{
}

/// Storing a cache and restoring the stored state gives back every tile under
/// its key, with its place, size, times, file path and disk usage; the
/// restored tiles are flushed and painted with a temporary stand-in. A cache
/// whose tiles were each held under the key of their place stays so.
pub proof fn law_store_restore_round_trip(c: TileCacheView, stored: TileTable, restored: TileCacheView)
    requires
        stored.wf(),
        stored@ == c.tiles,
        restored.tiles.dom() == stored@.dom(),
        stored.size() > 0 ==> forall|k: Seq<char>| #[trigger] restored.tiles.dom().contains(k) ==> restored.tiles[k]
            == restored_tile(stored@[k], stored.tile_seq(0).width, stored.tile_seq(0).height),
    ensures
        restored.tiles.dom() == c.tiles.dom(),
        forall|k: Seq<char>| #[trigger] c.tiles.dom().contains(k) ==> {
            let r = restored.tiles[k];
            let t = c.tiles[k];
            &&& r.x == t.x && r.y == t.y && r.z == t.z && r.mult == t.mult
            &&& r.width == t.width && r.height == t.height
            &&& r.access_time == t.access_time && r.expire_time == t.expire_time
            &&& r.filepath == t.filepath && r.disk_usage == t.disk_usage
            &&& r.state == TileState::Flushed
            &&& r.surface is Some && r.surface_is_temporary
        },
        places_match(c.tiles) ==> places_match(restored.tiles),
{
    stored.lemma_positions();
    assert forall|k: Seq<char>| #[trigger] c.tiles.dom().contains(k) implies stored.size() > 0 by {
        assert(stored@.dom().contains(k));
    }
    if places_match(c.tiles) {
        assert forall|k: Seq<char>| #[trigger] restored.tiles.dom().contains(k) implies held_in_place(
            k,
            restored.tiles[k],
        ) by {
            assert(c.tiles.dom().contains(k));
            lemma_same_place_held(k, c.tiles[k], restored.tiles[k]);
        }
    }
}

/// Two texts are ordered equal exactly when they are the same text.
pub proof fn law_text_order_zero(a: Seq<char>, b: Seq<char>)
    ensures
        (text_order(a, b) == 0) == (a == b),
    decreases a.len(),
{
    if a.len() == 0 || b.len() == 0 {
        if a.len() == 0 && b.len() == 0 {
            assert(a =~= b);
        }
    } else if a[0] == b[0] {
        law_text_order_zero(a.drop_first(), b.drop_first());
        if a.drop_first() == b.drop_first() {
            assert(a =~= b) by {
                assert forall|i: int| 0 <= i < a.len() implies a[i] == b[i] by {
                    if i > 0 {
                        assert(a[i] == a.drop_first()[i - 1]);
                        assert(b[i] == b.drop_first()[i - 1]);
                    }
                }
            }
        } else {
            assert(a != b);
        }
    } else {
        assert((a[0] as int) != (b[0] as int));
        assert(a != b);
    }
}

/// Swapping two texts turns their order around.
pub proof fn law_text_order_swapped(a: Seq<char>, b: Seq<char>)
    ensures
        text_order(a, b) == -text_order(b, a),
    decreases a.len(),
{
    if a.len() > 0 && b.len() > 0 && (a[0] as int) == (b[0] as int) {
        law_text_order_swapped(a.drop_first(), b.drop_first());
    }
}

/// Ordering by access time: the keys of two tiles, each made with its tile's
/// access time, are ordered as the access times are, so that sorting them
/// puts the tile accessed first in front; the same holds of expiry times.
pub proof fn law_tile_ord_by_time(o1: TileOrd, o2: TileOrd, t1: TileView, t2: TileView)
    requires
        (o1.datetime == t1.access_time && o2.datetime == t2.access_time) || (o1.datetime
            == t1.expire_time && o2.datetime == t2.expire_time),
    ensures
        o1.datetime == t1.access_time && o2.datetime == t2.access_time ==> time_order(
            o1.datetime,
            o2.datetime,
        ) == time_order(t1.access_time, t2.access_time),
        o1.datetime == t1.expire_time && o2.datetime == t2.expire_time ==> time_order(
            o1.datetime,
            o2.datetime,
        ) == time_order(t1.expire_time, t2.expire_time),
        (time_order(o1.datetime, o2.datetime) < 0) == (o1.datetime < o2.datetime),
        time_order(o1.datetime, o2.datetime) == -time_order(o2.datetime, o1.datetime),
{
}

/// The order of times is transitive: what comes before something that comes
/// before a third thing comes before it too.
pub proof fn law_time_order_transitive(a: i64, b: i64, c: i64)
    requires
        time_order(a, b) < 0,
        time_order(b, c) < 0,
    ensures
        time_order(a, c) < 0,
{
}

/// Successive ids are distinct from `NONE` and increase: after `a` is taken
/// from the counter and `b` after it, `a < b`, each one more than the last.
pub proof fn law_next_ids_increase(last: UniqueId, a: UniqueId, b: UniqueId)
    requires
        a == last + 1,
        b == a + 1,
    ensures
        a != NONE,
        b != NONE,
        a < b,
{
}

/// One request made in advance only adds: what was queued and held before
/// stays, and a request added is one made in advance.
proof fn lemma_precaution_only_adds(
    w: TileWork,
    base: TileRequestView,
    dz: i8,
    dx: i8,
    dy: i8,
    dpri: i8,
    now: int,
    dir: Seq<char>,
)
    ensures
        w.queue.subset_of(precaution(w, base, dz, dx, dy, dpri, now, dir).queue),
        w.tiles.dom().subset_of(precaution(w, base, dz, dx, dy, dpri, now, dir).tiles.dom()),
        forall|r: TileRequestView|
            #[trigger] precaution(w, base, dz, dx, dy, dpri, now, dir).queue.contains(r) && !w.queue.contains(r)
                ==> r.precautionary,
{
}

/// Requests made in advance only add to the queue and the tiles: every
/// request queued before stays queued, every tile held before stays held,
/// and every request added is one made in advance.
pub proof fn law_precautions_only_add(w: TileWork, t: TileRequestView, now: int, dir: Seq<char>)
    ensures
        w.queue.subset_of(precautions(w, t, now, dir).queue),
        w.tiles.dom().subset_of(precautions(w, t, now, dir).tiles.dom()),
        forall|r: TileRequestView|
            #[trigger] precautions(w, t, now, dir).queue.contains(r) && !w.queue.contains(r) ==> r.precautionary,
{
    reveal(precautions);
    let w1 = precaution(w, t, -3i8, 0i8, 0i8, 1i8, now, dir);
    let w2 = precaution(w1, t, -3i8, 1i8, 0i8, 1i8, now, dir);
    let w3 = precaution(w2, t, -3i8, -1i8, 0i8, 1i8, now, dir);
    let w4 = precaution(w3, t, -3i8, 0i8, -1i8, 1i8, now, dir);
    let w5 = precaution(w4, t, -3i8, 0i8, 1i8, 1i8, now, dir);
    let w6 = precaution(w5, t, -6i8, 0i8, 0i8, 0i8, now, dir);
    let w7 = precaution(w6, t, -9i8, 0i8, 0i8, 0i8, now, dir);
    let w8 = precaution(w7, t, -12i8, 0i8, 0i8, 0i8, now, dir);
    lemma_precaution_only_adds(w, t, -3i8, 0i8, 0i8, 1i8, now, dir);
    lemma_precaution_only_adds(w1, t, -3i8, 1i8, 0i8, 1i8, now, dir);
    lemma_precaution_only_adds(w2, t, -3i8, -1i8, 0i8, 1i8, now, dir);
    lemma_precaution_only_adds(w3, t, -3i8, 0i8, -1i8, 1i8, now, dir);
    lemma_precaution_only_adds(w4, t, -3i8, 0i8, 1i8, 1i8, now, dir);
    lemma_precaution_only_adds(w5, t, -6i8, 0i8, 0i8, 0i8, now, dir);
    lemma_precaution_only_adds(w6, t, -9i8, 0i8, 0i8, 0i8, now, dir);
    lemma_precaution_only_adds(w7, t, -12i8, 0i8, 0i8, 0i8, now, dir);
    assert(w8 == precautions(w, t, now, dir));
    assert forall|r: TileRequestView| #[trigger] w8.queue.contains(r) && !w.queue.contains(r) implies r.precautionary by {
        if !w7.queue.contains(r) {
        } else if !w6.queue.contains(r) {
            assert(w7.queue.contains(r));
        } else if !w5.queue.contains(r) {
            assert(w6.queue.contains(r));
        } else if !w4.queue.contains(r) {
            assert(w5.queue.contains(r));
        } else if !w3.queue.contains(r) {
            assert(w4.queue.contains(r));
        } else if !w2.queue.contains(r) {
            assert(w3.queue.contains(r));
        } else if !w1.queue.contains(r) {
            assert(w2.queue.contains(r));
        } else {
            assert(w1.queue.contains(r));
        }
    }
}

/// Starting a `trk` element appends exactly one new, empty track: the earlier
/// tracks, the routes and the waypoints stay as they were. So every `trk`
/// element read makes a track of its own.
pub proof fn law_track_start_appends(r: ReaderView, attrs: Seq<(Seq<char>, Seq<char>)>)
    ensures
        ({
            let c = started(r, seq!['t', 'r', 'k'], attrs).col;
            &&& c.tracks.len() == r.col.tracks.len() + 1
            &&& forall|i: int| 0 <= i < r.col.tracks.len() ==> #[trigger] c.tracks[i] == r.col.tracks[i]
            &&& c.tracks[r.col.tracks.len() as int].len() == 0
            &&& c.routes == r.col.routes
            &&& c.waypoints == r.col.waypoints
        }),
{
}

/// Starting a `rte` element appends exactly one new, empty route; the tracks
/// and waypoints stay as they were.
pub proof fn law_route_start_appends(r: ReaderView, attrs: Seq<(Seq<char>, Seq<char>)>)
    ensures
        ({
            let c = started(r, seq!['r', 't', 'e'], attrs).col;
            &&& c.routes.len() == r.col.routes.len() + 1
            &&& forall|i: int| 0 <= i < r.col.routes.len() ==> #[trigger] c.routes[i] == r.col.routes[i]
            &&& c.routes[r.col.routes.len() as int].len() == 0
            &&& c.tracks == r.col.tracks
            &&& c.waypoints == r.col.waypoints
        }),
{
}

/// Starting a `trkseg` element in a track appends exactly one new, empty
/// segment to the last track; the other tracks and the earlier segments stay.
pub proof fn law_segment_start_appends(r: ReaderView, attrs: Seq<(Seq<char>, Seq<char>)>)
    requires
        r.col.tracks.len() > 0,
    ensures
        ({
            let c = started(r, seq!['t', 'r', 'k', 's', 'e', 'g'], attrs).col;
            let n = r.col.tracks.len() as int;
            let last = r.col.tracks[n - 1];
            &&& c.tracks.len() == n
            &&& forall|i: int| 0 <= i < n - 1 ==> #[trigger] c.tracks[i] == r.col.tracks[i]
            &&& c.tracks[n - 1].len() == last.len() + 1
            &&& forall|i: int| 0 <= i < last.len() ==> #[trigger] c.tracks[n - 1][i] == last[i]
            &&& c.tracks[n - 1][last.len() as int].len() == 0
        }),
{
    let name = seq!['t', 'r', 'k', 's', 'e', 'g'];
    assert(name.len() == 6);
    assert(name != seq!['t', 'r', 'k']);
    assert(name != seq!['r', 't', 'e']);
    let c = r.col;
    let n = c.tracks.len() as int;
    let col = started(r, name, attrs).col;
    assert(col.tracks == c.tracks.update(n - 1, c.tracks.last().push(Seq::empty())));
}

/// A tile held ready whose expiry time has passed is refreshed when looked
/// up: it is given back pending and held so, with nothing else about it
/// changed, and the queue then holds a request for its place to be read from
/// the disk cache (staying pending on success, unless such a request was
/// already queued) and one to be fetched from the remote source; every
/// request queued before stays queued.
pub proof fn law_expired_tile_refreshed(w: TileWork, t: TileRequestView, now: int, dir: Seq<char>)
    requires
        in_world(t),
        w.tiles.dom().contains(t.key_text()),
        w.tiles[t.key_text()].state == TileState::Ready,
        w.tiles[t.key_text()].expire_time < now,
    ensures
        ({
            let (w2, counted, r) = lookup(w, t, now, dir);
            let old_tile = w.tiles[t.key_text()];
            &&& r == Some(TileView { state: TileState::Pending, ..old_tile })
            &&& w2.tiles == w.tiles.insert(t.key_text(), TileView { state: TileState::Pending, ..old_tile })
            &&& !counted
            &&& w.queue.subset_of(w2.queue)
            &&& exists|e: TileRequestView| {
                &&& #[trigger] w2.queue.contains(e)
                &&& e.generation == t.generation && e.priority == t.priority
                &&& e.z == t.z && e.y == t.y && e.wrapped() == t.wrapped()
                &&& e.tile_fetch_mode == TileFetchMode::Cache
                &&& (w.queue.contains(e) || e.tile_state_on_success == TileState::Pending)
            }
            &&& exists|e: TileRequestView| {
                &&& #[trigger] w2.queue.contains(e)
                &&& e.generation == t.generation && e.priority == t.priority
                &&& e.z == t.z && e.y == t.y && e.wrapped() == t.wrapped()
                &&& e.tile_fetch_mode == TileFetchMode::Remote
            }
        }),
{
    let k = t.key_text();
    let tile = w.tiles[k];
    let upd = TileView { state: TileState::Pending, ..tile };
    assert(!returned_as_is(tile.state));
    let (w2, counted, r) = lookup(w, t, now, dir);
    assert(r == Some(upd));
    assert(w2.tiles == w.tiles.insert(k, upd));
    let c = cache_request(t);
    let rr = remote_request(t);
    let q1 = pushed(w.queue, c);
    let q2 = pushed(q1, rr);
    assert(w2.queue == q2);
    assert(!counted);
    assert(w.queue.subset_of(q1));
    assert(q1.subset_of(q2));
    assert(w.queue.subset_of(q2));
    if exists|e: TileRequestView| w.queue.contains(e) && e.same_place(c) {
        let e = choose|e: TileRequestView| w.queue.contains(e) && e.same_place(c);
        assert(q2.contains(e));
        assert(fetch_rank(e.tile_fetch_mode) == fetch_rank(TileFetchMode::Cache));
        assert(e.tile_fetch_mode == TileFetchMode::Cache);
        assert(w2.queue.contains(e));
    } else {
        assert(q1.contains(c));
        assert(q2.contains(c));
        assert(w2.queue.contains(c));
        assert(c.wrapped() == t.wrapped());
    }
    if exists|e: TileRequestView| q1.contains(e) && e.same_place(rr) {
        let e = choose|e: TileRequestView| q1.contains(e) && e.same_place(rr);
        assert(q2.contains(e));
        assert(fetch_rank(e.tile_fetch_mode) == fetch_rank(TileFetchMode::Remote));
        assert(e.tile_fetch_mode == TileFetchMode::Remote);
        assert(w2.queue.contains(e));
    } else {
        assert(q2.contains(rr));
        assert(w2.queue.contains(rr));
        assert(rr.wrapped() == t.wrapped());
    }
}

/// A successful fetch of a held tile gives the tile the result's expiry time
/// when the result has one, and keeps the tile's own otherwise; the tile
/// takes the result's data and size and the success state of the request.
pub proof fn law_fetch_sets_expiry(c: TileCacheView, res: TileRequestResultView, retries: u8)
    requires
        c.tiles.dom().contains(res.request.key_text()),
        res.code == TileRequestResultCode::Success,
    ensures
        ({
            let t = handled(c, res, retries).0.tiles[res.request.key_text()];
            let old_tile = c.tiles[res.request.key_text()];
            &&& res.expire_time matches Some(e) ==> t.expire_time == e
            &&& res.expire_time is None ==> t.expire_time == old_tile.expire_time
            &&& t.data == Some(res.data)
            &&& t.width == res.tile_width && t.height == res.tile_height
            &&& t.state == res.request.tile_state_on_success
        }),
{
}

/// Whenever the tile file exists, a pulled request reads it from the disk
/// cache unless the request forces the remote source; a missing file is
/// downloaded unless only the cache may be used.
pub proof fn law_existing_file_read(m: TileFetchMode)
    ensures
        m != TileFetchMode::Remote ==> worker_step(m, WorkerEvent::Pulled { exists_on_disk: true })
            == WorkerAction::ReadDisk,
        m == TileFetchMode::Remote ==> worker_step(m, WorkerEvent::Pulled { exists_on_disk: true })
            == WorkerAction::Download,
        m != TileFetchMode::Cache ==> worker_step(m, WorkerEvent::Pulled { exists_on_disk: false })
            == WorkerAction::Download,
        m == TileFetchMode::Cache ==> worker_step(m, WorkerEvent::Pulled { exists_on_disk: false })
            == WorkerAction::Done,
        m != TileFetchMode::Cache ==> worker_step(m, WorkerEvent::DiskRead { ok: false }) == WorkerAction::Download,
        worker_step(m, WorkerEvent::DiskRead { ok: true }) == WorkerAction::Done,
        worker_step(m, WorkerEvent::Fetched { code: TileRequestResultCode::Success }) == WorkerAction::Save,
{
}

} // verus!
