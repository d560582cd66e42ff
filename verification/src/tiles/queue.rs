use vstd::prelude::*;
use crate::tiles::request::{TileRequest, TileRequestView};
use crate::text::{nat_text, push_nat, push_str, string_of};

verus! {

/// Requests in strictly increasing queue order, each of them valid.
pub open spec fn sorted_requests(s: Seq<TileRequestView>) -> bool {
    &&& forall|i: int| 0 <= i < s.len() ==> (#[trigger] s[i]).valid()
    &&& forall|i: int, j: int| 0 <= i < j < s.len() ==> (#[trigger] s[i]).before(#[trigger] s[j])
}

/// Whether some request of `s` is at the same place in the queue order as `r`.
pub open spec fn has_place(s: Seq<TileRequestView>, r: TileRequestView) -> bool {
    exists|i: int| 0 <= i < s.len() && (#[trigger] s[i]).same_place(r)
}

/// The set of queued requests after pushing `r`: unchanged when a request at
/// the same place in the queue order is already queued, else with `r` added.
pub open spec fn pushed(q: Set<TileRequestView>, r: TileRequestView) -> Set<TileRequestView> {
    if exists|e: TileRequestView| q.contains(e) && e.same_place(r) {
        q
    } else {
        q.insert(r)
    }
}

/// Requests of `s` at zoom level `z`, in order.
pub open spec fn at_level(s: Seq<TileRequestView>, z: u8) -> Seq<TileRequestView> {
    s.filter(|r: TileRequestView| r.z == z)
}

/// Requests of `s` not at zoom level `z`, in order.
pub open spec fn off_level(s: Seq<TileRequestView>, z: u8) -> Seq<TileRequestView> {
    s.filter(|r: TileRequestView| r.z != z)
}

/// Keys of the requests `s`, in order.
pub open spec fn keys_of(s: Seq<TileRequestView>) -> Seq<Seq<char>> {
    s.map_values(|r: TileRequestView| r.key_text())
}

/// Texts of the strings `s`, in order.
pub open spec fn texts_of(s: Seq<String>) -> Seq<Seq<char>> {
    s.map_values(|t: String| t@)
}

/// The queue order is transitive.
pub proof fn lemma_before_transitive(a: TileRequestView, b: TileRequestView, c: TileRequestView)
    requires
        a.before(b),
        b.before(c),
    ensures
        a.before(c),
{
}

/// Any two requests are ordered one way or the other, or at the same place,
/// and no two of these hold at once.
pub proof fn lemma_before_total(a: TileRequestView, b: TileRequestView)
    ensures
        a.before(b) || a.same_place(b) || b.before(a),
        !(a.before(b) && a.same_place(b)),
        !(a.before(b) && b.before(a)),
        !(b.before(a) && a.same_place(b)),
{
}

/// A queue of tile requests waiting to be fetched, kept in queue order; the
/// last request is the most urgent one.
pub struct TileRequestQueue {
    queue: Vec<TileRequest>,
}

impl View for TileRequestQueue {
    type V = Seq<TileRequestView>;

    closed spec fn view(&self) -> Seq<TileRequestView> {
        self.queue@.map_values(|r: TileRequest| r@)
    }
}

impl TileRequestQueue {
    /// The queue is in strictly increasing order of valid requests.
    pub open spec fn wf(&self) -> bool {
        sorted_requests(self@)
    }

    /// An empty queue.
    pub fn new() -> (q: TileRequestQueue)
        ensures
            q@ == Seq::<TileRequestView>::empty(),
            q.wf(),
    {
        let q = TileRequestQueue { queue: Vec::new() };
        assert(q@ =~= Seq::<TileRequestView>::empty());
        q
    }

    /// Number of queued requests.
    pub fn len(&self) -> (n: usize)
        ensures
            n == self@.len(),
    {
        self.queue.len()
    }

    /// Debugging text of the queue: `queue.len=` and its length.
    pub fn debug_text(&self) -> (s: String)
        ensures
            s@ == seq!['q', 'u', 'e', 'u', 'e', '.', 'l', 'e', 'n', '='] + nat_text(self@.len()),
    {
        proof {
            reveal_strlit("queue.len=");
            assert("queue.len="@ =~= seq!['q', 'u', 'e', 'u', 'e', '.', 'l', 'e', 'n', '=']);
        }
        let mut v: Vec<char> = Vec::new();
        push_str(&mut v, "queue.len=");
        push_nat(&mut v, self.queue.len() as u64);
        string_of(&v)
    }

    /// Adds a request unless one at the same place in the queue order is
    /// already queued; the queue stays in order.
    pub fn push_request(&mut self, treq: &TileRequest)
        requires
            old(self).wf(),
            treq@.valid(),
        ensures
            final(self).wf(),
            has_place(old(self)@, treq@) ==> final(self)@ == old(self)@,
            !has_place(old(self)@, treq@) ==> exists|p: int|
                0 <= p <= old(self)@.len() && final(self)@ == old(self)@.insert(p, treq@),
            final(self)@.to_set() == pushed(old(self)@.to_set(), treq@),
    {
        let ghost s = self@;
        let mut i: usize = 0;
        while i < self.queue.len() && self.queue[i].queue_order(treq) == -1
            invariant
                i <= self.queue@.len(),
                self@ == s,
                sorted_requests(s),
                treq@.valid(),
                s.len() == self.queue@.len(),
                forall|k: int| 0 <= k < s.len() ==> s[k] == (#[trigger] self.queue@[k])@,
                forall|k: int| 0 <= k < i ==> (#[trigger] s[k]).before(treq@),
            decreases self.queue@.len() - i,
        {
            assert(s[i as int] == self.queue@[i as int]@);
            i = i + 1;
        }
        if i < self.queue.len() && self.queue[i].queue_order(treq) == 0 {
            assert(s[i as int].same_place(treq@));
            assert(s.to_set().contains(s[i as int]));
            return;
        }
        proof {
            assert forall|k: int| 0 <= k < s.len() implies !(#[trigger] s[k]).same_place(treq@) by {
                lemma_before_total(s[k], treq@);
                if k >= i {
                    assert(s[i as int] == self.queue@[i as int]@);
                    lemma_before_total(s[i as int], treq@);
                    if k > i {
                        lemma_before_transitive(treq@, s[i as int], s[k]);
                    }
                }
            }
            assert forall|k: int| i <= k < s.len() implies treq@.before(#[trigger] s[k]) by {
                assert(s[i as int] == self.queue@[i as int]@);
                lemma_before_total(s[i as int], treq@);
                if k > i {
                    lemma_before_transitive(treq@, s[i as int], s[k]);
                }
            }
        }
        proof {
            assert forall|e: TileRequestView| s.to_set().contains(e) implies !e.same_place(treq@) by {
                let k = choose|k: int| 0 <= k < s.len() && s[k] == e;
            }
        }
        let r = treq.duplicate();
        self.queue.insert(i, r);
        proof {
            let t = s.insert(i as int, treq@);
            assert(self@ =~= t);
            assert(t.to_set() =~= s.to_set().insert(treq@)) by {
                assert forall|e: TileRequestView| t.to_set().contains(e) implies s.to_set().insert(treq@).contains(e) by {
                    let k = choose|k: int| 0 <= k < t.len() && t[k] == e;
                    if k < i {
                        assert(s[k] == e);
                    } else if k > i {
                        assert(s[k - 1] == e);
                    }
                }
                assert forall|e: TileRequestView| s.to_set().insert(treq@).contains(e) implies t.to_set().contains(e) by {
                    if e == treq@ {
                        assert(t[i as int] == e);
                    } else {
                        let k = choose|k: int| 0 <= k < s.len() && s[k] == e;
                        if k < i {
                            assert(t[k] == e);
                        } else {
                            assert(t[k + 1] == e);
                        }
                    }
                }
            }
            assert forall|a: int, b: int| 0 <= a < b < t.len() implies (#[trigger] t[a]).before(
                #[trigger] t[b],
            ) by {
                if b < i {
                } else if a < i && b == i {
                } else if a < i {
                    lemma_before_transitive(t[a], treq@, t[b]);
                } else if a == i {
                } else {
                }
            }
        }
    }

    /// Removes and returns the most urgent request, the last in queue order.
    pub fn pull_request(&mut self) -> (r: Option<TileRequest>)
        requires
            old(self).wf(),
        ensures
            final(self).wf(),
            old(self)@.len() == 0 ==> r is None && final(self)@ == old(self)@,
            old(self)@.len() > 0 ==> r is Some && r->0@ == old(self)@.last() && final(self)@
                == old(self)@.drop_last(),
    {
        let r = self.queue.pop();
        proof {
            if old(self)@.len() > 0 {
                assert(self@ =~= old(self)@.drop_last());
            }
        }
        r
    }

    /// Keeps only the requests at zoom level `zoom_level`, in order, and
    /// appends the keys of the dropped ones, in order, to `abort_keys`.
    pub fn focus_on_zoom_level(&mut self, zoom_level: u8, abort_keys: &mut Vec<String>)
        requires
            old(self).wf(),
        ensures
            final(self).wf(),
            final(self)@ == at_level(old(self)@, zoom_level),
            texts_of(final(abort_keys)@) == texts_of(old(abort_keys)@) + keys_of(
                off_level(old(self)@, zoom_level),
            ),
    {
        let ghost s = self@;
        let ghost keys0 = texts_of(abort_keys@);
        let mut kept: Vec<TileRequest> = Vec::new();
        let mut i: usize = 0;
        while i < self.queue.len()
            invariant
                i <= self.queue@.len(),
                self@ == s,
                sorted_requests(s),
                s.len() == self.queue@.len(),
                forall|k: int| 0 <= k < s.len() ==> s[k] == (#[trigger] self.queue@[k])@,
                kept@.map_values(|r: TileRequest| r@) == at_level(s.take(i as int), zoom_level),
                texts_of(abort_keys@) == keys0 + keys_of(off_level(s.take(i as int), zoom_level)),
                forall|a: int| 0 <= a < kept@.len() ==> exists|k: int| 0 <= k < i && (#[trigger] kept@[a])@ == #[trigger] s[k],
                sorted_requests(kept@.map_values(|r: TileRequest| r@)),
            decreases self.queue@.len() - i,
        {
            let ghost kv = kept@.map_values(|r: TileRequest| r@);
            let ghost av = texts_of(abort_keys@);
            proof {
                assert(s.take(i + 1).drop_last() =~= s.take(i as int));
                assert(s.take(i + 1).last() == s[i as int]);
                reveal_with_fuel(Seq::filter, 1);
                assert(s[i as int] == self.queue@[i as int]@);
            }
            if self.queue[i].z == zoom_level {
                let r = self.queue[i].duplicate();
                kept.push(r);
                proof {
                    assert(kept@.map_values(|r: TileRequest| r@) =~= kv.push(s[i as int]));
                    assert(texts_of(abort_keys@) =~= av);
                    let kv2 = kept@.map_values(|r: TileRequest| r@);
                    assert forall|a: int, b: int| 0 <= a < b < kv2.len() implies (#[trigger] kv2[a]).before(#[trigger] kv2[b]) by {
                        if b == kv2.len() - 1 {
                            assert(kv2[a] == kept@[a]@);
                            let k = choose|k: int| 0 <= k < i && kept@[a]@ == s[k];
                        } else {
                            assert(kv2[a] == kv[a]);
                            assert(kv2[b] == kv[b]);
                        }
                    }
                    assert forall|a: int| 0 <= a < kv2.len() implies (#[trigger] kv2[a]).valid() by {
                        if a < kv2.len() - 1 {
                            assert(kv2[a] == kv[a]);
                        }
                    }
                    assert forall|a: int| 0 <= a < kept@.len() implies exists|k: int| 0 <= k < i + 1 && (#[trigger] kept@[a])@ == #[trigger] s[k] by {
                        if a == kept@.len() - 1 {
                            assert(kept@[a]@ == s[i as int]);
                        } else {
                            let k = choose|k: int| 0 <= k < i && (#[trigger] kept@[a])@ == s[k];
                            assert(kv[a] == kept@[a]@);
                        }
                    }
                }
            } else {
                let key = self.queue[i].to_key();
                abort_keys.push(key);
                proof {
                    assert(kept@.map_values(|r: TileRequest| r@) =~= kv);
                    assert(texts_of(abort_keys@) =~= av.push(s[i as int].key_text()));
                    assert(keys_of(off_level(s.take(i + 1), zoom_level)) =~= keys_of(off_level(s.take(i as int), zoom_level)).push(s[i as int].key_text()));
                    assert(keys0 + keys_of(off_level(s.take(i + 1), zoom_level)) =~= av.push(s[i as int].key_text()));
                }
            }
            i = i + 1;
        }
        proof {
            assert(s.take(s.len() as int) =~= s);
        }
        self.queue = kept;
    }
}

} // verus!
