use vstd::prelude::*;
use crate::tiles::tile::{Tile, TileView};

verus! {

/// Tiles by key, each key held once.
pub struct TileTable {
    keys: Vec<String>,
    tiles: Vec<Tile>,
}

impl TileTable {
    /// The keys and tiles line up and no key is held twice.
    pub closed spec fn wf(&self) -> bool {
        &&& self.keys@.len() == self.tiles@.len()
        &&& forall|i: int, j: int|
            0 <= i < j < self.keys@.len() ==> (#[trigger] self.keys@[i])@ != (#[trigger] self.keys@[j])@
    }

    /// Position of `key` among the keys.
    pub closed spec fn index_of(&self, key: Seq<char>) -> int {
        choose|i: int| 0 <= i < self.keys@.len() && (#[trigger] self.keys@[i])@ == key
    }

    /// Whether `key` is held.
    pub closed spec fn holds(&self, key: Seq<char>) -> bool {
        exists|i: int| 0 <= i < self.keys@.len() && (#[trigger] self.keys@[i])@ == key
    }

    /// Number of tiles held.
    pub closed spec fn size(&self) -> nat {
        self.keys@.len()
    }

    /// The key at position `i`.
    pub closed spec fn key_seq(&self, i: int) -> Seq<char> {
        self.keys@[i]@
    }
}

impl View for TileTable {
    type V = Map<Seq<char>, TileView>;

    closed spec fn view(&self) -> Map<Seq<char>, TileView> {
        Map::new(|k: Seq<char>| self.holds(k), |k: Seq<char>| self.tiles@[self.index_of(k)]@)
    }
}

impl TileTable {
    proof fn lemma_index(&self, i: int)
        requires
            self.wf(),
            0 <= i < self.keys@.len(),
        ensures
            self.holds(self.keys@[i]@),
            self.index_of(self.keys@[i]@) == i,
            self@.dom().contains(self.keys@[i]@),
            self@[self.keys@[i]@] == self.tiles@[i]@,
    {
        let k = self.keys@[i]@;
        assert(self.holds(k));
        let j = self.index_of(k);
        if j != i {
            if j < i {
                assert((self.keys@[j])@ != (self.keys@[i])@);
            } else {
                assert((self.keys@[i])@ != (self.keys@[j])@);
            }
        }
    }


    proof fn lemma_replace(&self, i: int)
        requires
            self.wf(),
            0 <= i < self.keys@.len(),
        ensures
            forall|t2: TileTable|
                t2.keys == self.keys && t2.tiles@ == self.tiles@.update(i, t2.tiles@[i]) ==> {
                    &&& t2.wf()
                    &&& t2.size() == self.size()
                    &&& #[trigger] t2@ == self@.insert(self.keys@[i]@, t2.tiles@[i]@)
                },
    {
        assert forall|t2: TileTable|
            t2.keys == self.keys && t2.tiles@ == self.tiles@.update(i, t2.tiles@[i]) implies {
                &&& t2.wf()
                &&& t2.size() == self.size()
                &&& #[trigger] t2@ == self@.insert(self.keys@[i]@, t2.tiles@[i]@)
            } by {
            let key = self.keys@[i]@;
            let x = t2.tiles@[i];
            assert(t2@ =~= self@.insert(key, x@)) by {
                assert forall|k: Seq<char>| #[trigger] t2@.dom().contains(k) == self@.insert(key, x@).dom().contains(k) by {
                    assert(t2.holds(k) == self.holds(k));
                    if k == key {
                        self.lemma_index(i);
                    }
                }
                assert forall|k: Seq<char>| t2@.dom().contains(k) implies #[trigger] t2@[k] == self@.insert(key, x@)[k] by {
                    let j = self.index_of(k);
                    assert(t2.index_of(k) == j);
                    if k != key {
                        assert(j != i);
                    } else {
                        self.lemma_index(i);
                    }
                }
            }
        }
    }

    /// Whether the table is well formed: keys and tiles line up and no key is
    /// held twice.
    pub fn is_well_formed(&self) -> (r: bool)
        ensures
            r == self.wf(),
    {
        if self.keys.len() != self.tiles.len() {
            return false;
        }
        let n = self.keys.len();
        let mut j: usize = 0;
        while j < n
            invariant
                n == self.keys@.len(),
                j <= n,
                forall|a: int, b: int| 0 <= a < b < j ==> (#[trigger] self.keys@[a])@ != (#[trigger] self.keys@[b])@,
            decreases n - j,
        {
            let mut i: usize = 0;
            while i < j
                invariant
                    n == self.keys@.len(),
                    i <= j < n,
                    forall|a: int| 0 <= a < i ==> (#[trigger] self.keys@[a])@ != self.keys@[j as int]@,
                decreases j - i,
            {
                if self.keys[i] == self.keys[j] {
                    return false;
                }
                i = i + 1;
            }
            j = j + 1;
        }
        true
    }

    /// An empty table.
    pub fn new() -> (t: TileTable)
        ensures
            t.wf(),
            t@ == Map::<Seq<char>, TileView>::empty(),
            t.size() == 0,
    {
        let t = TileTable { keys: Vec::new(), tiles: Vec::new() };
        assert(t@ =~= Map::<Seq<char>, TileView>::empty());
        t
    }

    /// Number of tiles held.
    pub fn len(&self) -> (n: usize)
        requires
            self.wf(),
        ensures
            n == self.size(),
            n == self@.dom().len(),
    {
        proof {
            self.lemma_dom_len();
        }
        self.keys.len()
    }

    proof fn lemma_dom_len(&self)
        requires
            self.wf(),
        ensures
            self@.dom().len() == self.size(),
            self@.dom().finite(),
    {
        let ks = self.keys@.map_values(|s: String| s@);
        assert(ks.no_duplicates()) by {
            assert forall|i: int, j: int| 0 <= i < ks.len() && 0 <= j < ks.len() && i != j implies ks[i] != ks[j] by {
                if i < j {
                    assert((self.keys@[i])@ != (self.keys@[j])@);
                } else {
                    assert((self.keys@[j])@ != (self.keys@[i])@);
                }
            }
        }
        assert(self@.dom() =~= ks.to_set()) by {
            assert forall|k: Seq<char>| self@.dom().contains(k) implies ks.to_set().contains(k) by {
                let i = self.index_of(k);
                assert(ks[i] == k);
            }
            assert forall|k: Seq<char>| ks.to_set().contains(k) implies self@.dom().contains(k) by {
                let i = choose|i: int| 0 <= i < ks.len() && ks[i] == k;
                assert(self.keys@[i]@ == k);
            }
        }
        ks.unique_seq_to_set();
    }

    /// Position of `key`, if held.
    fn find(&self, key: &String) -> (r: Option<usize>)
        requires
            self.wf(),
        ensures
            match r {
                Some(i) => i < self.keys@.len() && self.keys@[i as int]@ == key@,
                None => !self@.dom().contains(key@),
            },
    {
        let mut i: usize = 0;
        while i < self.keys.len()
            invariant
                i <= self.keys@.len(),
                forall|k: int| 0 <= k < i ==> (#[trigger] self.keys@[k])@ != key@,
            decreases self.keys@.len() - i,
        {
            if self.keys[i] == *key {
                return Some(i);
            }
            i = i + 1;
        }
        None
    }

    /// Whether `key` is held.
    pub fn contains_key(&self, key: &String) -> (r: bool)
        requires
            self.wf(),
        ensures
            r == self@.dom().contains(key@),
    {
        match self.find(key) {
            Some(i) => {
                proof {
                    self.lemma_index(i as int);
                }
                true
            },
            None => false,
        }
    }

    /// The tile held for `key`.
    pub fn get(&self, key: &String) -> (r: Option<&Tile>)
        requires
            self.wf(),
        ensures
            match r {
                Some(t) => self@.dom().contains(key@) && t@ == self@[key@],
                None => !self@.dom().contains(key@),
            },
    {
        match self.find(key) {
            Some(i) => {
                proof {
                    self.lemma_index(i as int);
                }
                Some(&self.tiles[i])
            },
            None => None,
        }
    }

    /// The tile held for `key`, to be changed in place.
    pub fn get_mut(&mut self, key: &String) -> (r: Option<&mut Tile>)
        requires
            old(self).wf(),
        ensures
            final(self).wf(),
            final(self).size() == old(self).size(),
            match r {
                Some(t) => old(self)@.dom().contains(key@) && (*t)@ == old(self)@[key@]
                    && final(self)@ == old(self)@.insert(key@, (*final(t))@),
                None => !old(self)@.dom().contains(key@) && final(self)@ == old(self)@,
            },
    {
        match self.find(key) {
            Some(i) => {
                proof {
                    self.lemma_index(i as int);
                    self.lemma_replace(i as int);
                }
                let t = &mut self.tiles[i];
                Some(t)
            },
            None => None,
        }
    }

    /// Holds `tile` for `key`, replacing any tile held for it.
    pub fn insert(&mut self, key: String, tile: Tile)
        requires
            old(self).wf(),
        ensures
            final(self).wf(),
            final(self)@ == old(self)@.insert(key@, tile@),
    {
        match self.find(&key) {
            Some(i) => {
                proof {
                    self.lemma_index(i as int);
                }
                let ghost k = key@;
                self.tiles.set(i, tile);
                proof {
                    assert(self.keys@ == old(self).keys@);
                    assert(self.tiles@ == old(self).tiles@.update(i as int, tile));
                    assert(self@ =~= old(self)@.insert(k, tile@)) by {
                        assert forall|kk: Seq<char>| #[trigger] self@.dom().contains(kk) == old(self)@.insert(k, tile@).dom().contains(kk) by {
                            assert(self.holds(kk) == old(self).holds(kk));
                        }
                        assert forall|kk: Seq<char>| self@.dom().contains(kk) implies #[trigger] self@[kk] == old(self)@.insert(k, tile@)[kk] by {
                            let j = old(self).index_of(kk);
                            assert(self.index_of(kk) == j);
                            if kk != k {
                                assert(j != i);
                            }
                        }
                    }
                }
            },
            None => {
                let ghost k = key@;
                self.keys.push(key);
                self.tiles.push(tile);
                proof {
                    let n = old(self).keys@.len();
                    assert forall|a: int, b: int| 0 <= a < b < self.keys@.len() implies (#[trigger] self.keys@[a])@ != (#[trigger] self.keys@[b])@ by {
                        if b == n {
                            assert(self.keys@[a] == old(self).keys@[a]);
                        }
                    }
                    assert(self@ =~= old(self)@.insert(k, tile@)) by {
                        assert forall|kk: Seq<char>| #[trigger] self@.dom().contains(kk) == old(self)@.insert(k, tile@).dom().contains(kk) by {
                            if kk == k {
                                assert(self.keys@[n as int]@ == k);
                            } else if self.holds(kk) {
                                let j = choose|j: int| 0 <= j < self.keys@.len() && (#[trigger] self.keys@[j])@ == kk;
                                assert(j != n);
                                assert(old(self).keys@[j]@ == kk);
                            } else if old(self).holds(kk) {
                                let j = choose|j: int| 0 <= j < old(self).keys@.len() && (#[trigger] old(self).keys@[j])@ == kk;
                                assert(self.keys@[j]@ == kk);
                            }
                        }
                        assert forall|kk: Seq<char>| self@.dom().contains(kk) implies #[trigger] self@[kk] == old(self)@.insert(k, tile@)[kk] by {
                            self.lemma_index(self.index_of(kk));
                            if kk == k {
                                self.lemma_index(n as int);
                            } else {
                                let j = self.index_of(kk);
                                assert(j != n);
                                assert(old(self).keys@[j]@ == kk);
                                old(self).lemma_index(j);
                            }
                        }
                    }
                }
            },
        }
    }

    /// Drops the tile held for `key`, if any.
    pub fn remove(&mut self, key: &String)
        requires
            old(self).wf(),
        ensures
            final(self).wf(),
            final(self)@ == old(self)@.remove(key@),
    {
        match self.find(key) {
            Some(i) => {
                let ghost k = key@;
                proof {
                    old(self).lemma_index(i as int);
                }
                self.keys.remove(i);
                self.tiles.remove(i);
                proof {
                    let o = *old(self);
                    assert forall|a: int, b: int| 0 <= a < b < self.keys@.len() implies (#[trigger] self.keys@[a])@ != (#[trigger] self.keys@[b])@ by {
                        let oa = if a < i { a } else { a + 1 };
                        let ob = if b < i { b } else { b + 1 };
                        assert(self.keys@[a] == o.keys@[oa]);
                        assert(self.keys@[b] == o.keys@[ob]);
                        assert(o.keys@[oa]@ != o.keys@[ob]@);
                    }
                    assert(self@ =~= o@.remove(k)) by {
                        assert forall|kk: Seq<char>| #[trigger] self@.dom().contains(kk) == o@.remove(k).dom().contains(kk) by {
                            if self.holds(kk) {
                                let j = choose|j: int| 0 <= j < self.keys@.len() && (#[trigger] self.keys@[j])@ == kk;
                                let oj = if j < i { j } else { j + 1 };
                                assert(o.keys@[oj]@ == kk);
                                assert(o.holds(kk));
                                assert(oj != i);
                                assert(o.keys@[oj]@ != o.keys@[i as int]@);
                            }
                            if o.holds(kk) && kk != k {
                                let oj = choose|j: int| 0 <= j < o.keys@.len() && (#[trigger] o.keys@[j])@ == kk;
                                assert(oj != i);
                                let j = if oj < i { oj } else { oj - 1 };
                                assert(self.keys@[j]@ == kk);
                            }
                        }
                        assert forall|kk: Seq<char>| self@.dom().contains(kk) implies #[trigger] self@[kk] == o@.remove(k)[kk] by {
                            self.lemma_index(self.index_of(kk));
                            let j = self.index_of(kk);
                            let oj = if j < i { j } else { j + 1 };
                            assert(o.keys@[oj]@ == kk);
                            o.lemma_index(oj);
                        }
                    }
                }
            },
            None => {
                assert(old(self)@.remove(key@) =~= old(self)@);
            },
        }
    }

    /// Tile at position `i`, as plain values.
    pub closed spec fn tile_seq(&self, i: int) -> TileView {
        self.tiles@[i]@
    }

    /// The tile at position `i` is the one held for the key at position `i`,
    /// and no two positions hold the same key.
    pub proof fn lemma_positions(&self)
        requires
            self.wf(),
        ensures
            forall|i: int| 0 <= i < self.size() ==> #[trigger] self@.dom().contains(self.key_seq(i)) && self@[self.key_seq(i)] == self.tile_seq(i),
            forall|i: int, j: int| 0 <= i < j < self.size() ==> #[trigger] self.key_seq(i) != #[trigger] self.key_seq(j),
            forall|k: Seq<char>| #[trigger] self@.dom().contains(k) ==> exists|i: int| 0 <= i < self.size() && #[trigger] self.key_seq(i) == k,
    {
        assert forall|i: int| 0 <= i < self.size() implies #[trigger] self@.dom().contains(self.key_seq(i)) && self@[self.key_seq(i)] == self.tile_seq(i) by {
            self.lemma_index(i);
        }
        assert forall|k: Seq<char>| #[trigger] self@.dom().contains(k) implies exists|i: int| 0 <= i < self.size() && #[trigger] self.key_seq(i) == k by {
            let i = self.index_of(k);
            assert(self.key_seq(i) == k);
        }
    }

    /// A copy of the table, position by position.
    pub fn duplicate(&self) -> (r: TileTable)
        requires
            self.wf(),
        ensures
            r.wf(),
            r@ == self@,
            r.size() == self.size(),
            forall|i: int| 0 <= i < self.size() ==> #[trigger] r.key_seq(i) == self.key_seq(i) && r.tile_seq(i) == self.tile_seq(i),
    {
        let mut keys: Vec<String> = Vec::new();
        let mut tiles: Vec<Tile> = Vec::new();
        let mut i: usize = 0;
        while i < self.keys.len()
            invariant
                self.wf(),
                i <= self.keys@.len(),
                keys@.len() == i,
                tiles@.len() == i,
                forall|j: int| 0 <= j < i ==> (#[trigger] keys@[j])@ == self.keys@[j]@ && tiles@[j]@ == self.tiles@[j]@,
            decreases self.keys@.len() - i,
        {
            keys.push(self.keys[i].clone());
            tiles.push(self.tiles[i].duplicate());
            i = i + 1;
        }
        let r = TileTable { keys, tiles };
        proof {
            assert forall|a: int, b: int| 0 <= a < b < r.keys@.len() implies (#[trigger] r.keys@[a])@ != (#[trigger] r.keys@[b])@ by {
                assert(self.keys@[a]@ != self.keys@[b]@);
            }
            assert(r@ =~= self@) by {
                assert forall|k: Seq<char>| #[trigger] r@.dom().contains(k) == self@.dom().contains(k) by {
                    if r.holds(k) {
                        let j = choose|j: int| 0 <= j < r.keys@.len() && (#[trigger] r.keys@[j])@ == k;
                        assert(self.keys@[j]@ == k);
                    }
                    if self.holds(k) {
                        let j = choose|j: int| 0 <= j < self.keys@.len() && (#[trigger] self.keys@[j])@ == k;
                        assert(r.keys@[j]@ == k);
                    }
                }
                assert forall|k: Seq<char>| r@.dom().contains(k) implies #[trigger] r@[k] == self@[k] by {
                    let j = r.index_of(k);
                    assert(self.keys@[j]@ == k);
                    self.lemma_index(j);
                    r.lemma_index(j);
                }
            }
        }
        r
    }

    /// The key at position `i`.
    pub fn key_at(&self, i: usize) -> (k: &String)
        requires
            self.wf(),
            i < self.size(),
        ensures
            k@ == self.key_seq(i as int),
    {
        &self.keys[i]
    }

    /// The tile at position `i`.
    pub fn tile_at(&self, i: usize) -> (t: &Tile)
        requires
            self.wf(),
            i < self.size(),
        ensures
            self@.dom().contains(self.key_seq(i as int)),
            t@ == self@[self.key_seq(i as int)],
    {
        proof {
            self.lemma_index(i as int);
        }
        &self.tiles[i]
    }
}

} // verus!
