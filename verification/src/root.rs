//! The atlas: root of the domain model, with its layers, maps and view.
use vstd::prelude::*;
use std::collections::{BTreeMap, BTreeSet, HashMap};
use crate::id::{next_id, UniqueId, NONE};
use crate::map::TileMap;
use vstd::std_specs::iter::IteratorSpec;
use vstd::std_specs::cmp::OrdSpec;

verus! {

broadcast use vstd::std_specs::btree::group_btree_axioms;

/// Layer and map ids are ordered and compared as plain integers.
pub proof fn lemma_id_keys()
    ensures
        vstd::laws_cmp::obeys_cmp::<u64>(),
        vstd::std_specs::btree::key_obeys_cmp_spec::<u64>(),
{
    broadcast use vstd::laws_cmp::group_laws_cmp;
}

/// Progress of loading or saving an atlas.
pub struct AtlasLoadSaveStatus {
    pub total: i64,
    pub loaded: i64,
    pub ready: bool,
}

impl AtlasLoadSaveStatus {
    /// Nothing loaded, not ready.
    pub fn new() -> (s: AtlasLoadSaveStatus)
        ensures
            s.total == 0,
            s.loaded == 0,
            !s.ready,
    {
        AtlasLoadSaveStatus { total: 0, loaded: 0, ready: false }
    }
}

/// Layer in an atlas, holding map elements.
pub struct Layer {
    /// Unique id.
    pub id: UniqueId,
    /// Layer name.
    pub name: String,
    /// Drawing order: higher orders are drawn on top; the backdrop is 0.
    pub order: u16,
    /// Map of a transparent map layer, `NONE` otherwise.
    pub map_id: UniqueId,
    /// Map elements on the layer.
    pub element_ids: BTreeSet<UniqueId>,
}

impl Layer {
    /// An empty layer with the next id after `ids`.
    pub fn new(name: String, order: u16, ids: &mut UniqueId) -> (l: Layer)
        requires
            *old(ids) < u64::MAX,
        ensures
            *final(ids) == *old(ids) + 1,
            l.id == *final(ids),
            l.name@ == name@,
            l.order == order,
            l.map_id == NONE,
            l.element_ids@ == Set::<UniqueId>::empty(),
    {
        Layer { id: next_id(ids), name, order, map_id: NONE, element_ids: BTreeSet::new() }
    }

    /// Id of the layer.
    pub fn id(&self) -> (r: UniqueId)
        ensures
            r == self.id,
    {
        self.id
    }

    /// True for the backdrop layer, the one of order 0.
    pub fn backdrop(&self) -> (r: bool)
        ensures
            r == (self.order == 0),
    {
        self.order == 0
    }
}

/// A place of interest on the map, known by its id.
pub struct Attraction {
    pub id: UniqueId,
}

/// A GPX waypoint, known by its id.
pub struct Waypoint {
    pub id: UniqueId,
}

/// A GPX route or track, known by its id.
pub struct Path {
    pub id: UniqueId,
}

/// An area on the map, known by its id.
pub struct Area {
    pub id: UniqueId,
}

/// The root object of the domain model.
pub struct Atlas {
    pub slug: String,
    pub name: String,
    /// Layers by id.
    pub layers: BTreeMap<UniqueId, Layer>,
    /// Attractions by id.
    pub attractions: HashMap<UniqueId, Attraction>,
    /// GPX waypoints by id.
    pub waypoints: HashMap<UniqueId, Waypoint>,
    /// GPX routes by id.
    pub routes: HashMap<UniqueId, Path>,
    /// GPX tracks by id.
    pub tracks: HashMap<UniqueId, Path>,
    /// Areas by id.
    pub areas: HashMap<UniqueId, Area>,
    /// Maps by id.
    pub maps: BTreeMap<UniqueId, TileMap>,
}

impl Atlas {
    /// An empty atlas named `unnamed`.
    pub fn new(slug: String) -> (a: Atlas)
        ensures
            a.slug@ == slug@,
            a.name@ == seq!['u', 'n', 'n', 'a', 'm', 'e', 'd'],
            a.layers@ == Map::<UniqueId, Layer>::empty(),
            a.attractions@ == Map::<UniqueId, Attraction>::empty(),
            a.waypoints@ == Map::<UniqueId, Waypoint>::empty(),
            a.routes@ == Map::<UniqueId, Path>::empty(),
            a.tracks@ == Map::<UniqueId, Path>::empty(),
            a.areas@ == Map::<UniqueId, Area>::empty(),
            a.maps@ == Map::<UniqueId, TileMap>::empty(),
    {
        proof {
            reveal_strlit("unnamed");
        }
        Atlas {
            slug,
            name: String::from_str("unnamed"),
            layers: BTreeMap::new(),
            attractions: HashMap::new(),
            waypoints: HashMap::new(),
            routes: HashMap::new(),
            tracks: HashMap::new(),
            areas: HashMap::new(),
            maps: BTreeMap::new(),
        }
    }

    /// Loads the atlas: the status is reset, nothing is loaded.
    pub fn load(&mut self, status: &mut AtlasLoadSaveStatus)
        ensures
            final(status).total == 0,
            final(status).loaded == 0,
            !final(status).ready,
            *final(self) == *old(self),
    {
        status.total = 0;
        status.loaded = 0;
        status.ready = false;
    }

    /// Saves the atlas: the status is reset and false is returned, as nothing
    /// is saved.
    pub fn save(&self, status: &mut AtlasLoadSaveStatus) -> (r: bool)
        ensures
            final(status).total == 0,
            final(status).loaded == 0,
            !final(status).ready,
            !r,
    {
        status.total = 0;
        status.loaded = 0;
        status.ready = false;
        false
    }

    /// Id of the backdrop layer: the least id of a layer of order 0.
    pub fn backdrop_layer_id(&self) -> (r: Option<UniqueId>)
        ensures
            match r {
                Some(id) => self.layers@.contains_key(id) && self.layers@[id].order == 0
                    && forall|k: UniqueId| #[trigger] self.layers@.contains_key(k) && self.layers@[k].order == 0 ==> id <= k,
                None => forall|k: UniqueId| #[trigger] self.layers@.contains_key(k) ==> self.layers@[k].order != 0,
            },
    {
        let ghost m = self.layers@;
        let ghost v = vstd::std_specs::btree::spec_btree_map_iter(&self.layers).remaining();
        let iter = self.layers.iter();
        proof {
            broadcast use vstd::laws_cmp::group_laws_cmp;
            assert(vstd::laws_cmp::obeys_cmp::<u64>());
            assert(vstd::std_specs::btree::key_obeys_cmp_spec::<u64>());
            assert(iter == vstd::std_specs::btree::spec_btree_map_iter(&self.layers));
            let ks = iter.remaining().map_values(|kv: (&u64, &Layer)| *kv.0);
            assert(vstd::std_specs::btree::increasing_seq(ks));
            assert forall|i: int, j: int| 0 <= i < j < v.len() implies *(#[trigger] v[i]).0 < *(#[trigger] v[j]).0 by {
                assert(ks[i] == *v[i].0);
                assert(ks[j] == *v[j].0);
                assert(ks[i].cmp_spec(&ks[j]) is Less);
            }
        }
        for (layer_id, layer) in it: iter
            invariant
                m == self.layers@,
                it.seq() == v,
                v.len() == m.dom().len(),
                forall|i: int| 0 <= i < v.len() ==> m.contains_key(*(#[trigger] v[i]).0) && m[*v[i].0] == *v[i].1,
                forall|k: UniqueId| #[trigger] m.contains_key(k) ==> v.contains((&k, &m[k])),
                forall|i: int, j: int| 0 <= i < j < v.len() ==> *(#[trigger] v[i]).0 < *(#[trigger] v[j]).0,
                forall|j: int| 0 <= j < it.index() ==> (#[trigger] v[j]).1.order != 0,
        {
            if layer.backdrop() {
                proof {
                    let i = it.index();
                    assert(v[i] == (layer_id, layer));
                    assert forall|k: UniqueId| #[trigger] m.contains_key(k) && m[k].order == 0 implies *layer_id <= k by {
                        assert(v.contains((&k, &m[k])));
                        let j = choose|j: int| 0 <= j < v.len() && v[j] == (&k, &m[k]);
                        if j < i {
                            assert(v[j].1.order != 0);
                        } else if j > i {
                            assert(*v[i].0 < *v[j].0);
                        }
                    }
                }
                return Some(*layer_id);
            }
        }
        proof {
            assert forall|k: UniqueId| #[trigger] m.contains_key(k) implies m[k].order != 0 by {
                assert(v.contains((&k, &m[k])));
                let j = choose|j: int| 0 <= j < v.len() && v[j] == (&k, &m[k]);
                assert(v[j].1.order != 0);
            }
        }
        None
    }

    /// Ids of the layers, in increasing order.
    pub fn layer_ids(&self) -> (v: Vec<UniqueId>)
        ensures
            v@.len() == self.layers@.dom().len(),
            forall|i: int, j: int| 0 <= i < j < v@.len() ==> v@[i] < v@[j],
            forall|i: int| 0 <= i < v@.len() ==> self.layers@.contains_key(#[trigger] v@[i]),
            forall|k: UniqueId| #[trigger] self.layers@.contains_key(k) ==> v@.contains(k),
    {
        let ghost m = self.layers@;
        let ghost e = vstd::std_specs::btree::spec_btree_map_iter(&self.layers).remaining();
        let iter = self.layers.iter();
        proof {
            broadcast use vstd::laws_cmp::group_laws_cmp;
            assert(vstd::laws_cmp::obeys_cmp::<u64>());
            assert(vstd::std_specs::btree::key_obeys_cmp_spec::<u64>());
            assert(iter == vstd::std_specs::btree::spec_btree_map_iter(&self.layers));
            let ks = iter.remaining().map_values(|kv: (&u64, &Layer)| *kv.0);
            assert(vstd::std_specs::btree::increasing_seq(ks));
            assert forall|i: int, j: int| 0 <= i < j < e.len() implies *(#[trigger] e[i]).0 < *(#[trigger] e[j]).0 by {
                assert(ks[i] == *e[i].0);
                assert(ks[j] == *e[j].0);
                assert(ks[i].cmp_spec(&ks[j]) is Less);
            }
        }
        let mut v: Vec<UniqueId> = Vec::new();
        for (layer_id, _layer) in it: iter
            invariant
                m == self.layers@,
                it.seq() == e,
                e.len() == m.dom().len(),
                forall|i: int| 0 <= i < e.len() ==> m.contains_key(*(#[trigger] e[i]).0) && m[*e[i].0] == *e[i].1,
                forall|k: UniqueId| #[trigger] m.contains_key(k) ==> e.contains((&k, &m[k])),
                forall|i: int, j: int| 0 <= i < j < e.len() ==> *(#[trigger] e[i]).0 < *(#[trigger] e[j]).0,
                v@.len() == it.index(),
                forall|i: int| 0 <= i < v@.len() ==> #[trigger] v@[i] == *e[i].0,
        {
            v.push(*layer_id);
        }
        proof {
            assert forall|i: int, j: int| 0 <= i < j < v@.len() implies v@[i] < v@[j] by {
                assert(v@[i] == *e[i].0 && v@[j] == *e[j].0);
            }
            assert forall|i: int| 0 <= i < v@.len() implies m.contains_key(#[trigger] v@[i]) by {
                assert(v@[i] == *e[i].0);
            }
            assert forall|k: UniqueId| #[trigger] m.contains_key(k) implies v@.contains(k) by {
                assert(e.contains((&k, &m[k])));
                let j = choose|j: int| 0 <= j < e.len() && e[j] == (&k, &m[k]);
                assert(v@[j] == k);
            }
        }
        v
    }

    /// Sets the order of layer `layer_id`, if there is one.
    pub fn set_layer_order(&mut self, layer_id: UniqueId, order: u16)
        ensures
            old(self).layers@.contains_key(layer_id) ==> final(self).layers@ == old(self).layers@.insert(
                layer_id,
                Layer { order, ..old(self).layers@[layer_id] },
            ),
            !old(self).layers@.contains_key(layer_id) ==> final(self).layers@ == old(self).layers@,
            final(self).maps@ == old(self).maps@,
            final(self).slug == old(self).slug,
            final(self).name == old(self).name,
            final(self).attractions@ == old(self).attractions@,
            final(self).waypoints@ == old(self).waypoints@,
            final(self).routes@ == old(self).routes@,
            final(self).tracks@ == old(self).tracks@,
            final(self).areas@ == old(self).areas@,
    {
        if let Some(mut layer) = self.layers.remove(&layer_id) {
            layer.order = order;
            self.layers.insert(layer_id, layer);
        }
    }

    /// Sets the name of map `map_id`, if there is one.
    pub fn set_map_name(&mut self, map_id: UniqueId, name: String)
        ensures
            old(self).maps@.contains_key(map_id) ==> final(self).maps@ == old(self).maps@.insert(
                map_id,
                TileMap { name, ..old(self).maps@[map_id] },
            ),
            !old(self).maps@.contains_key(map_id) ==> final(self).maps@ == old(self).maps@,
            final(self).layers@ == old(self).layers@,
            final(self).slug == old(self).slug,
            final(self).name == old(self).name,
            final(self).attractions@ == old(self).attractions@,
            final(self).waypoints@ == old(self).waypoints@,
            final(self).routes@ == old(self).routes@,
            final(self).tracks@ == old(self).tracks@,
            final(self).areas@ == old(self).areas@,
    {
        if let Some(mut map) = self.maps.remove(&map_id) {
            map.name = name;
            self.maps.insert(map_id, map);
        }
    }
}

/// What a map window shows.
pub struct MapView {
    /// Zoom level of the view.
    pub zoom_level: u8,
    /// Visible layer ids.
    pub visible_layer_ids: Vec<UniqueId>,
    /// Map of the backdrop layer.
    pub map_id: UniqueId,
    /// Coordinates format used in the view.
    pub coordinates_format: String,
}

impl MapView {
    /// Zoom level 3, no visible layers, no map, coordinates in degrees and
    /// minutes (`dm`).
    pub fn new() -> (v: MapView)
        ensures
            v.zoom_level == 3,
            v.visible_layer_ids@ == Seq::<UniqueId>::empty(),
            v.map_id == NONE,
            v.coordinates_format@ == seq!['d', 'm'],
    {
        proof {
            reveal_strlit("dm");
        }
        MapView {
            zoom_level: 3,
            visible_layer_ids: Vec::new(),
            map_id: NONE,
            coordinates_format: String::from_str("dm"),
        }
    }
}

impl Clone for MapView {
    fn clone(&self) -> (r: MapView)
        ensures
            r.zoom_level == self.zoom_level,
            r.visible_layer_ids@ == self.visible_layer_ids@,
            r.map_id == self.map_id,
            r.coordinates_format@ == self.coordinates_format@,
    {
        MapView {
            zoom_level: self.zoom_level,
            visible_layer_ids: self.visible_layer_ids.clone(),
            map_id: self.map_id,
            coordinates_format: self.coordinates_format.clone(),
        }
    }
}

} // verus!
