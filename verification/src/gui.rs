//! State of the map window that does not depend on a toolkit: the cursor
//! mode and the cursor shown for it, text anchors and canvas modes.
use vstd::prelude::*;
use crate::id::{UniqueId, NONE};
use crate::root::{lemma_id_keys, Atlas, MapView};
use crate::text::{nat_text, push_nat, push_str, string_of};

verus! {

broadcast use vstd::std_specs::btree::group_btree_axioms;

/// What the pointer is used for at the moment.
#[derive(Debug, PartialEq, Eq, Structural)]
pub enum CursorMode {
    Unset,
    Draggable,
    Dragging,
    Target,
    Wait,
}

/// Cursor shapes shown for the cursor modes.
#[derive(Debug, Clone, Copy, PartialEq, Eq, Structural)]
pub enum CursorType {
    Hand1,
    Fleur,
    Crosshair,
    Watch,
}

/// The cursor shape shown in the mode `m`.
pub open spec fn cursor_for(m: CursorMode) -> CursorType {
    match m {
        CursorMode::Unset => CursorType::Hand1,
        CursorMode::Draggable => CursorType::Hand1,
        CursorMode::Dragging => CursorType::Fleur,
        CursorMode::Target => CursorType::Crosshair,
        CursorMode::Wait => CursorType::Watch,
    }
}

/// Keeps the current cursor mode and decides when the cursor changes.
pub struct CursorKeeper {
    current_mode: CursorMode,
}

impl CursorKeeper {
    /// The mode currently shown.
    pub closed spec fn mode(&self) -> CursorMode {
        self.current_mode
    }

    /// A keeper with the mode unset.
    pub fn new() -> (k: CursorKeeper)
        ensures
            k.mode() == CursorMode::Unset,
    {
        CursorKeeper { current_mode: CursorMode::Unset }
    }

    /// The mode currently shown.
    pub fn current_mode(&self) -> (m: &CursorMode)
        ensures
            *m == self.mode(),
    {
        &self.current_mode
    }

    /// Changes to `new_mode`. When it differs from the current mode, the
    /// cursor to set on the window is returned; otherwise nothing changes and
    /// `None` is returned.
    pub fn change_for(&mut self, new_mode: CursorMode) -> (r: Option<CursorType>)
        ensures
            final(self).mode() == new_mode,
            old(self).mode() == new_mode ==> r is None,
            old(self).mode() != new_mode ==> r == Some(cursor_for(new_mode)),
    {
        if self.current_mode != new_mode {
            let cursor_type = match new_mode {
                CursorMode::Unset => CursorType::Hand1,
                CursorMode::Draggable => CursorType::Hand1,
                CursorMode::Dragging => CursorType::Fleur,
                CursorMode::Target => CursorType::Crosshair,
                CursorMode::Wait => CursorType::Watch,
            };
            self.current_mode = new_mode;
            Some(cursor_type)
        } else {
            None
        }
    }
}

/// Alignment of a text box relative to its pivot point.
#[derive(Debug, Clone, Copy, PartialEq, Eq, Structural)]
pub enum TextAnchor {
    NorthWest,
    NorthEast,
    SouthEast,
    South,
    SouthWest,
}

/// What the map canvas is doing.
#[derive(Debug, PartialEq, Eq, Structural)]
pub enum MapCanvasMode {
    /// Waiting for user action passively.
    Void,
    /// Element being moved on the map.
    Moving,
    /// Map being scrolled on x/y space manually.
    Scrolling,
    /// Inertia scrolling animation.
    ScrollAnimation,
    /// Smooth zooming animation.
    ZoomAnimation,
}

/// Text of the zoom level label: `L` and the level, or `--` for level 0.
pub open spec fn zoom_label_text(zoom_level: u8) -> Seq<char> {
    if zoom_level > 0 {
        seq!['L'] + nat_text(zoom_level as nat)
    } else {
        seq!['-', '-']
    }
}

/// The zoom level label.
pub fn zoom_level_label(zoom_level: u8) -> (s: String)
    ensures
        s@ == zoom_label_text(zoom_level),
{
    let mut v: Vec<char> = Vec::new();
    if zoom_level > 0 {
        v.push('L');
        push_nat(&mut v, zoom_level as u64);
    } else {
        v.push('-');
        v.push('-');
    }
    assert(v@ =~= zoom_label_text(zoom_level));
    string_of(&v)
}

/// Text of the layers label: `Layers`, the number of visible layers, `/`, and
/// the number of layers other than the backdrop one.
pub open spec fn layers_label_text(visible: nat, others: nat) -> Seq<char> {
    seq!['L', 'a', 'y', 'e', 'r', 's', ' '] + nat_text(visible) + seq!['/'] + nat_text(others)
}

/// The layers label for the atlas and the view: the layers other than the
/// backdrop are all layers less one when there is a backdrop layer.
pub fn layers_label(atlas: &Atlas, view: &MapView) -> (s: String)
    ensures
        s@ == layers_label_text(
            view.visible_layer_ids@.len(),
            (atlas.layers@.dom().len() - (if exists|k: UniqueId| #[trigger] atlas.layers@.contains_key(k) && atlas.layers@[k].order == 0 {
                1int
            } else {
                0int
            })) as nat,
        ),
{
    proof {
        lemma_id_keys();
    }
    let m = view.visible_layer_ids.len();
    let n = atlas.layers.len();
    let b: usize = match atlas.backdrop_layer_id() {
        Some(id) => {
            assert(atlas.layers@.dom().contains(id));
            assert(atlas.layers@.dom().len() >= 1) by {
                vstd::set_lib::lemma_set_empty_equivalency_len(atlas.layers@.dom());
            }
            1
        },
        None => 0,
    };
    let mut v: Vec<char> = Vec::new();
    push_str(&mut v, "Layers ");
    push_nat(&mut v, m as u64);
    v.push('/');
    push_nat(&mut v, (n - b) as u64);
    proof {
        reveal_strlit("Layers ");
        assert("Layers "@ =~= seq!['L', 'a', 'y', 'e', 'r', 's', ' ']);
    }
    assert(v@ =~= layers_label_text(m as nat, (n - b) as nat));
    string_of(&v)
}

/// `s` without the occurrences of `id`.
pub open spec fn without(s: Seq<UniqueId>, id: UniqueId) -> Seq<UniqueId>
    decreases s.len(),
{
    if s.len() == 0 {
        s
    } else if s.last() == id {
        without(s.drop_last(), id)
    } else {
        without(s.drop_last(), id).push(s.last())
    }
}

/// Shows (`visible`) or hides the layer `layer_id` of the atlas in the view:
/// showing adds it to the end of the visible layers, hiding drops every
/// occurrence of it. Ids of no layer of the atlas change nothing.
pub fn toggle_layer(view: &mut MapView, atlas: &Atlas, layer_id: UniqueId, visible: bool)
    ensures
        final(view).zoom_level == old(view).zoom_level,
        final(view).map_id == old(view).map_id,
        final(view).coordinates_format == old(view).coordinates_format,
        !atlas.layers@.contains_key(layer_id) ==> final(view).visible_layer_ids@ == old(view).visible_layer_ids@,
        atlas.layers@.contains_key(layer_id) && visible ==> final(view).visible_layer_ids@ == old(
            view,
        ).visible_layer_ids@.push(layer_id),
        atlas.layers@.contains_key(layer_id) && !visible ==> final(view).visible_layer_ids@ == without(
            old(view).visible_layer_ids@,
            layer_id,
        ),
{
    proof {
        lemma_id_keys();
    }
    if atlas.layers.contains_key(&layer_id) {
        if visible {
            view.visible_layer_ids.push(layer_id);
        } else {
            let ghost s = view.visible_layer_ids@;
            let mut kept: Vec<UniqueId> = Vec::new();
            let mut i: usize = 0;
            while i < view.visible_layer_ids.len()
                invariant
                    s == view.visible_layer_ids@,
                    i <= s.len(),
                    kept@ == without(s.take(i as int), layer_id),
                decreases s.len() - i,
            {
                let id = view.visible_layer_ids[i];
                assert(s.take(i + 1).drop_last() =~= s.take(i as int));
                if id != layer_id {
                    kept.push(id);
                }
                i = i + 1;
            }
            assert(s.take(s.len() as int) =~= s);
            view.visible_layer_ids = kept;
        }
    }
}

/// Whether `v` holds `id`.
fn holds_id(v: &Vec<UniqueId>, id: UniqueId) -> (r: bool)
    ensures
        r == v@.contains(id),
{
    let mut i: usize = 0;
    while i < v.len()
        invariant
            i <= v@.len(),
            forall|j: int| 0 <= j < i ==> v@[j] != id,
        decreases v@.len() - i,
    {
        if v[i] == id {
            return true;
        }
        i = i + 1;
    }
    false
}

/// The entries of the layers menu: each layer but the backdrop ones, highest
/// id first, with whether the view shows it.
pub fn layer_menu_entries(atlas: &Atlas, view: &MapView) -> (r: Vec<(UniqueId, bool)>)
    ensures
        forall|i: int, j: int| 0 <= i < j < r@.len() ==> r@[i].0 > r@[j].0,
        forall|i: int|
            0 <= i < r@.len() ==> atlas.layers@.contains_key(#[trigger] r@[i].0) && atlas.layers@[r@[i].0].order != 0
                && r@[i].1 == view.visible_layer_ids@.contains(r@[i].0),
        forall|k: UniqueId|
            #[trigger] atlas.layers@.contains_key(k) && atlas.layers@[k].order != 0 ==> exists|i: int|
                0 <= i < r@.len() && r@[i].0 == k,
{
    proof {
        lemma_id_keys();
    }
    let ids = atlas.layer_ids();
    let mut r: Vec<(UniqueId, bool)> = Vec::new();
    let mut i: usize = ids.len();
    while i > 0
        invariant
            i <= ids@.len(),
            forall|a: int, b: int| 0 <= a < b < ids@.len() ==> ids@[a] < ids@[b],
            forall|a: int| 0 <= a < ids@.len() ==> atlas.layers@.contains_key(#[trigger] ids@[a]),
            forall|a: int, b: int| 0 <= a < b < r@.len() ==> r@[a].0 > r@[b].0,
            forall|a: int| 0 <= a < r@.len() ==> exists|c: int| i <= c < ids@.len() && #[trigger] r@[a].0 == ids@[c],
            forall|a: int|
                0 <= a < r@.len() ==> atlas.layers@.contains_key(#[trigger] r@[a].0) && atlas.layers@[r@[a].0].order != 0
                    && r@[a].1 == view.visible_layer_ids@.contains(r@[a].0),
            forall|c: int|
                i <= c < ids@.len() && atlas.layers@[#[trigger] ids@[c]].order != 0 ==> exists|a: int|
                    0 <= a < r@.len() && r@[a].0 == ids@[c],
        decreases i,
    {
        i = i - 1;
        let id = ids[i];
        let ghost before = r@;
        match atlas.layers.get(&id) {
            Some(layer) => {
                if !layer.backdrop() {
                    let shown = holds_id(&view.visible_layer_ids, id);
                    r.push((id, shown));
                    proof {
                        assert forall|a: int, b: int| 0 <= a < b < r@.len() implies r@[a].0 > r@[b].0 by {
                            if b == r@.len() - 1 {
                                let c = choose|c: int| i + 1 <= c < ids@.len() && #[trigger] before[a].0 == ids@[c];
                                assert(ids@[i as int] < ids@[c]);
                            }
                        }
                        assert(r@[r@.len() - 1].0 == ids@[i as int]);
                    }
                }
            },
            None => {},
        }
        proof {
            assert forall|a: int| 0 <= a < r@.len() implies exists|c: int| i <= c < ids@.len() && #[trigger] r@[a].0 == ids@[c] by {
                if a < before.len() {
                    let c = choose|c: int| i + 1 <= c < ids@.len() && #[trigger] before[a].0 == ids@[c];
                    assert(r@[a] == before[a]);
                } else {
                    assert(r@[a].0 == ids@[i as int]);
                }
            }
            assert forall|c: int|
                i <= c < ids@.len() && atlas.layers@[#[trigger] ids@[c]].order != 0 implies exists|a: int|
                    0 <= a < r@.len() && r@[a].0 == ids@[c] by {
                if c > i {
                    let a = choose|a: int| 0 <= a < before.len() && before[a].0 == ids@[c];
                    assert(r@[a] == before[a]);
                } else {
                    assert(r@[r@.len() - 1].0 == ids@[i as int]);
                }
            }
        }
    }
    proof {
        assert forall|k: UniqueId|
            #[trigger] atlas.layers@.contains_key(k) && atlas.layers@[k].order != 0 implies exists|a: int|
                0 <= a < r@.len() && r@[a].0 == k by {
            assert(ids@.contains(k));
            let c = choose|c: int| 0 <= c < ids@.len() && ids@[c] == k;
            assert(atlas.layers@[ids@[c]].order != 0);
        }
    }
    r
}

/// The zoom level after a scroll step from `zoom_level`: zooming in
/// (`zoom_in`) goes one level up while below `max_zoom_level`; zooming out
/// goes one level down from level 3 and above. `None` when the level stays.
pub fn scroll_zoom(zoom_level: u8, zoom_in: bool, max_zoom_level: u8) -> (r: Option<u8>)
    ensures
        zoom_in ==> r == (if zoom_level < max_zoom_level {
            Some((zoom_level + 1) as u8)
        } else {
            None
        }),
        !zoom_in ==> r == (if zoom_level >= 3 {
            Some((zoom_level - 1) as u8)
        } else {
            None
        }),
{
    if zoom_in {
        if zoom_level < max_zoom_level {
            Some(zoom_level + 1)
        } else {
            None
        }
    } else if zoom_level >= 3 {
        Some(zoom_level - 1)
    } else {
        None
    }
}

/// Label of the maps button: the name of the view's map, or `Maps` when the
/// view has none.
pub fn maps_button_label(atlas: &Atlas, view: &MapView) -> (s: String)
    requires
        view.map_id != NONE ==> atlas.maps@.contains_key(view.map_id),
    ensures
        view.map_id != NONE ==> s@ == atlas.maps@[view.map_id].name@,
        view.map_id == NONE ==> s@ == seq!['M', 'a', 'p', 's'],
{
    proof {
        lemma_id_keys();
        reveal_strlit("Maps");
    }
    if view.map_id != NONE {
        let map = atlas.maps.get(&view.map_id).unwrap();
        map.name.clone()
    } else {
        String::from_str("Maps")
    }
}

} // verus!
