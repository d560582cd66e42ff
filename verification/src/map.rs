//! Slippy map parameters.
use vstd::prelude::*;
use crate::id::{next_id, UniqueId};
use crate::text::{chars_of, nat_text, push_nat, string_of};
use crate::tiles::source::{clone_strings, TileSource, TileSourceView};

verus! {

/// Slippy map parameters: where its tiles come from and how they are credited.
pub struct TileMap {
    pub slug: String,
    pub name: String,
    pub tile_width: Option<i32>,
    pub tile_height: Option<i32>,
    pub transparent: bool,
    pub urls: Vec<String>,
    pub token: String,
    pub copyright_text: String,
    pub copyright_url: String,
}

/// The slug of a new map with id `id`: `map-` and the id.
pub open spec fn map_slug(id: u64) -> Seq<char> {
    seq!['m', 'a', 'p', '-'] + nat_text(id as nat)
}

/// How two texts are ordered, character by character: -1 when `a` comes
/// first, 0 when they are equal, 1 when `b` comes first; a text comes before
/// any longer text that starts with it.
pub open spec fn text_order(a: Seq<char>, b: Seq<char>) -> i8
    decreases a.len(),
{
    if a.len() == 0 {
        if b.len() == 0 {
            0i8
        } else {
            -1i8
        }
    } else if b.len() == 0 {
        1i8
    } else if (a[0] as int) < (b[0] as int) {
        -1i8
    } else if (a[0] as int) > (b[0] as int) {
        1i8
    } else {
        text_order(a.drop_first(), b.drop_first())
    }
}

/// Computes `text_order` of the two texts.
fn order_texts(a: &str, b: &str) -> (r: i8)
    ensures
        r == text_order(a@, b@),
{
    let x = chars_of(a);
    let y = chars_of(b);
    let mut i: usize = 0;
    assert(x@.skip(0) =~= x@);
    assert(y@.skip(0) =~= y@);
    while i < x.len() && i < y.len()
        invariant
            i <= x@.len(),
            i <= y@.len(),
            text_order(a@, b@) == text_order(x@.skip(i as int), y@.skip(i as int)),
            x@ == a@,
            y@ == b@,
        decreases x@.len() - i,
    {
        let ghost xs = x@.skip(i as int);
        let ghost ys = y@.skip(i as int);
        assert(xs[0] == x@[i as int]);
        assert(ys[0] == y@[i as int]);
        let c = x[i];
        let d = y[i];
        if c < d {
            return -1;
        }
        if c > d {
            return 1;
        }
        assert(xs.drop_first() =~= x@.skip(i + 1));
        assert(ys.drop_first() =~= y@.skip(i + 1));
        i = i + 1;
    }
    if i < x.len() {
        assert(y@.skip(i as int).len() == 0);
        1
    } else if i < y.len() {
        assert(x@.skip(i as int).len() == 0);
        -1
    } else {
        assert(x@.skip(i as int).len() == 0);
        assert(y@.skip(i as int).len() == 0);
        0
    }
}

impl TileMap {
    /// How two maps are ordered: by their names, as `text_order` orders them.
    pub fn name_order(&self, other: &TileMap) -> (r: i8)
        ensures
            r == text_order(self.name@, other.name@),
    {
        order_texts(self.name.as_str(), other.name.as_str())
    }

    /// Whether two maps have the same name.
    pub fn same_name(&self, other: &TileMap) -> (r: bool)
        ensures
            r == (self.name@ == other.name@),
    {
        let r = order_texts(self.name.as_str(), other.name.as_str()) == 0;
        proof {
            crate::laws::law_text_order_zero(self.name@, other.name@);
        }
        r
    }

    /// A new map with slug `map-<id>`, the id being the next one after `ids`;
    /// its name is left empty and it has no tile size, urls or token.
    pub fn new(name: String, ids: &mut UniqueId) -> (m: TileMap)
        requires
            *old(ids) < u64::MAX,
        ensures
            *final(ids) == *old(ids) + 1,
            m.slug@ == map_slug(*final(ids)),
            m.name@ == Seq::<char>::empty(),
            m.tile_width is None,
            m.tile_height is None,
            !m.transparent,
            m.urls@.len() == 0,
            m.token@ == Seq::<char>::empty(),
            m.copyright_text@ == Seq::<char>::empty(),
            m.copyright_url@ == Seq::<char>::empty(),
    {
        let id = next_id(ids);
        let mut s: Vec<char> = vec!['m', 'a', 'p', '-'];
        push_nat(&mut s, id);
        assert(s@ =~= map_slug(id));
        TileMap {
            slug: string_of(&s),
            name: String::new(),
            tile_width: None,
            tile_height: None,
            transparent: false,
            urls: Vec::new(),
            token: String::new(),
            copyright_text: String::new(),
            copyright_url: String::new(),
        }
    }

    /// The tile source of the map, when its tile width and height are known.
    pub fn to_tile_source(&self) -> (r: Option<TileSource>)
        ensures
            (self.tile_width is Some && self.tile_height is Some) <==> r is Some,
            r matches Some(src) ==> src@ == (TileSourceView {
                slug: self.slug@,
                url_templates: self.urls@.map_values(|s: String| s@),
                token: self.token@,
                user_agent: None,
                referer: None,
                expire_override: None,
                tile_width: self.tile_width->0,
                tile_height: self.tile_height->0,
            }),
    {
        match (self.tile_width, self.tile_height) {
            (Some(w), Some(h)) => Some(
                TileSource::new(
                    self.slug.clone(),
                    clone_strings(&self.urls),
                    self.token.clone(),
                    w,
                    h,
                ),
            ),
            _ => None,
        }
    }

    /// A map can be used when it has at least one url template.
    pub fn has_urls(&self) -> (r: bool)
        ensures
            r == (self.urls@.len() > 0),
    {
        self.urls.len() > 0
    }
}

} // verus!
