use vstd::prelude::*;
use crate::foreign::{
    parse_url, random_usize, url_accepts, url_error_text, url_host_of, url_port_of, url_scheme_of, url_text_of,
    ParsedUrl,
};
use crate::text::{chars_of, int_text, nat_text, push_int, push_nat, push_str, replace_all, replaced, string_of};
use crate::tiles::request::{TileRequest, TileRequestView};

verus! {

/// A `String` seen as its characters.
pub open spec fn str_view(s: String) -> Seq<char> {
    s@
}

/// An optional `String` seen as optional characters.
pub open spec fn opt_str_view(s: Option<String>) -> Option<Seq<char>> {
    match s {
        Some(t) => Some(t@),
        None => None,
    }
}

/// A copy of an optional `String`.
pub fn clone_opt_string(s: &Option<String>) -> (r: Option<String>)
    ensures
        opt_str_view(r) == opt_str_view(*s),
{
    match s {
        Some(t) => Some(t.clone()),
        None => None,
    }
}

/// A copy of a vector of `String`s.
pub fn clone_strings(v: &Vec<String>) -> (r: Vec<String>)
    ensures
        r@.map_values(|s: String| s@) == v@.map_values(|s: String| s@),
{
    let mut r: Vec<String> = Vec::new();
    let mut i: usize = 0;
    while i < v.len()
        invariant
            i <= v.len(),
            r@.len() == i,
            forall|k: int| 0 <= k < i ==> (#[trigger] r@[k])@ == v@[k]@,
        decreases v.len() - i,
    {
        r.push(v[i].clone());
        i = i + 1;
    }
    assert(r@.map_values(|s: String| s@) =~= v@.map_values(|s: String| s@));
    r
}

/// The network source where tiles are loaded.
pub struct TileSource {
    /// File system friendly name.
    pub slug: String,
    /// Mutually optional url templates.
    pub url_templates: Vec<String>,
    /// Token required by the service provider.
    pub token: String,
    /// User agent header field for requests; `None` gives the default one.
    pub user_agent: Option<String>,
    /// Referer header field for requests; `None` sends none.
    pub referer: Option<String>,
    /// Expiry of fetched tiles in days, overriding what the server says.
    pub expire_override: Option<u16>,
    /// Tile width in pixels.
    pub tile_width: i32,
    /// Tile height in pixels.
    pub tile_height: i32,
}

/// What a tile source holds, as plain values.
pub struct TileSourceView {
    pub slug: Seq<char>,
    pub url_templates: Seq<Seq<char>>,
    pub token: Seq<char>,
    pub user_agent: Option<Seq<char>>,
    pub referer: Option<Seq<char>>,
    pub expire_override: Option<u16>,
    pub tile_width: i32,
    pub tile_height: i32,
}

impl View for TileSource {
    type V = TileSourceView;

    open spec fn view(&self) -> TileSourceView {
        TileSourceView {
            slug: self.slug@,
            url_templates: self.url_templates@.map_values(|s: String| s@),
            token: self.token@,
            user_agent: opt_str_view(self.user_agent),
            referer: opt_str_view(self.referer),
            expire_override: self.expire_override,
            tile_width: self.tile_width,
            tile_height: self.tile_height,
        }
    }
}

impl Clone for TileSource {
    fn clone(&self) -> (r: Self)
        ensures
            r@ == self@,
    {
        TileSource {
            slug: self.slug.clone(),
            url_templates: clone_strings(&self.url_templates),
            token: self.token.clone(),
            user_agent: clone_opt_string(&self.user_agent),
            referer: clone_opt_string(&self.referer),
            expire_override: self.expire_override,
            tile_width: self.tile_width,
            tile_height: self.tile_height,
        }
    }
}

impl TileSource {
    /// A tile source without user agent, referer or expiry override.
    pub fn new(
        slug: String,
        url_templates: Vec<String>,
        token: String,
        tile_width: i32,
        tile_height: i32,
    ) -> (r: TileSource)
        ensures
            r@ == (TileSourceView {
                slug: slug@,
                url_templates: url_templates@.map_values(|s: String| s@),
                token: token@,
                user_agent: None,
                referer: None,
                expire_override: None,
                tile_width,
                tile_height,
            }),
    {
        TileSource {
            slug,
            url_templates,
            token,
            user_agent: None,
            referer: None,
            expire_override: None,
            tile_width,
            tile_height,
        }
    }

    /// Adds a url template. The strings `${x}`, `${y}`, `${z}` and `${token}` in
    /// it are substituted when a url is made.
    pub fn add_url_template(&mut self, url_template: String)
        ensures
            final(self)@ == (TileSourceView {
                url_templates: old(self)@.url_templates.push(url_template@),
                ..old(self)@
            }),
    {
        self.url_templates.push(url_template);
        assert(self@.url_templates =~= old(self)@.url_templates.push(url_template@));
    }
}


/// The url text made of `template` for a tile at `(x, y)` on zoom level `z`:
/// `${x}`, `${y}`, `${z}` and `${token}` are substituted, in that order.
pub open spec fn expanded_template(
    template: Seq<char>,
    x: int,
    y: int,
    z: nat,
    token: Seq<char>,
) -> Seq<char> {
    replaced(
        replaced(
            replaced(replaced(template, seq!['$', '{', 'x', '}'], int_text(x)), seq!['$', '{', 'y', '}'], int_text(y)),
            seq!['$', '{', 'z', '}'],
            nat_text(z),
        ),
        seq!['$', '{', 't', 'o', 'k', 'e', 'n', '}'],
        token,
    )
}

/// Substitutes `${x}`, `${y}`, `${z}` and `${token}` in a url template, in
/// that order.
pub fn expand_url_template(template: &str, x: i32, y: i32, z: u8, token: &str) -> (r: String)
    ensures
        r@ == expanded_template(template@, x as int, y as int, z as nat, token@),
{
    let t = chars_of(template);
    let mut xs: Vec<char> = Vec::new();
    push_int(&mut xs, x as i64);
    let mut ys: Vec<char> = Vec::new();
    push_int(&mut ys, y as i64);
    let mut zs: Vec<char> = Vec::new();
    push_nat(&mut zs, z as u64);
    let tok = chars_of(token);
    assert(xs@ =~= int_text(x as int));
    assert(ys@ =~= int_text(y as int));
    assert(zs@ =~= nat_text(z as nat));
    let t1 = replace_all(&t, &vec!['$', '{', 'x', '}'], &xs);
    let t2 = replace_all(&t1, &vec!['$', '{', 'y', '}'], &ys);
    let t3 = replace_all(&t2, &vec!['$', '{', 'z', '}'], &zs);
    let t4 = replace_all(&t3, &vec!['$', '{', 't', 'o', 'k', 'e', 'n', '}'], &tok);
    string_of(&t4)
}

/// Text of the error made when a source has no url templates.
pub open spec fn no_urls_message(slug: Seq<char>) -> Seq<char> {
    seq!['N', 'o', ' ', 't', 'i', 'l', 'e', ' ', 'u', 'r', 'l', 's', ' ', 'd', 'e', 'f', 'i', 'n', 'e', 'd', ' ', 'f', 'o', 'r', ' ', 't', 'h', 'e', ' ', 't', 'i', 'l', 'e', ' ', 's', 'o', 'u', 'r', 'c', 'e', ' '] + slug
}

/// Prefix of the error made when a url does not parse.
pub open spec fn url_error_prefix() -> Seq<char> {
    seq!['T', 'i', 'l', 'e', ' ', 'u', 'r', 'l', ' ', 'c', 'r', 'e', 'a', 't', 'i', 'o', 'n', ' ', 'e', 'r', 'r', 'o', 'r', ':', ' ']
}

/// The url text of template `i` of `source` for the tile of `treq`.
pub open spec fn template_url(source: TileSourceView, treq: TileRequestView, i: int) -> Seq<char> {
    expanded_template(source.url_templates[i], treq.wrapped(), treq.y as int, treq.z as nat, source.token)
}

/// What parsing the url text `text` gives: the url's serialization and parts
/// when it parses, else an error message that starts with `url_error_prefix`.
pub open spec fn parsed_outcome(text: Seq<char>, r: Result<ParsedUrl, String>) -> bool {
    match r {
        Ok(p) => {
            &&& url_accepts(text)
            &&& p.text@ == url_text_of(text)
            &&& p.scheme@ == url_scheme_of(text)
            &&& opt_str_view(p.host) == url_host_of(text)
            &&& p.port == url_port_of(text)
        },
        Err(m) => !url_accepts(text) && url_error_prefix().is_prefix_of(m@),
    }
}

impl ParsedUrl {
    /// The url's serialization.
    pub fn as_str(&self) -> (r: &str)
        ensures
            r@ == self.text@,
    {
        self.text.as_str()
    }

    /// The url's scheme.
    pub fn scheme(&self) -> (r: &str)
        ensures
            r@ == self.scheme@,
    {
        self.scheme.as_str()
    }

    /// The url's host, if it has one.
    pub fn host_str(&self) -> (r: Option<&str>)
        ensures
            match r {
                Some(h) => self.host matches Some(x) && h@ == x@,
                None => self.host is None,
            },
    {
        match &self.host {
            Some(h) => Some(h.as_str()),
            None => None,
        }
    }
}

impl TileSource {
    /// A url for the request, made of one of the templates picked at random:
    /// the template's url text, parsed.
    pub fn make_url(&self, treq: &TileRequest) -> (r: Result<ParsedUrl, String>)
        requires
            treq@.valid(),
        ensures
            self@.url_templates.len() == 0 ==> (r matches Err(m) && m@ == no_urls_message(
                self@.slug,
            )),
            self@.url_templates.len() > 0 ==> exists|i: int|
                0 <= i < self@.url_templates.len() && parsed_outcome(
                    #[trigger] template_url(self@, treq@, i),
                    r,
                ),
    {
        if self.url_templates.len() > 0 {
            let index = random_usize() % self.url_templates.len();
            let ut = &self.url_templates[index];
            let text = expand_url_template(
                ut.as_str(),
                treq.wrap_x(),
                treq.y,
                treq.z,
                self.token.as_str(),
            );
            assert(text@ == template_url(self@, treq@, index as int));
            match parse_url(text.as_str()) {
                Ok(p) => Ok(p),
                Err(e) => {
                    let mut m: Vec<char> = Vec::new();
                    push_str(&mut m, "Tile url creation error: ");
                    proof {
                        reveal_strlit("Tile url creation error: ");
                    }
                    let detail = url_error_text(&e);
                    push_str(&mut m, detail.as_str());
                    let msg = string_of(&m);
                    assert(url_error_prefix() =~= msg@.subrange(0, url_error_prefix().len() as int));
                    Err(msg)
                },
            }
        } else {
            let mut m: Vec<char> = Vec::new();
            push_str(&mut m, "No tile urls defined for the tile source ");
            proof {
                reveal_strlit("No tile urls defined for the tile source ");
            }
            push_str(&mut m, self.slug.as_str());
            let msg = string_of(&m);
            assert(msg@ =~= no_urls_message(self@.slug));
            Err(msg)
        }
    }
}

} // verus!
