use vstd::prelude::*;
use vstd::arithmetic::power2::{pow2, lemma_pow2_pos, lemma_pow2_strictly_increases, lemma2_to64};
use vstd::arithmetic::div_mod::{lemma_mod_multiples_vanish, lemma_small_mod};
use vstd::bits::lemma_u32_shl_is_mul;
use crate::text::{
    nat_text, int_text, hex_text, zero_padded, push_nat, push_int, push_hex, push_str,
    string_of, nat_string, pad_zeros, lemma_int_text_lacks, lemma_nat_text_injective,
    lemma_int_text_injective, lemma_split_at_last,
};
use crate::paths::{path_joined, push_component, push_component_str};
use crate::tiles::source::{TileSource, TileSourceView};
use crate::tiles::tile::TileState;
use crate::foreign::path_exists;

verus! {

/// The source where a tile is expected to be retrieved.
#[derive(Copy, Clone, Debug, PartialEq, Eq, Structural)]
pub enum TileFetchMode {
    Remote,
    Any,
    Cache,
}

/// Position of a fetch mode in the request order.
pub open spec fn fetch_rank(m: TileFetchMode) -> int {
    match m {
        TileFetchMode::Remote => 0,
        TileFetchMode::Any => 1,
        TileFetchMode::Cache => 2,
    }
}

/// The cache key of the tile at zoom level `z`, row `y`, column `x` and
/// multiplier `mult` of the source `slug`: `slug/z/y/x@mult`.
pub open spec fn place_key(slug: Seq<char>, z: int, y: int, x: int, mult: int) -> Seq<char> {
    slug + seq!['/'] + nat_text(z as nat) + seq!['/'] + int_text(y) + seq!['/'] + int_text(x) + seq!['@']
        + nat_text(mult as nat)
}

/// A key names one place: two keys that are equal have the same zoom level,
/// row, column and multiplier, whatever the sources.
pub proof fn lemma_place_key_unique(
    s1: Seq<char>,
    z1: int,
    y1: int,
    x1: int,
    m1: int,
    s2: Seq<char>,
    z2: int,
    y2: int,
    x2: int,
    m2: int,
)
    requires
        0 <= z1,
        0 <= z2,
        0 <= m1,
        0 <= m2,
        place_key(s1, z1, y1, x1, m1) == place_key(s2, z2, y2, x2, m2),
    ensures
        z1 == z2,
        y1 == y2,
        x1 == x2,
        m1 == m2,
{
    lemma_int_text_lacks(m1, '@');
    lemma_int_text_lacks(m2, '@');
    lemma_int_text_lacks(x1, '/');
    lemma_int_text_lacks(x2, '/');
    lemma_int_text_lacks(y1, '/');
    lemma_int_text_lacks(y2, '/');
    lemma_int_text_lacks(z1, '/');
    lemma_int_text_lacks(z2, '/');
    let h1 = s1 + seq!['/'] + nat_text(z1 as nat) + seq!['/'] + int_text(y1) + seq!['/'] + int_text(x1);
    let h2 = s2 + seq!['/'] + nat_text(z2 as nat) + seq!['/'] + int_text(y2) + seq!['/'] + int_text(x2);
    lemma_split_at_last(h1, nat_text(m1 as nat), h2, nat_text(m2 as nat), '@');
    lemma_nat_text_injective(m1 as nat, m2 as nat);
    let g1 = s1 + seq!['/'] + nat_text(z1 as nat) + seq!['/'] + int_text(y1);
    let g2 = s2 + seq!['/'] + nat_text(z2 as nat) + seq!['/'] + int_text(y2);
    lemma_split_at_last(g1, int_text(x1), g2, int_text(x2), '/');
    lemma_int_text_injective(x1, x2);
    let f1 = s1 + seq!['/'] + nat_text(z1 as nat);
    let f2 = s2 + seq!['/'] + nat_text(z2 as nat);
    lemma_split_at_last(f1, int_text(y1), f2, int_text(y2), '/');
    lemma_int_text_injective(y1, y2);
    lemma_split_at_last(s1, nat_text(z1 as nat), s2, nat_text(z2 as nat), '/');
    lemma_nat_text_injective(z1 as nat, z2 as nat);
}

/// A request for one tile.
pub struct TileRequest {
    /// Request generation (a group of requests); first key of the queue order.
    pub generation: u64,
    /// Priority within the generation; second key of the queue order.
    pub priority: i64,
    /// X position.
    pub x: i32,
    /// Y position.
    pub y: i32,
    /// Zoom level.
    pub z: u8,
    /// High-dpi multiplier, usually 1.
    pub mult: u8,
    /// Source where the tile is loaded.
    pub source: TileSource,
    /// Where the tile may be taken from.
    pub tile_fetch_mode: TileFetchMode,
    /// Tile state to be set when fetching succeeds.
    pub tile_state_on_success: TileState,
    /// True for a request made in advance of need.
    pub precautionary: bool,
    /// Retries left; decreased at each retry.
    pub retry_count: Option<u8>,
}

/// What a tile request holds, as plain values.
pub struct TileRequestView {
    pub generation: u64,
    pub priority: i64,
    pub x: i32,
    pub y: i32,
    pub z: u8,
    pub mult: u8,
    pub source: TileSourceView,
    pub tile_fetch_mode: TileFetchMode,
    pub tile_state_on_success: TileState,
    pub precautionary: bool,
    pub retry_count: Option<u8>,
}

impl View for TileRequest {
    type V = TileRequestView;

    open spec fn view(&self) -> TileRequestView {
        TileRequestView {
            generation: self.generation,
            priority: self.priority,
            x: self.x,
            y: self.y,
            z: self.z,
            mult: self.mult,
            source: self.source@,
            tile_fetch_mode: self.tile_fetch_mode,
            tile_state_on_success: self.tile_state_on_success,
            precautionary: self.precautionary,
            retry_count: self.retry_count,
        }
    }
}

/// Number of tiles along one side of the world at zoom level `z`.
pub open spec fn side(z: nat) -> int {
    pow2(z) as int
}

/// Whether wrapping `x` at zoom level `z` stays within 32-bit arithmetic.
pub open spec fn wrap_ok(x: int, z: int) -> bool {
    z < 31 || (z == 31 && x >= 0)
}

/// `x` wrapped into `0 .. side(z)`.
pub open spec fn wrapped_x(x: int, z: nat) -> int {
    x % side(z)
}

/// Quotient of `a` by `b > 0`, rounded toward zero.
pub open spec fn div_toward_zero(a: int, b: int) -> int {
    if a >= 0 {
        a / b
    } else {
        -((-a) / b)
    }
}

/// Remainder of `a` by `b > 0` that has the sign of `a`.
pub open spec fn rem_toward_zero(a: int, b: int) -> int {
    if a >= 0 {
        a % b
    } else {
        -((-a) % b)
    }
}

impl TileRequestView {
    /// A request whose x position can be wrapped.
    pub open spec fn valid(self) -> bool {
        wrap_ok(self.x as int, self.z as int)
    }

    /// The x position wrapped into the world.
    pub open spec fn wrapped(self) -> int {
        wrapped_x(self.x as int, self.z as nat)
    }

    /// The cache key is the key of the request's place, with the wrapped x.
    pub proof fn lemma_key_is_place_key(self)
        ensures
            self.key_text() == place_key(
                self.source.slug,
                self.z as int,
                self.y as int,
                self.wrapped(),
                self.mult as int,
            ),
    {
    }

    /// The cache key: `slug/z/y/x@mult` with the wrapped x.
    pub open spec fn key_text(self) -> Seq<char> {
        self.source.slug + seq!['/'] + nat_text(self.z as nat) + seq!['/'] + int_text(
            self.y as int,
        ) + seq!['/'] + int_text(self.wrapped()) + seq!['@'] + nat_text(self.mult as nat)
    }

    /// The request one zoom level out.
    pub open spec fn zoomed_out(self) -> TileRequestView {
        TileRequestView {
            x: (self.wrapped() / 2) as i32,
            y: div_toward_zero(self.y as int, 2) as i32,
            z: (self.z - 1) as u8,
            tile_state_on_success: TileState::Ready,
            precautionary: false,
            retry_count: None,
            ..self
        }
    }

    /// Strictly before `other` in the queue order: generation, priority, zoom
    /// level, y, wrapped x and fetch mode, compared in that order.
    pub open spec fn before(self, other: TileRequestView) -> bool {
        ||| self.generation < other.generation
        ||| self.generation == other.generation && self.priority < other.priority
        ||| self.generation == other.generation && self.priority == other.priority && self.z
            < other.z
        ||| self.generation == other.generation && self.priority == other.priority && self.z
            == other.z && self.y < other.y
        ||| self.generation == other.generation && self.priority == other.priority && self.z
            == other.z && self.y == other.y && self.wrapped() < other.wrapped()
        ||| self.generation == other.generation && self.priority == other.priority && self.z
            == other.z && self.y == other.y && self.wrapped() == other.wrapped() && fetch_rank(
            self.tile_fetch_mode,
        ) < fetch_rank(other.tile_fetch_mode)
    }

    /// Equal in the queue order.
    pub open spec fn same_place(self, other: TileRequestView) -> bool {
        &&& self.generation == other.generation
        &&& self.priority == other.priority
        &&& self.z == other.z
        &&& self.y == other.y
        &&& self.wrapped() == other.wrapped()
        &&& fetch_rank(self.tile_fetch_mode) == fetch_rank(other.tile_fetch_mode)
    }
}

/// Name of a cache directory component taken from `name[from .. from + 2]`.
pub open spec fn pair_at(name: Seq<char>, from: int) -> Seq<char> {
    name.subrange(from, from + 2)
}

/// Joins the two-character components `name[0..2]`, `name[2..4]`, ... of `name`,
/// `count` of them, onto `base`.
pub open spec fn joined_pairs(base: Seq<char>, name: Seq<char>, count: nat) -> Seq<char>
    decreases count,
{
    if count == 0 {
        base
    } else {
        path_joined(joined_pairs(base, name, (count - 1) as nat), pair_at(name, (2 * (count - 1)) as int))
    }
}

impl TileRequestView {
    /// Directory of the tile in the disk cache rooted at `cache_dir`, and the
    /// tile file path in it. Beyond zoom level 8 the y and wrapped x in
    /// zero-padded hexadecimal are cut into two-character components.
    pub open spec fn cache_location(self, cache_dir: Seq<char>) -> (Seq<char>, Seq<char>) {
        let level = path_joined(
            path_joined(cache_dir, self.source.slug),
            zero_padded(nat_text(self.z as nat), 2),
        );
        let wx = self.wrapped();
        if self.z <= 4 {
            (
                level,
                path_joined(
                    level,
                    int_text(self.y as int) + seq![','] + int_text(wx),
                ),
            )
        } else if self.z <= 8 {
            let d = path_joined(level, int_text(self.y as int));
            (d, path_joined(d, int_text(self.x as int)))
        } else {
            let width: nat = if self.z <= 16 {
                4
            } else if self.z <= 24 {
                6
            } else {
                8
            };
            let dirs: nat = if self.z <= 16 {
                3
            } else if self.z <= 24 {
                5
            } else {
                7
            };
            let name = zero_padded(hex_text((self.y as u32) as nat), width) + zero_padded(
                hex_text((wx as u32) as nat),
                width,
            );
            let d = joined_pairs(level, name, dirs);
            (d, path_joined(d, pair_at(name, (2 * dirs) as int)))
        }
    }
}

/// `1 << z` in 32-bit arithmetic.
fn side_len(z: u8) -> (w: i32)
    requires
        z <= 31,
    ensures
        z < 31 ==> w == side(z as nat),
        z == 31 ==> w == i32::MIN,
{
    let w: i32 = 1i32 << z;
    let zz: u32 = z as u32;
    assert((1i32 << zz) as u32 == (1u32 << zz)) by (bit_vector)
        requires
            zz < 32,
    ;
    assert(w == 1i32 << zz);
    if z < 31 {
        proof { lemma_pow2_strictly_increases(z as nat, 31); }
        proof { lemma2_to64(); }
        proof { lemma_u32_shl_is_mul(1u32, zz); }
        assert((1u32 << zz) < 0x8000_0000);
        assert(w as int == (1u32 << zz) as int) by (bit_vector)
            requires
                w as u32 == (1u32 << zz),
                (1u32 << zz) < 0x8000_0000,
        ;
    } else {
        assert((1i32 << 31u32) == i32::MIN) by (bit_vector);
    }
    w
}

/// `1 << z` for a zoom level below 31.
pub fn tile_side(z: u8) -> (w: i32)
    requires
        z < 31,
    ensures
        w == side(z as nat),
        w > 0,
{
    proof { lemma_pow2_pos(z as nat); }
    side_len(z)
}

/// Text of a fetch mode in debugging text.
pub open spec fn fetch_mode_text(m: TileFetchMode) -> Seq<char> {
    match m {
        TileFetchMode::Any => seq![' ', 'f', 'r', 'o', 'm', '-', 'a', 'n', 'y'],
        TileFetchMode::Cache => seq![' ', 'f', 'r', 'o', 'm', '-', 'c', 'a', 'c', 'h', 'e'],
        TileFetchMode::Remote => seq![' ', 'f', 'r', 'o', 'm', '-', 'r', 'e', 'm', 'o', 't', 'e'],
    }
}

impl TileRequestView {
    /// Debugging text of a request: `{x,y Lz slug from-mode gen=g pri=p}` with
    /// the wrapped x.
    pub open spec fn debug_text(self) -> Seq<char> {
        seq!['{'] + int_text(self.wrapped()) + seq![','] + int_text(self.y as int) + seq![' ', 'L']
            + nat_text(self.z as nat) + seq![' '] + self.source.slug + fetch_mode_text(self.tile_fetch_mode)
            + seq![' ', 'g', 'e', 'n', '='] + nat_text(self.generation as nat) + seq![' ', 'p', 'r', 'i', '='] + int_text(self.priority as int) + seq!['}']
    }
}

impl TileRequest {
    /// A request fetching from any source that makes the tile ready.
    pub fn new(
        generation: u64,
        priority: i64,
        x: i32,
        y: i32,
        z: u8,
        mult: u8,
        source: TileSource,
    ) -> (r: TileRequest)
        ensures
            r@ == (TileRequestView {
                generation,
                priority,
                x,
                y,
                z,
                mult,
                source: source@,
                tile_fetch_mode: TileFetchMode::Any,
                tile_state_on_success: TileState::Ready,
                precautionary: false,
                retry_count: None,
            }),
    {
        TileRequest {
            generation,
            priority,
            x,
            y,
            z,
            mult,
            source,
            tile_fetch_mode: TileFetchMode::Any,
            tile_state_on_success: TileState::Ready,
            precautionary: false,
            retry_count: None,
        }
    }

    /// A copy of the request.
    pub fn duplicate(&self) -> (r: TileRequest)
        ensures
            r@ == self@,
    {
        TileRequest {
            generation: self.generation,
            priority: self.priority,
            x: self.x,
            y: self.y,
            z: self.z,
            mult: self.mult,
            source: self.source.clone(),
            tile_fetch_mode: self.tile_fetch_mode,
            tile_state_on_success: self.tile_state_on_success,
            precautionary: self.precautionary,
            retry_count: self.retry_count,
        }
    }

    /// Whether the request's x position can be wrapped, as `valid` says.
    pub fn is_valid(&self) -> (r: bool)
        ensures
            r == self@.valid(),
    {
        self.z < 31 || (self.z == 31 && self.x >= 0)
    }

    /// The x position wrapped into `0 .. 2^z` when it is out of bounds.
    pub fn wrap_x(&self) -> (r: i32)
        requires
            self@.valid(),
        ensures
            r == self@.wrapped(),
            0 <= r,
            self.z < 31 ==> r < side(self.z as nat),
    {
        let mut x = self.x;
        let w = side_len(self.z);
        if self.z == 31 {
            assert(self.x >= 0);
            proof { lemma_pow2_pos(31); }
            proof { lemma2_to64(); }
            proof { lemma_small_mod(self.x as nat, pow2(31)); }
            return x;
        }
        proof {
            lemma_pow2_pos(self.z as nat);
            lemma2_to64();
            if self.z < 30 {
                lemma_pow2_strictly_increases(self.z as nat, 30);
            }
        }
        let ghost k: int = 0;
        while x < 0
            invariant
                w == side(self.z as nat),
                w > 0,
                w <= 0x4000_0000,
                x as int == self.x as int + k * w,
                x >= self.x,
                k >= 0,
            decreases w - x,
        {
            x = x + w;
            proof {
                assert(self.x as int + (k + 1) * w == self.x as int + k * w + w) by (nonlinear_arith);
                k = k + 1;
            }
        }
        proof {
            lemma_mod_multiples_vanish(k, self.x as int, w as int);
        }
        if x >= w {
            x = x % w;
        } else {
            proof { lemma_small_mod(x as nat, w as nat); }
        }
        x
    }

    /// Debugging text of the request, as `debug_text` of its view says.
    pub fn debug_text(&self) -> (s: String)
        requires
            self@.valid(),
        ensures
            s@ == self@.debug_text(),
    {
        let mut v: Vec<char> = Vec::new();
        v.push('{');
        let wx = self.wrap_x();
        push_int(&mut v, wx as i64);
        v.push(',');
        push_int(&mut v, self.y as i64);
        v.push(' ');
        v.push('L');
        push_nat(&mut v, self.z as u64);
        v.push(' ');
        push_str(&mut v, self.source.slug.as_str());
        proof {
            reveal_strlit(" from-any");
            reveal_strlit(" from-cache");
            reveal_strlit(" from-remote");
            reveal_strlit(" gen=");
            reveal_strlit(" pri=");
            assert(" from-any"@ =~= seq![' ', 'f', 'r', 'o', 'm', '-', 'a', 'n', 'y']);
            assert(" from-cache"@ =~= seq![' ', 'f', 'r', 'o', 'm', '-', 'c', 'a', 'c', 'h', 'e']);
            assert(" from-remote"@ =~= seq![' ', 'f', 'r', 'o', 'm', '-', 'r', 'e', 'm', 'o', 't', 'e']);
            assert(" gen="@ =~= seq![' ', 'g', 'e', 'n', '=']);
            assert(" pri="@ =~= seq![' ', 'p', 'r', 'i', '=']);
        }
        match self.tile_fetch_mode {
            TileFetchMode::Any => push_str(&mut v, " from-any"),
            TileFetchMode::Cache => push_str(&mut v, " from-cache"),
            TileFetchMode::Remote => push_str(&mut v, " from-remote"),
        }
        push_str(&mut v, " gen=");
        push_nat(&mut v, self.generation);
        push_str(&mut v, " pri=");
        push_int(&mut v, self.priority);
        v.push('}');
        assert(v@ =~= self@.debug_text());
        string_of(&v)
    }

    /// The cache key `slug/z/y/x@mult`, with the wrapped x.
    pub fn to_key(&self) -> (key: String)
        requires
            self@.valid(),
        ensures
            key@ == self@.key_text(),
    {
        let mut v: Vec<char> = Vec::new();
        push_str(&mut v, self.source.slug.as_str());
        v.push('/');
        push_nat(&mut v, self.z as u64);
        v.push('/');
        push_int(&mut v, self.y as i64);
        v.push('/');
        let wx = self.wrap_x();
        push_int(&mut v, wx as i64);
        v.push('@');
        push_nat(&mut v, self.mult as u64);
        let key = string_of(&v);
        assert(key@ =~= self@.key_text());
        key
    }

    /// The request one zoom level out: x and y halved, fetch mode kept, the
    /// success state reset to `Ready`.
    pub fn zoom_out(&self) -> (r: TileRequest)
        requires
            self@.valid(),
            self.z > 0,
        ensures
            r@ == self@.zoomed_out(),
            r@.valid(),
    {
        let wx = self.wrap_x();
        TileRequest {
            generation: self.generation,
            priority: self.priority,
            x: wx / 2,
            y: self.y / 2,
            z: self.z - 1,
            mult: self.mult,
            source: self.source.clone(),
            tile_fetch_mode: self.tile_fetch_mode,
            tile_state_on_success: TileState::Ready,
            precautionary: false,
            retry_count: None,
        }
    }

    /// Position relative to `other` in the queue order: -1 before, 0 at the
    /// same place, 1 after.
    pub fn queue_order(&self, other: &TileRequest) -> (c: i8)
        requires
            self@.valid(),
            other@.valid(),
        ensures
            c == -1 <==> self@.before(other@),
            c == 0 <==> self@.same_place(other@),
            c == 1 <==> other@.before(self@),
            c == -1 || c == 0 || c == 1,
    {
        if self.generation != other.generation {
            return if self.generation < other.generation { -1 } else { 1 };
        }
        if self.priority != other.priority {
            return if self.priority < other.priority { -1 } else { 1 };
        }
        if self.z != other.z {
            return if self.z < other.z { -1 } else { 1 };
        }
        if self.y != other.y {
            return if self.y < other.y { -1 } else { 1 };
        }
        let a = self.wrap_x();
        let b = other.wrap_x();
        if a != b {
            return if a < b { -1 } else { 1 };
        }
        let ra: u8 = match self.tile_fetch_mode {
            TileFetchMode::Remote => 0,
            TileFetchMode::Any => 1,
            TileFetchMode::Cache => 2,
        };
        let rb: u8 = match other.tile_fetch_mode {
            TileFetchMode::Remote => 0,
            TileFetchMode::Any => 1,
            TileFetchMode::Cache => 2,
        };
        if ra < rb {
            -1
        } else if ra == rb {
            0
        } else {
            1
        }
    }

    /// True if the tile file exists in the disk cache rooted at
    /// `cache_directory`; false if not or if it cannot be accessed. The path
    /// asked about is the second part of `to_cache_path`.
    pub fn tile_exists_on_disk(&self, cache_directory: &str) -> bool
        requires
            self@.valid(),
    {
        let (_dir, path) = self.to_cache_path(cache_directory);
        path_exists(path.as_str())
    }

    /// Directory of the tile in the disk cache rooted at `cache_directory`, and
    /// the tile file path in it.
    pub fn to_cache_path(&self, cache_directory: &str) -> (r: (String, String))
        requires
            self@.valid(),
        ensures
            (r.0@, r.1@) == self@.cache_location(cache_directory@),
    {
        let mut p: Vec<char> = crate::text::chars_of(cache_directory);
        push_component_str(&mut p, self.source.slug.as_str());
        let zt = nat_string(self.z as u64);
        let zp = pad_zeros(&zt, 2);
        push_component(&mut p, &zp);
        let wx = self.wrap_x();
        let ghost spec_r = self@.cache_location(cache_directory@);
        if self.z <= 4 {
            let dir = string_of(&p);
            let mut name: Vec<char> = Vec::new();
            push_int(&mut name, self.y as i64);
            name.push(',');
            push_int(&mut name, wx as i64);
            push_component(&mut p, &name);
            assert(name@ =~= int_text(self.y as int) + seq![','] + int_text(wx as int));
            (dir, string_of(&p))
        } else if self.z <= 8 {
            let mut yt: Vec<char> = Vec::new();
            push_int(&mut yt, self.y as i64);
            assert(yt@ =~= int_text(self.y as int));
            push_component(&mut p, &yt);
            let dir = string_of(&p);
            let mut xt: Vec<char> = Vec::new();
            push_int(&mut xt, self.x as i64);
            assert(xt@ =~= int_text(self.x as int));
            push_component(&mut p, &xt);
            (dir, string_of(&p))
        } else {
            let width: usize = if self.z <= 16 {
                4
            } else if self.z <= 24 {
                6
            } else {
                8
            };
            let dirs: usize = if self.z <= 16 {
                3
            } else if self.z <= 24 {
                5
            } else {
                7
            };
            let mut yh: Vec<char> = Vec::new();
            push_hex(&mut yh, (self.y as u32) as u64);
            assert(yh@ =~= hex_text((self.y as u32) as nat));
            let mut xh: Vec<char> = Vec::new();
            push_hex(&mut xh, (wx as u32) as u64);
            assert(xh@ =~= hex_text((wx as u32) as nat));
            let mut name = pad_zeros(&yh, width);
            let xp = pad_zeros(&xh, width);
            crate::text::push_chars(&mut name, &xp);
            let ghost base = p@;
            assert(name@.len() >= 2 * width);
            let mut i: usize = 0;
            while i < dirs
                invariant
                    i <= dirs,
                    dirs <= 7,
                    name@.len() >= 2 * dirs + 2,
                    p@ == joined_pairs(base, name@, i as nat),
                decreases dirs - i,
            {
                let mut pair: Vec<char> = Vec::new();
                pair.push(name[2 * i]);
                pair.push(name[2 * i + 1]);
                assert(pair@ =~= pair_at(name@, 2 * i));
                push_component(&mut p, &pair);
                i = i + 1;
            }
            let dir = string_of(&p);
            let mut pair: Vec<char> = Vec::new();
            pair.push(name[2 * dirs]);
            pair.push(name[2 * dirs + 1]);
            assert(pair@ =~= pair_at(name@, 2 * dirs));
            push_component(&mut p, &pair);
            (dir, string_of(&p))
        }
    }
}

} // verus!
