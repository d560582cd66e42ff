use vstd::prelude::*;
use crate::clock::current_timestamp;
use crate::tiles::request::{
    TileRequest, TileRequestView, side, tile_side, div_toward_zero, rem_toward_zero,
};
use crate::tiles::source::str_view;
use crate::text::{int_text, nat_text, push_int, push_nat, push_str, string_of};

verus! {

/// Tile state.
#[derive(Copy, Clone, Debug, PartialEq, Eq, Structural)]
pub enum TileState {
    /// Without any real information or data.
    Void,
    /// Tile created and waiting for a worker to process it.
    Pending,
    /// Content ready for use.
    Ready,
    /// Content loading resulted in an irrecoverable error.
    Error,
    /// The tile doesn't exist on the source or the source doesn't exist.
    NonExistent,
    /// Tile source denied access.
    Unauthorized,
    /// Content was removed from memory but may be found on disk.
    Flushed,
}

/// Name of a tile state.
pub open spec fn state_name(s: TileState) -> Seq<char> {
    match s {
        TileState::Void => seq!['V', 'o', 'i', 'd'],
        TileState::Pending => seq!['P', 'e', 'n', 'd', 'i', 'n', 'g'],
        TileState::Ready => seq!['R', 'e', 'a', 'd', 'y'],
        TileState::Error => seq!['E', 'r', 'r', 'o', 'r'],
        TileState::NonExistent => seq!['N', 'o', 'n', 'E', 'x', 'i', 's', 't', 'e', 'n', 't'],
        TileState::Unauthorized => seq!['U', 'n', 'a', 'u', 't', 'h', 'o', 'r', 'i', 'z', 'e', 'd'],
        TileState::Flushed => seq!['F', 'l', 'u', 's', 'h', 'e', 'd'],
    }
}

/// Appends the name of the state `s` to `v`.
pub fn push_state_name(v: &mut Vec<char>, s: TileState)
    ensures
        final(v)@ == old(v)@ + state_name(s),
{
    match s {
        TileState::Void => {
            proof {
                reveal_strlit("Void");
                assert("Void"@ =~= seq!['V', 'o', 'i', 'd']);
            }
            push_str(v, "Void");
        },
        TileState::Pending => {
            proof {
                reveal_strlit("Pending");
                assert("Pending"@ =~= seq!['P', 'e', 'n', 'd', 'i', 'n', 'g']);
            }
            push_str(v, "Pending");
        },
        TileState::Ready => {
            proof {
                reveal_strlit("Ready");
                assert("Ready"@ =~= seq!['R', 'e', 'a', 'd', 'y']);
            }
            push_str(v, "Ready");
        },
        TileState::Error => {
            proof {
                reveal_strlit("Error");
                assert("Error"@ =~= seq!['E', 'r', 'r', 'o', 'r']);
            }
            push_str(v, "Error");
        },
        TileState::NonExistent => {
            proof {
                reveal_strlit("NonExistent");
                assert("NonExistent"@ =~= seq!['N', 'o', 'n', 'E', 'x', 'i', 's', 't', 'e', 'n', 't']);
            }
            push_str(v, "NonExistent");
        },
        TileState::Unauthorized => {
            proof {
                reveal_strlit("Unauthorized");
                assert("Unauthorized"@ =~= seq!['U', 'n', 'a', 'u', 't', 'h', 'o', 'r', 'i', 'z', 'e', 'd']);
            }
            push_str(v, "Unauthorized");
        },
        TileState::Flushed => {
            proof {
                reveal_strlit("Flushed");
                assert("Flushed"@ =~= seq!['F', 'l', 'u', 's', 'h', 'e', 'd']);
            }
            push_str(v, "Flushed");
        },
    }
}

/// Number of days until tiles expire when the server says nothing of it.
pub const DEFAULT_TILE_EXPIRE_DAYS: i64 = 7;

/// Seconds in a day.
pub const SECONDS_PER_DAY: i64 = 86400;

/// Pixel layout of an image surface.
#[derive(Copy, Clone, Debug, PartialEq, Eq, Structural)]
pub enum SurfaceFormat {
    /// 32 bits per pixel with alpha.
    ARgb32,
    /// 24 bits of colour in 32-bit pixels.
    Rgb24,
}

/// Bytes per row of an image surface of the given width: 32 bits per pixel,
/// rounded up to whole bytes and then to a multiple of four.
pub fn cairo_format_stride_for_width(format: SurfaceFormat, width: i32) -> (stride: i32)
    requires
        format == SurfaceFormat::ARgb32,
        1 <= width <= 67108863,
    ensures
        stride == 4 * width,
{
    let bpp: i32 = 32;
    let cairo_stride_alignment: i32 = 4;
    let bytes: i32 = (bpp * width + 7) / 8;
    assert(bytes == 4 * width);
    let padded: i32 = bytes + (cairo_stride_alignment - 1);
    let stride: i32 = padded & -cairo_stride_alignment;
    assert((padded & -4i32) == padded - 3) by (bit_vector)
        requires
            padded == 4 * width + 3,
            1 <= width <= 67108863,
    ;
    stride
}

/// What a tile shows: how its image is to be painted.
pub enum TileSurface {
    /// Decoded pixel data, four bytes per pixel, `stride` bytes per row.
    Bitmap { data: Vec<u8>, width: i32, height: i32, stride: i32 },
    /// One colour, each component in tenths of full intensity.
    Fill { red: u8, green: u8, blue: u8, width: i32, height: i32 },
    /// The `source` image scaled up `scale` times and shifted by the offsets.
    Zoomed {
        source: Box<TileSurface>,
        scale: i32,
        offset_x: i32,
        offset_y: i32,
        width: i32,
        height: i32,
    },
}

/// What a tile surface holds, as plain values.
pub enum SurfaceView {
    Bitmap { data: Seq<u8>, width: i32, height: i32, stride: i32 },
    Fill { red: u8, green: u8, blue: u8, width: i32, height: i32 },
    Zoomed {
        source: Box<SurfaceView>,
        scale: i32,
        offset_x: i32,
        offset_y: i32,
        width: i32,
        height: i32,
    },
}

/// The plain values of a surface.
pub open spec fn surface_view(s: TileSurface) -> SurfaceView
    decreases s,
{
    match s {
        TileSurface::Bitmap { data, width, height, stride } => SurfaceView::Bitmap {
            data: data@,
            width,
            height,
            stride,
        },
        TileSurface::Fill { red, green, blue, width, height } => SurfaceView::Fill {
            red,
            green,
            blue,
            width,
            height,
        },
        TileSurface::Zoomed { source, scale, offset_x, offset_y, width, height } => {
            SurfaceView::Zoomed {
                source: Box::new(surface_view(*source)),
                scale,
                offset_x,
                offset_y,
                width,
                height,
            }
        },
    }
}

impl View for TileSurface {
    type V = SurfaceView;

    open spec fn view(&self) -> SurfaceView {
        surface_view(*self)
    }
}

/// A copy of a vector of bytes.
pub fn clone_bytes(v: &Vec<u8>) -> (r: Vec<u8>)
    ensures
        r@ == v@,
{
    let mut r: Vec<u8> = Vec::new();
    let mut i: usize = 0;
    while i < v.len()
        invariant
            i <= v.len(),
            r@ == v@.subrange(0, i as int),
        decreases v.len() - i,
    {
        r.push(v[i]);
        i = i + 1;
        assert(r@ =~= v@.subrange(0, i as int));
    }
    assert(r@ =~= v@);
    r
}

impl TileSurface {
    /// A copy of the surface.
    pub fn duplicate(&self) -> (r: TileSurface)
        ensures
            r@ == self@,
        decreases self,
    {
        match self {
            TileSurface::Bitmap { data, width, height, stride } => TileSurface::Bitmap {
                data: clone_bytes(data),
                width: *width,
                height: *height,
                stride: *stride,
            },
            TileSurface::Fill { red, green, blue, width, height } => TileSurface::Fill {
                red: *red,
                green: *green,
                blue: *blue,
                width: *width,
                height: *height,
            },
            TileSurface::Zoomed { source, scale, offset_x, offset_y, width, height } => {
                let inner: &TileSurface = source;
                TileSurface::Zoomed {
                    source: Box::new(inner.duplicate()),
                    scale: *scale,
                    offset_x: *offset_x,
                    offset_y: *offset_y,
                    width: *width,
                    height: *height,
                }
            },
        }
    }
}

/// An optional surface seen as plain values.
pub open spec fn opt_surface_view(s: Option<TileSurface>) -> Option<SurfaceView> {
    match s {
        Some(t) => Some(t@),
        None => None,
    }
}

/// Optional bytes seen as plain values.
pub open spec fn opt_bytes_view(d: Option<Vec<u8>>) -> Option<Seq<u8>> {
    match d {
        Some(v) => Some(v@),
        None => None,
    }
}

/// Map tile which can always be drawn.
pub struct Tile {
    /// State of the tile.
    pub state: TileState,
    x: i32,
    y: i32,
    z: u8,
    mult: u8,
    width: i32,
    height: i32,
    /// Time when the tile was needed, in seconds since the Unix epoch.
    access_time: i64,
    /// Time when the tile expires, in seconds since the Unix epoch.
    expire_time: i64,
    /// Decoded pixel data not yet made into a surface.
    data: Option<Vec<u8>>,
    /// What is painted for the tile.
    surface: Option<TileSurface>,
    /// True if the surface stands in until the actual data is loaded.
    surface_is_temporary: bool,
    /// Path of the tile file in the disk cache.
    filepath: Option<String>,
    /// Image file size on disk.
    disk_usage: i64,
}

/// What a tile holds, as plain values.
pub struct TileView {
    pub state: TileState,
    pub x: i32,
    pub y: i32,
    pub z: u8,
    pub mult: u8,
    pub width: i32,
    pub height: i32,
    pub access_time: i64,
    pub expire_time: i64,
    pub data: Option<Seq<u8>>,
    pub surface: Option<SurfaceView>,
    pub surface_is_temporary: bool,
    pub filepath: Option<Seq<char>>,
    pub disk_usage: i64,
}

impl View for Tile {
    type V = TileView;

    closed spec fn view(&self) -> TileView {
        TileView {
            state: self.state,
            x: self.x,
            y: self.y,
            z: self.z,
            mult: self.mult,
            width: self.width,
            height: self.height,
            access_time: self.access_time,
            expire_time: self.expire_time,
            data: opt_bytes_view(self.data),
            surface: opt_surface_view(self.surface),
            surface_is_temporary: self.surface_is_temporary,
            filepath: match self.filepath {
                Some(p) => Some(p@),
                None => None,
            },
            disk_usage: self.disk_usage,
        }
    }
}

/// Seconds until a tile expires when the server says nothing of it.
pub open spec fn default_expiry() -> int {
    DEFAULT_TILE_EXPIRE_DAYS * SECONDS_PER_DAY
}

/// A pending tile for the request, needed at `now`, without data or surface.
pub open spec fn fresh_tile(treq: TileRequestView, now: int) -> TileView {
    TileView {
        state: TileState::Pending,
        x: treq.wrapped() as i32,
        y: treq.y,
        z: treq.z,
        mult: treq.mult,
        width: treq.source.tile_width,
        height: treq.source.tile_height,
        access_time: now as i64,
        expire_time: (now + default_expiry()) as i64,
        data: None,
        surface: None,
        surface_is_temporary: false,
        filepath: None,
        disk_usage: 0,
    }
}

/// A one-colour surface of the given size.
pub open spec fn fill(red: u8, green: u8, blue: u8, width: i32, height: i32) -> SurfaceView {
    SurfaceView::Fill { red, green, blue, width, height }
}

/// A pending tile for the request, needed at `now`, painted in one colour as a
/// stand-in, with its path in the disk cache rooted at `cache_dir`.
pub open spec fn colored_tile(
    treq: TileRequestView,
    red: u8,
    green: u8,
    blue: u8,
    now: int,
    cache_dir: Seq<char>,
) -> TileView {
    TileView {
        state: TileState::Pending,
        x: treq.wrapped() as i32,
        y: treq.y,
        z: treq.z,
        mult: treq.mult,
        width: treq.source.tile_width,
        height: treq.source.tile_height,
        access_time: now as i64,
        expire_time: (now + default_expiry()) as i64,
        data: None,
        surface: Some(
            fill(red, green, blue, treq.source.tile_width, treq.source.tile_height),
        ),
        surface_is_temporary: true,
        filepath: Some(treq.cache_location(cache_dir).1),
        disk_usage: 0,
    }
}

/// Zoom levels between a tile and the request it is zoomed into.
pub open spec fn zoom_gap(tile: TileView, treq: TileRequestView) -> nat {
    (treq.z - tile.z) as nat
}

/// Whether the offsets of zooming `tile` into `treq` stay within 32-bit
/// arithmetic.
pub open spec fn zoom_in_ok(tile: TileView, treq: TileRequestView) -> bool {
    let q2 = side(zoom_gap(tile, treq));
    &&& tile.z < treq.z
    &&& treq.z - tile.z <= 30
    &&& tile.width > i32::MIN
    &&& tile.height > i32::MIN
    &&& i32::MIN <= -tile.width * rem_toward_zero(treq.x as int, q2) <= i32::MAX
    &&& i32::MIN <= -tile.height * rem_toward_zero(treq.y as int, q2) <= i32::MAX
}

/// `tile` scaled and cropped into the place of `treq`: a temporary stand-in
/// that expires at `now`.
pub open spec fn zoomed_tile(tile: TileView, treq: TileRequestView, now: int) -> TileView {
    let q2 = side(zoom_gap(tile, treq));
    TileView {
        state: TileState::Pending,
        x: treq.wrapped() as i32,
        y: treq.y,
        z: treq.z,
        mult: treq.mult,
        width: tile.width,
        height: tile.height,
        access_time: now as i64,
        expire_time: now as i64,
        data: None,
        surface: Some(
            match tile.surface {
                Some(s) => SurfaceView::Zoomed {
                    source: Box::new(s),
                    scale: q2 as i32,
                    offset_x: div_toward_zero(
                        -tile.width * rem_toward_zero(treq.x as int, q2),
                        q2,
                    ) as i32,
                    offset_y: div_toward_zero(
                        -tile.height * rem_toward_zero(treq.y as int, q2),
                        q2,
                    ) as i32,
                    width: tile.width,
                    height: tile.height,
                },
                None => fill(0, 0, 8, tile.width, tile.height),
            },
        ),
        surface_is_temporary: true,
        filepath: None,
        disk_usage: 0,
    }
}

/// What a tile holds for painting: a surface (temporary or not), data, or
/// nothing.
pub open spec fn data_state_text(t: TileView) -> Seq<char> {
    if t.surface is Some {
        if t.surface_is_temporary {
            seq!['s', 'u', 'r', 'f', 'a', 'c', 'e', '(', 't', 'm', 'p', ')']
        } else {
            seq!['s', 'u', 'r', 'f', 'a', 'c', 'e']
        }
    } else if t.data is Some {
        seq!['d', 'a', 't', 'a']
    } else {
        seq!['e', 'm', 'p', 't', 'y']
    }
}

/// Debugging text of a tile: `{x,y Lz widthxheight contents [state]}`.
pub open spec fn tile_text(t: TileView) -> Seq<char> {
    seq!['{'] + int_text(t.x as int) + seq![','] + int_text(t.y as int) + seq![' ', 'L'] + nat_text(
        t.z as nat,
    ) + seq![' '] + int_text(t.width as int) + seq!['x'] + int_text(t.height as int) + seq![' ']
        + data_state_text(t) + seq![' ', '['] + state_name(t.state) + seq![']', '}']
}

impl TileView {
    /// The tile has its surface and what `get_surface` converts, drawn at
    /// width `w` if it converts.
    pub open spec fn needs_conversion(self) -> bool {
        self.surface is None || (self.surface_is_temporary && self.data is Some)
    }

    /// After a call of `get_surface`.
    pub open spec fn surfaced(self) -> TileView {
        if self.needs_conversion() && self.data is Some {
            TileView {
                data: None,
                surface: Some(
                    SurfaceView::Bitmap {
                        data: self.data->0,
                        width: self.width,
                        height: self.height,
                        stride: (4 * self.width) as i32,
                    },
                ),
                surface_is_temporary: false,
                ..self
            }
        } else {
            self
        }
    }

    /// After a flush: data and surface dropped, state `Flushed`.
    pub open spec fn flushed(self) -> TileView {
        TileView {
            data: None,
            surface: None,
            surface_is_temporary: false,
            state: TileState::Flushed,
            ..self
        }
    }

    /// Bytes the tile holds besides the tile structure itself: its data and,
    /// for a surface that is not temporary, four bytes per pixel.
    pub open spec fn payload_bytes(self) -> int {
        (match self.data {
            Some(d) => d.len() as int,
            None => 0,
        }) + (if self.surface is Some && !self.surface_is_temporary {
            self.width * self.height * 4
        } else {
            0
        })
    }
}

impl Tile {
    /// A copy of the tile.
    pub fn duplicate(&self) -> (r: Tile)
        ensures
            r@ == self@,
    {
        Tile {
            state: self.state,
            x: self.x,
            y: self.y,
            z: self.z,
            mult: self.mult,
            width: self.width,
            height: self.height,
            access_time: self.access_time,
            expire_time: self.expire_time,
            data: match &self.data {
                Some(d) => Some(clone_bytes(d)),
                None => None,
            },
            surface: match &self.surface {
                Some(s) => Some(s.duplicate()),
                None => None,
            },
            surface_is_temporary: self.surface_is_temporary,
            filepath: match &self.filepath {
                Some(p) => Some(p.clone()),
                None => None,
            },
            disk_usage: self.disk_usage,
        }
    }

    /// A pending tile for the request, needed at `now`.
    pub fn new_with_request_at(treq: &TileRequest, now: i64) -> (t: Tile)
        requires
            treq@.valid(),
            now <= i64::MAX - default_expiry(),
        ensures
            t@ == fresh_tile(treq@, now as int),
    {
        Tile {
            state: TileState::Pending,
            x: treq.wrap_x(),
            y: treq.y,
            z: treq.z,
            mult: treq.mult,
            width: treq.source.tile_width,
            height: treq.source.tile_height,
            access_time: now,
            expire_time: now + DEFAULT_TILE_EXPIRE_DAYS * SECONDS_PER_DAY,
            data: None,
            surface: None,
            surface_is_temporary: false,
            filepath: None,
            disk_usage: 0,
        }
    }

    /// A pending tile for the request, needed now.
    pub fn new_with_request(treq: &TileRequest) -> (t: Tile)
        requires
            treq@.valid(),
        ensures
            exists|now: int| -0x800_0000_0000 < now < 0x800_0000_0000 && t@ == fresh_tile(treq@, now),
    {
        let now = current_timestamp();
        Tile::new_with_request_at(treq, now)
    }

    /// A pending tile for the request, needed at `now`, painted in one colour
    /// (components in tenths) as a temporary stand-in.
    pub fn new_with_color_at(
        treq: &TileRequest,
        red: u8,
        green: u8,
        blue: u8,
        now: i64,
        cache_directory: &str,
    ) -> (t: Tile)
        requires
            treq@.valid(),
            now <= i64::MAX - default_expiry(),
        ensures
            t@ == colored_tile(treq@, red, green, blue, now as int, cache_directory@),
    {
        let (_dir, path) = treq.to_cache_path(cache_directory);
        let mut tile = Tile {
            state: TileState::Pending,
            x: treq.wrap_x(),
            y: treq.y,
            z: treq.z,
            mult: treq.mult,
            width: treq.source.tile_width,
            height: treq.source.tile_height,
            access_time: now,
            expire_time: now + DEFAULT_TILE_EXPIRE_DAYS * SECONDS_PER_DAY,
            data: None,
            surface: None,
            surface_is_temporary: false,
            filepath: Some(path),
            disk_usage: 0,
        };
        tile.paint_with_color(red, green, blue);
        tile.surface_is_temporary = true;
        tile
    }

    /// Paints the whole tile in one colour, components in tenths.
    pub fn paint_with_color(&mut self, red: u8, green: u8, blue: u8)
        ensures
            final(self)@ == (TileView {
                surface: Some(fill(red, green, blue, old(self)@.width, old(self)@.height)),
                ..old(self)@
            }),
    {
        self.surface = Some(
            TileSurface::Fill { red, green, blue, width: self.width, height: self.height },
        );
    }

    pub fn x(&self) -> (r: i32)
        ensures
            r == self@.x,
    {
        self.x
    }

    pub fn y(&self) -> (r: i32)
        ensures
            r == self@.y,
    {
        self.y
    }

    pub fn z(&self) -> (r: u8)
        ensures
            r == self@.z,
    {
        self.z
    }

    pub fn mult(&self) -> (r: u8)
        ensures
            r == self@.mult,
    {
        self.mult
    }

    pub fn width(&self) -> (r: i32)
        ensures
            r == self@.width,
    {
        self.width
    }

    pub fn height(&self) -> (r: i32)
        ensures
            r == self@.height,
    {
        self.height
    }

    /// A tile as stored with the cache state: its state, place, size, times,
    /// file path and disk usage, without data or surface.
    pub fn from_stored(
        state: TileState,
        x: i32,
        y: i32,
        z: u8,
        mult: u8,
        width: i32,
        height: i32,
        access_time: i64,
        expire_time: i64,
        filepath: Option<String>,
        disk_usage: i64,
    ) -> (t: Tile)
        ensures
            t@ == (TileView {
                state,
                x,
                y,
                z,
                mult,
                width,
                height,
                access_time,
                expire_time,
                data: None,
                surface: None,
                surface_is_temporary: false,
                filepath: match filepath {
                    Some(p) => Some(p@),
                    None => None,
                },
                disk_usage,
            }),
    {
        Tile {
            state,
            x,
            y,
            z,
            mult,
            width,
            height,
            access_time,
            expire_time,
            data: None,
            surface: None,
            surface_is_temporary: false,
            filepath,
            disk_usage,
        }
    }

    /// When the tile expires, in seconds since the Unix epoch.
    pub fn expire_time(&self) -> (r: i64)
        ensures
            r == self@.expire_time,
    {
        self.expire_time
    }

    /// When the tile was last accessed, in seconds since the Unix epoch.
    pub fn access_time(&self) -> (r: i64)
        ensures
            r == self@.access_time,
    {
        self.access_time
    }

    /// The disk cache path of the tile file, if known.
    pub fn filepath(&self) -> (r: Option<String>)
        ensures
            match r {
                Some(p) => self@.filepath == Some(p@),
                None => self@.filepath is None,
            },
    {
        match &self.filepath {
            Some(p) => Some(p.clone()),
            None => None,
        }
    }

    /// State of the tile.
    pub fn state(&self) -> (r: TileState)
        ensures
            r == self@.state,
    {
        self.state
    }

    /// Sets the state of the tile.
    pub fn set_state(&mut self, state: TileState)
        ensures
            final(self)@ == (TileView { state, ..old(self)@ }),
    {
        self.state = state;
    }

    /// Takes on fetched image data: the state, the data, its size, the expiry
    /// time when known, the disk cache path and the disk usage.
    pub fn assign_fetched(
        &mut self,
        state: TileState,
        data: Vec<u8>,
        width: i32,
        height: i32,
        expire_time: Option<i64>,
        filepath: String,
        disk_usage: i64,
    )
        ensures
            final(self)@ == (TileView {
                state,
                data: Some(data@),
                width,
                height,
                expire_time: match expire_time {
                    Some(t) => t,
                    None => old(self)@.expire_time,
                },
                filepath: Some(filepath@),
                disk_usage,
                ..old(self)@
            }),
    {
        self.state = state;
        self.data = Some(data);
        self.width = width;
        self.height = height;
        self.expire_time = match expire_time {
            Some(t) => t,
            None => self.expire_time,
        };
        self.filepath = Some(filepath);
        self.disk_usage = disk_usage;
    }

    /// Marks the tile flushed, with a black stand-in surface of the given size.
    pub fn mark_restored(&mut self, width: i32, height: i32)
        ensures
            final(self)@ == (TileView {
                state: TileState::Flushed,
                surface: Some(fill(0, 0, 0, width, height)),
                surface_is_temporary: true,
                ..old(self)@
            }),
    {
        self.state = TileState::Flushed;
        self.surface = Some(TileSurface::Fill { red: 0, green: 0, blue: 0, width, height });
        self.surface_is_temporary = true;
    }

    /// Whether the tile has a surface that is not a temporary stand-in.
    pub fn has_lasting_surface(&self) -> (r: bool)
        ensures
            r == (self@.surface is Some && !self@.surface_is_temporary),
    {
        self.surface.is_some() && !self.surface_is_temporary
    }

    /// Disk usage of the tile file in bytes.
    pub fn disk_usage(&self) -> (r: i64)
        ensures
            r == self@.disk_usage,
    {
        self.disk_usage
    }

    /// Whether the tile has expired at `now`.
    pub fn is_expired_at(&self, now: i64) -> (r: bool)
        ensures
            r == (self@.expire_time < now),
    {
        self.expire_time < now
    }

    /// Whether the tile has expired.
    pub fn is_expired(&self) -> (r: bool)
        ensures
            r ==> self@.expire_time < 0x800_0000_0000 - 1,
            !r ==> self@.expire_time > -0x800_0000_0000,
    {
        let now = current_timestamp();
        self.is_expired_at(now)
    }

    /// The surface to paint, converting pending data into a bitmap when there
    /// is no surface or only a temporary one.
    pub fn get_surface(&mut self) -> (r: Option<&TileSurface>)
        requires
            old(self)@.needs_conversion() && old(self)@.data is Some ==> 1 <= old(self)@.width
                <= 67108863,
        ensures
            final(self)@ == old(self)@.surfaced(),
            old(self)@.needs_conversion() && old(self)@.data is None ==> r is None,
            !(old(self)@.needs_conversion() && old(self)@.data is None) ==> r is Some
                && final(self)@.surface == Some(r->0@),
    {
        if self.surface.is_none() || (self.surface_is_temporary && self.data.is_some()) {
            match self.data.take() {
                Some(data) => {
                    let stride = cairo_format_stride_for_width(SurfaceFormat::ARgb32, self.width);
                    self.surface = Some(
                        TileSurface::Bitmap {
                            data,
                            width: self.width,
                            height: self.height,
                            stride,
                        },
                    );
                    self.surface_is_temporary = false;
                },
                None => {
                    return None;
                },
            }
        }
        self.surface.as_ref()
    }

    /// This tile scaled and cropped into the place of `treq`, as a temporary
    /// stand-in needed and expiring at `now`.
    pub fn zoom_in(&self, treq: &TileRequest, now: i64) -> (t: Tile)
        requires
            treq@.valid(),
            zoom_in_ok(self@, treq@),
        ensures
            t@ == zoomed_tile(self@, treq@, now as int),
    {
        let q2 = tile_side(treq.z - self.z);
        let rx = treq.x % q2;
        let ry = treq.y % q2;
        assert(rx == rem_toward_zero(treq.x as int, q2 as int));
        assert(ry == rem_toward_zero(treq.y as int, q2 as int));
        let offset_x = -self.width * rx / q2;
        let offset_y = -self.height * ry / q2;
        assert(offset_x == div_toward_zero(-self.width * rx, q2 as int));
        assert(offset_y == div_toward_zero(-self.height * ry, q2 as int));
        let surface = match &self.surface {
            Some(s) => TileSurface::Zoomed {
                source: Box::new(s.duplicate()),
                scale: q2,
                offset_x,
                offset_y,
                width: self.width,
                height: self.height,
            },
            None => TileSurface::Fill {
                red: 0,
                green: 0,
                blue: 8,
                width: self.width,
                height: self.height,
            },
        };
        let x = treq.wrap_x();
        Tile {
            state: TileState::Pending,
            x,
            y: treq.y,
            z: treq.z,
            mult: treq.mult,
            width: self.width,
            height: self.height,
            access_time: now,
            expire_time: now,
            data: None,
            surface: Some(surface),
            surface_is_temporary: true,
            filepath: None,
            disk_usage: 0,
        }
    }

    /// Appends what the tile holds for painting, as `data_state_text` says.
    fn push_data_state(&self, v: &mut Vec<char>)
        ensures
            final(v)@ == old(v)@ + data_state_text(self@),
    {
        proof {
            reveal_strlit("surface(tmp)");
            reveal_strlit("surface");
            reveal_strlit("data");
            reveal_strlit("empty");
            assert("surface(tmp)"@ =~= seq!['s', 'u', 'r', 'f', 'a', 'c', 'e', '(', 't', 'm', 'p', ')']);
            assert("surface"@ =~= seq!['s', 'u', 'r', 'f', 'a', 'c', 'e']);
            assert("data"@ =~= seq!['d', 'a', 't', 'a']);
            assert("empty"@ =~= seq!['e', 'm', 'p', 't', 'y']);
        }
        if self.surface.is_some() {
            if self.surface_is_temporary {
                push_str(v, "surface(tmp)");
            } else {
                push_str(v, "surface");
            }
        } else if self.data.is_some() {
            push_str(v, "data");
        } else {
            push_str(v, "empty");
        }
    }

    /// Debugging text of the tile, as `tile_text` says.
    pub fn debug_text(&self) -> (s: String)
        ensures
            s@ == tile_text(self@),
    {
        let mut v: Vec<char> = Vec::new();
        v.push('{');
        push_int(&mut v, self.x as i64);
        v.push(',');
        push_int(&mut v, self.y as i64);
        v.push(' ');
        v.push('L');
        push_nat(&mut v, self.z as u64);
        v.push(' ');
        push_int(&mut v, self.width as i64);
        v.push('x');
        push_int(&mut v, self.height as i64);
        v.push(' ');
        let ghost head = v@;
        self.push_data_state(&mut v);
        v.push(' ');
        v.push('[');
        push_state_name(&mut v, self.state);
        v.push(']');
        v.push('}');
        assert(v@ =~= head + data_state_text(self@) + seq![' ', '['] + state_name(self@.state) + seq![']', '}']);
        assert(v@ =~= tile_text(self@));
        string_of(&v)
    }

    /// Estimated memory use of the tile in bytes: the tile structure, its data
    /// and, for a surface that is not temporary, four bytes per pixel.
    pub fn estimate_mem_usage(&self) -> (u: isize)
        requires
            self@.surface is Some && !self@.surface_is_temporary ==> i32::MIN <= self@.width
                * self@.height * 4 <= i32::MAX,
            vstd::layout::size_of::<Tile>() + (match self@.data {
                Some(d) => d.len() as int,
                None => 0,
            }) <= isize::MAX,
            isize::MIN <= vstd::layout::size_of::<Tile>() + self@.payload_bytes() <= isize::MAX,
        ensures
            u == vstd::layout::size_of::<Tile>() + self@.payload_bytes(),
    {
        let base: usize = std::mem::size_of::<Tile>();
        let mut u: isize = base as isize;
        if let Some(data) = &self.data {
            u = u + data.len() as isize;
        }
        if self.surface.is_some() && !self.surface_is_temporary {
            u = u + (self.width * self.height * 4) as isize;
        }
        u
    }

    /// True if flushing reduces memory use.
    pub fn flushable(&self) -> (r: bool)
        ensures
            r == (self@.data is Some || self@.surface is Some),
    {
        self.data.is_some() || self.surface.is_some()
    }

    /// Removes the cached tile data from memory.
    pub fn flush(&mut self)
        ensures
            final(self)@ == old(self)@.flushed(),
    {
        self.data = None;
        self.surface = None;
        self.surface_is_temporary = false;
        self.state = TileState::Flushed;
    }
}

/// How two times are ordered: -1 when `a` comes before `b`, 0 when they are
/// equal, 1 when `a` comes after `b`.
pub open spec fn time_order(a: i64, b: i64) -> i8 {
    if a < b {
        -1i8
    } else if a == b {
        0i8
    } else {
        1i8
    }
}

/// A tile key with the time by which tiles are ordered when the cache is
/// flushed.
pub struct TileOrd {
    pub key: String,
    pub datetime: i64,
}

impl TileOrd {
    /// The key with the tile's access time.
    pub fn new_with_access_time(tile_key: &String, tile: &Tile) -> (r: TileOrd)
        ensures
            r.key@ == tile_key@,
            r.datetime == tile@.access_time,
    {
        TileOrd { key: tile_key.clone(), datetime: tile.access_time }
    }

    /// The key with the tile's expiry time.
    pub fn new_with_expire_time(tile_key: &String, tile: &Tile) -> (r: TileOrd)
        ensures
            r.key@ == tile_key@,
            r.datetime == tile@.expire_time,
    {
        TileOrd { key: tile_key.clone(), datetime: tile.expire_time }
    }

    /// How the two are ordered: by their times alone, earlier first.
    pub fn compare(&self, other: &TileOrd) -> (r: i8)
        ensures
            r == time_order(self.datetime, other.datetime),
    {
        if self.datetime < other.datetime {
            -1
        } else if self.datetime == other.datetime {
            0
        } else {
            1
        }
    }

    /// Whether the two have the same time; the keys are not compared.
    pub fn same_time(&self, other: &TileOrd) -> (r: bool)
        ensures
            r == (self.datetime == other.datetime),
    {
        self.datetime == other.datetime
    }
}

} // verus!
