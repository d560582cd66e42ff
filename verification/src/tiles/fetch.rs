use vstd::prelude::*;
use vstd::arithmetic::div_mod::lemma_mod_multiples_basic;
use crate::clock::current_timestamp;
use crate::foreign::{decode_rgba, decoded_rgba};
use crate::text::{push_str, string_of};
use crate::tiles::request::{TileRequest, TileRequestView};
use crate::tiles::tile::{default_expiry, DEFAULT_TILE_EXPIRE_DAYS, SECONDS_PER_DAY};

verus! {

/// Result codes of tile fetches.
#[derive(Copy, Clone, Debug, PartialEq, Eq, Structural)]
pub enum TileRequestResultCode {
    Success,
    TransmissionError,
    NotFoundError,
    NoSourceError,
    UnauthorizedError,
    UnknownError,
}

/// RGBA pixel bytes reordered to BGRA: the first and third byte of each
/// four-byte pixel swapped.
pub open spec fn bgra_of(rgba: Seq<u8>) -> Seq<u8> {
    Seq::new(
        rgba.len(),
        |i: int|
            if i % 4 == 0 {
                rgba[i + 2]
            } else if i % 4 == 2 {
                rgba[i - 2]
            } else {
                rgba[i]
            },
    )
}

/// Swaps the first and third byte of each four-byte pixel.
pub fn swap_red_blue(buf: &mut Vec<u8>)
    requires
        old(buf)@.len() % 4 == 0,
    ensures
        final(buf)@ == bgra_of(old(buf)@),
{
    let n = buf.len();
    let mut i: usize = 0;
    while i < n
        invariant
            n == buf@.len(),
            n == old(buf)@.len(),
            n % 4 == 0,
            i <= n,
            forall|k: int| 0 <= k < n && k < (i + 3) / 4 * 4 ==> buf@[k] == #[trigger] bgra_of(old(buf)@)[k],
            forall|k: int| 0 <= k < n && k >= (i + 3) / 4 * 4 ==> #[trigger] buf@[k] == old(buf)@[k],
        decreases n - i,
    {
        let ghost before = buf@;
        if i % 4 == 0 {
            let a = buf[i];
            let b = buf[i + 2];
            buf.set(i, b);
            buf.set(i + 2, a);
        }
        i = i + 1;
        proof {
            assert forall|k: int| 0 <= k < n && k < (i + 3) / 4 * 4 implies buf@[k] == #[trigger] bgra_of(old(buf)@)[k] by {
                if k >= (i + 2) / 4 * 4 {
                    assert(k % 4 == k - (i - 1));
                }
            }
        }
    }
    assert(buf@ =~= bgra_of(old(buf)@));
}

/// Prefix of the error returned when image data cannot be decoded.
pub open spec fn decode_error_prefix() -> Seq<char> {
    seq!['F', 'a', 'i', 'l', 'e', 'd', ' ', 't', 'o', ' ', 'r', 'e', 'a', 'd', ' ', 't', 'i', 'l', 'e', ' ', 'i', 'm', 'a', 'g', 'e', ' ', 'd', 'a', 't', 'a', ':', ' ']
}

/// Converts image file data (PNG, JPEG, ...) to raw BGRA pixel data, writing
/// the width and height of the image.
pub fn convert_image_to_buffer(
    img_data: &Vec<u8>,
    width_out: &mut i32,
    height_out: &mut i32,
) -> (r: Result<Vec<u8>, String>)
    ensures
        match decoded_rgba(img_data@) {
            Some(d) => (r matches Ok(buf) && buf@ == bgra_of(d.0)) && *final(width_out) == d.1 as i32
                && *final(height_out) == d.2 as i32,
            None => (r matches Err(m) && decode_error_prefix().is_prefix_of(m@)) && *final(width_out)
                == *old(width_out) && *final(height_out) == *old(height_out),
        },
{
    match decode_rgba(img_data) {
        Ok((rgba, w, h)) => {
            *width_out = #[verifier::truncate] (w as i32);
            *height_out = #[verifier::truncate] (h as i32);
            let mut buf = rgba;
            proof {
                let p = w as int * h as int;
                assert(4 * w * h == p * 4) by (nonlinear_arith)
                    requires
                        p == w as int * h as int,
                ;
                lemma_mod_multiples_basic(p, 4);
            }
            swap_red_blue(&mut buf);
            Ok(buf)
        },
        Err(e) => {
            let mut m: Vec<char> = Vec::new();
            push_str(&mut m, "Failed to read tile image data: ");
            proof {
                reveal_strlit("Failed to read tile image data: ");
            }
            push_str(&mut m, e.as_str());
            let msg = string_of(&m);
            assert(decode_error_prefix() =~= msg@.subrange(0, decode_error_prefix().len() as int));
            Err(msg)
        },
    }
}

/// Outcome of a tile fetch, with the decoded image data. Short-lived.
pub struct TileRequestResult {
    pub code: TileRequestResultCode,
    /// The request resulting in this outcome.
    pub request: TileRequest,
    /// Expiry time in seconds since the Unix epoch, if known.
    pub expire_time: Option<i64>,
    /// Raw BGRA bitmap data.
    pub data: Vec<u8>,
    /// Tile width in pixels.
    pub tile_width: i32,
    /// Tile height in pixels.
    pub tile_height: i32,
    /// The original image file data.
    pub img_data: Option<Vec<u8>>,
}

/// What a tile fetch outcome holds, as plain values.
pub struct TileRequestResultView {
    pub code: TileRequestResultCode,
    pub request: TileRequestView,
    pub expire_time: Option<i64>,
    pub data: Seq<u8>,
    pub tile_width: i32,
    pub tile_height: i32,
    pub img_data: Option<Seq<u8>>,
}

impl View for TileRequestResult {
    type V = TileRequestResultView;

    open spec fn view(&self) -> TileRequestResultView {
        TileRequestResultView {
            code: self.code,
            request: self.request@,
            expire_time: self.expire_time,
            data: self.data@,
            tile_width: self.tile_width,
            tile_height: self.tile_height,
            img_data: match self.img_data {
                Some(d) => Some(d@),
                None => None,
            },
        }
    }
}

/// The outcome with `code` and no image data.
pub open spec fn coded_result(treq: TileRequestView, code: TileRequestResultCode) -> TileRequestResultView {
    TileRequestResultView {
        code,
        request: treq,
        expire_time: None,
        data: seq![0u8],
        tile_width: 0,
        tile_height: 0,
        img_data: None,
    }
}

/// The successful outcome of image file bytes that decode to `d`.
pub open spec fn decoded_result(
    treq: TileRequestView,
    img: Seq<u8>,
    d: (Seq<u8>, u32, u32),
    expires: Option<i64>,
) -> TileRequestResultView {
    TileRequestResultView {
        code: TileRequestResultCode::Success,
        request: treq,
        expire_time: expires,
        data: bgra_of(d.0),
        tile_width: d.1 as i32,
        tile_height: d.2 as i32,
        img_data: Some(img),
    }
}

impl TileRequestResult {
    /// Outcome of fetched image bytes: decoded on success, a transmission error
    /// when they do not decode.
    pub fn new(treq: &TileRequest, img_data: &Vec<u8>, expires: Option<i64>) -> (r: TileRequestResult)
        ensures
            match decoded_rgba(img_data@) {
                Some(d) => r@ == decoded_result(treq@, img_data@, d, expires),
                None => r@ == coded_result(treq@, TileRequestResultCode::TransmissionError),
            },
    {
        let mut tile_width: i32 = 0;
        let mut tile_height: i32 = 0;
        match convert_image_to_buffer(img_data, &mut tile_width, &mut tile_height) {
            Ok(raw_data) => TileRequestResult {
                code: TileRequestResultCode::Success,
                request: treq.duplicate(),
                expire_time: expires,
                data: raw_data,
                tile_width,
                tile_height,
                img_data: Some(crate::tiles::tile::clone_bytes(img_data)),
            },
            Err(_) => Self::with_code(treq, TileRequestResultCode::TransmissionError),
        }
    }

    /// Outcome of image bytes read from the disk cache: decoded, without expiry
    /// time, or the decoding error.
    pub fn from_cached_bytes(treq: &TileRequest, img_data: &Vec<u8>) -> (r: Result<TileRequestResult, String>)
        ensures
            match decoded_rgba(img_data@) {
                Some(d) => (r matches Ok(res) && res@ == decoded_result(treq@, img_data@, d, None)),
                None => (r matches Err(m) && decode_error_prefix().is_prefix_of(m@)),
            },
    {
        let mut tile_width: i32 = 0;
        let mut tile_height: i32 = 0;
        match convert_image_to_buffer(img_data, &mut tile_width, &mut tile_height) {
            Ok(raw_data) => Ok(
                TileRequestResult {
                    code: TileRequestResultCode::Success,
                    request: treq.duplicate(),
                    expire_time: None,
                    data: raw_data,
                    tile_width,
                    tile_height,
                    img_data: Some(crate::tiles::tile::clone_bytes(img_data)),
                },
            ),
            Err(e) => Err(e),
        }
    }

    /// Outcome with `code` and no image data.
    pub fn with_code(treq: &TileRequest, code: TileRequestResultCode) -> (r: TileRequestResult)
        ensures
            r@ == coded_result(treq@, code),
    {
        let data = vec![0u8];
        assert(data@ =~= seq![0u8]);
        TileRequestResult {
            code,
            request: treq.duplicate(),
            expire_time: None,
            data,
            tile_width: 0,
            tile_height: 0,
            img_data: None,
        }
    }

    /// Key of the request.
    pub fn to_key(&self) -> (key: String)
        requires
            self@.request.valid(),
        ensures
            key@ == self@.request.key_text(),
    {
        self.request.to_key()
    }

    /// Whether the outcome has expired at `now`; never without expiry time.
    pub fn is_expired_at(&self, now: i64) -> (r: bool)
        ensures
            r == match self@.expire_time {
                Some(t) => t < now,
                None => false,
            },
    {
        match self.expire_time {
            Some(t) => t < now,
            None => false,
        }
    }

    /// Whether the outcome has expired; never without expiry time.
    pub fn is_expired(&self) -> (r: bool)
        ensures
            self@.expire_time is None ==> !r,
            r ==> self@.expire_time->0 < 0x800_0000_0000 - 1,
            !r && self@.expire_time is Some ==> self@.expire_time->0 > -0x800_0000_0000,
    {
        let now = current_timestamp();
        self.is_expired_at(now)
    }

    /// The raw BGRA bitmap data.
    pub fn data(&self) -> (d: &Vec<u8>)
        ensures
            d@ == self@.data,
    {
        &self.data
    }

    /// The original image file data, if any.
    pub fn img_data(&self) -> (d: Option<&Vec<u8>>)
        ensures
            match d {
                Some(v) => self@.img_data == Some(v@),
                None => self@.img_data is None,
            },
    {
        match &self.img_data {
            Some(v) => Some(v),
            None => None,
        }
    }
}

/// Result code for an HTTP status other than success: not found, unauthorized,
/// and anything else unknown; `None` for success (200).
pub fn status_result_code(status: u16) -> (r: Option<TileRequestResultCode>)
    ensures
        r == (if status == 200 {
            None
        } else if status == 404 {
            Some(TileRequestResultCode::NotFoundError)
        } else if status == 401 {
            Some(TileRequestResultCode::UnauthorizedError)
        } else {
            Some(TileRequestResultCode::UnknownError)
        }),
{
    if status == 200 {
        None
    } else if status == 404 {
        Some(TileRequestResultCode::NotFoundError)
    } else if status == 401 {
        Some(TileRequestResultCode::UnauthorizedError)
    } else if status == 500 {
        Some(TileRequestResultCode::UnknownError)
    } else {
        Some(TileRequestResultCode::UnknownError)
    }
}

/// Expiry time of a fetched tile at `now`: the source's override in days if it
/// has one, else the server's expiry header, else the default number of days.
pub fn expire_time_for(now: i64, expires_header: Option<i64>, expire_override: Option<u16>) -> (t: i64)
    requires
        -0x800_0000_0000 < now < 0x800_0000_0000,
    ensures
        t == match expire_override {
            Some(days) => now + days * SECONDS_PER_DAY,
            None => match expires_header {
                Some(h) => h as int,
                None => now + default_expiry(),
            },
        },
{
    let mut expires = match expires_header {
        Some(h) => h,
        None => now + DEFAULT_TILE_EXPIRE_DAYS * SECONDS_PER_DAY,
    };
    if let Some(days) = expire_override {
        expires = now + (days as i64) * SECONDS_PER_DAY;
    }
    expires
}

} // verus!
