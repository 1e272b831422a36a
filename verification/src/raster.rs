//! RGB images held as plain bytes, the cutting of one button's tile out of a
//! larger picture, and the encoding of a tile as a JPEG data URL.

use vstd::prelude::*;
use base64::Engine;

verus! {

/// An 8-bit RGB image: `width` × `height` pixels stored row by row, three bytes
/// per pixel, at the start of `data` (which may hold more bytes than that).
pub struct RgbFrame {
    pub width: u32,
    pub height: u32,
    pub data: Vec<u8>,
}

impl RgbFrame {
    /// The pixel rows fit in `data`.
    pub open spec fn wf(&self) -> bool {
        3 * (self.width * self.height) <= self.data.len()
    }

    /// An image over `data`, where `data` holds enough bytes for its pixels.
    pub fn from_raw(width: u32, height: u32, data: Vec<u8>) -> (r: Option<RgbFrame>)
        ensures
            r is Some <==> 3 * width <= usize::MAX && 3 * (width * height) <= data.len(),
            r matches Some(f) ==> f.width == width && f.height == height && f.data@ == data@,
    {
        let w = width as usize;
        let h = height as usize;
        let fits = match (3usize).checked_mul(w) {
            Some(a) => match a.checked_mul(h) {
                Some(b) => b <= data.len(),
                None => false,
            },
            None => false,
        };
        proof {
            assert((3 * width) * height == 3 * (width * height)) by (nonlinear_arith);
        }
        if fits {
            Some(RgbFrame { width, height, data })
        } else {
            None
        }
    }
}

/// The RGB image (width, height, pixel bytes row by row) that `image` decodes
/// from the bytes of a PNG file, or `None` where they do not decode.
pub uninterp spec fn png_rgb8(bytes: Seq<u8>) -> Option<(u32, u32, Seq<u8>)>;

/// `image::ImageReader::with_format(.., ImageFormat::Png).decode()` (what
/// `image::open` does for a `.png` path), converted with `to_rgb8` and taken
/// apart into its size and raw bytes. The image is named, not described.
#[verifier::external_body]
fn decode_png(bytes: &[u8]) -> (r: Option<(u32, u32, Vec<u8>)>)
    ensures
        match png_rgb8(bytes@) {
            Some(t) => r matches Some((w, h, v)) && w == t.0 && h == t.1 && v@ == t.2,
            None => r is None,
        },
{
    match image::ImageReader::with_format(std::io::Cursor::new(bytes), image::ImageFormat::Png).decode() {
        Ok(img) => {
            let rgb = img.to_rgb8();
            Some((rgb.width(), rgb.height(), rgb.into_raw()))
        },
        Err(_) => None,
    }
}

/// The picture in the bytes of a PNG screenshot, where they decode and their
/// pixels fit the decoded size (see `RgbFrame::from_raw`).
pub fn decode_screenshot(bytes: &[u8]) -> (r: Option<RgbFrame>)
    ensures
        match png_rgb8(bytes@) {
            Some((w, h, px)) => if 3 * w <= usize::MAX && 3 * (w * h) <= px.len() {
                r matches Some(f) && f.width == w && f.height == h && f.data@ == px
            } else {
                r is None
            },
            None => r is None,
        },
{
    match decode_png(bytes) {
        Some((w, h, px)) => RgbFrame::from_raw(w, h, px),
        None => None,
    }
}

pub open spec fn min(a: nat, b: nat) -> nat {
    if a <= b {
        a
    } else {
        b
    }
}

/// The window that cropping an `iw` × `ih` image to `w` × `h` pixels at
/// (`x`, `y`) keeps: origin and size clamped to the image.
pub open spec fn crop_window(iw: nat, ih: nat, x: nat, y: nat, w: nat, h: nat) -> (nat, nat, nat, nat) {
    let x2 = min(x, iw);
    let y2 = min(y, ih);
    (x2, y2, min(w, (iw - x2) as nat), min(h, (ih - y2) as nat))
}

/// The bytes of the `w` × `h` window at (`x`, `y`) of an image `iw` pixels wide,
/// row after row.
pub open spec fn window_bytes(data: Seq<u8>, iw: nat, x: nat, y: nat, w: nat, h: nat) -> Seq<u8>
    decreases h,
{
    if h == 0 {
        seq![]
    } else {
        let row = (y + h - 1) as nat;
        window_bytes(data, iw, x, y, w, (h - 1) as nat) + data.subrange(
            (3 * (row * iw + x)) as int,
            (3 * (row * iw + x + w)) as int,
        )
    }
}

/// The image that cropping `img` to `w` × `h` pixels at (`x`, `y`) gives, as
/// `image::imageops::crop_imm(..).to_image()` does: width, height and pixel bytes.
pub open spec fn spec_crop(img: RgbFrame, x: nat, y: nat, w: nat, h: nat) -> (nat, nat, Seq<u8>) {
    let win = crop_window(img.width as nat, img.height as nat, x, y, w, h);
    (win.2, win.3, window_bytes(img.data@, img.width as nat, win.0, win.1, win.2, win.3))
}

proof fn lemma_row_end(r: nat, iw: nat, ih: nat, x: nat, w: nat)
    requires
        r < ih,
        x + w <= iw,
    ensures
        r * iw + x + w <= iw * ih,
{
    assert(r * iw + iw <= iw * ih) by (nonlinear_arith)
        requires
            r < ih,
    ;
}

proof fn lemma_window_len(data: Seq<u8>, iw: nat, x: nat, y: nat, w: nat, h: nat)
    requires
        3 * (iw * (y + h)) <= data.len(),
        x + w <= iw,
    ensures
        window_bytes(data, iw, x, y, w, h).len() == 3 * (w * h),
    decreases h,
{
    if h > 0 {
        let row = (y + h - 1) as nat;
        assert(iw * (y + h - 1) <= iw * (y + h)) by (nonlinear_arith)
            requires
                h > 0,
        ;
        lemma_window_len(data, iw, x, y, w, (h - 1) as nat);
        lemma_row_end(row, iw, y + h, x, w);
        let prev = window_bytes(data, iw, x, y, w, (h - 1) as nat);
        let part = data.subrange((3 * (row * iw + x)) as int, (3 * (row * iw + x + w)) as int);
        assert(part.len() == 3 * w);
        assert(window_bytes(data, iw, x, y, w, h) == prev + part);
        assert(w * (h - 1) + w == w * h) by (nonlinear_arith)
            requires
                h > 0,
        ;
    } else {
        assert(w * h == 0) by (nonlinear_arith)
            requires
                h == 0,
        ;
    }
}

/// The `w` × `h` tile of `img` at (`x`, `y`), clamped to the image.
pub fn crop(img: &RgbFrame, x: u32, y: u32, w: u32, h: u32) -> (r: RgbFrame)
    requires
        img.wf(),
    ensures
        (r.width as nat, r.height as nat, r.data@) == spec_crop(*img, x as nat, y as nat, w as nat, h as nat),
        r.data.len() == 3 * (r.width * r.height),
{
    let iw = img.width;
    let ih = img.height;
    let x2 = if x <= iw { x } else { iw };
    let y2 = if y <= ih { y } else { ih };
    let w2 = if w <= iw - x2 { w } else { iw - x2 };
    let h2 = if h <= ih - y2 { h } else { ih - y2 };
    let mut out: Vec<u8> = Vec::new();
    let mut j: u32 = 0;
    while j < h2
        invariant
            img.wf(),
            x2 + w2 <= iw == img.width,
            y2 + h2 <= ih == img.height,
            j <= h2,
            out@ == window_bytes(img.data@, iw as nat, x2 as nat, y2 as nat, w2 as nat, j as nat),
        decreases h2 - j,
    {
        let row = y2 + j;
        proof {
            lemma_row_end(row as nat, iw as nat, ih as nat, x2 as nat, w2 as nat);
        }
        let start: usize = 3 * ((row as usize) * (iw as usize) + x2 as usize);
        let end: usize = 3 * ((row as usize) * (iw as usize) + x2 as usize + w2 as usize);
        let ghost before = out@;
        let mut k = start;
        while k < end
            invariant
                start <= k <= end <= img.data.len(),
                out@ == before + img.data@.subrange(start as int, k as int),
            decreases end - k,
        {
            out.push(img.data[k]);
            assert(img.data@.subrange(start as int, k + 1) == img.data@.subrange(start as int, k as int).push(img.data@[k as int]));
            k += 1;
        }
        j += 1;
    }
    proof {
        assert(iw * (y2 + h2) <= iw * ih) by (nonlinear_arith)
            requires
                y2 + h2 <= ih,
        ;
        lemma_window_len(img.data@, iw as nat, x2 as nat, y2 as nat, w2 as nat, h2 as nat);
    }
    RgbFrame { width: w2, height: h2, data: out }
}

/// The JPEG file that `image`'s encoder writes for an RGB image of the given
/// size and pixel bytes at the given quality.
pub uninterp spec fn jpeg_rgb8(width: u32, height: u32, pixels: Seq<u8>, quality: u8) -> Seq<u8>;

/// The character of the standard base64 alphabet for the 6-bit value `v`:
/// `A`–`Z`, `a`–`z`, `0`–`9`, `+`, `/`.
pub open spec fn base64_char(v: nat) -> char {
    if v < 26 {
        (65 + v) as char
    } else if v < 52 {
        (97 + v - 26) as char
    } else if v < 62 {
        (48 + v - 52) as char
    } else if v == 62 {
        '+'
    } else {
        '/'
    }
}

/// The standard base64 text (with padding) of `bytes`: each group of three
/// bytes, read as a 24-bit big-endian number, gives four characters of six bits
/// each; a last group of one or two bytes is filled with zero bits and padded
/// with `=` to four characters.
pub open spec fn base64_standard(bytes: Seq<u8>) -> Seq<char>
    decreases bytes.len(),
{
    if bytes.len() == 0 {
        seq![]
    } else if bytes.len() == 1 {
        let n = bytes[0] as nat;
        seq![base64_char(n / 4), base64_char((n % 4) * 16), '=', '=']
    } else if bytes.len() == 2 {
        let n = bytes[0] as nat * 256 + bytes[1] as nat;
        seq![base64_char(n / 1024), base64_char((n / 16) % 64), base64_char((n % 16) * 4), '=']
    } else {
        let n = bytes[0] as nat * 65536 + bytes[1] as nat * 256 + bytes[2] as nat;
        seq![base64_char(n / 262144), base64_char((n / 4096) % 64), base64_char((n / 64) % 64), base64_char(n % 64)]
            + base64_standard(bytes.skip(3))
    }
}

/// `image::codecs::jpeg::JpegEncoder::new_with_quality(..).encode(..)` for RGB
/// pixels. The encoder refuses only sizes outside 1..=65535 (excluded here) and
/// writes into a vector, which cannot fail; it asserts the buffer length that
/// `requires` states. Its output is named, not described; that it fits in a
/// vector (at most `isize::MAX` bytes) is a property of every `Vec<u8>`.
#[verifier::external_body]
fn jpeg_encode(pixels: &[u8], width: u32, height: u32, quality: u8) -> (r: Vec<u8>)
    requires
        1 <= width <= 65535,
        1 <= height <= 65535,
        pixels@.len() == 3 * (width * height),
    ensures
        r@ == jpeg_rgb8(width, height, pixels@, quality),
        r@.len() <= isize::MAX,
{
    let mut out: Vec<u8> = Vec::new();
    image::codecs::jpeg::JpegEncoder::new_with_quality(&mut out, quality)
        .encode(pixels, width, height, image::ExtendedColorType::Rgb8)
        .expect("jpeg encode failed");
    out
}

/// The length of the padded base64 text of `n` bytes.
pub open spec fn base64_len(n: nat) -> nat {
    (n / 3) * 4 + if n % 3 > 0 { 4nat } else { 0nat }
}

/// `base64::engine::general_purpose::STANDARD.encode`: padded standard base64.
/// It panics only where the output length overflows `usize`, which `requires`
/// excludes; the text is the padded standard encoding `base64_standard` states.
#[verifier::external_body]
fn base64_encode(bytes: &[u8]) -> (r: String)
    requires
        base64_len(bytes@.len()) <= usize::MAX,
    ensures
        r@ == base64_standard(bytes@),
{
    base64::engine::general_purpose::STANDARD.encode(bytes)
}

/// The data URL of a tile encoded as JPEG at `quality`.
pub open spec fn spec_tile_url(width: u32, height: u32, pixels: Seq<u8>, quality: u8) -> Seq<char> {
    "data:image/jpeg;base64,"@ + base64_standard(jpeg_rgb8(width, height, pixels, quality))
}

/// A tile encoded as a JPEG data URL at `quality`, as buttons take images.
pub fn encode_tile(tile: &RgbFrame, quality: u8) -> (r: String)
    requires
        1 <= tile.width <= 65535,
        1 <= tile.height <= 65535,
        tile.data.len() == 3 * (tile.width * tile.height),
    ensures
        r@ == spec_tile_url(tile.width, tile.height, tile.data@, quality),
{
    let jpg = jpeg_encode(tile.data.as_slice(), tile.width, tile.height, quality);
    assert(base64_len(jpg@.len()) <= usize::MAX) by (nonlinear_arith)
        requires
            jpg@.len() <= isize::MAX,
            isize::MAX == usize::MAX / 2,
    ;
    let b = base64_encode(jpg.as_slice());
    let mut r = String::new();
    r.append("data:image/jpeg;base64,");
    r.append(b.as_str());
    r
}

} // verus!
