//! Icon decoding: from the colour bitmap of an icon to a base64 PNG.
//!
//! The adapter reads the bitmap top-down at 32 bits per pixel, blue first. The
//! steps here size the buffer for that read, bring the channels into the order
//! red, green, blue, alpha, and hand the raster to the PNG and base64 encoders.

use vstd::prelude::*;

verus! {

/// The number of bytes of a raster of the given size, where the size is one that
/// the decoder accepts: both sides positive and the byte count no more than
/// `i32::MAX`.
pub open spec fn raster_len(width: int, height: int) -> Option<int> {
    if width > 0 && height > 0 && width * height * 4 <= i32::MAX {
        Some(width * height * 4)
    } else {
        None
    }
}

/// The raster with the first and third byte of every whole pixel exchanged. Bytes
/// behind the last whole pixel stay where they are.
pub open spec fn red_blue_swapped(pixels: Seq<u8>) -> Seq<u8> {
    Seq::new(
        pixels.len(),
        |i: int|
            if i >= pixels.len() - pixels.len() % 4 {
                pixels[i]
            } else if i % 4 == 0 {
                pixels[i + 2]
            } else if i % 4 == 2 {
                pixels[i - 2]
            } else {
                pixels[i]
            },
    )
}

/// The size of the buffer that the pixels of a bitmap are read into, or `None`
/// for a size that is rejected.
pub fn pixel_buffer_len(width: i32, height: i32) -> (len: Option<usize>)
    ensures
        match len {
            Some(n) => raster_len(width as int, height as int) == Some(n as int),
            None => raster_len(width as int, height as int) is None,
        },
        width == 0 || height == 0 ==> len is None,
{
    if width <= 0 || height <= 0 {
        return None;
    }
    assert(width * height <= 0x7FFF_FFFF * 0x7FFF_FFFF) by (nonlinear_arith)
        requires
            0 < width <= 0x7FFF_FFFF,
            0 < height <= 0x7FFF_FFFF,
    ;
    let area: u64 = (width as u64) * (height as u64);
    let bytes: u64 = area * 4;
    if bytes <= 0x7FFF_FFFF {
        Some(bytes as usize)
    } else {
        None
    }
}

/// Exchanges the blue and the red byte of every whole pixel in place.
pub fn swap_red_blue(pixels: &mut Vec<u8>)
    ensures
        final(pixels)@ == red_blue_swapped(old(pixels)@),
{
    let len: usize = pixels.len();
    let whole: usize = len - len % 4;
    let mut at: usize = 0;
    while at < whole
        invariant
            pixels.len() == len,
            len == old(pixels)@.len(),
            whole == len - len % 4,
            at <= whole,
            at % 4 == 0,
            forall|i: int| 0 <= i < at ==> pixels@[i] == red_blue_swapped(old(pixels)@)[i],
            forall|i: int| at <= i < len ==> pixels@[i] == old(pixels)@[i],
        decreases whole - at,
    {
        let blue: u8 = pixels[at];
        let red: u8 = pixels[at + 2];
        pixels[at] = red;
        pixels[at + 2] = blue;
        at = at + 4;
    }
    assert(pixels@ =~= red_blue_swapped(old(pixels)@));
}

/// Exchanging twice gives the raster back.
pub proof fn lemma_swap_twice(pixels: Seq<u8>)
    ensures
        red_blue_swapped(red_blue_swapped(pixels)) == pixels,
{
    assert(red_blue_swapped(red_blue_swapped(pixels)) =~= pixels);
}

/// What the exchange does to one pixel: red and blue change places, green and
/// alpha stay.
pub proof fn lemma_swap_pixel(pixels: Seq<u8>, pixel: int)
    requires
        0 <= pixel,
        4 * pixel + 4 <= pixels.len(),
    ensures
        red_blue_swapped(pixels)[4 * pixel] == pixels[4 * pixel + 2],
        red_blue_swapped(pixels)[4 * pixel + 1] == pixels[4 * pixel + 1],
        red_blue_swapped(pixels)[4 * pixel + 2] == pixels[4 * pixel],
        red_blue_swapped(pixels)[4 * pixel + 3] == pixels[4 * pixel + 3],
{
}

/// A raster of one colour stays a raster of one colour: where every pixel is
/// stored as blue, green, red, alpha, every pixel of the exchanged raster is red,
/// green, blue, alpha, and the raster is as long as before.
pub proof fn lemma_swap_solid(pixels: Seq<u8>, blue: u8, green: u8, red: u8, alpha: u8)
    requires
        pixels.len() % 4 == 0,
        forall|i: int|
            0 <= i < pixels.len() ==> #[trigger] pixels[i] == (if i % 4 == 0 {
                blue
            } else if i % 4 == 1 {
                green
            } else if i % 4 == 2 {
                red
            } else {
                alpha
            }),
    ensures
        red_blue_swapped(pixels).len() == pixels.len(),
        forall|i: int|
            0 <= i < pixels.len() ==> #[trigger] red_blue_swapped(pixels)[i] == (if i % 4 == 0 {
                red
            } else if i % 4 == 1 {
                green
            } else if i % 4 == 2 {
                blue
            } else {
                alpha
            }),
{
}

/// The colour bitmap of an icon as the adapter read it.
#[derive(Clone, Debug, PartialEq, Eq)]
pub struct IconBitmap {
    /// Width of the bitmap in pixels, as the system reports it.
    pub width: i32,
    /// Height of the bitmap in pixels, as the system reports it.
    pub height: i32,
    /// Number of rows that the read copied; zero when it failed.
    pub rows_copied: i32,
    /// The bytes read, four per pixel: blue, green, red, alpha.
    pub pixels: Vec<u8>,
}

impl IconBitmap {
    /// The bitmap can be turned into a raster: its size is accepted, the read
    /// copied rows, and the buffer holds exactly the bytes of that size.
    pub open spec fn is_readable(self) -> bool {
        &&& raster_len(self.width as int, self.height as int) == Some(self.pixels@.len() as int)
        &&& self.rows_copied != 0
    }
}

/// What the adapter found when it asked for the icon of an executable.
#[derive(Clone, Debug, PartialEq, Eq)]
pub enum IconSource {
    /// The shell had no icon for the executable.
    Absent,
    /// The icon handle was null or otherwise invalid.
    Invalid,
    /// The icon's bitmaps could not be extracted.
    Unreadable,
    /// The colour bitmap has a size for which no buffer is made, so its pixels
    /// were not read.
    Rejected { width: i32, height: i32 },
    /// The icon's colour bitmap with the pixels read.
    Bitmap(IconBitmap),
}

/// The PNG file that the `image` crate writes for the 8-bit RGBA raster of the
/// given size, or `None` where its encoder reports an error.
pub uninterp spec fn png_encoding(width: u32, height: u32, rgba: Seq<u8>) -> Option<Seq<u8>>;

/// The text that the `base64` crate's standard engine (standard alphabet, with
/// padding) gives for the bytes.
pub uninterp spec fn base64_standard(bytes: Seq<u8>) -> Seq<char>;

/// The eight bytes that every PNG file begins with.
pub open spec fn png_signature() -> Seq<u8> {
    seq![137u8, 80u8, 78u8, 71u8, 13u8, 10u8, 26u8, 10u8]
}

/// The length of the padded base64 text of `len` bytes: four characters for
/// every three bytes begun.
pub open spec fn base64_len(len: nat) -> nat {
    4 * ((len + 2) / 3)
}

/// The characters of an optional text.
pub open spec fn text_of(text: Option<String>) -> Option<Seq<char>> {
    match text {
        Some(s) => Some(s@),
        None => None,
    }
}

/// The base64 text for a PNG file, where there is one and it is short enough
/// for its base64 text to be addressed.
pub open spec fn base64_of_png(png: Option<Seq<u8>>) -> Option<Seq<char>> {
    match png {
        Some(bytes) => if bytes.len() / 3 < usize::MAX / 4 {
            Some(base64_standard(bytes))
        } else {
            None
        },
        None => None,
    }
}

/// The icon text for what the adapter found: the base64 text of the PNG file of
/// the raster with red and blue exchanged, for a readable bitmap whose raster
/// the encoder accepts; no icon in every other case.
pub open spec fn encoded_icon(source: IconSource) -> Option<Seq<char>> {
    match source {
        IconSource::Bitmap(bitmap) => if bitmap.is_readable() {
            base64_of_png(
                png_encoding(
                    bitmap.width as u32,
                    bitmap.height as u32,
                    red_blue_swapped(bitmap.pixels@),
                ),
            )
        } else {
            None
        },
        _ => None,
    }
}

/// Calls `image::RgbaImage::from_raw` and `ImageBuffer::write_to` with
/// `ImageOutputFormat::Png` on an in-memory cursor. The contract names the bytes
/// written: they depend on the size and the raster alone. Of a file that was
/// written it says only how it begins: the encoder writes the signature before
/// anything else. `None` stands for an error of the encoder; with a buffer of
/// exactly the raster's size `from_raw` never refuses.
#[verifier::external_body]
fn encode_png(width: u32, height: u32, rgba: Vec<u8>) -> (png: Option<Vec<u8>>)
    requires
        rgba@.len() == width * height * 4,
    ensures
        match png {
            Some(bytes) => png_encoding(width, height, rgba@) == Some(bytes@),
            None => png_encoding(width, height, rgba@) is None,
        },
        png matches Some(bytes) ==> bytes@.len() >= 8 && bytes@.take(8) == png_signature(),
{
    let raster = image::RgbaImage::from_raw(width, height, rgba)?;
    let mut cursor = std::io::Cursor::new(Vec::new());
    raster.write_to(&mut cursor, image::ImageOutputFormat::Png).ok()?;
    Some(cursor.into_inner())
}

/// Calls `Engine::encode` on `base64::engine::general_purpose::STANDARD`. The
/// contract names the text and gives its length, which the crate computes
/// before it encodes. The call panics where that length does not fit a `usize`;
/// the `requires` keeps such inputs out.
#[verifier::external_body]
fn encode_standard(bytes: &Vec<u8>) -> (text: String)
    requires
        bytes@.len() / 3 < usize::MAX / 4,
    ensures
        text@ == base64_standard(bytes@),
        text@.len() == base64_len(bytes@.len()),
{
    base64::Engine::encode(&base64::engine::general_purpose::STANDARD, bytes)
}

/// The raster of a bitmap in the order red, green, blue, alpha, or `None` for a
/// bitmap that is not readable.
pub fn rgba_pixels(bitmap: &IconBitmap) -> (rgba: Option<Vec<u8>>)
    ensures
        match rgba {
            Some(raster) => bitmap.is_readable() && raster@ == red_blue_swapped(bitmap.pixels@),
            None => !bitmap.is_readable(),
        },
{
    let expected: usize = match pixel_buffer_len(bitmap.width, bitmap.height) {
        Some(n) => n,
        None => {
            return None;
        },
    };
    if bitmap.rows_copied == 0 || bitmap.pixels.len() != expected {
        return None;
    }
    let mut raster: Vec<u8> = Vec::new();
    let mut at: usize = 0;
    while at < expected
        invariant
            expected == bitmap.pixels@.len(),
            at <= expected,
            raster@ == bitmap.pixels@.take(at as int),
        decreases expected - at,
    {
        raster.push(bitmap.pixels[at]);
        at = at + 1;
    }
    assert(raster@ == bitmap.pixels@);
    swap_red_blue(&mut raster);
    Some(raster)
}

/// The base64 text of a PNG file, where there is one.
pub fn png_to_base64(png: Option<Vec<u8>>) -> (text: Option<String>)
    ensures
        text_of(text) == base64_of_png(
            match png {
                Some(bytes) => Some(bytes@),
                None => None,
            },
        ),
        text matches Some(chars) ==> png is Some && chars@.len() == base64_len(
            png->0@.len(),
        ),
{
    match png {
        Some(bytes) => {
            if bytes.len() / 3 < usize::MAX / 4 {
                Some(encode_standard(&bytes))
            } else {
                None
            }
        },
        None => None,
    }
}

/// Turns what the adapter found for an icon into the icon text of a session
/// record. Every failure along the way gives `None`.
pub fn icon_to_base64(source: &IconSource) -> (icon: Option<String>)
    ensures
        text_of(icon) == encoded_icon(*source),
        !(source is Bitmap) ==> icon is None,
        source matches IconSource::Bitmap(bitmap) && (bitmap.width == 0 || bitmap.height == 0)
            ==> icon is None,
        icon matches Some(text) ==> text@.len() >= 12 && text@.len() % 4 == 0,
{
    match source {
        IconSource::Bitmap(bitmap) => {
            match rgba_pixels(bitmap) {
                Some(raster) => {
                    let png = encode_png(bitmap.width as u32, bitmap.height as u32, raster);
                    png_to_base64(png)
                },
                None => None,
            }
        },
        _ => None,
    }
}

} // verus!
