//! Encoding an exported image: the RGBA pixels of an edited image are
//! checked against their dimensions, scaled down to a bound when one is
//! asked for, and encoded as PNG, TIFF or JPEG by the `image` crate. Writing
//! the bytes to disk is left to the caller.
use vstd::prelude::*;
use vstd::string::StringExecFns;
use crate::paths::{eq_lit, export_ext};
use crate::text::chars_of;
use crate::loader::keeps_aspect;

verus! {

/// The file formats an image is exported in.
#[derive(Debug, Clone, Copy, PartialEq, Eq, Structural)]
pub enum ExportFormat {
    Png,
    Tiff,
    Jpeg,
}

/// The format an export setting names: `png`, `tiff`, and JPEG for anything
/// else.
pub open spec fn export_format_of(format: Seq<char>) -> ExportFormat {
    if format == "png"@ {
        ExportFormat::Png
    } else if format == "tiff"@ {
        ExportFormat::Tiff
    } else {
        ExportFormat::Jpeg
    }
}

/// The format an export setting names.
pub fn export_format(format: &str) -> (r: ExportFormat)
    ensures
        r == export_format_of(format@),
{
    let f = chars_of(format);
    if eq_lit(&f, "png") {
        ExportFormat::Png
    } else if eq_lit(&f, "tiff") {
        ExportFormat::Tiff
    } else {
        ExportFormat::Jpeg
    }
}

/// The extension of files in `format`.
pub open spec fn format_extension(format: ExportFormat) -> Seq<char> {
    match format {
        ExportFormat::Png => "png"@,
        ExportFormat::Tiff => "tiff"@,
        ExportFormat::Jpeg => "jpg"@,
    }
}

/// An exported file is named with the extension of the format it is encoded
/// in: the extension `export_extension` gives for a format setting is that
/// of the encoder `encode_export` picks for it.
pub proof fn law_export_extension_names_the_encoding(format: Seq<char>)
    ensures
        export_ext(format) == format_extension(export_format_of(format)),
{
}

/// The PNG file the `image` crate writes for the RGBA image over `data`, or
/// the text of its error.
pub uninterp spec fn png_encoding(data: Seq<u8>, width: u32, height: u32) -> Result<Seq<u8>, Seq<char>>;

/// The TIFF file the `image` crate writes for the RGBA image over `data`, or
/// the text of its error.
pub uninterp spec fn tiff_encoding(data: Seq<u8>, width: u32, height: u32) -> Result<Seq<u8>, Seq<char>>;

/// The JPEG file the `image` crate writes, at `quality`, for the RGBA image
/// over `data` with its alpha channel dropped, or the text of its error.
pub uninterp spec fn jpeg_encoding(data: Seq<u8>, width: u32, height: u32, quality: u8) -> Result<Seq<u8>, Seq<char>>;

/// The bytes of an encoding, or the text of its error.
pub open spec fn encoding_view(r: Result<Vec<u8>, String>) -> Result<Seq<u8>, Seq<char>> {
    match r {
        Ok(b) => Ok(b@),
        Err(e) => Err(e@),
    }
}

/// Whether `len` bytes hold an RGBA image of `width` by `height` pixels.
pub open spec fn holds_rgba(len: nat, width: u32, height: u32) -> bool {
    4 * width * height <= len
}

/// Calls `ImageBuffer::from_raw` for an RGBA image over `data` and tells
/// whether it accepted the buffer, which it does exactly when the buffer has
/// four bytes for each of the `width` by `height` pixels.
#[verifier::external_body]
fn rgba_fits(data: &[u8], width: u32, height: u32) -> (r: bool)
    ensures
        r == holds_rgba(data@.len(), width, height),
{
    image::ImageBuffer::<image::Rgba<u8>, &[u8]>::from_raw(width, height, data).is_some()
}

/// Whether every pixel of the RGBA bytes `s` is the pixel `c` (four bytes).
pub open spec fn uniform_of(s: Seq<u8>, c: Seq<u8>) -> bool {
    &&& c.len() == 4
    &&& s.len() % 4 == 0
    &&& forall|i: int| 0 <= i < s.len() ==> #[trigger] s[i] == c[i % 4]
}

/// Whether fitting `width` by `height` into `max` by `max` shrinks no side
/// by more than a factor of 256.
pub open spec fn moderate_scale(width: u32, height: u32, max: u32) -> bool {
    width <= 256 * max && height <= 256 * max
}

/// What is stated of the RGBA image `d`, `w` by `h`, that scaling the image
/// over `data`, `width` by `height`, to fit `max` by `max` gives: four bytes
/// a pixel; at least one pixel each way; within the bound with one side at
/// it; the aspect ratio kept as closely as whole pixels allow; and, for an
/// image of one colour that is not shrunk by more than a factor of 256, an
/// image of that same colour.
pub open spec fn scaled_copy(data: Seq<u8>, width: u32, height: u32, max: u32, d: Seq<u8>, w: u32, h: u32) -> bool {
    &&& d.len() == 4 * w * h
    &&& w >= 1 && h >= 1
    &&& (max >= 1 ==> w <= max && h <= max && (w == max || h == max))
    &&& keeps_aspect(width, height, w, h)
    &&& (width > 0 && height > 0 && moderate_scale(width, height, max) ==> forall|c: Seq<u8>|
        #![trigger uniform_of(d, c)]
        #![trigger uniform_of(data.subrange(0, 4 * width * height), c)]
        uniform_of(data.subrange(0, 4 * width * height), c) ==> uniform_of(d, c))
}

/// Calls `DynamicImage::resize` with the Lanczos3 filter on the RGBA image
/// over `data` and hands out the RGBA bytes and dimensions of the result,
/// which the `image` crate allocates at exactly four bytes a pixel. The
/// result keeps the aspect ratio at the largest size that fits within `max`
/// by `max`: each side is the original side times the smaller of the ratios
/// `max / width` and `max / height`, rounded, and at least one pixel; so when
/// `max` is at least one, both sides are at most `max`, one of them is
/// `max`, and the aspect ratio is kept as closely as whole pixels allow. Its
/// pixels are computed with the Lanczos3 kernel, which calls the platform's
/// `sin`, so they are not named. What is stated of them: the kernel's
/// weights for each output pixel are divided by their sum, so an image of
/// one colour gives sums of that colour times weights summing to one; with
/// at most about 1,540 weights a pass (no side shrunk by more than 256) the
/// `f32` rounding stays far below half a unit, and the rounded, clamped
/// result is that colour again.
#[verifier::external_body]
pub(crate) fn resize_rgba(data: &[u8], width: u32, height: u32, max: u32) -> (r: (Vec<u8>, u32, u32))
    requires
        holds_rgba(data@.len(), width, height),
        width > max || height > max,
    ensures
        r.0@.len() == 4 * r.1 * r.2,
        max >= 1 ==> r.1 <= max && r.2 <= max && (r.1 == max || r.2 == max),
        keeps_aspect(width, height, r.1, r.2),
        scaled_copy(data@, width, height, max, r.0@, r.1, r.2),
{
    let buf = image::RgbaImage::from_raw(width, height, data.to_vec()).unwrap();
    let img = image::DynamicImage::ImageRgba8(buf);
    let out = img.resize(max, max, image::imageops::FilterType::Lanczos3).into_rgba8();
    let (w, h) = out.dimensions();
    (out.into_raw(), w, h)
}

/// Calls `DynamicImage::write_to` with the PNG format on the RGBA image over
/// `data`, whose length must be exact (the encoder panics otherwise), and
/// hands out the bytes written or the error's text.
#[verifier::external_body]
fn encode_png(data: &[u8], width: u32, height: u32) -> (r: Result<Vec<u8>, String>)
    requires
        data@.len() == 4 * width * height,
    ensures
        encoding_view(r) == png_encoding(data@, width, height),
{
    let img = image::DynamicImage::ImageRgba8(image::RgbaImage::from_raw(width, height, data.to_vec()).unwrap());
    let mut buf = std::io::Cursor::new(Vec::new());
    match img.write_to(&mut buf, image::ImageFormat::Png) {
        Ok(()) => Ok(buf.into_inner()),
        Err(e) => Err(e.to_string()),
    }
}

/// Calls `DynamicImage::write_to` with the TIFF format on the RGBA image over
/// `data`, whose length must be exact (the encoder panics otherwise), and
/// hands out the bytes written or the error's text.
#[verifier::external_body]
fn encode_tiff(data: &[u8], width: u32, height: u32) -> (r: Result<Vec<u8>, String>)
    requires
        data@.len() == 4 * width * height,
    ensures
        encoding_view(r) == tiff_encoding(data@, width, height),
{
    let img = image::DynamicImage::ImageRgba8(image::RgbaImage::from_raw(width, height, data.to_vec()).unwrap());
    let mut buf = std::io::Cursor::new(Vec::new());
    match img.write_to(&mut buf, image::ImageFormat::Tiff) {
        Ok(()) => Ok(buf.into_inner()),
        Err(e) => Err(e.to_string()),
    }
}

/// Calls `JpegEncoder::new_with_quality` and `ImageBuffer::write_with_encoder`
/// on the RGB image made from the RGBA image over `data` (its alpha channel
/// dropped), and hands out the bytes written or the error's text.
#[verifier::external_body]
pub(crate) fn encode_jpeg(data: &[u8], width: u32, height: u32, quality: u8) -> (r: Result<Vec<u8>, String>)
    requires
        holds_rgba(data@.len(), width, height),
    ensures
        encoding_view(r) == jpeg_encoding(data@, width, height, quality),
{
    let img = image::DynamicImage::ImageRgba8(image::RgbaImage::from_raw(width, height, data.to_vec()).unwrap());
    let rgb = img.to_rgb8();
    let mut buf = std::io::Cursor::new(Vec::new());
    let encoder = image::codecs::jpeg::JpegEncoder::new_with_quality(&mut buf, quality);
    match rgb.write_with_encoder(encoder) {
        Ok(()) => Ok(buf.into_inner()),
        Err(e) => Err(e.to_string()),
    }
}

/// What encoding the RGBA image over `data` in `format` gives.
pub open spec fn encoded(data: Seq<u8>, width: u32, height: u32, format: ExportFormat, quality: u8) -> Result<
    Seq<u8>,
    Seq<char>,
> {
    match format {
        ExportFormat::Png => png_encoding(data, width, height),
        ExportFormat::Tiff => tiff_encoding(data, width, height),
        ExportFormat::Jpeg => jpeg_encoding(data, width, height, quality),
    }
}

/// Whether an encoder can take the image over `len` bytes: PNG and TIFF
/// need the exact length, JPEG at least it.
pub open spec fn encodable(len: nat, width: u32, height: u32, format: ExportFormat) -> bool {
    match format {
        ExportFormat::Jpeg => holds_rgba(len, width, height),
        _ => len == 4 * width * height,
    }
}

/// Encodes the RGBA image over `data` in the format `format` names (JPEG at
/// `quality`).
pub fn encode_pixels(data: &[u8], width: u32, height: u32, format: &str, quality: u8) -> (r: Result<Vec<u8>, String>)
    requires
        encodable(data@.len(), width, height, export_format_of(format@)),
    ensures
        encoding_view(r) == encoded(data@, width, height, export_format_of(format@), quality),
{
    match export_format(format) {
        ExportFormat::Png => encode_png(data, width, height),
        ExportFormat::Tiff => encode_tiff(data, width, height),
        ExportFormat::Jpeg => encode_jpeg(data, width, height, quality),
    }
}

/// The message of pixels too few for their dimensions.
pub open spec fn too_few_pixels_message() -> Seq<char> {
    "Failed to create image from RGBA data"@
}

/// Whether an export bound asks for the image to be scaled down.
pub open spec fn shrinks(width: u32, height: u32, max_dimension: Option<u32>) -> bool {
    match max_dimension {
        Some(m) => width > m || height > m,
        None => false,
    }
}

/// What a scaled export gives, as far as it is stated: the encoding, in
/// the format `format` names, of some image that scaling the image over
/// `data` to fit `max` by `max` gives (see [`scaled_copy`]).
pub open spec fn scaled_export(
    data: Seq<u8>,
    width: u32,
    height: u32,
    format: Seq<char>,
    quality: u8,
    max: u32,
    res: Result<Seq<u8>, Seq<char>>,
) -> bool {
    exists|d: Seq<u8>, w: u32, h: u32|
        #![trigger encoded(d, w, h, export_format_of(format), quality)]
        scaled_copy(data, width, height, max, d, w, h) && res == encoded(
            d,
            w,
            h,
            export_format_of(format),
            quality,
        )
}

/// A scaled export of an image of one colour encodes an image, of at least
/// one pixel, of that same colour (when no side is shrunk by more than a
/// factor of 256): the pixels encoded are the scaled image, not any bytes of
/// the right length.
pub proof fn law_scaled_export_keeps_the_colour(
    data: Seq<u8>,
    width: u32,
    height: u32,
    format: Seq<char>,
    quality: u8,
    max: u32,
    res: Result<Seq<u8>, Seq<char>>,
    c: Seq<u8>,
)
    requires
        scaled_export(data, width, height, format, quality, max, res),
        width > 0,
        height > 0,
        moderate_scale(width, height, max),
        uniform_of(data.subrange(0, 4 * width * height), c),
    ensures
        exists|d: Seq<u8>, w: u32, h: u32|
            #![trigger encoded(d, w, h, export_format_of(format), quality)]
            uniform_of(d, c) && d.len() > 0 && res == encoded(d, w, h, export_format_of(format), quality),
{
    let (d, w, h) = choose|d: Seq<u8>, w: u32, h: u32|
        #![trigger encoded(d, w, h, export_format_of(format), quality)]
        scaled_copy(data, width, height, max, d, w, h) && res == encoded(
            d,
            w,
            h,
            export_format_of(format),
            quality,
        );
    assert(uniform_of(d, c));
    assert(4 * w * h >= 4) by (nonlinear_arith)
        requires
            w >= 1,
            h >= 1,
    ;
    assert(d.len() == 4 * w * h);
    assert(d.len() > 0);
}

/// The bytes of an export of the RGBA image over `rgba_data`, `width` by
/// `height` pixels, in the format `format` names (JPEG at `quality`). Too
/// few bytes for the dimensions fail with a message. When `max_dimension`
/// is given and a side exceeds it, the image is first scaled down, keeping
/// its aspect ratio, to fit within it, and the scaled image is encoded;
/// otherwise the image itself is. The `image` crate's PNG and TIFF encoders
/// panic on a buffer longer than the image, so that is not accepted.
pub fn encode_export(
    rgba_data: &[u8],
    width: u32,
    height: u32,
    format: &str,
    quality: u8,
    max_dimension: Option<u32>,
) -> (r: Result<Vec<u8>, String>)
    requires
        !shrinks(width, height, max_dimension) && holds_rgba(rgba_data@.len(), width, height)
            ==> encodable(rgba_data@.len(), width, height, export_format_of(format@)),
    ensures
        !holds_rgba(rgba_data@.len(), width, height) ==> (r matches Err(m) && m@ == too_few_pixels_message()),
        holds_rgba(rgba_data@.len(), width, height) && !shrinks(width, height, max_dimension)
            ==> encoding_view(r) == encoded(rgba_data@, width, height, export_format_of(format@), quality),
        holds_rgba(rgba_data@.len(), width, height) && shrinks(width, height, max_dimension) ==> exists|
            d: Seq<u8>,
            w: u32,
            h: u32,
        |
            #![trigger encoded(d, w, h, export_format_of(format@), quality)]
            {
                &&& d.len() == 4 * w * h
                &&& (max_dimension->0 >= 1 ==> w <= max_dimension->0 && h <= max_dimension->0 && (w
                    == max_dimension->0 || h == max_dimension->0))
                &&& keeps_aspect(width, height, w, h)
                &&& encoding_view(r) == encoded(d, w, h, export_format_of(format@), quality)
            },
        holds_rgba(rgba_data@.len(), width, height) && shrinks(width, height, max_dimension)
            ==> scaled_export(rgba_data@, width, height, format@, quality, max_dimension->0, encoding_view(r)),
{
    if !rgba_fits(rgba_data, width, height) {
        return Err(String::from_str("Failed to create image from RGBA data"));
    }
    match max_dimension {
        Some(m) => {
            if width > m || height > m {
                let (small, w, h) = resize_rgba(rgba_data, width, height, m);
                let r = encode_pixels(small.as_slice(), w, h, format, quality);
                proof {
                    let ghost f = export_format_of(format@);
                    assert(encoding_view(r) == encoded(small@, w, h, f, quality));
                    assert(scaled_copy(rgba_data@, width, height, m, small@, w, h));
                }
                return r;
            }
        },
        None => {},
    }
    encode_pixels(rgba_data, width, height, format, quality)
}

} // verus!
