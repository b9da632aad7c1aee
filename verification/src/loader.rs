//! Producing the RGBA pixels of an image file: files are decoded by the
//! `image` crate (camera RAW files by a RAW decoder outside the library)
//! into RGBA pixels and, for previews and thumbnails, scaled to fit a bound.
use vstd::prelude::*;
use vstd::string::StringExecFns;
use crate::export::{encode_jpeg, encoding_view, jpeg_encoding, moderate_scale, resize_rgba, scaled_copy, uniform_of};
use crate::paths::{is_raw, lower_extension, lowercase_extension, raw_extension};

verus! {

/// Decoded RGBA pixels, four bytes per pixel row by row, and their
/// dimensions.
#[derive(Debug)]
pub struct RgbaPixels {
    pub data: Vec<u8>,
    pub width: u32,
    pub height: u32,
}

/// Whether the pixels are exactly four bytes for each of the `width` by
/// `height` pixels, as a decoded image's are.
pub open spec fn rgba_wf(p: RgbaPixels) -> bool {
    p.data@.len() == 4 * p.width * p.height
}

/// The RGBA8 pixels, width and height the `image` crate decodes from the
/// contents `bytes` of the file at `path`, in the format the path's
/// extension names, or the text of its error.
pub uninterp spec fn image_decoding(path: Seq<char>, bytes: Seq<u8>) -> Result<(Seq<u8>, u32, u32), Seq<char>>;

/// The value of decoded pixels, or of the error.
pub open spec fn pixels_view(r: Result<RgbaPixels, String>) -> Result<(Seq<u8>, u32, u32), Seq<char>> {
    match r {
        Ok(p) => Ok((p.data@, p.width, p.height)),
        Err(e) => Err(e@),
    }
}

/// Decodes the contents `bytes` of the file at `file_path` with the `image`
/// crate, in the format its extension names (`ImageFormat::from_path` and
/// `ImageReader::decode`), and converts the image to RGBA8 with
/// `DynamicImage::into_rgba8`; fails with the error's text. The result is
/// named [`image_decoding`]; the decoder allocates the pixels at exactly
/// four bytes each.
#[verifier::external_body]
fn decode_rgba8(file_path: &str, bytes: Vec<u8>) -> (r: Result<RgbaPixels, String>)
    ensures
        pixels_view(r) == image_decoding(file_path@, bytes@),
        r matches Ok(p) ==> rgba_wf(p),
{
    let format = image::ImageFormat::from_path(file_path).map_err(|e| e.to_string())?;
    let reader = image::ImageReader::with_format(std::io::Cursor::new(bytes), format);
    let img = reader.decode().map_err(|e| e.to_string())?.into_rgba8();
    let (width, height) = img.dimensions();
    Ok(RgbaPixels { data: img.into_raw(), width, height })
}

/// The width and height the `image` crate reads from the header of
/// `bytes`, in the format the extension of `path` names, or the text of its
/// error.
pub uninterp spec fn image_header_dimensions(path: Seq<char>, bytes: Seq<u8>) -> Result<(u32, u32), Seq<char>>;

/// Calls `ImageFormat::from_path` and `ImageReader::into_dimensions` on the
/// contents `bytes` of the file at `file_path`: the dimensions its header
/// gives, or the error's text. The result is named
/// [`image_header_dimensions`].
#[verifier::external_body]
fn read_header_dimensions(file_path: &str, bytes: &[u8]) -> (r: Result<(u32, u32), String>)
    ensures
        match r {
            Ok(d) => image_header_dimensions(file_path@, bytes@) == Ok::<(u32, u32), Seq<char>>(d),
            Err(e) => image_header_dimensions(file_path@, bytes@) == Err::<(u32, u32), Seq<char>>(e@),
        },
{
    let format = image::ImageFormat::from_path(file_path).map_err(|e| e.to_string())?;
    let reader = image::ImageReader::with_format(std::io::Cursor::new(bytes), format);
    reader.into_dimensions().map_err(|e| e.to_string())
}

/// The width and height an imported image is recorded with: what the header
/// of its file's contents `bytes` gives, in the format its extension names,
/// or zero by zero when the header cannot be read.
pub fn image_dimensions_or_zero(file_path: &str, bytes: &[u8]) -> (r: (u32, u32))
    ensures
        r == match image_header_dimensions(file_path@, bytes@) {
            Ok(d) => d,
            Err(_) => (0u32, 0u32),
        },
{
    match read_header_dimensions(file_path, bytes) {
        Ok(d) => d,
        Err(_) => (0, 0),
    }
}

/// Whether `new_width` by `new_height` keeps the aspect ratio of `width` by
/// `height` as closely as whole pixels allow: the cross products differ by
/// no more than the longer original side.
pub open spec fn keeps_aspect(width: u32, height: u32, new_width: u32, new_height: u32) -> bool {
    let longer: int = if width >= height { width as int } else { height as int };
    width > 0 && height > 0 ==> -longer <= new_width * height - new_height * width <= longer
}

/// The RGBA8 pixels and dimensions the `image` crate gives when it resizes
/// the RGBA image over `data` with the Triangle filter to fit `size` by
/// `size`.
pub uninterp spec fn triangle_resized(data: Seq<u8>, width: u32, height: u32, size: u32) -> (Seq<u8>, u32, u32);

/// Calls `DynamicImage::resize` with the Triangle filter on the RGBA image
/// over `data` and hands out the RGBA bytes and dimensions of the result,
/// which is named [`triangle_resized`] and which the `image` crate allocates
/// at exactly four bytes a pixel. Each side is the original side times the
/// smaller of the ratios `size / width` and `size / height`, rounded, and
/// at least one pixel (up as well as down): so both sides are at most
/// `size`, one is `size`, and the aspect ratio is kept as closely as whole
/// pixels allow. `requires` leaves out sizes whose working buffers would
/// overflow the address space.
#[verifier::external_body]
fn resize_rgba_smooth(data: &[u8], width: u32, height: u32, size: u32) -> (r: (Vec<u8>, u32, u32))
    requires
        data@.len() == 4 * width * height,
        16 * (width + size) * (height + size) <= isize::MAX,
    ensures
        (r.0@, r.1, r.2) == triangle_resized(data@, width, height, size),
        r.0@.len() == 4 * r.1 * r.2,
        size >= 1 && (width > 0 || height > 0) ==> r.1 <= size && r.2 <= size && (r.1 == size || r.2
            == size),
        keeps_aspect(width, height, r.1, r.2),
{
    let buf = image::RgbaImage::from_raw(width, height, data.to_vec()).unwrap();
    let img = image::DynamicImage::ImageRgba8(buf);
    let out = img.resize(size, size, image::imageops::FilterType::Triangle).into_rgba8();
    let (w, h) = out.dimensions();
    (out.into_raw(), w, h)
}

/// Whether the file at `file_path` is a camera RAW file (by its lowercased
/// extension), which is decoded by a RAW decoder rather than by the `image`
/// crate.
pub fn is_raw_path(file_path: &str) -> (r: bool)
    ensures
        r == raw_extension(lower_extension(file_path@)),
{
    let ext = lowercase_extension(file_path);
    is_raw(ext.as_str())
}

/// Decodes the contents of the image file at `file_path` into RGBA pixels,
/// in the format its extension names; fails with the decoder's message.
pub fn decode_image(file_path: &str, bytes: Vec<u8>) -> (r: Result<RgbaPixels, String>)
    ensures
        pixels_view(r) == image_decoding(file_path@, bytes@),
        r matches Ok(p) ==> rgba_wf(p),
{
    decode_rgba8(file_path, bytes)
}

/// Whether `decoded` holds well-formed pixels when it holds any.
pub open spec fn decoded_wf(decoded: Result<RgbaPixels, String>) -> bool {
    decoded matches Ok(p) ==> rgba_wf(p)
}

/// Whether a scaled preview of `width` by `height` pixels is the largest
/// that fits within `max_size` by `max_size` (when that bound is not zero).
pub open spec fn preview_size_fits(width: u32, height: u32, max_size: u32) -> bool {
    max_size >= 1 ==> width <= max_size && height <= max_size && (width == max_size || height
        == max_size)
}

/// What is stated of the preview `q` that scaling the decoded image `p`
/// down to fit `max_size` by `max_size` gives (see [`scaled_copy`]).
pub open spec fn scaled_preview(p: RgbaPixels, max_size: u32, q: RgbaPixels) -> bool {
    &&& rgba_wf(q)
    &&& scaled_copy(p.data@, p.width, p.height, max_size, q.data@, q.width, q.height)
}

/// A scaled preview of an image of one colour is an image, of at least one
/// pixel, of that same colour (when no side is shrunk by more than a factor
/// of 256): its pixels are the scaled image, not any bytes of the right
/// length.
pub proof fn law_scaled_preview_keeps_the_colour(p: RgbaPixels, max_size: u32, q: RgbaPixels, c: Seq<u8>)
    requires
        rgba_wf(p),
        scaled_preview(p, max_size, q),
        p.width > 0,
        p.height > 0,
        moderate_scale(p.width, p.height, max_size),
        uniform_of(p.data@, c),
    ensures
        uniform_of(q.data@, c),
        q.data@.len() > 0,
{
    assert(p.data@.subrange(0, 4 * p.width * p.height) =~= p.data@);
    assert(uniform_of(q.data@, c));
    assert(4 * q.width * q.height >= 4) by (nonlinear_arith)
        requires
            q.width >= 1,
            q.height >= 1,
    ;
}

/// The preview of an image with its dimensions. `decoded` is what the
/// image's file decoded to (by the `image` crate, or by a RAW decoder); a
/// file that could not be decoded fails with the decoder's reason. An image
/// that fits within `max_size` by `max_size` is the preview as it is; a
/// larger one is scaled down with the Lanczos3 filter, keeping its aspect
/// ratio, to the largest size that fits.
pub fn load_preview_pixels(max_size: u32, decoded: Result<RgbaPixels, String>) -> (r: Result<
    RgbaPixels,
    String,
>)
    requires
        decoded_wf(decoded),
    ensures
        decoded is Err ==> (r matches Err(m) && m == decoded->Err_0),
        decoded matches Ok(p) ==> (p.width <= max_size && p.height <= max_size ==> (r matches Ok(q)
            && q.data@ == p.data@ && q.width == p.width && q.height == p.height)),
        decoded matches Ok(p) ==> (p.width > max_size || p.height > max_size ==> (r matches Ok(q)
            && rgba_wf(q) && preview_size_fits(q.width, q.height, max_size) && keeps_aspect(
            p.width,
            p.height,
            q.width,
            q.height,
        ) && scaled_preview(p, max_size, q))),
        max_size >= 1 ==> (r matches Ok(q) ==> q.width <= max_size && q.height <= max_size),
{
    let p = match decoded {
        Ok(p) => p,
        Err(e) => return Err(e),
    };
    if p.width > max_size || p.height > max_size {
        let (data, width, height) = resize_rgba(p.data.as_slice(), p.width, p.height, max_size);
        Ok(RgbaPixels { data, width, height })
    } else {
        Ok(p)
    }
}

/// The RGBA pixels of the preview of an image, at most `max_size` pixels
/// wide and high; see [`load_preview_pixels`].
pub fn load_preview(max_size: u32, decoded: Result<RgbaPixels, String>) -> (r: Result<Vec<u8>, String>)
    requires
        decoded_wf(decoded),
    ensures
        decoded is Err ==> r == Err::<Vec<u8>, String>(decoded->Err_0),
        decoded matches Ok(p) ==> (p.width <= max_size && p.height <= max_size ==> (r matches Ok(v)
            && v@ == p.data@)),
        decoded matches Ok(p) ==> (p.width > max_size || p.height > max_size ==> (r matches Ok(v)
            && exists|w: u32, h: u32|
            #![trigger preview_size_fits(w, h, max_size)]
            v@.len() == 4 * w * h && preview_size_fits(w, h, max_size) && keeps_aspect(
                p.width,
                p.height,
                w,
                h,
            ) && scaled_copy(p.data@, p.width, p.height, max_size, v@, w, h))),
{
    let ghost d = decoded;
    match load_preview_pixels(max_size, decoded) {
        Ok(q) => {
            proof {
                match d {
                    Ok(p) => {
                        if p.width > max_size || p.height > max_size {
                            assert(preview_size_fits(q.width, q.height, max_size));
                        }
                    },
                    Err(_) => {},
                }
            }
            Ok(q.data)
        },
        Err(e) => Err(e),
    }
}

/// The RGBA pixels of an image at full resolution: what its file decoded to
/// (by the `image` crate, or by a RAW decoder), or the decoder's reason.
pub fn load_full(decoded: Result<RgbaPixels, String>) -> (r: Result<Vec<u8>, String>)
    ensures
        decoded is Err ==> r == Err::<Vec<u8>, String>(decoded->Err_0),
        decoded matches Ok(p) ==> (r matches Ok(v) && v@ == p.data@),
{
    match decoded {
        Ok(p) => Ok(p.data),
        Err(e) => Err(e),
    }
}

/// The quality the `image` crate encodes JPEG at by default.
pub const DEFAULT_JPEG_QUALITY: u8 = 75;

/// A JPEG thumbnail of an image. `decoded` is what the image's file decoded
/// to (by the `image` crate, or by a RAW decoder); a file that could not be
/// decoded fails with the decoder's reason. Otherwise the image is scaled
/// with the Triangle filter, keeping its aspect ratio, to the largest size
/// that fits in `size` by `size` (up or down), and the result is the
/// `image` crate's JPEG encoding of it at the default quality, or that
/// encoder's error.
pub fn generate_thumbnail(size: u32, decoded: Result<RgbaPixels, String>) -> (r: Result<Vec<u8>, String>)
    requires
        decoded_wf(decoded),
        decoded matches Ok(p) ==> 16 * (p.width + size) * (p.height + size) <= isize::MAX,
    ensures
        decoded is Err ==> r == Err::<Vec<u8>, String>(decoded->Err_0),
        decoded matches Ok(p) ==> ({
            let t = triangle_resized(p.data@, p.width, p.height, size);
            &&& encoding_view(r) == jpeg_encoding(t.0, t.1, t.2, DEFAULT_JPEG_QUALITY)
            &&& t.0.len() == 4 * t.1 * t.2
            &&& (size >= 1 && (p.width > 0 || p.height > 0) ==> t.1 <= size && t.2 <= size && (t.1
                == size || t.2 == size))
            &&& keeps_aspect(p.width, p.height, t.1, t.2)
        }),
{
    match decoded {
        Ok(p) => {
            let (data, w, h) = resize_rgba_smooth(p.data.as_slice(), p.width, p.height, size);
            encode_jpeg(data.as_slice(), w, h, DEFAULT_JPEG_QUALITY)
        },
        Err(e) => Err(e),
    }
}

} // verus!
