use photo_editor::export::{encode_export, encode_pixels, export_format, ExportFormat};
use photo_editor::loader::{generate_thumbnail, RgbaPixels};
use photo_editor::paths::export_extension;

const PNG_SIGNATURE: [u8; 8] = [137, 80, 78, 71, 13, 10, 26, 10];

fn pixels(width: u32, height: u32) -> Vec<u8> {
    let mut v = Vec::new();
    for i in 0..(width * height) {
        v.extend_from_slice(&[(i * 37 % 256) as u8, (i * 11 % 256) as u8, 200, 255]);
    }
    v
}

fn decoded_dims(bytes: &[u8]) -> (u32, u32) {
    let img = image::load_from_memory(bytes).unwrap();
    (img.width(), img.height())
}

#[test]
fn export_format_names() {
    assert_eq!(export_format("png"), ExportFormat::Png);
    assert_eq!(export_format("tiff"), ExportFormat::Tiff);
    assert_eq!(export_format("jpeg"), ExportFormat::Jpeg);
    assert_eq!(export_format("PNG"), ExportFormat::Jpeg);
    assert_eq!(export_format(""), ExportFormat::Jpeg);
}

#[test]
fn extension_matches_encoder() {
    for (f, sig) in [("png", &PNG_SIGNATURE[..4]), ("tiff", &b"II*\0"[..]), ("webp", &[0xFF, 0xD8][..])] {
        let bytes = encode_pixels(&pixels(3, 2), 3, 2, f, 90).unwrap();
        assert!(bytes.starts_with(sig), "{f}");
        let ext = export_extension(f);
        let fmt = image::ImageFormat::from_extension(&ext).unwrap();
        assert_eq!(image::guess_format(&bytes).unwrap(), fmt, "{f}");
    }
}

#[test]
fn encode_pixels_png_round_trips() {
    let data = pixels(5, 3);
    let bytes = encode_pixels(&data, 5, 3, "png", 0).unwrap();
    assert!(bytes.starts_with(&PNG_SIGNATURE));
    let back = image::load_from_memory(&bytes).unwrap().to_rgba8();
    assert_eq!(back.dimensions(), (5, 3));
    assert_eq!(back.into_raw(), data);
}

#[test]
fn export_fails_on_too_few_bytes() {
    let data = pixels(2, 2);
    let err = encode_export(&data[..15], 2, 2, "png", 90, None).unwrap_err();
    assert_eq!(err, "Failed to create image from RGBA data");
    let err = encode_export(&[], 1, 1, "jpeg", 90, Some(10)).unwrap_err();
    assert_eq!(err, "Failed to create image from RGBA data");
}

#[test]
fn export_scales_down_to_the_bound() {
    let data = pixels(8, 4);
    let bytes = encode_export(&data, 8, 4, "png", 90, Some(4)).unwrap();
    assert_eq!(decoded_dims(&bytes), (4, 2));
    let bytes = encode_export(&data, 8, 4, "tiff", 90, Some(2)).unwrap();
    assert_eq!(decoded_dims(&bytes), (2, 1));
}

#[test]
fn export_keeps_size_within_the_bound() {
    let data = pixels(8, 4);
    let bytes = encode_export(&data, 8, 4, "png", 90, Some(8)).unwrap();
    assert_eq!(decoded_dims(&bytes), (8, 4));
    let bytes = encode_export(&data, 8, 4, "jpeg", 90, None).unwrap();
    assert_eq!(&bytes[..2], &[0xFF, 0xD8]);
    assert_eq!(decoded_dims(&bytes), (8, 4));
}

#[test]
fn export_jpeg_accepts_extra_bytes() {
    let mut data = pixels(2, 2);
    data.extend_from_slice(&[1, 2, 3]);
    let bytes = encode_export(&data, 2, 2, "jpg", 80, None).unwrap();
    assert_eq!(decoded_dims(&bytes), (2, 2));
}

#[test]
fn export_jpeg_quality_changes_the_bytes() {
    let data = pixels(16, 16);
    let low = encode_export(&data, 16, 16, "jpeg", 10, None).unwrap();
    let high = encode_export(&data, 16, 16, "jpeg", 100, None).unwrap();
    assert_ne!(low, high);
}

#[test]
fn thumbnail_of_undecodable_file_fails() {
    let e = generate_thumbnail(64, Err("bad file".to_string())).unwrap_err();
    assert_eq!(e, "bad file");
}

#[test]
fn thumbnail_is_a_jpeg_within_the_size() {
    let img = RgbaPixels { data: pixels(10, 6), width: 10, height: 6 };
    let bytes = generate_thumbnail(5, Ok(img)).unwrap();
    assert_eq!(&bytes[..2], &[0xFF, 0xD8]);
    assert_eq!(decoded_dims(&bytes), (5, 3));
    let small = RgbaPixels { data: pixels(4, 2), width: 4, height: 2 };
    let bytes = generate_thumbnail(16, Ok(small)).unwrap();
    assert_eq!(decoded_dims(&bytes), (16, 8));
}

#[test]
fn export_scaling_keeps_the_aspect_ratio() {
    let data = pixels(8, 2);
    let bytes = encode_export(&data, 8, 2, "png", 90, Some(3)).unwrap();
    assert_eq!(decoded_dims(&bytes), (3, 1));
    let data = pixels(2, 9);
    let bytes = encode_export(&data, 2, 9, "png", 90, Some(6)).unwrap();
    assert_eq!(decoded_dims(&bytes), (1, 6));
}

#[test]
fn thumbnail_is_the_same_for_the_same_pixels() {
    let a = generate_thumbnail(7, Ok(RgbaPixels { data: pixels(9, 5), width: 9, height: 5 })).unwrap();
    let b = generate_thumbnail(7, Ok(RgbaPixels { data: pixels(9, 5), width: 9, height: 5 })).unwrap();
    assert_eq!(a, b);
    assert_eq!(decoded_dims(&a), (7, 4));
}
