use photo_editor::loader::{
    decode_image, image_dimensions_or_zero, is_raw_path, load_full, load_preview, load_preview_pixels, RgbaPixels,
};

#[test]
fn raw_paths_are_recognised() {
    assert!(is_raw_path("/p/A.NEF"));
    assert!(is_raw_path("/p/a.cr3"));
    assert!(!is_raw_path("/p/a.jpg"));
    assert!(!is_raw_path("/p/cr2"));
}

#[test]
fn decode_failures_pass_through() {
    assert_eq!(load_preview(100, Err("no such file".to_string())), Err("no such file".to_string()));
    assert_eq!(load_full(Err("no such file".to_string())), Err("no such file".to_string()));
    assert_eq!(load_preview_pixels(100, Err("bad".to_string())).unwrap_err(), "bad");
}

fn rgba(width: u32, height: u32) -> RgbaPixels {
    let data = (0..width * height * 4).map(|i| (i % 251) as u8).collect();
    RgbaPixels { data, width, height }
}

#[test]
fn preview_is_scaled_down_to_fit() {
    let small = load_preview(4, Ok(rgba(10, 5))).unwrap();
    assert_eq!(small.len(), 4 * 4 * 2);
    let full = load_preview(10, Ok(rgba(10, 5))).unwrap();
    assert_eq!(full, rgba(10, 5).data);
    let all = load_full(Ok(rgba(10, 5))).unwrap();
    assert_eq!(all, rgba(10, 5).data);
}

#[test]
fn preview_pixels_report_their_dimensions() {
    let p = load_preview_pixels(10, Ok(rgba(30, 12))).unwrap();
    assert_eq!((p.width, p.height), (10, 4));
    assert_eq!(p.data.len(), 4 * 10 * 4);
    let q = load_preview_pixels(30, Ok(rgba(30, 12))).unwrap();
    assert_eq!((q.width, q.height), (30, 12));
    assert_eq!(q.data, rgba(30, 12).data);
}

#[test]
fn decode_image_reads_the_format_of_the_extension() {
    let img = image::RgbImage::from_fn(3, 2, |x, y| image::Rgb([x as u8 * 40, y as u8 * 90, 7]));
    let mut png = std::io::Cursor::new(Vec::new());
    img.write_to(&mut png, image::ImageFormat::Png).unwrap();
    let png = png.into_inner();
    let p = decode_image("/p/a.png", png.clone()).unwrap();
    assert_eq!((p.width, p.height), (3, 2));
    assert_eq!(p.data.len(), 24);
    assert_eq!(&p.data[..8], &[0, 0, 7, 255, 40, 0, 7, 255]);
    assert!(decode_image("/p/a.jpg", png.clone()).is_err());
    assert!(decode_image("/p/a.xyz", png.clone()).is_err());
    assert!(decode_image("/p/a.png", vec![1, 2, 3]).is_err());
}

#[test]
fn preview_keeps_the_aspect_ratio() {
    let p = load_preview_pixels(100, Ok(rgba(30, 300))).unwrap();
    assert_eq!((p.width, p.height), (10, 100));
    let q = load_preview_pixels(7, Ok(rgba(3, 10))).unwrap();
    assert_eq!((q.width, q.height), (2, 7));
    let tall = load_preview_pixels(2, Ok(rgba(1, 40))).unwrap();
    assert_eq!((tall.width, tall.height), (1, 2));
}

#[test]
fn decode_gives_the_same_pixels_for_the_same_bytes() {
    let img = image::RgbImage::from_fn(4, 3, |x, y| image::Rgb([x as u8, y as u8, 9]));
    let mut png = std::io::Cursor::new(Vec::new());
    img.write_to(&mut png, image::ImageFormat::Png).unwrap();
    let png = png.into_inner();
    let a = decode_image("/x/a.PNG", png.clone()).unwrap();
    let b = decode_image("/y/b.png", png).unwrap();
    assert_eq!((a.data, a.width, a.height), (b.data, b.width, b.height));
}

#[test]
fn import_dimensions_come_from_the_header() {
    let img = image::RgbImage::from_fn(5, 3, |_, _| image::Rgb([1, 2, 3]));
    let mut png = std::io::Cursor::new(Vec::new());
    img.write_to(&mut png, image::ImageFormat::Png).unwrap();
    let png = png.into_inner();
    assert_eq!(image_dimensions_or_zero("/p/a.png", &png), (5, 3));
    assert_eq!(image_dimensions_or_zero("/p/a.jpg", &png), (0, 0));
    assert_eq!(image_dimensions_or_zero("/p/a.png", &[1, 2, 3]), (0, 0));
    assert_eq!(image_dimensions_or_zero("/p/noext", &png), (0, 0));
}
