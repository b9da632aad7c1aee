use photo_editor::paths::{
    batch_output_path, dirs_data_path, dirs_next_data, Platform, export_extension, format_for_extension,
    is_raw, is_supported_image_path, lowercase_extension, to_forward_slashes, xmp_sidecar_path,
};

#[test]
fn supported_paths_by_extension() {
    assert!(is_supported_image_path("/photos/a.JPG"));
    assert!(is_supported_image_path("/photos/a.cr3"));
    assert!(is_supported_image_path("b.WebP"));
    assert!(!is_supported_image_path("/photos/notes.txt"));
    assert!(!is_supported_image_path("/photos/jpg"));
    assert!(!is_supported_image_path("/photos/.jpg"));
}

#[test]
fn raw_extensions() {
    for e in ["cr2", "cr3", "nef", "arw", "dng", "orf", "rw2", "raf", "pef"] {
        assert!(is_raw(e));
    }
    assert!(!is_raw("CR2"));
    assert!(!is_raw("jpg"));
}

#[test]
fn formats_of_extensions() {
    assert_eq!(format_for_extension("jpg"), "jpeg");
    assert_eq!(format_for_extension("nef"), "raw");
    assert_eq!(format_for_extension("bmp"), "jpeg");
    assert_eq!(format_for_extension(""), "jpeg");
    assert_eq!(lowercase_extension("/a/B.TIF"), "tif");
    assert_eq!(lowercase_extension("/a/B"), "");
}

#[test]
fn forward_slashes_replace_backslashes() {
    assert_eq!(to_forward_slashes("C:\\a\\b.jpg"), "C:/a/b.jpg");
    assert_eq!(to_forward_slashes("/a/b"), "/a/b");
}

#[test]
fn export_paths() {
    assert_eq!(export_extension("png"), "png");
    assert_eq!(export_extension("tiff"), "tiff");
    assert_eq!(export_extension("jpeg"), "jpg");
    assert_eq!(batch_output_path("/out", "/photos/IMG_1.CR2", "png"), "/out/IMG_1.png");
    assert_eq!(batch_output_path("/out", "/photos/IMG_2.jpg", "webp"), "/out/IMG_2.jpg");
    assert_eq!(batch_output_path("/out", "/", "jpeg"), "/out/untitled.jpg");
    assert_eq!(xmp_sidecar_path("/photos/a.jpg"), "/photos/a.xmp");
}

#[test]
fn data_directories() {
    assert_eq!(dirs_data_path(Some("/home/u/.local/share".to_string())), "/home/u/.local/share/photo-editor");
    assert_eq!(dirs_data_path(None), "./data");
    let s = |v: &str| Some(v.to_string());
    assert_eq!(dirs_next_data(Platform::Linux, s("C:/A"), s("/x"), s("/home/u")), s("/x"));
    assert_eq!(dirs_next_data(Platform::Linux, s("C:/A"), None, s("/home/u")), s("/home/u/.local/share"));
    assert_eq!(dirs_next_data(Platform::Linux, s("C:/A"), None, None), None);
    assert_eq!(dirs_next_data(Platform::MacOs, None, s("/x"), s("/Users/u")), s("/Users/u/Library/Application Support"));
    assert_eq!(dirs_next_data(Platform::MacOs, s("C:/A"), s("/x"), None), None);
    assert_eq!(dirs_next_data(Platform::Windows, s("C:/A"), s("/x"), s("/home/u")), s("C:/A"));
    assert_eq!(dirs_next_data(Platform::Windows, None, s("/x"), s("/home/u")), None);
}
