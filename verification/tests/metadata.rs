use photo_editor::metadata::{exif_facts, exif_facts_of, exif_map, unquote, ExifField};

fn field(ifd: u16, name: &str, text: &str, uint: Option<u32>, rational: Option<(u32, u32)>) -> ExifField {
    ExifField { ifd, name: name.to_string(), text: text.to_string(), uint, rational }
}

fn tiff_with_fields() -> Vec<u8> {
    let model = exif::Field {
        tag: exif::Tag::Model,
        ifd_num: exif::In::PRIMARY,
        value: exif::Value::Ascii(vec![b"Canon EOS R5".to_vec()]),
    };
    let focal = exif::Field {
        tag: exif::Tag::FocalLength,
        ifd_num: exif::In::PRIMARY,
        value: exif::Value::Rational(vec![exif::Rational { num: 50, denom: 1 }]),
    };
    let iso = exif::Field {
        tag: exif::Tag::PhotographicSensitivity,
        ifd_num: exif::In::PRIMARY,
        value: exif::Value::Short(vec![400]),
    };
    let mut w = exif::experimental::Writer::new();
    w.push_field(&model);
    w.push_field(&focal);
    w.push_field(&iso);
    let mut out = std::io::Cursor::new(Vec::new());
    w.write(&mut out, false).unwrap();
    out.into_inner()
}

#[test]
fn unquote_removes_surrounding_quotes_only() {
    assert_eq!(unquote("\"Canon\""), "Canon");
    assert_eq!(unquote("\"\"a\"b\"\""), "a\"b");
    assert_eq!(unquote("plain"), "plain");
    assert_eq!(unquote("\"\""), "");
    assert_eq!(unquote(""), "");
}

#[test]
fn facts_take_the_last_primary_field_of_each_tag() {
    let fields = vec![
        field(0, "Model", "\"Old\"", None, None),
        field(1, "LensModel", "\"Thumb lens\"", None, None),
        field(0, "DateTimeOriginal", "2024-01-15 10:00:00", None, None),
        field(0, "PhotographicSensitivity", "400", Some(400), None),
        field(0, "FocalLength", "50 mm", None, Some((50, 1))),
        field(0, "FNumber", "f/2.8", None, Some((28, 10))),
        field(0, "ExposureTime", "1/250 s", Some(1), Some((1, 250))),
        field(0, "Model", "\"Canon EOS R5\"", None, None),
    ];
    let f = exif_facts(&fields);
    assert_eq!(f.camera.as_deref(), Some("Canon EOS R5"));
    assert_eq!(f.lens, None);
    assert_eq!(f.date_taken.as_deref(), Some("2024-01-15 10:00:00"));
    assert_eq!(f.iso, Some(400));
    assert_eq!(f.focal_length, Some((50, 1)));
    assert_eq!(f.aperture, Some((28, 10)));
    assert_eq!(f.shutter_speed.as_deref(), Some("1/250 s"));
    let none = exif_facts(&Vec::new());
    assert!(none.camera.is_none() && none.iso.is_none() && none.focal_length.is_none());
}

#[test]
fn facts_and_fields_of_file_contents() {
    let bytes = tiff_with_fields();
    let f = exif_facts_of(&bytes);
    assert_eq!(f.camera.as_deref(), Some("Canon EOS R5"));
    assert_eq!(f.focal_length, Some((50, 1)));
    assert_eq!(f.iso, Some(400));
    assert_eq!(f.date_taken, None);
    let map = exif_map(&bytes).unwrap();
    assert!(map.iter().any(|(k, v)| k == "Model" && v == "\"Canon EOS R5\""));
    assert!(map.iter().any(|(k, _)| k == "FocalLength"));
    let bad = exif_facts_of(&[1, 2, 3]);
    assert!(bad.camera.is_none() && bad.iso.is_none());
    assert!(exif_map(&[1, 2, 3]).is_err());
}
