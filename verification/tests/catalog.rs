use photo_editor::catalog::{
    create_collection_statement, delete_images_statements, image_by_id_statement,
    remove_tag_statement, save_edit_params_statements, save_snapshot_statement,
    set_color_label_statement, set_flag_statement, IMAGE_BY_ID_SQL,
    add_to_collection_statements, clamp_rating, images_page_statement, import_record,
    new_collection_record, search_statement, set_rating_statement, snapshot_params,
    str_eq_ignore_ascii_case, summarize_import, ImportAttempt, SqlParam, IMAGES_PAGE_HEAD,
    SEARCH_HEAD, SEARCH_TAIL, select_import_files, ImportSource, SourceKind, insert_image_statement,
};
use photo_editor::models::{ExifBasic, FloatBits};

fn text(p: &SqlParam) -> &str {
    match p {
        SqlParam::Text(s) => s.as_str(),
        other => panic!("not text: {:?}", other),
    }
}

fn int_param(p: &SqlParam) -> i64 {
    match p {
        SqlParam::Integer(i) => *i,
        other => panic!("not an integer: {:?}", other),
    }
}

#[test]
fn page_statement_whitelists_sort_column() {
    let s = images_page_statement(10, 50, "rating", "asc");
    assert_eq!(s.sql, format!("{}rating ASC LIMIT ? OFFSET ?", IMAGES_PAGE_HEAD));
    assert_eq!(int_param(&s.params[0]), 50);
    assert_eq!(int_param(&s.params[1]), 10);
    let bad = images_page_statement(0, 100, "id; DROP TABLE images", "DESC");
    assert_eq!(bad.sql, format!("{}date_taken DESC LIMIT ? OFFSET ?", IMAGES_PAGE_HEAD));
    let odd = images_page_statement(0, 100, "file_name", "ascending");
    assert!(odd.sql.ends_with("file_name DESC LIMIT ? OFFSET ?"));
}

#[test]
fn eq_ignore_ascii_case_matches_std() {
    for (a, b) in [("ASC", "asc"), ("AsC", "ASC"), ("ASC", "ASCX"), ("ä", "Ä"), ("", "")] {
        assert_eq!(str_eq_ignore_ascii_case(a, b), a.eq_ignore_ascii_case(b), "{} {}", a, b);
    }
}

#[test]
fn rating_is_capped_at_five() {
    assert_eq!(clamp_rating(3), 3);
    assert_eq!(clamp_rating(5), 5);
    assert_eq!(clamp_rating(9), 5);
    let s = set_rating_statement("img-1", 200);
    assert_eq!(s.sql, "UPDATE images SET rating = ?1 WHERE id = ?2");
    assert_eq!(int_param(&s.params[0]), 5);
    assert_eq!(text(&s.params[1]), "img-1");
}

#[test]
fn search_without_filters_binds_nothing() {
    let s = search_statement("", None, None, None);
    assert_eq!(s.sql, format!("{}{}", SEARCH_HEAD, SEARCH_TAIL));
    assert!(s.params.is_empty());
}

#[test]
fn search_numbers_placeholders_in_order() {
    let s = search_statement("beach", Some(3), Some("red"), Some("picked"));
    let expected = format!(
        "{} AND (i.file_name LIKE ?1 OR i.camera LIKE ?1 OR t.name LIKE ?1) AND i.rating >= ?2 AND i.color_label = ?3 AND i.flag = ?4{}",
        SEARCH_HEAD, SEARCH_TAIL
    );
    assert_eq!(s.sql, expected);
    assert_eq!(s.params.len(), 4);
    assert_eq!(text(&s.params[0]), "%beach%");
    assert_eq!(int_param(&s.params[1]), 3);
    assert_eq!(text(&s.params[2]), "red");
    assert_eq!(text(&s.params[3]), "picked");
}

#[test]
fn search_skipped_filters_shift_numbers() {
    let s = search_statement("", None, Some("blue"), Some("rejected"));
    assert!(s.sql.contains(" AND i.color_label = ?1 AND i.flag = ?2"));
    assert_eq!(s.params.len(), 2);
    let r = search_statement("", Some(4), None, None);
    assert!(r.sql.contains(" AND i.rating >= ?1 ORDER BY"));
}

#[test]
fn collection_positions_follow_order() {
    let ids = vec!["a".to_string(), "b".to_string(), "c".to_string()];
    let st = add_to_collection_statements("col", &ids);
    assert_eq!(st.len(), 3);
    for (i, s) in st.iter().enumerate() {
        assert_eq!(text(&s.params[0]), "col");
        assert_eq!(text(&s.params[1]), ids[i]);
        assert_eq!(int_param(&s.params[2]), i as i64);
    }
}

#[test]
fn new_collection_is_empty() {
    let c = new_collection_record("id-1".to_string(), "Trips", Some("parent"), "now".to_string());
    assert_eq!(c.image_count, 0);
    assert_eq!(c.name, "Trips");
    assert_eq!(c.parent_id.as_deref(), Some("parent"));
    let top = new_collection_record("id-2".to_string(), "Top", None, "now".to_string());
    assert!(top.parent_id.is_none());
}

#[test]
fn snapshot_defaults_to_empty_object() {
    assert_eq!(snapshot_params(None), "{}");
    assert_eq!(snapshot_params(Some("{\"exposure\":1}".to_string())), "{\"exposure\":1}");
}

fn exif() -> ExifBasic {
    ExifBasic {
        date_taken: Some("2024-01-15".to_string()),
        camera: Some("Canon EOS R5".to_string()),
        lens: None,
        iso: Some(400),
        focal_length: Some(FloatBits { bits: 50.0f64.to_bits() }),
        aperture: None,
        shutter_speed: Some("1/250".to_string()),
    }
}

#[test]
fn import_record_from_path() {
    let r = import_record("C:\\photos\\IMG_1.CR3", "id".to_string(), 10, 20, exif(), "t".to_string());
    assert_eq!(r.file_path, "C:/photos/IMG_1.CR3");
    assert_eq!(r.format, "raw");
    assert_eq!(r.rating, 0);
    assert_eq!(r.color_label, "none");
    assert_eq!(r.flag, "none");
    assert!(r.tags.is_empty() && r.edit_params.is_none());
    assert_eq!(f64::from_bits(r.focal_length.unwrap().bits), 50.0);
    let j = import_record("/photos/a.JPEG", "id".to_string(), 1, 1, ExifBasic::empty(), "t".to_string());
    assert_eq!(j.format, "jpeg");
    assert_eq!(j.file_name, "a.JPEG");
    let t = import_record("/photos/b.tif", "id".to_string(), 1, 1, ExifBasic::empty(), "t".to_string());
    assert_eq!(t.format, "tiff");
    let w = import_record("/photos/c.webp", "id".to_string(), 1, 1, ExifBasic::empty(), "t".to_string());
    assert_eq!(w.format, "jpeg");
    let p = import_record("/photos/d.png", "id".to_string(), 1, 1, ExifBasic::empty(), "t".to_string());
    assert_eq!(p.format, "png");
}

fn rec(id: &str) -> photo_editor::models::ImageRecord {
    import_record("/p/x.jpg", id.to_string(), 1, 1, ExifBasic::empty(), "t".to_string())
}

#[test]
fn import_keeps_inserted_records_in_order() {
    let attempts = vec![
        ImportAttempt { path: "/p/1.jpg".to_string(), outcome: Ok((rec("1"), Ok(1))) },
        ImportAttempt { path: "/p/2.jpg".to_string(), outcome: Ok((rec("2"), Ok(0))) },
        ImportAttempt { path: "/p/3.jpg".to_string(), outcome: Err("bad file".to_string()) },
        ImportAttempt { path: "/p/4.jpg".to_string(), outcome: Ok((rec("4"), Ok(1))) },
    ];
    let v = summarize_import(attempts).unwrap();
    assert_eq!(v.iter().map(|r| r.id.as_str()).collect::<Vec<_>>(), vec!["1", "4"]);
}

#[test]
fn import_fails_with_first_failure_when_nothing_added() {
    let attempts = vec![
        ImportAttempt { path: "/p/1.jpg".to_string(), outcome: Ok((rec("1"), Ok(0))) },
        ImportAttempt { path: "/p/2.jpg".to_string(), outcome: Ok((rec("2"), Err("locked".to_string()))) },
        ImportAttempt { path: "/p/3.jpg".to_string(), outcome: Err("bad file".to_string()) },
    ];
    let e = summarize_import(attempts).unwrap_err();
    assert_eq!(e, "Failed to import the selected files. /p/2.jpg: locked");
}

#[test]
fn import_of_duplicates_only_is_empty_success() {
    let attempts = vec![ImportAttempt { path: "/p/1.jpg".to_string(), outcome: Ok((rec("1"), Ok(0))) }];
    assert!(summarize_import(attempts).unwrap().is_empty());
    assert!(summarize_import(Vec::new()).unwrap().is_empty());
}

#[test]
fn single_value_statements() {
    let s = image_by_id_statement("img");
    assert_eq!(s.sql, IMAGE_BY_ID_SQL);
    assert!(s.sql.ends_with("FROM images WHERE id = ?1"));
    assert_eq!(text(&s.params[0]), "img");
    let c = set_color_label_statement("img", "red");
    assert_eq!(c.sql, "UPDATE images SET color_label = ?1 WHERE id = ?2");
    assert_eq!((text(&c.params[0]), text(&c.params[1])), ("red", "img"));
    let f = set_flag_statement("img", "picked");
    assert_eq!((text(&f.params[0]), text(&f.params[1])), ("picked", "img"));
    let r = remove_tag_statement("img", "beach");
    assert_eq!((text(&r.params[0]), text(&r.params[1])), ("img", "beach"));
}

#[test]
fn edit_and_snapshot_statements() {
    let st = save_edit_params_statements("img", "{\"a\":1}", "h1");
    assert_eq!(st.len(), 2);
    assert_eq!(st[0].sql, "UPDATE images SET edit_params = ?1 WHERE id = ?2");
    assert_eq!(text(&st[1].params[0]), "h1");
    assert_eq!(text(&st[1].params[2]), "{\"a\":1}");
    let snap = save_snapshot_statement("s1", "img", "before", None);
    assert_eq!(text(&snap.params[3]), "{}");
    let snap2 = save_snapshot_statement("s1", "img", "before", Some("{\"x\":2}".to_string()));
    assert_eq!(text(&snap2.params[3]), "{\"x\":2}");
    let col = create_collection_statement("c1", "Trips", None);
    assert!(matches!(col.params[2], SqlParam::Null));
    let del = delete_images_statements(&vec!["a".to_string(), "b".to_string()]);
    assert_eq!(del.len(), 2);
    assert_eq!(text(&del[1].params[0]), "b");
}

fn dir(input: &str, files: &[&str]) -> ImportSource {
    ImportSource { input: input.to_string(), kind: SourceKind::Dir(files.iter().map(|f| f.to_string()).collect()) }
}

fn source(input: &str, kind: SourceKind) -> ImportSource {
    ImportSource { input: input.to_string(), kind }
}

#[test]
fn import_selection_keeps_supported_files_in_order() {
    let sources = vec![
        dir("/pics", &["/pics/b.JPG", "/pics/notes.txt", "/pics/a.cr2", "/pics/noext"]),
        source("/other/c.png", SourceKind::File),
    ];
    assert_eq!(
        select_import_files(&sources).unwrap(),
        vec!["/other/c.png".to_string(), "/pics/a.cr2".to_string(), "/pics/b.JPG".to_string()]
    );
}

#[test]
fn import_selection_is_in_path_order_without_repeats() {
    let root = "/tmp/photo-editor-import-sources";
    let selected = format!("{root}/selected.jpg");
    let nested = format!("{root}/nested/nested.png");
    let raw = format!("{root}/raw.cr3");
    let sources = vec![
        source(&selected, SourceKind::File),
        dir(root, &[&selected, &nested, &raw]),
        source(&format!("{root}//raw.cr3"), SourceKind::File),
    ];
    let files = select_import_files(&sources).unwrap();
    assert_eq!(files, vec![nested, raw, selected]);
    let err = select_import_files(&vec![source("/tmp/notes.txt", SourceKind::File)]).unwrap_err();
    assert!(err.contains("Unsupported file type"));
}

#[test]
fn import_selection_fails_on_first_bad_source() {
    let sources = vec![
        dir("/pics", &["/pics/a.jpg"]),
        source("/x/readme.md", SourceKind::File),
        source("/nowhere", SourceKind::Missing),
    ];
    assert_eq!(select_import_files(&sources).unwrap_err(), "Unsupported file type: /x/readme.md");
    let sources = vec![source("/nowhere", SourceKind::Missing), source("/x/readme.md", SourceKind::File)];
    assert_eq!(select_import_files(&sources).unwrap_err(), "Selected path does not exist: /nowhere");
}

#[test]
fn import_selection_needs_some_image() {
    let none: Vec<ImportSource> = Vec::new();
    let msg = "No supported image files were found in the selected sources.";
    assert_eq!(select_import_files(&none).unwrap_err(), msg);
    assert_eq!(select_import_files(&vec![dir("/empty", &["/empty/a.txt"])]).unwrap_err(), msg);
}

#[test]
fn insert_image_binds_the_record_and_thumbnail() {
    let r = import_record("/p/a.CR2", "id9".to_string(), 10, 20, exif(), "t".to_string());
    let st = insert_image_statement(&r, &vec![1, 2, 3]);
    assert!(st.sql.starts_with("INSERT OR IGNORE INTO images (id, file_path"));
    assert!(st.sql.ends_with("?13, ?14, ?15)"));
    assert_eq!(st.params.len(), 15);
    assert!(matches!(&st.params[0], SqlParam::Text(s) if s == "id9"));
    assert!(matches!(&st.params[1], SqlParam::Text(s) if s == "/p/a.CR2"));
    assert!(matches!(&st.params[3], SqlParam::Text(s) if s == "raw"));
    assert!(matches!(st.params[4], SqlParam::Integer(10)));
    assert!(matches!(st.params[5], SqlParam::Integer(20)));
    assert!(matches!(&st.params[10], SqlParam::Real(f) if f64::from_bits(f.bits) == 50.0));
    assert!(matches!(&st.params[13], SqlParam::Blob(b) if b == &vec![1u8, 2, 3]));
    assert!(matches!(&st.params[14], SqlParam::Text(s) if s == "null"));
    let e = import_record("/p/b.png", "x".to_string(), 1, 1, ExifBasic::empty(), "t".to_string());
    let st = insert_image_statement(&e, &Vec::new());
    for i in [6, 7, 8, 9, 10, 11, 12] {
        assert!(matches!(st.params[i], SqlParam::Null), "{i}");
    }
}

#[test]
fn snapshot_saved_is_read_back_by_its_id() {
    let save = save_snapshot_statement("s1", "img", "before", None);
    let load = photo_editor::catalog::load_snapshot_statement("s1");
    assert!(matches!(&save.params[0], SqlParam::Text(id) if id == "s1"));
    assert!(matches!(&save.params[3], SqlParam::Text(j) if j == "{}"));
    assert!(matches!(&load.params[0], SqlParam::Text(id) if id == "s1"));
    assert!(save.sql.contains("params_json") && load.sql.contains("SELECT params_json FROM snapshots WHERE id = ?1"));
    let save = save_snapshot_statement("s2", "img", "after", Some("{\"exposure\":1}".to_string()));
    assert!(matches!(&save.params[3], SqlParam::Text(j) if j == "{\"exposure\":1}"));
}
