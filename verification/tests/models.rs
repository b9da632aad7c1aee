use photo_editor::models::{AiDenoiser, CollectionRecord, ExifBasic, HistoryEntry, default_true};

#[test]
fn test_collection_record() {
    let col = CollectionRecord {
        id: "col-1".to_string(),
        name: "Favorites".to_string(),
        parent_id: None,
        image_count: 42,
        created_at: "2024-01-01T00:00:00Z".to_string(),
    };
    assert_eq!(col.name, "Favorites");
    assert_eq!(col.image_count, 42);
    assert!(col.parent_id.is_none());
}

#[test]
fn test_history_entry() {
    let entry = HistoryEntry {
        id: "h-1".to_string(),
        image_id: "img-1".to_string(),
        action: "edit".to_string(),
        params_json: "{}".to_string(),
        created_at: "2024-01-01T00:00:00Z".to_string(),
    };
    assert_eq!(entry.action, "edit");
}

#[test]
fn ai_denoiser_new_succeeds() {
    assert!(AiDenoiser::new().is_ok());
}

#[test]
fn default_true_is_true() {
    assert!(default_true());
}

#[test]
fn exif_empty_has_nothing() {
    let e = ExifBasic::empty();
    assert!(e.date_taken.is_none() && e.camera.is_none() && e.lens.is_none());
    assert!(e.iso.is_none() && e.focal_length.is_none() && e.aperture.is_none());
    assert!(e.shutter_speed.is_none());
}
