use photo_editor::gpu_layout::{align_to, check_rgba_len, readback_layout, unpad_rows};

#[test]
fn align_to_rounds_up() {
    assert_eq!(align_to(0, 256), 0);
    assert_eq!(align_to(1, 256), 256);
    assert_eq!(align_to(256, 256), 256);
    assert_eq!(align_to(257, 256), 512);
    assert_eq!(align_to(0, 0), 0);
}

#[test]
fn readback_layout_pads_rows() {
    let l = readback_layout(100, 3);
    assert_eq!(l.padded_bytes_per_row, 512);
    assert_eq!(l.size, 1536);
    let m = readback_layout(64, 2);
    assert_eq!(m.padded_bytes_per_row, 256);
    assert_eq!(m.size, 512);
}

#[test]
fn rgba_len_check() {
    assert_eq!(check_rgba_len(24, 3, 2), Ok(24));
    assert_eq!(
        check_rgba_len(23, 3, 2),
        Err("Input buffer length 23 does not match 3x2 RGBA image".to_string())
    );
    assert_eq!(
        check_rgba_len(0, 1920, 1080),
        Err("Input buffer length 0 does not match 1920x1080 RGBA image".to_string())
    );
}

#[test]
fn unpad_rows_drops_padding() {
    // 1 pixel wide (4 bytes), rows 8 bytes apart
    let mapped: Vec<u8> = (0..16).collect();
    let out = unpad_rows(&mapped, 1, 2, 8);
    assert_eq!(out, vec![0, 1, 2, 3, 8, 9, 10, 11]);
    let same = unpad_rows(&mapped, 2, 2, 8);
    assert_eq!(same, mapped);
}
