use audit_core::outbox::Outbox;
use audit_core::records::DeviceInfo;
use audit_core::screenshot::{analyze_screenshot, pack_rows};

use sha2::Digest;

fn capture_device() -> DeviceInfo {
    DeviceInfo {
        pin: "pin".to_string(),
        host_id: "host".to_string(),
        cpe_id: "cpe".to_string(),
        mac: "00:00:00:00:00:01".to_string(),
        ip: "1.2.3.4".to_string(),
    }
}

#[test]
fn packing_strips_row_padding() {
    // one pixel per row, two rows, eight bytes of stride per row:
    // only the four leading bytes of each row are pixel data
    let data: Vec<u8> = vec![
        1, 2, 3, 4, 90, 91, 92, 93,
        5, 6, 7, 8, 94, 95, 96, 97,
    ];
    let packed = pack_rows(&data, 1, 2).expect("valid buffer");
    assert_eq!(packed, vec![1, 2, 3, 4, 5, 6, 7, 8]);
}

#[test]
fn packing_keeps_tight_buffers_unchanged() {
    let data: Vec<u8> = (0..16).collect();
    let packed = pack_rows(&data, 2, 2).expect("valid buffer");
    assert_eq!(packed, data);
}

#[test]
fn invalid_buffers_are_rejected() {
    assert!(pack_rows(&[0; 16], 0, 2).is_none());
    assert!(pack_rows(&[0; 16], 2, 0).is_none());
    // too small for 2x2 RGBA
    assert!(pack_rows(&[0; 15], 2, 2).is_none());
    // not a whole number of rows
    assert!(pack_rows(&[0; 17], 2, 2).is_none());
}

#[test]
fn analysis_stores_one_record_and_encodes_jpeg() {
    let mut outbox = Outbox::new();
    let pixels: Vec<u8> = (0u32..2 * 2 * 4).map(|i| (i * 17 % 251) as u8).collect();
    let (path, jpeg) = analyze_screenshot(
        &mut outbox,
        &pixels,
        2,
        2,
        "Safari",
        true,
        Some("seen text".to_string()),
        &capture_device(),
        "2024-01-01 00:00:00",
        "/var/shots",
    )
    .expect("fresh image stored");

    let expected_hash = hex::encode(sha2::Sha256::digest(&pixels));
    assert_eq!(path, format!("/var/shots/{expected_hash}.jpg"));
    // JPEG start-of-image marker
    assert_eq!(&jpeg[..2], &[0xFF, 0xD8]);

    let stored = outbox.get_unsent_screenshot_logs();
    assert_eq!(stored.len(), 1);
    assert_eq!(stored[0].image_hash, expected_hash);
    assert_eq!(stored[0].image_path, path);
    assert_eq!(stored[0].risk_level, 1);
    assert_eq!(stored[0].ocr_text.as_deref(), Some("seen text"));
    assert_eq!(stored[0].id, Some(1));
}

#[test]
fn duplicate_frames_are_skipped() {
    let mut outbox = Outbox::new();
    let pixels: Vec<u8> = vec![9; 16];
    assert!(analyze_screenshot(
        &mut outbox, &pixels, 2, 2, "app", false, None, &capture_device(),
        "2024-01-01 00:00:00", "/var/shots",
    )
    .is_some());
    assert!(analyze_screenshot(
        &mut outbox, &pixels, 2, 2, "app", false, None, &capture_device(),
        "2024-01-01 00:00:05", "/var/shots",
    )
    .is_none());
    assert_eq!(outbox.get_unsent_screenshot_logs().len(), 1);
}

#[test]
fn invalid_frames_change_nothing() {
    let mut outbox = Outbox::new();
    assert!(analyze_screenshot(
        &mut outbox, &[0; 3], 2, 2, "app", false, None, &capture_device(),
        "2024-01-01 00:00:00", "/var/shots",
    )
    .is_none());
    assert_eq!(outbox.get_unsent_screenshot_logs().len(), 0);
}
