use audit_core::records::{HeartbeatResponse, ScreenshotLog};
use audit_core::sync::{
    ScreenshotStep, heartbeat_actions, resolve_screenshot_path, screenshot_after_meta,
    screenshot_sync_step, screenshot_with_remote_path,
};

fn heartbeat(server_time: Option<u64>, need_update: bool) -> HeartbeatResponse {
    HeartbeatResponse { server_logic_clock: None, server_time, need_update, commands: Vec::new() }
}

fn screenshot(path: &str) -> ScreenshotLog {
    ScreenshotLog {
        id: Some(1),
        capture_time: "2024-01-01 00:00:00".to_string(),
        cpe_id: "cpe".to_string(),
        image_path: path.to_string(),
        ocr_text: None,
        risk_level: 0,
        app_name: "app".to_string(),
        image_hash: "h".to_string(),
        host_id: "host".to_string(),
        mac: "m".to_string(),
        ip: "i".to_string(),
        redaction_labels: None,
    }
}

#[test]
fn heartbeat_feeds_clock_and_policy_pull() {
    let (time, pull) = heartbeat_actions(&heartbeat(Some(1_700_000_000), true));
    assert_eq!(time, 1_700_000_000);
    assert!(pull);
    let (time, pull) = heartbeat_actions(&heartbeat(None, false));
    assert_eq!(time, 0);
    assert!(!pull);
}

#[test]
fn missing_file_marks_sent_instead_of_retrying_forever() {
    assert!(matches!(
        screenshot_sync_step(false, false, false),
        ScreenshotStep::MarkSentWithoutUpload
    ));
}

#[test]
fn failed_uploads_leave_the_record_for_the_next_tick() {
    assert!(matches!(screenshot_sync_step(true, false, false), ScreenshotStep::RetryNextTick));
    assert!(matches!(screenshot_sync_step(true, true, false), ScreenshotStep::RetryNextTick));
}

#[test]
fn full_upload_marks_sent() {
    assert!(matches!(
        screenshot_sync_step(true, true, true),
        ScreenshotStep::MarkSentAfterUpload
    ));
}

#[test]
fn metadata_failure_reverts_the_path() {
    let local = "/tmp/shots/a.jpg";
    let for_upload = screenshot_with_remote_path(&screenshot(local), "https://cdn/a.jpg");
    assert_eq!(for_upload.image_path, "https://cdn/a.jpg");
    let reverted = screenshot_after_meta(for_upload, local.to_string(), false);
    assert_eq!(reverted.image_path, local);

    let for_upload = screenshot_with_remote_path(&screenshot(local), "https://cdn/a.jpg");
    let kept = screenshot_after_meta(for_upload, local.to_string(), true);
    assert_eq!(kept.image_path, "https://cdn/a.jpg");
}

#[test]
fn screenshot_paths_resolve_against_the_configured_directory() {
    assert_eq!(
        resolve_screenshot_path("/old/place/shot.jpg", true, "/new/shots"),
        "/old/place/shot.jpg"
    );
    assert_eq!(
        resolve_screenshot_path("/old/place/shot.jpg", false, "/new/shots"),
        "/new/shots/shot.jpg"
    );
    // no file name to extract: the recorded path stands
    assert_eq!(resolve_screenshot_path("/old/place/", false, "/new/shots"), "/old/place/");
    assert_eq!(resolve_screenshot_path("", false, "/new/shots"), "");
    assert_eq!(resolve_screenshot_path("bare.jpg", false, "/new/shots"), "/new/shots/bare.jpg");
}
