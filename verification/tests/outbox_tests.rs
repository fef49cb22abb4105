use audit_core::outbox::Outbox;
use audit_core::records::{AuditLog, BehaviorLog, ClipboardLog, ScreenshotLog};

fn audit_log(id: &str) -> AuditLog {
    AuditLog {
        id: id.to_string(),
        cpe_id: "cpe".to_string(),
        pin_number: "pin".to_string(),
        url: "https://x.com/".to_string(),
        domain: "x.com".to_string(),
        req_time: "2024-01-01 00:00:00".to_string(),
        resp_time: "2024-01-01 00:00:00".to_string(),
        method_type: "GET".to_string(),
        process_name: "proc".to_string(),
        status_code: "200".to_string(),
        risk_level: 0,
        ip: "1.2.3.4".to_string(),
        mac: "00:00:00:00:00:01".to_string(),
        host_id: "host".to_string(),
        request_body: None,
        response_body: None,
        title: None,
    }
}

fn behavior_log(proc_name: &str) -> BehaviorLog {
    BehaviorLog {
        id: None,
        proc: proc_name.to_string(),
        op_time: "2024-01-01 00:00:00".to_string(),
        cpe_id: "cpe".to_string(),
        op_type: "AbnormalProcess".to_string(),
        detail: "detail".to_string(),
        risk_level: 2,
        host_id: "host".to_string(),
        mac: "00:00:00:00:00:01".to_string(),
        ip: "1.2.3.4".to_string(),
    }
}

fn screenshot_log(hash: &str) -> ScreenshotLog {
    ScreenshotLog {
        id: None,
        capture_time: "2024-01-01 00:00:00".to_string(),
        cpe_id: "cpe".to_string(),
        image_path: format!("/tmp/{hash}.jpg"),
        ocr_text: None,
        risk_level: 0,
        app_name: "app".to_string(),
        image_hash: hash.to_string(),
        host_id: "host".to_string(),
        mac: "00:00:00:00:00:01".to_string(),
        ip: "1.2.3.4".to_string(),
        redaction_labels: None,
    }
}

fn clipboard_log(op_time: &str) -> ClipboardLog {
    ClipboardLog {
        id: None,
        app_name: "app".to_string(),
        bundle_id: "bundle".to_string(),
        op_time: op_time.to_string(),
        content: "content".to_string(),
        content_type: "text".to_string(),
        risk_level: 0,
        host_id: "host".to_string(),
        cpe_id: "cpe".to_string(),
        mac: "00:00:00:00:00:01".to_string(),
        ip: "1.2.3.4".to_string(),
    }
}

#[test]
fn screenshot_dedup_stores_one_record() {
    let mut outbox = Outbox::new();
    outbox.save_screenshot_log(screenshot_log("aabb"));
    outbox.save_screenshot_log(screenshot_log("aabb"));
    assert_eq!(outbox.get_unsent_screenshot_logs().len(), 1);
    assert!(outbox.check_screenshot_exists("aabb"));
    assert!(!outbox.check_screenshot_exists("ccdd"));
}

#[test]
fn at_least_once_record_stays_until_marked() {
    let mut outbox = Outbox::new();
    outbox.save_audit_log(audit_log("id-1"));
    outbox.save_audit_log(audit_log("id-2"));
    // the upload of id-1 succeeded but the process crashed before
    // mark-sent: both records are still listed on the next tick
    let unsent = outbox.get_unsent_audit_logs();
    assert_eq!(unsent.len(), 2);
    // marking id-2 leaves id-1 untouched and unsent
    outbox.mark_audit_log_sent("id-2");
    let unsent = outbox.get_unsent_audit_logs();
    assert_eq!(unsent.len(), 1);
    assert_eq!(unsent[0].id, "id-1");
}

#[test]
fn behavior_batch_never_exceeds_ten() {
    let mut outbox = Outbox::new();
    for i in 0..50 {
        outbox.save_behavior_log(behavior_log(&format!("proc-{i}")));
    }
    let unsent = outbox.get_unsent_behavior_logs();
    assert_eq!(unsent.len(), 10);
    assert_eq!(unsent[0].proc, "proc-0");
    assert_eq!(unsent[9].proc, "proc-9");
}

#[test]
fn batch_sizes_per_kind() {
    let mut outbox = Outbox::new();
    for i in 0..30 {
        outbox.save_audit_log(audit_log(&format!("id-{i}")));
        outbox.save_screenshot_log(screenshot_log(&format!("hash-{i}")));
        outbox.save_clipboard_log(clipboard_log(&format!("2024-01-01 00:00:{i:02}")));
    }
    assert_eq!(outbox.get_unsent_audit_logs().len(), 10);
    assert_eq!(outbox.get_unsent_screenshot_logs().len(), 5);
    assert_eq!(outbox.get_unsent_clipboard_logs().len(), 20);
}

#[test]
fn behavior_rows_get_sequential_ids() {
    let mut outbox = Outbox::new();
    outbox.save_behavior_log(behavior_log("a"));
    outbox.save_behavior_log(behavior_log("b"));
    let unsent = outbox.get_unsent_behavior_logs();
    assert_eq!(unsent[0].id, Some(1));
    assert_eq!(unsent[1].id, Some(2));
}

#[test]
fn mark_behavior_log_sent_by_row_id() {
    let mut outbox = Outbox::new();
    outbox.save_behavior_log(behavior_log("a"));
    outbox.save_behavior_log(behavior_log("b"));
    outbox.mark_behavior_log_sent(1);
    let unsent = outbox.get_unsent_behavior_logs();
    assert_eq!(unsent.len(), 1);
    assert_eq!(unsent[0].proc, "b");
}

#[test]
fn screenshot_marked_sent_by_hash_not_row_id() {
    let mut outbox = Outbox::new();
    outbox.save_screenshot_log(screenshot_log("h1"));
    outbox.save_screenshot_log(screenshot_log("h2"));
    outbox.mark_screenshot_log_sent("h1");
    let unsent = outbox.get_unsent_screenshot_logs();
    assert_eq!(unsent.len(), 1);
    assert_eq!(unsent[0].image_hash, "h2");
}

#[test]
fn mark_clipboard_log_sent_by_row_id() {
    let mut outbox = Outbox::new();
    outbox.save_clipboard_log(clipboard_log("2024-01-01 00:00:01"));
    outbox.save_clipboard_log(clipboard_log("2024-01-01 00:00:02"));
    outbox.mark_clipboard_log_sent(1);
    let unsent = outbox.get_unsent_clipboard_logs();
    assert_eq!(unsent.len(), 1);
    assert_eq!(unsent[0].id, Some(2));
}

#[test]
fn clipboard_history_is_newest_first_and_bounded() {
    let mut outbox = Outbox::new();
    outbox.save_clipboard_log(clipboard_log("2024-01-02 10:00:00"));
    outbox.save_clipboard_log(clipboard_log("2024-01-03 08:00:00"));
    outbox.save_clipboard_log(clipboard_log("2024-01-01 23:59:59"));
    let all = outbox.get_all_clipboard_logs();
    assert_eq!(all.len(), 3);
    assert_eq!(all[0].op_time, "2024-01-03 08:00:00");
    assert_eq!(all[1].op_time, "2024-01-02 10:00:00");
    assert_eq!(all[2].op_time, "2024-01-01 23:59:59");

    for i in 0..120 {
        outbox.save_clipboard_log(clipboard_log(&format!("2025-01-01 00:{:02}:{:02}", i / 60, i % 60)));
    }
    assert_eq!(outbox.get_all_clipboard_logs().len(), 100);
}

#[test]
fn unsent_listing_does_not_consume() {
    let mut outbox = Outbox::new();
    outbox.save_audit_log(audit_log("id-1"));
    assert_eq!(outbox.get_unsent_audit_logs().len(), 1);
    assert_eq!(outbox.get_unsent_audit_logs().len(), 1);
}
