use audit_core::records::DeviceInfo;
use audit_core::scanner::{
    anomaly_record, flag_app_entries, match_blacklist, scan_processes,
};

fn scan_device() -> DeviceInfo {
    DeviceInfo {
        pin: "pin".to_string(),
        host_id: "host".to_string(),
        cpe_id: "cpe".to_string(),
        mac: "00:00:00:00:00:01".to_string(),
        ip: "1.2.3.4".to_string(),
    }
}

fn blacklist(items: &[&str]) -> Vec<String> {
    items.iter().map(|s| s.to_string()).collect()
}

#[test]
fn blacklist_matching_is_case_insensitive_substring() {
    let black = blacklist(&["clash", "v2ray"]);
    assert_eq!(match_blacklist("Clash-Meta", &black), Some(0));
    assert_eq!(match_blacklist("launch-V2RAY-helper", &black), Some(1));
    assert_eq!(match_blacklist("finder", &black), None);
}

#[test]
fn first_matching_entry_wins() {
    let black = blacklist(&["proxy", "proxyman"]);
    assert_eq!(match_blacklist("Proxyman", &black), Some(0));
}

#[test]
fn app_entries_need_the_bundle_suffix() {
    let entries: Vec<String> = vec![
        "Clash for Windows.app".to_string(),
        "clash-notes.txt".to_string(),
        "Other.app".to_string(),
        "CLASH.APP".to_string(),
    ];
    let flagged = flag_app_entries(&entries, "clash");
    assert_eq!(flagged, vec!["Clash for Windows.app".to_string(), "CLASH.APP".to_string()]);
}

#[test]
fn anomaly_records_are_high_risk() {
    let record = anomaly_record("clash", "AbnormalProcess", "why", &scan_device(), "2024-01-01 00:00:00");
    assert_eq!(record.risk_level, 2);
    assert_eq!(record.proc, "clash");
    assert_eq!(record.op_type, "AbnormalProcess");
    assert_eq!(record.detail, "why");
    assert_eq!(record.cpe_id, "cpe");
    assert!(record.id.is_none());
}

#[test]
fn process_scan_flags_each_hit_once() {
    let processes: Vec<String> = vec![
        "Finder".to_string(),
        "clash-meta".to_string(),
        "Safari".to_string(),
        "ProxyMan".to_string(),
    ];
    let black = blacklist(&["clash", "proxyman"]);
    let records = scan_processes(&processes, &black, &scan_device(), "2024-01-01 00:00:00");
    assert_eq!(records.len(), 2);
    assert_eq!(records[0].proc, "clash-meta");
    assert_eq!(records[0].detail, "Detected running blacklisted process: clash-meta");
    assert_eq!(records[1].proc, "ProxyMan");
    assert_eq!(records[0].risk_level, 2);
}
