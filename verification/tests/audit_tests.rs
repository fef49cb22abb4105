use audit_core::audit::{
    AuditContext, build_url, current_device_info, init_config, is_benign_error,
    is_cert_download_path, prepare_audit_log, set_audit_policy, set_device_info,
};
use audit_core::cert::MitmProxy;
use audit_core::policy::{AuditPolicy, TargetDomain};
use audit_core::records::DeviceInfo;

fn device() -> DeviceInfo {
    DeviceInfo {
        pin: "PIN123".to_string(),
        host_id: "host-1".to_string(),
        cpe_id: "cpe-1".to_string(),
        mac: "00:11:22:33:44:55".to_string(),
        ip: "192.168.1.9".to_string(),
    }
}

fn bank_policy() -> AuditPolicy {
    AuditPolicy {
        white_domains: Vec::new(),
        target_domains: vec![TargetDomain { domain: "*.bank.com".to_string(), enabled: true }],
        website_rsp_config_array: Vec::new(),
    }
}

#[test]
fn end_to_end_targeted_request_yields_one_record() {
    let ctx = AuditContext::new(device(), bank_policy());
    let mut proxy = MitmProxy::new(None).expect("root authority");
    let raw = b"POST /path HTTP/1.1\r\nHost: login.bank.com\r\nContent-Length: 3\r\n\r\na=1";
    let (passthrough, record) = proxy
        .handle_https_connection(
            &ctx,
            "login.bank.com",
            raw,
            "1700000000123-0".to_string(),
            "2024-01-01 00:00:00",
            "2024-01-01 00:00:00",
            "safari",
        )
        .ok()
        .expect("certificate");
    assert_eq!(passthrough, raw.to_vec());
    let log = record.expect("one audit record");
    assert_eq!(log.domain, "login.bank.com");
    assert_eq!(log.url, "https://login.bank.com/path");
    assert_eq!(log.method_type, "POST");
    assert_eq!(log.request_body.as_deref(), Some("a=1"));
    assert_eq!(log.id, "1700000000123-0");
    assert_eq!(log.process_name, "safari");
    assert_eq!(log.status_code, "200");
    assert_eq!(log.cpe_id, "cpe-1");
    assert_eq!(log.ip, "192.168.1.9");
}

#[test]
fn end_to_end_untargeted_request_yields_none() {
    let ctx = AuditContext::new(device(), bank_policy());
    let mut proxy = MitmProxy::new(None).expect("root authority");
    let raw = b"GET / HTTP/1.1\r\nHost: ads.tracker.net\r\n\r\n";
    let (_, record) = proxy
        .handle_https_connection(
            &ctx,
            "ads.tracker.net",
            raw,
            "1700000000123-1".to_string(),
            "2024-01-01 00:00:00",
            "2024-01-01 00:00:00",
            "safari",
        )
        .ok()
        .expect("certificate");
    assert!(record.is_none());
}

#[test]
fn unparseable_stream_falls_back_to_unknown_method() {
    let ctx = AuditContext::new(device(), bank_policy());
    let mut proxy = MitmProxy::new(None).expect("root authority");
    let raw = &[0x16u8, 0x03, 0x01, 0x00, 0x05][..];
    let (passthrough, record) = proxy
        .handle_https_connection(
            &ctx,
            "login.bank.com",
            raw,
            "1700000000123-2".to_string(),
            "2024-01-01 00:00:00",
            "2024-01-01 00:00:00",
            "unknown",
        )
        .ok()
        .expect("certificate");
    assert_eq!(passthrough, raw.to_vec());
    let log = record.expect("tolerant record");
    assert_eq!(log.method_type, "UNKNOWN");
    assert_eq!(log.url, "https://login.bank.com/");
    assert!(log.request_body.is_none());
}

#[test]
fn parse_http_request_extracts_head_and_body() {
    let proxy = MitmProxy::new(None).expect("root authority");
    let raw = b"PUT /api/v1 HTTP/1.1\r\nHost: x\r\n\r\nbody-bytes";
    let req = proxy.parse_http_request(raw).ok().expect("complete head");
    assert_eq!(req.method, "PUT");
    assert_eq!(req.path, "/api/v1");
    assert_eq!(req.version, 1);
    assert_eq!(req.headers, vec![("Host".to_string(), "x".to_string())]);
    assert_eq!(req.body, b"body-bytes".to_vec());
    assert!(proxy.parse_http_request(b"GET / HTT").is_err());
}

#[test]
fn non_ascii_domain_fails_the_connection_only() {
    let ctx = AuditContext::new(device(), bank_policy());
    let mut proxy = MitmProxy::new(None).expect("root authority");
    let raw = b"GET / HTTP/1.1\r\nHost: x\r\n\r\n";
    let result = proxy.handle_https_connection(
        &ctx,
        "b\u{fc}cher.example",
        raw,
        "id-na".to_string(),
        "2024-01-01 00:00:00",
        "2024-01-01 00:00:00",
        "safari",
    );
    assert!(result.is_err());
    // the authority still serves ASCII domains afterwards
    assert!(proxy.generate_cert_for_domain("login.bank.com").is_ok());
}

#[test]
fn prepare_audit_log_respects_policy() {
    let ctx = AuditContext::new(device(), bank_policy());
    let suppressed = prepare_audit_log(
        &ctx,
        "other.net",
        "GET",
        "/",
        b"",
        "id-0".to_string(),
        "t1",
        "t2",
        "proc",
    );
    assert!(suppressed.is_none());
    let recorded = prepare_audit_log(
        &ctx,
        "pay.bank.com",
        "GET",
        "http://mirror.example/x",
        b"",
        "id-1".to_string(),
        "t1",
        "t2",
        "proc",
    )
    .expect("recorded");
    // an absolute path is taken as the URL itself
    assert_eq!(recorded.url, "http://mirror.example/x");
    assert!(recorded.request_body.is_none());
}

#[test]
fn build_url_joins_or_passes_through() {
    assert_eq!(build_url("x.com", "/a/b"), "https://x.com/a/b");
    assert_eq!(build_url("x.com", "https://other.net/"), "https://other.net/");
    assert_eq!(build_url("x.com", "http://other.net/"), "http://other.net/");
}

#[test]
fn benign_errors_are_recognised() {
    assert!(is_benign_error("tls handshake eof"));
    assert!(is_benign_error("io error: broken pipe (os error 32)"));
    assert!(is_benign_error("received fatal alert: CertificateUnknown"));
    assert!(!is_benign_error("address already in use"));
}

#[test]
fn cert_download_path_is_recognised() {
    assert!(is_cert_download_path("/ssl"));
    assert!(is_cert_download_path("/proxy/ssl"));
    assert!(!is_cert_download_path("/ssl/cert"));
    assert!(!is_cert_download_path("/"));
}

#[test]
fn context_setters_replace_their_half() {
    let mut ctx = AuditContext::new(device(), AuditPolicy::new());
    set_audit_policy(&mut ctx, bank_policy());
    assert_eq!(ctx.policy.target_domains.len(), 1);
    let mut other = device();
    other.pin = "OTHER".to_string();
    set_device_info(&mut ctx, other);
    assert_eq!(current_device_info(&ctx).pin, "OTHER");
}

#[test]
fn init_config_falls_back_to_placeholder_identity() {
    let mut ctx = AuditContext::new(device(), AuditPolicy::new());
    init_config(&mut ctx, None);
    assert_eq!(ctx.device.ip, "127.0.0.1");
    assert_eq!(ctx.device.mac, "00:00:00:00:00:00");
    assert_eq!(ctx.device.pin, "unknown");

    let mut ctx2 = AuditContext::new(device(), AuditPolicy::new());
    let loaded = DeviceInfo {
        pin: "L".to_string(),
        host_id: "L".to_string(),
        cpe_id: "L".to_string(),
        mac: "L".to_string(),
        ip: "10.0.0.1".to_string(),
    };
    init_config(&mut ctx2, Some(loaded));
    assert_eq!(ctx2.device.ip, "10.0.0.1");
}
