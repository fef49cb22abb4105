//! The audit data model: one canonical schema per record kind.  Two
//! historical shapes of the traffic record are covered by one struct with
//! optional fields for the union.  Serialized copies of these types (for
//! the wire and for storage) live outside the library and convert from
//! and to these.

use vstd::prelude::*;

verus! {

/// Traffic audit record.
pub struct AuditLog {
    /// Locally generated, time-and-sequence derived identifier.
    pub id: String,
    pub cpe_id: String,
    pub pin_number: String,
    pub url: String,
    pub domain: String,
    pub req_time: String,
    pub resp_time: String,
    pub method_type: String,
    pub process_name: String,
    pub status_code: String,
    pub risk_level: i32,
    pub ip: String,
    pub mac: String,
    pub host_id: String,
    pub request_body: Option<String>,
    pub response_body: Option<String>,
    pub title: Option<String>,
}

/// Behaviour record (anomalous process, anomalous application, ...).
pub struct BehaviorLog {
    pub id: Option<i64>,
    pub proc: String,
    pub op_time: String,
    pub cpe_id: String,
    pub op_type: String,
    pub detail: String,
    pub risk_level: i32,
    pub host_id: String,
    pub mac: String,
    pub ip: String,
}

/// Screenshot record; `image_hash` is the content address and the
/// deduplication key.
pub struct ScreenshotLog {
    pub id: Option<i64>,
    pub capture_time: String,
    pub cpe_id: String,
    pub image_path: String,
    pub ocr_text: Option<String>,
    pub risk_level: i32,
    pub app_name: String,
    pub image_hash: String,
    pub host_id: String,
    pub mac: String,
    pub ip: String,
    pub redaction_labels: Option<String>,
}

/// Clipboard record.
pub struct ClipboardLog {
    pub id: Option<i64>,
    pub app_name: String,
    pub bundle_id: String,
    pub op_time: String,
    pub content: String,
    pub content_type: String,
    pub risk_level: i32,
    pub host_id: String,
    pub cpe_id: String,
    pub mac: String,
    pub ip: String,
}

/// Device identity, resolved once and then shared read-only.
pub struct DeviceInfo {
    pub pin: String,
    pub host_id: String,
    pub cpe_id: String,
    pub mac: String,
    pub ip: String,
}

pub struct HeartbeatCommand {
    pub command_id: String,
    pub op_type: String,
    pub payload: Option<String>,
}

pub struct HeartbeatResponse {
    pub server_logic_clock: Option<u64>,
    pub server_time: Option<u64>,
    pub need_update: bool,
    pub commands: Vec<HeartbeatCommand>,
}

pub struct PopNode {
    pub pop_id: String,
    pub name: String,
    pub latency_hint: Option<u32>,
}

pub struct UpdateInfo {
    pub has_update: bool,
    pub version: Option<String>,
    pub url: Option<String>,
}

/// Blacklists used by the anomaly scanner.
pub struct PolicyConfig {
    pub process_blacklist: Vec<String>,
    pub app_blacklist: Vec<String>,
}

pub struct ConfigResponse {
    pub code: i32,
    pub msg: String,
    pub data: Option<PolicyConfig>,
}

pub struct CertInfo {
    pub cert_pem: String,
}

pub struct TokenData {
    pub visit_token: String,
}

pub struct TokenResponse {
    pub code: i32,
    pub msg: String,
    pub data: Option<TokenData>,
}

pub struct UploadResponse {
    pub code: i32,
    pub msg: String,
    pub url: Option<String>,
    pub file_name: Option<String>,
}

pub struct MonitorDeviceLogin {
    pub serial_number: String,
    pub device_name: String,
    pub os_version: String,
    pub app_version: String,
}

pub struct LoginData {
    pub token: String,
}

pub struct LoginResponse {
    pub code: i32,
    pub msg: String,
    pub data: Option<LoginData>,
}

// ---------------------------------------------------------------------
// Copy helpers with exact contracts
// ---------------------------------------------------------------------

pub fn clone_opt_string(s: &Option<String>) -> (r: Option<String>)
    ensures
        r == *s,
{
    match s {
        Option::None => Option::None,
        Option::Some(x) => Option::Some(x.clone()),
    }
}

pub fn clone_device_info(d: &DeviceInfo) -> (r: DeviceInfo)
    ensures
        r == *d,
{
    DeviceInfo {
        pin: d.pin.clone(),
        host_id: d.host_id.clone(),
        cpe_id: d.cpe_id.clone(),
        mac: d.mac.clone(),
        ip: d.ip.clone(),
    }
}

pub fn clone_audit_log(l: &AuditLog) -> (r: AuditLog)
    ensures
        r == *l,
{
    AuditLog {
        id: l.id.clone(),
        cpe_id: l.cpe_id.clone(),
        pin_number: l.pin_number.clone(),
        url: l.url.clone(),
        domain: l.domain.clone(),
        req_time: l.req_time.clone(),
        resp_time: l.resp_time.clone(),
        method_type: l.method_type.clone(),
        process_name: l.process_name.clone(),
        status_code: l.status_code.clone(),
        risk_level: l.risk_level,
        ip: l.ip.clone(),
        mac: l.mac.clone(),
        host_id: l.host_id.clone(),
        request_body: clone_opt_string(&l.request_body),
        response_body: clone_opt_string(&l.response_body),
        title: clone_opt_string(&l.title),
    }
}

pub fn clone_behavior_log(l: &BehaviorLog) -> (r: BehaviorLog)
    ensures
        r == *l,
{
    BehaviorLog {
        id: l.id,
        proc: l.proc.clone(),
        op_time: l.op_time.clone(),
        cpe_id: l.cpe_id.clone(),
        op_type: l.op_type.clone(),
        detail: l.detail.clone(),
        risk_level: l.risk_level,
        host_id: l.host_id.clone(),
        mac: l.mac.clone(),
        ip: l.ip.clone(),
    }
}

pub fn clone_screenshot_log(l: &ScreenshotLog) -> (r: ScreenshotLog)
    ensures
        r == *l,
{
    ScreenshotLog {
        id: l.id,
        capture_time: l.capture_time.clone(),
        cpe_id: l.cpe_id.clone(),
        image_path: l.image_path.clone(),
        ocr_text: clone_opt_string(&l.ocr_text),
        risk_level: l.risk_level,
        app_name: l.app_name.clone(),
        image_hash: l.image_hash.clone(),
        host_id: l.host_id.clone(),
        mac: l.mac.clone(),
        ip: l.ip.clone(),
        redaction_labels: clone_opt_string(&l.redaction_labels),
    }
}

pub fn clone_clipboard_log(l: &ClipboardLog) -> (r: ClipboardLog)
    ensures
        r == *l,
{
    ClipboardLog {
        id: l.id,
        app_name: l.app_name.clone(),
        bundle_id: l.bundle_id.clone(),
        op_time: l.op_time.clone(),
        content: l.content.clone(),
        content_type: l.content_type.clone(),
        risk_level: l.risk_level,
        host_id: l.host_id.clone(),
        cpe_id: l.cpe_id.clone(),
        mac: l.mac.clone(),
        ip: l.ip.clone(),
    }
}

} // verus!
