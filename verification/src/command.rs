//! The local command surface, as a closed set of commands decoded
//! once at the boundary.  The wire format (JSON over a stream socket)
//! is decoded outside the library; the command word is classified
//! here, and an unknown word is answered with an error.

use vstd::prelude::*;

use crate::text::str_eq;

verus! {

/// Every command the local channel accepts.
pub enum CommandKind {
    Register,
    Login,
    Logout,
    GetPops,
    CheckUpdate,
    GetCert,
    GetServerTime,
    LogTraffic,
    LogEvent,
    SetAuditPolicy,
    SetRedactionStatus,
    GetScreenshotLogs,
    Unknown,
}

/// The command a request word names.
pub open spec fn spec_command_kind(name: Seq<char>) -> CommandKind {
    if name == "register"@ {
        CommandKind::Register
    } else if name == "login"@ {
        CommandKind::Login
    } else if name == "logout"@ {
        CommandKind::Logout
    } else if name == "get_pops"@ {
        CommandKind::GetPops
    } else if name == "check_update"@ {
        CommandKind::CheckUpdate
    } else if name == "get_cert"@ {
        CommandKind::GetCert
    } else if name == "get_server_time"@ {
        CommandKind::GetServerTime
    } else if name == "log_traffic"@ {
        CommandKind::LogTraffic
    } else if name == "log_event"@ {
        CommandKind::LogEvent
    } else if name == "set_audit_policy"@ {
        CommandKind::SetAuditPolicy
    } else if name == "set_redaction_status"@ {
        CommandKind::SetRedactionStatus
    } else if name == "get_screenshot_logs"@ {
        CommandKind::GetScreenshotLogs
    } else {
        CommandKind::Unknown
    }
}

/// Classify a command word; anything not in the closed set is
/// `Unknown` and yields an error response.
pub fn parse_command(name: &str) -> (r: CommandKind)
    ensures
        r == spec_command_kind(name@),
{
    if str_eq(name, "register") {
        CommandKind::Register
    } else if str_eq(name, "login") {
        CommandKind::Login
    } else if str_eq(name, "logout") {
        CommandKind::Logout
    } else if str_eq(name, "get_pops") {
        CommandKind::GetPops
    } else if str_eq(name, "check_update") {
        CommandKind::CheckUpdate
    } else if str_eq(name, "get_cert") {
        CommandKind::GetCert
    } else if str_eq(name, "get_server_time") {
        CommandKind::GetServerTime
    } else if str_eq(name, "log_traffic") {
        CommandKind::LogTraffic
    } else if str_eq(name, "log_event") {
        CommandKind::LogEvent
    } else if str_eq(name, "set_audit_policy") {
        CommandKind::SetAuditPolicy
    } else if str_eq(name, "set_redaction_status") {
        CommandKind::SetRedactionStatus
    } else if str_eq(name, "get_screenshot_logs") {
        CommandKind::GetScreenshotLogs
    } else {
        CommandKind::Unknown
    }
}

} // verus!
