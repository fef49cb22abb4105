//! The interception engine: given a domain, a client byte buffer and
//! the request context, produce zero or one traffic audit record.  The
//! engine never blocks the interception path: the caller enqueues the
//! returned record and relays the bytes unchanged.

use vstd::prelude::*;
use vstd::string::StringExecFns;

use crate::cert::{CertError, MitmProxy, spec_cache_lookup};
use crate::http::http_head_of;
use crate::policy::{AuditPolicy, spec_should_log, should_log_request};
use crate::records::{AuditLog, DeviceInfo, clone_device_info};
use crate::text::{
    spec_string_bytes, spec_starts_with, spec_contains, spec_ends_with, lossy_decoded,
    starts_with_bytes, contains_bytes, ends_with_bytes, bytes_eq, lossy_string, subvec,
};

verus! {

/// The shared state the engine reads on every request: the device
/// identity and the domain policy.  Owned and passed in explicitly, so
/// each deployment (and each test) constructs its own.
pub struct AuditContext {
    pub device: DeviceInfo,
    pub policy: AuditPolicy,
}

impl AuditContext {
    pub fn new(device: DeviceInfo, policy: AuditPolicy) -> (c: AuditContext)
        ensures
            c.device == device,
            c.policy == policy,
    {
        AuditContext { device, policy }
    }
}

/// Replace the device identity.
pub fn set_device_info(ctx: &mut AuditContext, info: DeviceInfo)
    ensures
        final(ctx).device == info,
        final(ctx).policy == old(ctx).policy,
{
    ctx.device = info;
}

/// The device identity currently in effect.
pub fn current_device_info(ctx: &AuditContext) -> (d: DeviceInfo)
    ensures
        d == ctx.device,
{
    clone_device_info(&ctx.device)
}

/// Replace the policy atomically (copy-then-swap is the caller's
/// concern; the engine only ever sees one whole policy).
pub fn set_audit_policy(ctx: &mut AuditContext, policy: AuditPolicy)
    ensures
        final(ctx).policy == policy,
        final(ctx).device == old(ctx).device,
{
    ctx.policy = policy;
}

/// Install the loaded device identity, or the documented placeholder
/// identity when none could be loaded.
pub fn init_config(ctx: &mut AuditContext, loaded: Option<DeviceInfo>)
    ensures
        loaded matches Some(d) ==> final(ctx).device == d,
        loaded is None ==> {
            &&& final(ctx).device.ip@ == "127.0.0.1"@
            &&& final(ctx).device.mac@ == "00:00:00:00:00:00"@
            &&& final(ctx).device.pin@ == "unknown"@
            &&& final(ctx).device.cpe_id@ == "unknown"@
            &&& final(ctx).device.host_id@ == "unknown"@
        },
        final(ctx).policy == old(ctx).policy,
{
    match loaded {
        Some(d) => {
            ctx.device = d;
        },
        None => {
            ctx.device = DeviceInfo {
                pin: String::from_str("unknown"),
                host_id: String::from_str("unknown"),
                cpe_id: String::from_str("unknown"),
                mac: String::from_str("00:00:00:00:00:00"),
                ip: String::from_str("127.0.0.1"),
            };
        },
    }
}

// ---------------------------------------------------------------------
// URLs
// ---------------------------------------------------------------------

/// The canonical URL for an intercepted request: the path itself when
/// it is already absolute, else `https://` plus domain plus path.
pub open spec fn spec_url(domain: Seq<char>, path: Seq<char>) -> Seq<char> {
    if spec_starts_with(spec_string_bytes(path), spec_string_bytes("http://"@))
        || spec_starts_with(spec_string_bytes(path), spec_string_bytes("https://"@)) {
        path
    } else {
        "https://"@ + domain + path
    }
}

pub fn build_url(domain: &str, path: &str) -> (r: String)
    ensures
        r@ == spec_url(domain@, path@),
{
    let pb: &[u8] = path.as_bytes();
    if starts_with_bytes(pb, "http://".as_bytes()) || starts_with_bytes(pb, "https://".as_bytes())
    {
        path.to_owned()
    } else {
        let mut r = String::from_str("https://");
        r.append(domain);
        r.append(path);
        r
    }
}

/// Whether an HTTP path asks for the root certificate download.
pub fn is_cert_download_path(path: &str) -> (r: bool)
    ensures
        r == (path@ == "/ssl"@ || spec_ends_with(
            spec_string_bytes(path@),
            spec_string_bytes("/ssl"@),
        )),
{
    let pb: &[u8] = path.as_bytes();
    let lit: &[u8] = "/ssl".as_bytes();
    if bytes_eq(pb, lit) {
        proof {
            crate::text::lemma_string_bytes_injective(path@, "/ssl"@);
        }
        return true;
    }
    proof {
        if path@ == "/ssl"@ {
            assert(pb@ == lit@);
        }
    }
    ends_with_bytes(pb, lit)
}

/// Whether an error message reports one of the benign connection
/// failures that interception sees constantly and need not be
/// surfaced.
pub fn is_benign_error(msg: &str) -> (r: bool)
    ensures
        r == {
            let m = spec_string_bytes(msg@);
            ||| spec_contains(m, spec_string_bytes("tls handshake eof"@))
            ||| spec_contains(m, spec_string_bytes("SignatureAlgorithmsExtensionRequired"@))
            ||| spec_contains(m, spec_string_bytes("CertificateUnknown"@))
            ||| spec_contains(m, spec_string_bytes("UnknownCA"@))
            ||| spec_contains(m, spec_string_bytes("broken pipe"@))
            ||| spec_contains(m, spec_string_bytes("connection reset"@))
            ||| spec_contains(m, spec_string_bytes("NotConnected"@))
        },
{
    let mb: &[u8] = msg.as_bytes();
    contains_bytes(mb, "tls handshake eof".as_bytes()) || contains_bytes(
        mb,
        "SignatureAlgorithmsExtensionRequired".as_bytes(),
    ) || contains_bytes(mb, "CertificateUnknown".as_bytes()) || contains_bytes(
        mb,
        "UnknownCA".as_bytes(),
    ) || contains_bytes(mb, "broken pipe".as_bytes()) || contains_bytes(
        mb,
        "connection reset".as_bytes(),
    ) || contains_bytes(mb, "NotConnected".as_bytes())
}

// ---------------------------------------------------------------------
// Record construction
// ---------------------------------------------------------------------

/// The exact field contract of a produced traffic record.
pub open spec fn spec_audit_log_fields(
    log: AuditLog,
    ctx: AuditContext,
    domain: Seq<char>,
    method: Seq<char>,
    path: Seq<char>,
    body: Seq<u8>,
    id: Seq<char>,
    req_time: Seq<char>,
    resp_time: Seq<char>,
    process_name: Seq<char>,
) -> bool {
    &&& log.id@ == id
    &&& log.domain@ == domain
    &&& log.url@ == spec_url(domain, path)
    &&& log.method_type@ == method
    &&& log.req_time@ == req_time
    &&& log.resp_time@ == resp_time
    &&& log.process_name@ == process_name
    &&& log.status_code@ == "200"@
    &&& log.risk_level == 0
    &&& log.pin_number@ == ctx.device.pin@
    &&& log.cpe_id@ == ctx.device.cpe_id@
    &&& log.host_id@ == ctx.device.host_id@
    &&& log.mac@ == ctx.device.mac@
    &&& log.ip@ == ctx.device.ip@
    &&& (body.len() == 0 ==> log.request_body is None)
    &&& (body.len() > 0 ==> (log.request_body matches Some(rb) && rb@ == lossy_decoded(body)))
    &&& log.response_body is None
    &&& log.title is None
}

/// Build the audit record for one intercepted request, or nothing when
/// the policy suppresses it.
pub fn prepare_audit_log(
    ctx: &AuditContext,
    domain: &str,
    method: &str,
    path: &str,
    body: &[u8],
    id: String,
    req_time: &str,
    resp_time: &str,
    process_name: &str,
) -> (r: Option<AuditLog>)
    ensures
        r is Some <==> spec_should_log(ctx.policy, spec_string_bytes(domain@)),
        r matches Some(log) ==> spec_audit_log_fields(
            log,
            *ctx,
            domain@,
            method@,
            path@,
            body@,
            id@,
            req_time@,
            resp_time@,
            process_name@,
        ),
{
    let url = build_url(domain, path);
    if !should_log_request(&ctx.policy, domain, url.as_str()) {
        return None;
    }
    let request_body = if body.len() == 0 {
        None
    } else {
        Some(lossy_string(body))
    };
    Some(
        AuditLog {
            id,
            cpe_id: ctx.device.cpe_id.clone(),
            pin_number: ctx.device.pin.clone(),
            url,
            domain: owned_copy(domain),
            req_time: owned_copy(req_time),
            resp_time: owned_copy(resp_time),
            method_type: owned_copy(method),
            process_name: owned_copy(process_name),
            status_code: String::from_str("200"),
            risk_level: 0,
            ip: ctx.device.ip.clone(),
            mac: ctx.device.mac.clone(),
            host_id: ctx.device.host_id.clone(),
            request_body,
            response_body: None,
            title: None,
        },
    )
}

/// An owned copy of a borrowed string.
fn owned_copy(s: &str) -> (r: String)
    ensures
        r@ == s@,
{
    s.to_owned()
}

// ---------------------------------------------------------------------
// HTTPS interception
// ---------------------------------------------------------------------

/// The method an intercepted buffer parses to, with the tolerant
/// fallback for unparseable buffers.
pub open spec fn spec_head_method(data: Seq<u8>) -> Seq<char> {
    match http_head_of(data) {
        Some(q) => q.0,
        None => "UNKNOWN"@,
    }
}

/// The path, falling back to `/`.
pub open spec fn spec_head_path(data: Seq<u8>) -> Seq<char> {
    match http_head_of(data) {
        Some(q) => q.1,
        None => "/"@,
    }
}

/// The body bytes after the head, empty when the head is unparseable.
pub open spec fn spec_head_body(data: Seq<u8>) -> Seq<u8> {
    match http_head_of(data) {
        Some(q) => data.skip(q.3),
        None => Seq::empty(),
    }
}

impl MitmProxy {
    /// Audit one intercepted HTTPS client buffer: ensure a leaf
    /// certificate exists for the domain, parse the buffer tolerantly,
    /// and build the audit record the policy asks for.  The bytes are
    /// always handed back unchanged — interception never alters
    /// traffic — together with the record for the caller to enqueue.
    pub fn handle_https_connection(
        &mut self,
        ctx: &AuditContext,
        domain: &str,
        client_stream: &[u8],
        id: String,
        req_time: &str,
        resp_time: &str,
        process_name: &str,
    ) -> (r: Result<(Vec<u8>, Option<AuditLog>), CertError>)
        ensures
            r is Err ==> *final(self) == *old(self),
            domain.is_ascii() && spec_cache_lookup(
                old(self).cert_cache@,
                spec_string_bytes(domain@),
            ) is Some ==> r is Ok && *final(self) == *old(self),
            r matches Ok(p) ==> {
                &&& p.0@ == client_stream@
                &&& (p.1 is Some <==> spec_should_log(ctx.policy, spec_string_bytes(domain@)))
                &&& (p.1 matches Some(log) ==> spec_audit_log_fields(
                    log,
                    *ctx,
                    domain@,
                    spec_head_method(client_stream@),
                    spec_head_path(client_stream@),
                    spec_head_body(client_stream@),
                    id@,
                    req_time@,
                    resp_time@,
                    process_name@,
                ))
                &&& final(self).root_ca == old(self).root_ca
                &&& final(self).root_cert_pem == old(self).root_cert_pem
                &&& final(self).root_key_pem == old(self).root_key_pem
            },
    {
        let config = match self.generate_cert_for_domain(domain) {
            Ok(c) => c,
            Err(e) => {
                return Err(e);
            },
        };
        let _ = config;
        let (method, path, body) = match self.parse_http_request(client_stream) {
            Ok(h) => (h.method, h.path, h.body),
            Err(_) => (String::from_str("UNKNOWN"), String::from_str("/"), Vec::new()),
        };
        let passthrough = subvec(client_stream, 0, client_stream.len());
        proof {
            assert(passthrough@ =~= client_stream@);
            assert(body@ =~= spec_head_body(client_stream@));
        }
        let record = prepare_audit_log(
            ctx,
            domain,
            method.as_str(),
            path.as_str(),
            body.as_slice(),
            id,
            req_time,
            resp_time,
            process_name,
        );
        Ok((passthrough, record))
    }
}

} // verus!
