//! The authenticated upload client's decision logic: the token cache,
//! the signed-request signature, the interpretation of server
//! responses, and the registration-derived settings.  The HTTP
//! transport itself lives outside the library and hands the responses
//! in as plain values.

use vstd::prelude::*;
use vstd::string::StringExecFns;

use crate::hashing::{sha256_of, spec_hex_bytes, sha256, hex_lower};
use crate::records::{ConfigResponse, LoginResponse, PolicyConfig, UploadResponse};
use crate::text::{
    spec_dec_digits, spec_string_bytes, spec_ascii_chars, dec_u64, append_bytes,
};

verus! {

/// Client state for the upstream API: the application credentials,
/// the server base URL, and the cached bearer token.  The token is
/// fetched lazily on first use and cached until invalidated; callers
/// serialize token acquisition so concurrent requests reuse one login.
pub struct Uploader {
    pub app_code: String,
    pub app_secret: String,
    pub base_url: String,
    pub visit_token: Option<String>,
}

impl Uploader {
    pub fn new(app_code: &str, app_secret: &str, base_url: &str) -> (u: Uploader)
        ensures
            u.app_code@ == app_code@,
            u.app_secret@ == app_secret@,
            u.base_url@ == base_url@,
            u.visit_token is None,
    {
        Uploader {
            app_code: app_code.to_owned(),
            app_secret: app_secret.to_owned(),
            base_url: base_url.to_owned(),
            visit_token: None,
        }
    }

    /// Point the client at another server: credentials replaced, any
    /// cached token invalidated.
    pub fn update_config(&mut self, app_code: &str, app_secret: &str, base_url: &str)
        ensures
            final(self).app_code@ == app_code@,
            final(self).app_secret@ == app_secret@,
            final(self).base_url@ == base_url@,
            final(self).visit_token is None,
    {
        self.app_code = app_code.to_owned();
        self.app_secret = app_secret.to_owned();
        self.base_url = base_url.to_owned();
        self.visit_token = None;
    }

    /// The cached token, if one is held: a caller holding one must not
    /// log in again.
    pub fn cached_token(&self) -> (r: Option<String>)
        ensures
            r == self.visit_token,
    {
        match &self.visit_token {
            Some(t) => Some(t.clone()),
            None => None,
        }
    }

    /// Cache the token obtained from a login.
    pub fn store_token(&mut self, token: String)
        ensures
            final(self).visit_token == Some(token),
            final(self).app_code == old(self).app_code,
            final(self).app_secret == old(self).app_secret,
            final(self).base_url == old(self).base_url,
    {
        self.visit_token = Some(token);
    }

    /// Drop the cached token (logout, or a server that stopped
    /// accepting it).
    pub fn clear_token(&mut self)
        ensures
            final(self).visit_token is None,
            final(self).app_code == old(self).app_code,
            final(self).app_secret == old(self).app_secret,
            final(self).base_url == old(self).base_url,
    {
        self.visit_token = None;
    }

    /// The full URL for an API endpoint.
    pub fn endpoint_url(&self, endpoint: &str) -> (r: String)
        ensures
            r@ == self.base_url@ + endpoint@,
    {
        let mut r = self.base_url.clone();
        r.append(endpoint);
        r
    }
}

// ---------------------------------------------------------------------
// Signed requests
// ---------------------------------------------------------------------

/// The bytes that are signed: secret, then the decimal timestamp,
/// then the nonce.
pub open spec fn spec_signature_input(
    secret: Seq<char>,
    timestamp_ms: nat,
    nonce: Seq<char>,
) -> Seq<u8> {
    spec_string_bytes(secret) + spec_dec_digits(timestamp_ms) + spec_string_bytes(nonce)
}

/// The signature header for a signed request: the SHA-256 of secret,
/// timestamp and nonce, in lower-case hexadecimal.  No session state
/// is involved.
pub fn generate_signature(app_secret: &str, timestamp_ms: u64, nonce: &str) -> (r: String)
    ensures
        r@ == spec_ascii_chars(
            spec_hex_bytes(
                sha256_of(spec_signature_input(app_secret@, timestamp_ms as nat, nonce@)),
            ),
        ),
{
    let mut input: Vec<u8> = Vec::new();
    append_bytes(&mut input, app_secret.as_bytes());
    let ts = dec_u64(timestamp_ms);
    append_bytes(&mut input, ts.as_slice());
    append_bytes(&mut input, nonce.as_bytes());
    proof {
        assert(input@ =~= spec_signature_input(app_secret@, timestamp_ms as nat, nonce@));
    }
    let digest = sha256(input.as_slice());
    hex_lower(digest.as_slice())
}

// ---------------------------------------------------------------------
// Response interpretation
// ---------------------------------------------------------------------

/// Whether an API status code reports success.
pub open spec fn spec_code_ok(code: i32) -> bool {
    code == 200 || code == 0
}

pub fn code_ok(code: i32) -> (r: bool)
    ensures
        r == spec_code_ok(code),
{
    code == 200 || code == 0
}

/// Whether an HTTP status line reports success: any status in the
/// 2xx class, which is the transport-level acceptance an upload needs
/// before a record may be marked sent.
pub open spec fn spec_http_status_ok(status: u16) -> bool {
    200 <= status < 300
}

pub fn http_status_ok(status: u16) -> (r: bool)
    ensures
        r == spec_http_status_ok(status),
{
    200 <= status && status < 300
}

/// The token a login response carries, or the error to surface: a
/// token is owed exactly when the code reports success and the data
/// is present.
pub fn token_from_login(resp: &LoginResponse) -> (r: Result<String, String>)
    ensures
        r is Ok <==> (spec_code_ok(resp.code) && resp.data is Some),
        r matches Ok(t) ==> (resp.data matches Some(d) && t@ == d.token@),
        r matches Err(m) ==> m@ == "Login failed: "@ + resp.msg@,
{
    if code_ok(resp.code) {
        if let Some(d) = &resp.data {
            return Ok(d.token.clone());
        }
    }
    let mut m = String::from_str("Login failed: ");
    m.append(resp.msg.as_str());
    Err(m)
}

/// The policy a config response carries, or the error to surface.
pub fn config_from_response(resp: ConfigResponse) -> (r: Result<PolicyConfig, String>)
    ensures
        r is Ok <==> (spec_code_ok(resp.code) && resp.data is Some),
        r matches Ok(p) ==> resp.data == Some(p),
        (spec_code_ok(resp.code) && resp.data is None) ==> (r matches Err(m) && m@
            == "No policy config in response"@),
        !spec_code_ok(resp.code) ==> (r matches Err(m) && m@ == "Get config failed: "@
            + resp.msg@),
{
    if code_ok(resp.code) {
        match resp.data {
            Some(p) => Ok(p),
            None => Err(String::from_str("No policy config in response")),
        }
    } else {
        let mut m = String::from_str("Get config failed: ");
        m.append(resp.msg.as_str());
        Err(m)
    }
}

/// The remote reference a file-upload response carries, or the error
/// to surface: a reference is owed exactly when the code reports
/// success and a URL is present.
pub fn upload_file_outcome(resp: UploadResponse) -> (r: Result<String, String>)
    ensures
        r is Ok <==> (spec_code_ok(resp.code) && resp.url is Some),
        r matches Ok(u) ==> resp.url == Some(u),
        (spec_code_ok(resp.code) && resp.url is None) ==> (r matches Err(m) && m@
            == "No URL in upload response"@),
        !spec_code_ok(resp.code) ==> (r matches Err(m) && m@ == "Upload file failed: "@
            + resp.msg@),
{
    if code_ok(resp.code) {
        match resp.url {
            Some(u) => Ok(u),
            None => Err(String::from_str("No URL in upload response")),
        }
    } else {
        let mut m = String::from_str("Upload file failed: ");
        m.append(resp.msg.as_str());
        Err(m)
    }
}

// ---------------------------------------------------------------------
// Registration
// ---------------------------------------------------------------------

/// The client settings derived from a registration command: the base
/// URL addresses the given server over plain HTTP, the application
/// code is fixed, and the PIN serves as the shared secret.
pub fn registration_settings(server_ip: &str, server_port: &str, pin: &str) -> (r: (
    String,
    String,
    String,
))
    ensures
        r.0@ == "http://"@ + server_ip@ + ":"@ + server_port@,
        r.1@ == "mac_monitor"@,
        r.2@ == pin@,
{
    let mut url = String::from_str("http://");
    url.append(server_ip);
    url.append(":");
    url.append(server_port);
    (url, String::from_str("mac_monitor"), pin.to_owned())
}

// ---------------------------------------------------------------------
// Server-time parsing
// ---------------------------------------------------------------------

pub open spec fn spec_all_digits(s: Seq<u8>) -> bool {
    forall|i: int| 0 <= i < s.len() ==> 48 <= #[trigger] s[i] <= 57
}

/// The numeric value of a decimal digit string.
pub open spec fn spec_digits_value(s: Seq<u8>) -> int
    decreases s.len(),
{
    if s.len() == 0 {
        0
    } else {
        spec_digits_value(s.drop_last()) * 10 + (s.last() - 48)
    }
}

proof fn lemma_digits_value_nonneg(s: Seq<u8>)
    requires
        spec_all_digits(s),
    ensures
        spec_digits_value(s) >= 0,
    decreases s.len(),
{
    if s.len() > 0 {
        lemma_digits_value_nonneg(s.drop_last());
    }
}

proof fn lemma_digits_value_prefix(s: Seq<u8>, k: int)
    requires
        spec_all_digits(s),
        0 <= k <= s.len(),
    ensures
        spec_digits_value(s.take(k)) <= spec_digits_value(s),
    decreases s.len() - k,
{
    if k == s.len() {
        assert(s.take(k) =~= s);
    } else {
        lemma_digits_value_prefix(s, k + 1);
        assert(s.take(k + 1).drop_last() =~= s.take(k));
        lemma_digits_value_nonneg(s.take(k + 1));
        lemma_digits_value_nonneg(s.take(k));
    }
}

/// Parse a decimal string as an unsigned number.  A value is returned
/// exactly when the string is nonempty, contains only decimal digits,
/// and its value fits.
#[verifier::loop_isolation(false)]
pub fn parse_u64(s: &str) -> (r: Option<u64>)
    ensures
        r is Some <==> (s@.len() > 0 && spec_all_digits(spec_string_bytes(s@))
            && spec_digits_value(spec_string_bytes(s@)) <= u64::MAX),
        r matches Some(n) ==> n == spec_digits_value(spec_string_bytes(s@)),
{
    let b: &[u8] = s.as_bytes();
    if b.len() == 0 {
        proof {
            reveal_strlit("");
            crate::text::lemma_string_bytes_injective(s@, ""@);
        }
        return None;
    }
    let mut acc: u64 = 0;
    let mut i: usize = 0;
    while i < b.len()
        invariant
            0 <= i <= b@.len(),
            spec_all_digits(b@.take(i as int)),
            acc == spec_digits_value(b@.take(i as int)),
        decreases b@.len() - i,
    {
        let c = b[i];
        if c < 48 || c > 57 {
            return None;
        }
        let d: u64 = (c - 48) as u64;
        if acc > u64::MAX / 10 || (acc == u64::MAX / 10 && d > u64::MAX % 10) {
            proof {
                assert(acc * 10 + d > u64::MAX) by (nonlinear_arith)
                    requires
                        acc > u64::MAX / 10 || (acc == u64::MAX / 10 && d > u64::MAX % 10),
                        d <= 9,
                ;
                assert(b@.take(i + 1).drop_last() =~= b@.take(i as int));
                assert(spec_digits_value(b@.take(i + 1)) == acc * 10 + d);
                if spec_all_digits(b@) {
                    lemma_digits_value_prefix(b@, i + 1);
                }
            }
            return None;
        }
        proof {
            assert(acc * 10 + d <= u64::MAX) by (nonlinear_arith)
                requires
                    acc <= u64::MAX / 10,
                    acc == u64::MAX / 10 ==> d <= u64::MAX % 10,
                    d <= 9,
            ;
            assert(b@.take(i + 1).drop_last() =~= b@.take(i as int));
        }
        acc = acc * 10 + d;
        i = i + 1;
    }
    proof {
        assert(b@.take(b@.len() as int) =~= b@);
    }
    Some(acc)
}

} // verus!
