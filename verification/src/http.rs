//! HTTP request parsing for the interception engine.  The parse itself
//! is delegated to httparse; this module gives its outcome a name and
//! builds the library's request value from it.

use vstd::prelude::*;

use crate::cert::MitmProxy;
use crate::text::subvec;

verus! {

/// What `httparse::Request::parse` finds in a byte buffer holding an
/// HTTP request head: the method, the path, the minor version, the
/// number of bytes the head occupies (the body starts there), and the
/// header name/value pairs whose values decode as UTF-8, in order; or
/// nothing, when the buffer does not hold a complete well-formed head
/// within the header limit.
pub uninterp spec fn http_head_of(data: Seq<u8>) -> Option<
    (Seq<char>, Seq<char>, u8, int, Seq<(Seq<char>, Seq<char>)>),
>;

/// A parsed HTTP request: the head fields, the headers, and the bytes
/// that follow the head.
pub struct HttpRequest {
    pub method: String,
    pub path: String,
    pub version: u8,
    pub headers: Vec<(String, String)>,
    pub body: Vec<u8>,
}

/// The buffer did not hold a complete well-formed request head.
pub struct ParseError {}

/// Relies on `httparse::Request::parse` with the default configuration
/// and room for 64 headers: the outcome is a function of the buffer
/// alone; on success the returned offset is the length of the head,
/// which never exceeds the buffer, and the headers are returned in
/// order, skipping values that are not UTF-8.
#[verifier::external_body]
fn parse_head(data: &[u8]) -> (r: Option<(String, String, u8, usize, Vec<(String, String)>)>)
    ensures
        r is Some <==> http_head_of(data@) is Some,
        r matches Some(p) ==> {
            let q = http_head_of(data@).unwrap();
            &&& p.0@ == q.0
            &&& p.1@ == q.1
            &&& p.2 == q.2
            &&& p.3 == q.3
            &&& q.3 <= data@.len()
            &&& p.4@.len() == q.4.len()
            &&& forall|i: int|
                0 <= i < q.4.len() ==> (#[trigger] p.4@[i]).0@ == q.4[i].0 && p.4@[i].1@
                    == q.4[i].1
        },
{
    let mut headers = [httparse::EMPTY_HEADER; 64];
    let mut req = httparse::Request::new(&mut headers);
    match req.parse(data) {
        Ok(httparse::Status::Complete(off)) => {
            let pairs: Vec<(String, String)> = req.headers.iter().filter_map(
                |h| std::str::from_utf8(h.value).ok().map(|v| (h.name.to_string(), v.to_string())),
            ).collect();
            let method = req.method.unwrap_or("UNKNOWN").to_string();
            let path = req.path.unwrap_or("/").to_string();
            Some((method, path, req.version.unwrap_or(1), off, pairs))
        },
        _ => None,
    }
}

impl MitmProxy {
    /// Parse an intercepted client buffer as an HTTP request.  On
    /// success the fields are exactly what the parse found, the
    /// headers carry every UTF-8-decodable name/value pair in order,
    /// and the body is everything after the head.
    pub fn parse_http_request(&self, data: &[u8]) -> (r: Result<HttpRequest, ParseError>)
        ensures
            r is Ok <==> http_head_of(data@) is Some,
            r matches Ok(h) ==> {
                let q = http_head_of(data@).unwrap();
                &&& h.method@ == q.0
                &&& h.path@ == q.1
                &&& h.version == q.2
                &&& h.body@ == data@.skip(q.3)
                &&& h.headers@.len() == q.4.len()
                &&& forall|i: int|
                    0 <= i < q.4.len() ==> (#[trigger] h.headers@[i]).0@ == q.4[i].0
                        && h.headers@[i].1@ == q.4[i].1
            },
    {
        match parse_head(data) {
            None => Err(ParseError {  }),
            Some((method, path, version, off, headers)) => {
                let body = subvec(data, off, data.len());
                proof {
                    assert(data@.subrange(off as int, data@.len() as int) =~= data@.skip(
                        off as int,
                    ));
                }
                Ok(HttpRequest { method, path, version, headers, body })
            },
        }
    }
}

} // verus!
