//! Verified core of an endpoint traffic-audit pipeline.
//!
//! The library covers the decision and data logic of the pipeline: the
//! logical clock, the domain policy and its wildcard matching, the HTTP
//! audit-record construction, the certificate cache, the fake-IP DNS
//! catalogue, the durable outbox with its batch and deduplication rules,
//! the anomaly scanner's matching, and the sync-loop decisions.  All
//! transport (sockets, files, FFI) lives outside the library and hands it
//! plain values.

pub mod audit;
pub mod cert;
pub mod clock;
pub mod command;
pub mod device;
pub mod dns;
pub mod hashing;
pub mod http;
pub mod uploader;
pub mod outbox;
pub mod policy;
pub mod records;
pub mod scanner;
pub mod screenshot;
pub mod sync;
pub mod text;

use vstd::prelude::*;

verus! {

} // verus!
