//! Certificate authority for interception: a root signing certificate
//! and a per-domain cache of signed TLS server configurations.  A leaf
//! is issued lazily on the first connection to a domain and cached for
//! the process lifetime; a cryptographic failure is fatal only to the
//! connection that asked.
//!
//! The root certificate is built with a fixed serial number and a fixed
//! validity window, so regenerating it from the same persisted key
//! yields the same certificate; the caller persists and supplies the
//! key.

use vstd::prelude::*;
use vstd::string::StringExecFns;

use std::sync::Arc;

use rcgen::{
    BasicConstraints, Certificate, CertificateParams, DistinguishedName, DnType, IsCa, KeyPair,
    PKCS_ED25519, SanType,
};
use rustls::pki_types::{CertificateDer, PrivateKeyDer};
use time::OffsetDateTime;

use crate::text::{spec_string_bytes, bytes_eq};

verus! {

#[verifier::external_type_specification]
#[verifier::external_body]
pub struct ExCertificate(rcgen::Certificate);

#[verifier::external_type_specification]
#[verifier::external_body]
pub struct ExServerConfig(rustls::ServerConfig);

/// A cryptographic failure while issuing a certificate: fatal to the
/// connection that asked, not to the process.
pub struct CertError {}

/// One cache entry: a domain and the signed TLS server configuration
/// issued for it.
pub struct CertCacheEntry {
    pub domain: String,
    pub config: Arc<rustls::ServerConfig>,
}

/// The interception certificate authority.  The root certificate and
/// signing key are held serialized as well, so exporting them never
/// re-signs anything and cannot fail.
pub struct MitmProxy {
    pub root_ca: rcgen::Certificate,
    pub root_cert_pem: String,
    pub root_key_pem: String,
    pub cert_cache: Vec<CertCacheEntry>,
}

// ---------------------------------------------------------------------
// Trusted rcgen / rustls calls
// ---------------------------------------------------------------------

/// Whether a PEM-encoded signing key is accepted for the root
/// authority: it parses and carries the authority's algorithm
/// (Ed25519).
pub uninterp spec fn root_key_accepted(key_pem: Seq<char>) -> bool;

/// The PEM of the root certificate built from an accepted key.  The
/// authority's name, serial number and validity window are fixed and
/// its signature scheme is deterministic, so the certificate is a
/// function of the key alone — regeneration from a persisted key is
/// byte-identical and installed trust survives it.
pub uninterp spec fn root_cert_pem_of(key_pem: Seq<char>) -> Seq<char>;

/// The PEM re-serialization of an accepted key.
pub uninterp spec fn root_key_pem_of(key_pem: Seq<char>) -> Seq<char>;

/// Relies on rcgen's `KeyPair::from_pem`, `Certificate::from_params`,
/// `serialize_pem` and `serialize_private_key_pem`: a supplied key
/// yields an authority exactly when it parses as a compatible
/// (Ed25519) key, and then the certificate and key PEMs are functions
/// of the key alone (Ed25519 signing is deterministic, and the other
/// certificate parameters here are constants).  Serialization itself
/// cannot fail for a local Ed25519 key.  With no key supplied a fresh
/// one is generated, so nothing is promised of the PEMs.
#[verifier::external_body]
fn make_root_ca(ca_key_pem: Option<&str>) -> (r: Option<(rcgen::Certificate, String, String)>)
    ensures
        ca_key_pem matches Some(k) ==> (r is Some <==> root_key_accepted(k@)),
        ca_key_pem matches Some(k) ==> (r matches Some(t) ==> t.1@ == root_cert_pem_of(k@)
            && t.2@ == root_key_pem_of(k@)),
{
    let mut params = CertificateParams::default();
    params.alg = &PKCS_ED25519;
    params.distinguished_name = DistinguishedName::new();
    params.distinguished_name.push(DnType::CommonName, "Mac Monitor Root CA");
    params.distinguished_name.push(DnType::OrganizationName, "Mac Monitor");
    params.is_ca = IsCa::Ca(BasicConstraints::Unconstrained);
    params.serial_number = Some(123456789u64.into());
    params.not_before = OffsetDateTime::from_unix_timestamp(1735689600).ok()?;
    params.not_after = OffsetDateTime::from_unix_timestamp(67090118400).ok()?;
    if let Some(pem) = ca_key_pem { params.key_pair = Some(KeyPair::from_pem(pem).ok()?); }
    let cert = Certificate::from_params(params).ok()?;
    let cert_pem = cert.serialize_pem().ok()?;
    let key_pem = cert.serialize_private_key_pem();
    Some((cert, cert_pem, key_pem))
}

/// Relies on `rcgen::Certificate::from_params` and
/// `serialize_der_with_signer`: a leaf certificate for the domain (CN
/// and DNS subject-alternative name both the domain), signed by the
/// root, as DER, together with its fresh private key as DER.  The
/// domain must be ASCII: the DNS name is written as an ASN.1
/// IA5String, whose writer accepts ASCII only (and panics otherwise),
/// so the precondition keeps that input out.
#[verifier::external_body]
fn leaf_ders(ca: &rcgen::Certificate, domain: &str) -> (r: Option<(Vec<u8>, Vec<u8>)>)
    requires
        domain.is_ascii(),
{
    let mut params = CertificateParams::default();
    params.distinguished_name = DistinguishedName::new();
    params.distinguished_name.push(DnType::CommonName, domain);
    params.subject_alt_names = vec![SanType::DnsName(domain.to_string())];
    let cert = Certificate::from_params(params).ok()?;
    let cert_der = cert.serialize_der_with_signer(ca).ok()?;
    let key_der = cert.serialize_private_key_der();
    Some((cert_der, key_der))
}

/// Relies on `rustls::ServerConfig::builder` with `with_single_cert`: a
/// server-side TLS configuration serving the given certificate chain
/// and key.
#[verifier::external_body]
fn server_config_from_ders(cert_der: Vec<u8>, key_der: Vec<u8>) -> (r: Option<
    Arc<rustls::ServerConfig>,
>)
{
    let certs = vec![CertificateDer::from(cert_der)];
    let key = PrivateKeyDer::try_from(key_der).ok()?;
    let config = rustls::ServerConfig::builder().with_no_client_auth().with_single_cert(
        certs,
        key,
    ).ok()?;
    Some(Arc::new(config))
}

/// Relies on `Arc::clone`: the clone is a handle to the same value.
#[verifier::external_body]
fn clone_config_handle(c: &Arc<rustls::ServerConfig>) -> (r: Arc<rustls::ServerConfig>)
    ensures
        r == *c,
{
    c.clone()
}

// ---------------------------------------------------------------------
// Cache specification
// ---------------------------------------------------------------------

/// The configuration cached for a domain, if any: the first entry whose
/// domain matches.
pub open spec fn spec_cache_lookup(cache: Seq<CertCacheEntry>, domain: Seq<u8>) -> Option<
    Arc<rustls::ServerConfig>,
>
    decreases cache.len(),
{
    if cache.len() == 0 {
        None
    } else if spec_string_bytes(cache[0].domain@) == domain {
        Some(cache[0].config)
    } else {
        spec_cache_lookup(cache.drop_first(), domain)
    }
}

proof fn lemma_cache_lookup_at(cache: Seq<CertCacheEntry>, domain: Seq<u8>, i: int)
    requires
        0 <= i < cache.len(),
        forall|j: int| 0 <= j < i ==> spec_string_bytes(#[trigger] cache[j].domain@) != domain,
        spec_string_bytes(cache[i].domain@) == domain,
    ensures
        spec_cache_lookup(cache, domain) == Some(cache[i].config),
    decreases i,
{
    if i > 0 {
        lemma_cache_lookup_at(cache.drop_first(), domain, i - 1);
    }
}

proof fn lemma_cache_lookup_none(cache: Seq<CertCacheEntry>, domain: Seq<u8>)
    requires
        forall|j: int|
            0 <= j < cache.len() ==> spec_string_bytes(#[trigger] cache[j].domain@) != domain,
    ensures
        spec_cache_lookup(cache, domain) is None,
    decreases cache.len(),
{
    if cache.len() > 0 {
        lemma_cache_lookup_none(cache.drop_first(), domain);
    }
}

// ---------------------------------------------------------------------
// Operations
// ---------------------------------------------------------------------

impl MitmProxy {
    /// Build the authority.  A persisted signing key is accepted
    /// exactly when it parses as a compatible key, and then the root
    /// certificate (and the key's re-serialization) are functions of
    /// that key alone — the same key always rebuilds the same
    /// certificate.  `None` generates a fresh key, failing only on a
    /// cryptographic fault.
    pub fn new(ca_key_pem: Option<&str>) -> (r: Option<MitmProxy>)
        ensures
            ca_key_pem matches Some(k) ==> (r is Some <==> root_key_accepted(k@)),
            r matches Some(m) ==> {
                &&& m.cert_cache@.len() == 0
                &&& (ca_key_pem matches Some(k) ==> m.root_cert_pem@ == root_cert_pem_of(k@)
                    && m.root_key_pem@ == root_key_pem_of(k@))
            },
    {
        match make_root_ca(ca_key_pem) {
            Some((root_ca, cert_pem, key_pem)) => Some(
                MitmProxy {
                    root_ca,
                    root_cert_pem: cert_pem,
                    root_key_pem: key_pem,
                    cert_cache: Vec::new(),
                },
            ),
            None => None,
        }
    }

    /// The root certificate as PEM, for installation into the OS trust
    /// store.  Idempotent: every call returns the stored serialization.
    pub fn get_root_ca_pem(&self) -> (r: String)
        ensures
            r@ == self.root_cert_pem@,
    {
        self.root_cert_pem.clone()
    }

    /// The root signing key as PEM, for persistence.
    pub fn get_root_ca_key_pem(&self) -> (r: String)
        ensures
            r@ == self.root_key_pem@,
    {
        self.root_key_pem.clone()
    }

    /// The signed TLS server configuration for a domain.  A domain
    /// that is not ASCII cannot stand in a DNS subject-alternative
    /// name and is rejected with the certificate error — fatal to that
    /// connection only, nothing changes.  Otherwise a cached entry is
    /// returned as-is (the cache is never regenerated or evicted), and
    /// a fresh leaf is issued, cached and returned for a new domain;
    /// on a cryptographic failure nothing changes.
    #[verifier::loop_isolation(false)]
    pub fn generate_cert_for_domain(&mut self, domain: &str) -> (r: Result<
        Arc<rustls::ServerConfig>,
        CertError,
    >)
        ensures
            !domain.is_ascii() ==> r is Err && *final(self) == *old(self),
            domain.is_ascii() ==> (spec_cache_lookup(
                old(self).cert_cache@,
                spec_string_bytes(domain@),
            ) matches Some(c) ==> r == Result::<Arc<rustls::ServerConfig>, CertError>::Ok(c)
                && *final(self) == *old(self)),
            domain.is_ascii() && spec_cache_lookup(
                old(self).cert_cache@,
                spec_string_bytes(domain@),
            ) is None ==> match r {
                Ok(c) => {
                    &&& final(self).cert_cache@.len() == old(self).cert_cache@.len() + 1
                    &&& final(self).cert_cache@.take(old(self).cert_cache@.len() as int) == old(
                        self,
                    ).cert_cache@
                    &&& spec_string_bytes(final(self).cert_cache@.last().domain@)
                        == spec_string_bytes(domain@)
                    &&& final(self).cert_cache@.last().config == c
                    &&& final(self).root_ca == old(self).root_ca
                    &&& final(self).root_cert_pem == old(self).root_cert_pem
                    &&& final(self).root_key_pem == old(self).root_key_pem
                },
                Err(_) => *final(self) == *old(self),
            },
    {
        if !domain.is_ascii() {
            return Err(CertError {  });
        }
        let db: &[u8] = domain.as_bytes();
        let mut i: usize = 0;
        while i < self.cert_cache.len()
            invariant
                0 <= i <= self.cert_cache@.len(),
                forall|j: int|
                    0 <= j < i ==> spec_string_bytes(
                        #[trigger] self.cert_cache@[j].domain@,
                    ) != db@,
            decreases self.cert_cache@.len() - i,
        {
            let entry = &self.cert_cache[i];
            if bytes_eq(entry.domain.as_str().as_bytes(), db) {
                proof {
                    lemma_cache_lookup_at(self.cert_cache@, db@, i as int);
                }
                return Ok(clone_config_handle(&entry.config));
            }
            i = i + 1;
        }
        proof {
            lemma_cache_lookup_none(self.cert_cache@, db@);
        }
        match leaf_ders(&self.root_ca, domain) {
            None => Err(CertError {  }),
            Some((cert_der, key_der)) => match server_config_from_ders(cert_der, key_der) {
                None => Err(CertError {  }),
                Some(config) => {
                    let handle = clone_config_handle(&config);
                    self.cert_cache.push(
                        CertCacheEntry { domain: String::from_str(domain), config },
                    );
                    proof {
                        assert(self.cert_cache@.take(old(self).cert_cache@.len() as int) =~= old(
                            self,
                        ).cert_cache@);
                    }
                    Ok(handle)
                },
            },
        }
    }
}

/// Certificate-stability law: issuing a configuration for a domain that
/// was not cached stores it, and a lookup for the same domain then
/// finds exactly the stored handle — so a second request returns the
/// cached entry rather than a fresh one, and the cache is unchanged.
pub proof fn lemma_cert_cache_stable(
    cache: Seq<CertCacheEntry>,
    entry: CertCacheEntry,
    domain: Seq<u8>,
)
    requires
        spec_cache_lookup(cache, domain) is None,
        spec_string_bytes(entry.domain@) == domain,
    ensures
        spec_cache_lookup(cache.push(entry), domain) == Some(entry.config),
    decreases cache.len(),
{
    if cache.len() == 0 {
        assert(cache.push(entry)[0] == entry);
    } else {
        lemma_cert_cache_stable(cache.drop_first(), entry, domain);
        assert(cache.push(entry).drop_first() =~= cache.drop_first().push(entry));
    }
}

} // verus!
