use std::sync::Arc;

use audit_core::cert::MitmProxy;

#[test]
fn cert_for_domain_is_cached_and_identity_equal() {
    let mut proxy = MitmProxy::new(None).expect("root authority");
    let first = proxy.generate_cert_for_domain("x.com").ok().expect("first issue");
    let second = proxy.generate_cert_for_domain("x.com").ok().expect("second issue");
    // the cached entry itself comes back, not a freshly generated one
    assert!(Arc::ptr_eq(&first, &second));
    assert_eq!(proxy.cert_cache.len(), 1);
}

#[test]
fn different_domains_get_different_entries() {
    let mut proxy = MitmProxy::new(None).expect("root authority");
    let a = proxy.generate_cert_for_domain("a.com").ok().expect("a");
    let b = proxy.generate_cert_for_domain("b.com").ok().expect("b");
    assert!(!Arc::ptr_eq(&a, &b));
    assert_eq!(proxy.cert_cache.len(), 2);
}

#[test]
fn root_certificate_pem_is_exported() {
    let proxy = MitmProxy::new(None).expect("root authority");
    let pem = proxy.get_root_ca_pem();
    assert!(pem.starts_with("-----BEGIN CERTIFICATE-----"));
    // idempotent: repeated export returns the same serialization
    assert_eq!(pem, proxy.get_root_ca_pem());
}

#[test]
fn same_key_regenerates_the_same_root_certificate() {
    let first = MitmProxy::new(None).expect("root authority");
    let key_pem = first.get_root_ca_key_pem();
    let second = MitmProxy::new(Some(&key_pem)).expect("rebuilt authority");
    // fixed serial number, validity window and deterministic signing:
    // the same key yields a byte-identical certificate, so earlier
    // trust installations hold
    assert_eq!(first.get_root_ca_pem(), second.get_root_ca_pem());
    assert_eq!(first.get_root_ca_key_pem(), second.get_root_ca_key_pem());
}

#[test]
fn fresh_keys_give_different_root_certificates() {
    let first = MitmProxy::new(None).expect("root authority");
    let second = MitmProxy::new(None).expect("other authority");
    assert_ne!(first.get_root_ca_pem(), second.get_root_ca_pem());
}

#[test]
fn unusable_keys_are_rejected() {
    assert!(MitmProxy::new(Some("not a key")).is_none());
    assert!(MitmProxy::new(Some("")).is_none());
}

#[test]
fn non_ascii_domains_are_rejected_not_issued() {
    let mut proxy = MitmProxy::new(None).expect("root authority");
    // a DNS name must be ASCII; the error is fatal to this request only
    assert!(proxy.generate_cert_for_domain("b\u{fc}cher.example").is_err());
    assert_eq!(proxy.cert_cache.len(), 0);
    assert!(proxy.generate_cert_for_domain("xn--bcher-kva.example").is_ok());
    assert_eq!(proxy.cert_cache.len(), 1);
}
