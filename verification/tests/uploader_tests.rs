use audit_core::uploader::{
    Uploader, config_from_response, generate_signature, http_status_ok, parse_u64,
    registration_settings, token_from_login, upload_file_outcome,
};
use audit_core::records::{
    ConfigResponse, LoginData, LoginResponse, PolicyConfig, UploadResponse,
};

use sha2::Digest;

#[test]
fn token_cache_is_lazy_and_reused() {
    let mut up = Uploader::new("code", "secret", "http://server:8080");
    assert!(up.cached_token().is_none());
    up.store_token("tok-1".to_string());
    assert_eq!(up.cached_token().as_deref(), Some("tok-1"));
    // a held token is reused; only clearing forces a new login
    up.clear_token();
    assert!(up.cached_token().is_none());
}

#[test]
fn update_config_invalidates_the_token() {
    let mut up = Uploader::new("code", "secret", "http://a");
    up.store_token("tok".to_string());
    up.update_config("code2", "secret2", "http://b");
    assert!(up.cached_token().is_none());
    assert_eq!(up.base_url, "http://b");
}

#[test]
fn endpoint_urls_are_joined() {
    let up = Uploader::new("code", "secret", "http://server:8080");
    assert_eq!(up.endpoint_url("/api/v1/log/audit"), "http://server:8080/api/v1/log/audit");
}

#[test]
fn login_response_yields_token_or_error() {
    let ok = LoginResponse {
        code: 200,
        msg: "ok".to_string(),
        data: Some(LoginData { token: "tok".to_string() }),
    };
    assert_eq!(token_from_login(&ok).unwrap(), "tok");
    let ok_zero = LoginResponse {
        code: 0,
        msg: "ok".to_string(),
        data: Some(LoginData { token: "tok".to_string() }),
    };
    assert!(token_from_login(&ok_zero).is_ok());
    let denied = LoginResponse { code: 403, msg: "denied".to_string(), data: None };
    assert_eq!(token_from_login(&denied).unwrap_err(), "Login failed: denied");
    let empty = LoginResponse { code: 200, msg: "ok".to_string(), data: None };
    assert_eq!(token_from_login(&empty).unwrap_err(), "Login failed: ok");
}

#[test]
fn config_response_yields_policy_or_error() {
    let ok = ConfigResponse {
        code: 0,
        msg: "ok".to_string(),
        data: Some(PolicyConfig {
            process_blacklist: vec!["clash".to_string()],
            app_blacklist: Vec::new(),
        }),
    };
    let policy = config_from_response(ok).unwrap();
    assert_eq!(policy.process_blacklist, vec!["clash".to_string()]);
    let missing = ConfigResponse { code: 200, msg: "ok".to_string(), data: None };
    let err = match config_from_response(missing) {
        Err(m) => m,
        Ok(_) => panic!("expected an error"),
    };
    assert_eq!(err, "No policy config in response");
    let failed = ConfigResponse { code: 500, msg: "boom".to_string(), data: None };
    let err = match config_from_response(failed) {
        Err(m) => m,
        Ok(_) => panic!("expected an error"),
    };
    assert_eq!(err, "Get config failed: boom");
}

#[test]
fn upload_response_yields_reference_or_error() {
    let ok = UploadResponse {
        code: 200,
        msg: "ok".to_string(),
        url: Some("https://cdn/x.jpg".to_string()),
        file_name: None,
    };
    assert_eq!(upload_file_outcome(ok).unwrap(), "https://cdn/x.jpg");
    let no_url = UploadResponse { code: 0, msg: "ok".to_string(), url: None, file_name: None };
    assert_eq!(upload_file_outcome(no_url).unwrap_err(), "No URL in upload response");
    let failed = UploadResponse { code: 500, msg: "boom".to_string(), url: None, file_name: None };
    assert_eq!(upload_file_outcome(failed).unwrap_err(), "Upload file failed: boom");
}

#[test]
fn signature_hashes_secret_timestamp_and_nonce() {
    let sig = generate_signature("secret", 1700000000123, "nonce-7");
    let expected = hex::encode(sha2::Sha256::digest(b"secret1700000000123nonce-7"));
    assert_eq!(sig, expected);
    // the signature depends on every input
    assert_ne!(sig, generate_signature("secret", 1700000000124, "nonce-7"));
    assert_ne!(sig, generate_signature("secret", 1700000000123, "nonce-8"));
}

#[test]
fn any_2xx_status_is_transport_success() {
    assert!(http_status_ok(200));
    assert!(http_status_ok(204));
    assert!(http_status_ok(299));
    assert!(!http_status_ok(199));
    assert!(!http_status_ok(301));
    assert!(!http_status_ok(404));
    assert!(!http_status_ok(0));
}

#[test]
fn registration_derives_the_client_settings() {
    let (base_url, app_code, app_secret) = registration_settings("10.0.0.5", "8443", "PIN9");
    assert_eq!(base_url, "http://10.0.0.5:8443");
    assert_eq!(app_code, "mac_monitor");
    assert_eq!(app_secret, "PIN9");
}

#[test]
fn server_time_parsing_accepts_digits_only() {
    assert_eq!(parse_u64("0"), Some(0));
    assert_eq!(parse_u64("1700000000"), Some(1_700_000_000));
    assert_eq!(parse_u64("18446744073709551615"), Some(u64::MAX));
    assert_eq!(parse_u64("18446744073709551616"), None);
    assert_eq!(parse_u64("99999999999999999999999"), None);
    assert_eq!(parse_u64(""), None);
    assert_eq!(parse_u64("12a4"), None);
    assert_eq!(parse_u64("-12"), None);
    assert_eq!(parse_u64(" 12"), None);
}
