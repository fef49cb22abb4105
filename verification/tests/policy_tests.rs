use audit_core::policy::{
    AuditPolicy, ResponseConfig, TargetDomain, WhiteDomain, pattern_matches, response_body_for_url,
    should_log_request,
};

fn policy_with_targets(patterns: &[(&str, bool)]) -> AuditPolicy {
    AuditPolicy {
        white_domains: Vec::new(),
        target_domains: patterns
            .iter()
            .map(|(d, e)| TargetDomain { domain: d.to_string(), enabled: *e })
            .collect(),
        website_rsp_config_array: Vec::new(),
    }
}

#[test]
fn wildcard_matches_suffix_and_sublabels() {
    assert!(pattern_matches(b"*.example.com", b"example.com"));
    assert!(pattern_matches(b"*.example.com", b"a.example.com"));
    assert!(pattern_matches(b"*.example.com", b"a.b.example.com"));
    assert!(!pattern_matches(b"*.example.com", b"notexample.com"));
}

#[test]
fn wildcard_matching_is_case_insensitive_and_trims() {
    assert!(pattern_matches(b" *.Example.COM ", b"A.EXAMPLE.com"));
    assert!(pattern_matches(b"*.example.com", b"EXAMPLE.COM"));
}

#[test]
fn exact_pattern_matches_exactly() {
    assert!(pattern_matches(b"example.com", b"example.com"));
    assert!(pattern_matches(b"Example.com", b"example.COM"));
    assert!(!pattern_matches(b"example.com", b"a.example.com"));
    assert!(!pattern_matches(b"example.com", b"notexample.com"));
}

#[test]
fn empty_target_list_logs_everything() {
    let policy = policy_with_targets(&[]);
    assert!(should_log_request(&policy, "anything.net", "https://anything.net/"));
}

#[test]
fn disabled_and_blank_targets_do_not_match() {
    let policy = policy_with_targets(&[("*.bank.com", false), ("  ", true)]);
    assert!(!should_log_request(&policy, "login.bank.com", "https://login.bank.com/"));
}

#[test]
fn enabled_target_matches_and_others_do_not() {
    let policy = policy_with_targets(&[("*.bank.com", true)]);
    assert!(should_log_request(&policy, "login.bank.com", "https://login.bank.com/x"));
    assert!(!should_log_request(&policy, "ads.tracker.net", "https://ads.tracker.net/"));
}

#[test]
fn white_domain_suppresses_even_when_targeted() {
    let mut policy = policy_with_targets(&[("*.bank.com", true)]);
    policy.white_domains.push(WhiteDomain { domain: "login.bank.com".to_string() });
    assert!(!should_log_request(&policy, "login.bank.com", "https://login.bank.com/"));
    assert!(should_log_request(&policy, "pay.bank.com", "https://pay.bank.com/"));
}

#[test]
fn white_domain_wildcard_suppresses_sublabels() {
    let mut policy = policy_with_targets(&[]);
    policy.white_domains.push(WhiteDomain { domain: "*.internal.example".to_string() });
    assert!(!should_log_request(&policy, "a.internal.example", "https://a.internal.example/"));
    assert!(should_log_request(&policy, "public.example", "https://public.example/"));
}

fn policy_with_rules(rules: &[(&str, usize)]) -> AuditPolicy {
    AuditPolicy {
        white_domains: Vec::new(),
        target_domains: Vec::new(),
        website_rsp_config_array: rules
            .iter()
            .map(|(u, n)| ResponseConfig { rspbodylength: *n, url: u.to_string() })
            .collect(),
    }
}

#[test]
fn response_body_empty_body_yields_none() {
    let policy = policy_with_rules(&[("bank", 100)]);
    assert!(response_body_for_url(&policy, "https://bank.com/a", b"").is_none());
}

#[test]
fn response_body_no_matching_rule_yields_none() {
    let policy = policy_with_rules(&[("bank", 100), ("", 5)]);
    assert!(response_body_for_url(&policy, "https://shop.com/a", b"payload").is_none());
}

#[test]
fn response_body_truncates_to_rule_length() {
    let policy = policy_with_rules(&[("bank", 4)]);
    let captured = response_body_for_url(&policy, "https://bank.com/a", b"abcdefgh");
    assert_eq!(captured.unwrap(), "abcd");
}

#[test]
fn response_body_zero_length_means_unbounded() {
    let policy = policy_with_rules(&[("bank", 0)]);
    let captured = response_body_for_url(&policy, "https://bank.com/a", b"abcdefgh");
    assert_eq!(captured.unwrap(), "abcdefgh");
}

#[test]
fn response_body_first_matching_rule_wins() {
    let policy = policy_with_rules(&[("shop", 2), ("bank", 3), ("bank.com", 5)]);
    let captured = response_body_for_url(&policy, "https://bank.com/a", b"abcdefgh");
    assert_eq!(captured.unwrap(), "abc");
}
