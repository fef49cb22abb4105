//! Domain audit policy and its matching rules.
//!
//! A request is recorded when the target-domain list is empty (log all)
//! or the domain matches an enabled target pattern, and the domain does
//! not match a white-list pattern.  A pattern is matched exactly, or as
//! `*.suffix`, which matches the suffix itself and any sub-label of it;
//! matching is case-insensitive and ignores surrounding whitespace in
//! the pattern.  Target and white entries use the same pattern
//! language: a plain white entry excludes one domain exactly, and
//! `*.domain` excludes its subdomains as well.

use vstd::prelude::*;

use crate::text::{
    spec_lower, spec_trim, spec_ends_with, spec_contains, spec_string_bytes, lower_bytes,
    trim_bytes, bytes_eq, ends_with_bytes, contains_bytes, subvec, concat_bytes, lossy_string,
    lossy_decoded, lemma_lower_distributes,
};

verus! {

/// A target-domain entry: pattern plus an enable flag.
pub struct TargetDomain {
    pub domain: String,
    pub enabled: bool,
}

/// A white-list entry: requests to matching domains are never recorded.
pub struct WhiteDomain {
    pub domain: String,
}

/// A response-capture rule: when the URL contains `url`, capture the
/// response body truncated to `rspbodylength` bytes (0 means unbounded).
pub struct ResponseConfig {
    pub rspbodylength: usize,
    pub url: String,
}

/// The domain policy consulted by the interception engine.  Replaced
/// in place on policy pull; readers see either the old or the new one.
pub struct AuditPolicy {
    pub white_domains: Vec<WhiteDomain>,
    pub target_domains: Vec<TargetDomain>,
    pub website_rsp_config_array: Vec<ResponseConfig>,
}

impl AuditPolicy {
    /// The empty policy: no targets (log all), no white list, no
    /// capture rules.
    pub fn new() -> (p: AuditPolicy)
        ensures
            p.white_domains@.len() == 0,
            p.target_domains@.len() == 0,
            p.website_rsp_config_array@.len() == 0,
    {
        AuditPolicy {
            white_domains: Vec::new(),
            target_domains: Vec::new(),
            website_rsp_config_array: Vec::new(),
        }
    }
}

// ---------------------------------------------------------------------
// Matching specification
// ---------------------------------------------------------------------

/// Whether `pattern` (trimmed, case-folded) matches `domain`
/// (case-folded): a `*.suffix` pattern matches the suffix itself or any
/// sub-label of it; any other pattern matches exactly.
pub open spec fn spec_pattern_matches(pattern: Seq<u8>, domain: Seq<u8>) -> bool {
    let p = spec_lower(spec_trim(pattern));
    let d = spec_lower(domain);
    if p.len() >= 2 && p[0] == 42 && p[1] == 46 {
        d == p.skip(2) || spec_ends_with(d, seq![46u8] + p.skip(2))
    } else {
        d == p
    }
}

/// A target entry participates when it is enabled and its trimmed
/// pattern is nonempty.
pub open spec fn spec_target_active(t: TargetDomain) -> bool {
    t.enabled && spec_trim(spec_string_bytes(t.domain@)).len() > 0
}

pub open spec fn spec_target_matches(targets: Seq<TargetDomain>, domain: Seq<u8>) -> bool {
    exists|i: int|
        0 <= i < targets.len() && spec_target_active(#[trigger] targets[i])
            && spec_pattern_matches(spec_string_bytes(targets[i].domain@), domain)
}

pub open spec fn spec_white_matches(whites: Seq<WhiteDomain>, domain: Seq<u8>) -> bool {
    exists|i: int|
        0 <= i < whites.len() && spec_trim(
            spec_string_bytes(#[trigger] whites[i].domain@),
        ).len() > 0 && spec_pattern_matches(spec_string_bytes(whites[i].domain@), domain)
}

/// The record/suppress decision for a domain under a policy.
pub open spec fn spec_should_log(policy: AuditPolicy, domain: Seq<u8>) -> bool {
    (policy.target_domains@.len() == 0 || spec_target_matches(policy.target_domains@, domain))
        && !spec_white_matches(policy.white_domains@, domain)
}

// ---------------------------------------------------------------------
// Executable matching
// ---------------------------------------------------------------------

/// Whether one pattern matches one domain.
pub fn pattern_matches(pattern: &[u8], domain: &[u8]) -> (r: bool)
    ensures
        r == spec_pattern_matches(pattern@, domain@),
{
    let t = trim_bytes(pattern);
    let p = lower_bytes(t.as_slice());
    let d = lower_bytes(domain);
    if p.len() >= 2 && p[0] == 42 && p[1] == 46 {
        let suffix = subvec(p.as_slice(), 2, p.len());
        proof {
            assert(suffix@ =~= p@.skip(2));
        }
        if bytes_eq(d.as_slice(), suffix.as_slice()) {
            return true;
        }
        let mut dot: Vec<u8> = Vec::new();
        dot.push(46);
        let dotted = concat_bytes(dot.as_slice(), suffix.as_slice());
        proof {
            assert(dot@ =~= seq![46u8]);
        }
        ends_with_bytes(d.as_slice(), dotted.as_slice())
    } else {
        bytes_eq(d.as_slice(), p.as_slice())
    }
}

/// The policy decision for one request: record it or not.  The URL does
/// not influence the decision; only the domain and the policy do.
#[verifier::loop_isolation(false)]
pub fn should_log_request(policy: &AuditPolicy, domain: &str, url: &str) -> (r: bool)
    ensures
        r == spec_should_log(*policy, spec_string_bytes(domain@)),
{
    let _ = url;
    let db: &[u8] = domain.as_bytes();
    proof {
        assert(db@ == spec_string_bytes(domain@));
    }
    if policy.target_domains.len() > 0 {
        let mut matched = false;
        let mut i: usize = 0;
        while i < policy.target_domains.len()
            invariant
                0 <= i <= policy.target_domains@.len(),
                matched ==> spec_target_matches(policy.target_domains@, db@),
                !matched ==> forall|j: int|
                    0 <= j < i ==> !(spec_target_active(#[trigger] policy.target_domains@[j])
                        && spec_pattern_matches(
                        spec_string_bytes(policy.target_domains@[j].domain@),
                        db@,
                    )),
            decreases policy.target_domains@.len() - i,
        {
            if !matched {
                let entry = &policy.target_domains[i];
                if entry.enabled {
                    let eb: &[u8] = entry.domain.as_str().as_bytes();
                    let trimmed = trim_bytes(eb);
                    if trimmed.len() > 0 {
                        if pattern_matches(eb, db) {
                            matched = true;
                            proof {
                                assert(eb@ == spec_string_bytes(
                                    policy.target_domains@[i as int].domain@,
                                ));
                                assert(spec_target_active(policy.target_domains@[i as int]));
                                assert(spec_target_matches(policy.target_domains@, db@));
                            }
                        }
                    }
                }
            }
            i = i + 1;
        }
        if !matched {
            return false;
        }
    }
    let mut k: usize = 0;
    while k < policy.white_domains.len()
        invariant
            0 <= k <= policy.white_domains@.len(),
            policy.target_domains@.len() > 0 ==> spec_target_matches(
                policy.target_domains@,
                db@,
            ),
            forall|j: int|
                0 <= j < k ==> !(spec_trim(
                    spec_string_bytes(#[trigger] policy.white_domains@[j].domain@),
                ).len() > 0 && spec_pattern_matches(
                    spec_string_bytes(policy.white_domains@[j].domain@),
                    db@,
                )),
        decreases policy.white_domains@.len() - k,
    {
        let entry = &policy.white_domains[k];
        let eb: &[u8] = entry.domain.as_str().as_bytes();
        let trimmed = trim_bytes(eb);
        if trimmed.len() > 0 {
            if pattern_matches(eb, db) {
                proof {
                    assert(eb@ == spec_string_bytes(policy.white_domains@[k as int].domain@));
                    assert(spec_white_matches(policy.white_domains@, db@));
                }
                return false;
            }
        }
        k = k + 1;
    }
    true
}

// ---------------------------------------------------------------------
// Response-body capture
// ---------------------------------------------------------------------

/// A capture rule applies when its URL fragment is nonempty and occurs
/// in the request URL.
pub open spec fn spec_rule_matches(rule: ResponseConfig, url: Seq<u8>) -> bool {
    spec_string_bytes(rule.url@).len() > 0 && spec_contains(url, spec_string_bytes(rule.url@))
}

/// The captured body: truncated to `max` bytes when `max` is positive
/// and the body is longer.
pub open spec fn spec_captured(body: Seq<u8>, max: nat) -> Seq<u8> {
    if max > 0 && body.len() > max {
        body.take(max as int)
    } else {
        body
    }
}

/// The response body to record for a URL, if any: the first matching
/// capture rule decides, and its length bound truncates the body.
#[verifier::loop_isolation(false)]
pub fn response_body_for_url(policy: &AuditPolicy, url: &str, body: &[u8]) -> (r: Option<String>)
    ensures
        r is None <==> (body@.len() == 0 || forall|i: int|
            0 <= i < policy.website_rsp_config_array@.len() ==> !spec_rule_matches(
                #[trigger] policy.website_rsp_config_array@[i],
                spec_string_bytes(url@),
            )),
        r matches Some(s) ==> exists|i: int|
            0 <= i < policy.website_rsp_config_array@.len() && spec_rule_matches(
                #[trigger] policy.website_rsp_config_array@[i],
                spec_string_bytes(url@),
            ) && (forall|j: int|
                0 <= j < i ==> !spec_rule_matches(
                    #[trigger] policy.website_rsp_config_array@[j],
                    spec_string_bytes(url@),
                )) && s@ == lossy_decoded(
                spec_captured(body@, policy.website_rsp_config_array@[i].rspbodylength as nat),
            ),
{
    if body.len() == 0 {
        return None;
    }
    let ub: &[u8] = url.as_bytes();
    let rules = &policy.website_rsp_config_array;
    let mut i: usize = 0;
    while i < rules.len()
        invariant
            0 <= i <= rules@.len(),
            body@.len() > 0,
            ub@ == spec_string_bytes(url@),
            forall|j: int|
                0 <= j < i ==> !spec_rule_matches(#[trigger] rules@[j], spec_string_bytes(url@)),
        decreases rules@.len() - i,
    {
        let rule = &rules[i];
        let rub: &[u8] = rule.url.as_str().as_bytes();
        if rub.len() > 0 && contains_bytes(ub, rub) {
            let max = rule.rspbodylength;
            let captured = if max > 0 && body.len() > max {
                subvec(body, 0, max)
            } else {
                subvec(body, 0, body.len())
            };
            proof {
                assert(captured@ =~= spec_captured(body@, max as nat));
                assert(rub@ == spec_string_bytes(rules@[i as int].url@));
                assert(spec_rule_matches(rules@[i as int], spec_string_bytes(url@)));
            }
            return Some(lossy_string(captured.as_slice()));
        }
        i = i + 1;
    }
    None
}

// ---------------------------------------------------------------------
// Wildcard law
// ---------------------------------------------------------------------

/// Wildcard-matching law: a pattern `*.S` with a nonempty, lower-case,
/// whitespace-free suffix S matches S itself and `L.S` for every label
/// L, and matches no domain that (after case folding) neither equals S
/// nor ends in `.S`.
pub proof fn lemma_wildcard_matching(suffix: Seq<u8>, label: Seq<u8>, other: Seq<u8>)
    requires
        suffix.len() > 0,
        spec_lower(suffix) == suffix,
        spec_trim(seq![42u8, 46u8] + suffix) == seq![42u8, 46u8] + suffix,
    ensures
        spec_pattern_matches(seq![42u8, 46u8] + suffix, suffix),
        spec_pattern_matches(seq![42u8, 46u8] + suffix, label + seq![46u8] + suffix),
        spec_lower(other) != suffix && !spec_ends_with(spec_lower(other), seq![46u8] + suffix)
            ==> !spec_pattern_matches(seq![42u8, 46u8] + suffix, other),
{
    let pattern = seq![42u8, 46u8] + suffix;
    let p = spec_lower(spec_trim(pattern));
    lemma_lower_distributes(seq![42u8, 46u8], suffix);
    assert(spec_lower(seq![42u8, 46u8]) =~= seq![42u8, 46u8]);
    assert(p == seq![42u8, 46u8] + suffix);
    assert(p[0] == 42 && p[1] == 46);
    assert(p.skip(2) =~= suffix);

    // the suffix itself matches
    assert(spec_lower(suffix) == suffix);

    // any sub-label matches: the case-folded domain ends in "." + suffix
    let d = label + seq![46u8] + suffix;
    lemma_lower_distributes(label + seq![46u8], suffix);
    lemma_lower_distributes(label, seq![46u8]);
    assert(spec_lower(seq![46u8]) =~= seq![46u8]);
    assert(spec_lower(d) == spec_lower(label) + seq![46u8] + suffix);
    assert(spec_lower(d).subrange(
        spec_lower(d).len() - (seq![46u8] + suffix).len(),
        spec_lower(d).len() as int,
    ) =~= seq![46u8] + suffix);
}

} // verus!
