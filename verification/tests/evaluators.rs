use sentinelai_core::error::Error;
use sentinelai_core::models::{
    EvaluationRequest, KeywordFilterConfig, PerformanceConfig, Policy, PolicyConfig,
    PolicyResult, PolicyType, QualityScore, ViolationAction, ViolationDetails,
    ViolationSeverity,
};
use sentinelai_core::keyword_filter::KeywordFilterEvaluator;
use sentinelai_core::performance::PerformanceEvaluator;

fn keyword_policy(patterns: Vec<&str>, case_sensitive: bool, action: ViolationAction) -> Policy {
    Policy {
        id: "pol_keyword_001".to_string(),
        name: "Profanity Filter".to_string(),
        description: None,
        policy_type: PolicyType::KeywordFilter,
        config: PolicyConfig::KeywordFilter(KeywordFilterConfig {
            patterns: patterns.into_iter().map(|p| p.to_string()).collect(),
            case_sensitive,
            action,
        }),
        enabled: true,
        organization_id: "org".to_string(),
        created_at: 0,
        updated_at: 0,
        created_by: "tester".to_string(),
    }
}

fn perf_policy(
    max_ms: u64,
    min_quality: u32,
    max_tokens: Option<u32>,
    action: ViolationAction,
) -> Policy {
    Policy {
        id: "pol_perf_001".to_string(),
        name: "Response Quality".to_string(),
        description: None,
        policy_type: PolicyType::Performance,
        config: PolicyConfig::Performance(PerformanceConfig {
            max_response_time_ms: max_ms,
            min_quality_score: min_quality,
            max_tokens,
            action,
        }),
        enabled: true,
        organization_id: "org".to_string(),
        created_at: 0,
        updated_at: 0,
        created_by: "tester".to_string(),
    }
}

fn request(content: &str) -> EvaluationRequest {
    EvaluationRequest {
        id: "req-1".to_string(),
        content: content.to_string(),
        context: None,
        policies: vec![],
        metadata: None,
    }
}

#[test]
fn keyword_match_is_violation() {
    let mut ev = KeywordFilterEvaluator::new();
    let policy = keyword_policy(vec!["\\b(spam|scam)\\b"], false, ViolationAction::Block);
    let res = ev.evaluate(&request("you are a scam"), &policy).unwrap();
    match res.result {
        PolicyResult::Violation { severity, message, confidence, details } => {
            assert_eq!(severity, ViolationSeverity::Medium);
            assert_eq!(confidence, 1000);
            assert_eq!(
                message,
                "Keyword filter violations: Pattern '\\b(spam|scam)\\b' matched: 'scam'"
            );
            match details {
                Some(ViolationDetails::Keyword { violations, patterns_checked, case_sensitive }) => {
                    assert_eq!(
                        violations,
                        vec!["Pattern '\\b(spam|scam)\\b' matched: 'scam'".to_string()]
                    );
                    assert_eq!(patterns_checked, 1);
                    assert!(!case_sensitive);
                }
                other => panic!("unexpected details: {:?}", other),
            }
        }
        other => panic!("expected a violation, got {:?}", other),
    }
    assert_eq!(res.policy_id, "pol_keyword_001");
    assert_eq!(res.policy_type, PolicyType::KeywordFilter);
    assert_eq!(res.request_id, "req-1");
}

#[test]
fn keyword_no_match_is_pass() {
    let mut ev = KeywordFilterEvaluator::new();
    let policy = keyword_policy(vec!["\\b(spam|scam)\\b"], false, ViolationAction::Block);
    let res = ev.evaluate(&request("a perfectly fine sentence"), &policy).unwrap();
    assert_eq!(res.result, PolicyResult::Pass);
}

#[test]
fn keyword_case_sensitivity_is_respected() {
    let mut ev = KeywordFilterEvaluator::new();
    let sensitive = keyword_policy(vec!["Spam"], true, ViolationAction::Warn);
    let res = ev.evaluate(&request("this is spam"), &sensitive).unwrap();
    assert_eq!(res.result, PolicyResult::Pass);

    let insensitive = keyword_policy(vec!["Spam"], false, ViolationAction::Warn);
    let res = ev.evaluate(&request("this is spam"), &insensitive).unwrap();
    assert!(matches!(res.result, PolicyResult::Violation { .. }));
}

#[test]
fn keyword_accumulates_all_patterns() {
    let mut ev = KeywordFilterEvaluator::new();
    let policy = keyword_policy(vec!["cats", "dogs"], false, ViolationAction::Log);
    let res = ev.evaluate(&request("cats and dogs"), &policy).unwrap();
    match res.result {
        PolicyResult::Violation { details: Some(ViolationDetails::Keyword { violations, .. }), .. } => {
            assert_eq!(violations.len(), 2);
            assert_eq!(violations[0], "Pattern 'cats' matched: 'cats'");
            assert_eq!(violations[1], "Pattern 'dogs' matched: 'dogs'");
        }
        other => panic!("expected keyword details, got {:?}", other),
    }
}

#[test]
fn keyword_invalid_pattern_carries_pattern() {
    let mut ev = KeywordFilterEvaluator::new();
    let policy = keyword_policy(vec!["("], false, ViolationAction::Block);
    let err = ev.evaluate(&request("anything"), &policy).unwrap_err();
    match err {
        Error::InvalidPattern(p) => assert_eq!(p, "("),
        other => panic!("expected InvalidPattern, got {:?}", other),
    }
}

#[test]
fn keyword_rejects_mismatched_config() {
    let mut ev = KeywordFilterEvaluator::new();
    let mut policy = perf_policy(1000, 0, None, ViolationAction::Block);
    policy.policy_type = PolicyType::KeywordFilter;
    let err = ev.evaluate(&request("x"), &policy).unwrap_err();
    assert!(matches!(err, Error::Config(_)));
}

#[test]
fn quality_score_of_empty_content_stays_in_range() {
    let ev = PerformanceEvaluator::new();
    let q = ev.calculate_quality_score("");
    assert_eq!(q, QualityScore { num: 3, den: 10 });
    assert!(q.num <= q.den && q.den > 0);
}

#[test]
fn quality_score_short_content_takes_short_penalty() {
    let ev = PerformanceEvaluator::new();
    let q = ev.calculate_quality_score("hi");
    assert_eq!(q, QualityScore { num: 3, den: 10 });
}

#[test]
fn quality_score_exact_for_plain_sentence() {
    let ev = PerformanceEvaluator::new();
    // length 12 (< 50): x7/10; 2 distinct words of 2: x2/2; caps ratio
    // 1/12 <= 0.3: no penalty; one terminator: x11/10.
    let q = ev.calculate_quality_score("Hello world.");
    assert_eq!(q, QualityScore { num: 154, den: 200 });
}

#[test]
fn quality_score_repetition_is_penalized() {
    let ev = PerformanceEvaluator::new();
    // length 19: x7/10; 4 words, 1 distinct: x1/4; no caps; no terminator.
    let q = ev.calculate_quality_score("spam spam spam spam");
    assert_eq!(q, QualityScore { num: 7, den: 40 });
}

#[test]
fn quality_score_is_clamped_to_one() {
    let ev = PerformanceEvaluator::new();
    // 56 characters (>= 50), 10 distinct words of 10, low caps, with a
    // terminator: 1.0 * 1.0 * 1.1 clamps back to 1.
    let content = "the quick brown fox jumps over a lazy dog tonight okay.";
    let q = ev.calculate_quality_score(content);
    assert_eq!(q.num, q.den);
}

#[test]
fn token_count_is_whitespace_word_count() {
    let ev = PerformanceEvaluator::new();
    assert_eq!(ev.count_tokens("one two  three"), 3);
    assert_eq!(ev.count_tokens(""), 0);
    assert_eq!(ev.count_tokens("  padded  "), 1);
}

#[test]
fn performance_low_quality_is_violation_with_exact_message() {
    let ev = PerformanceEvaluator::new();
    let policy = perf_policy(1_000_000, 1000, None, ViolationAction::Warn);
    let res = ev.evaluate(&request("hi"), &policy).unwrap();
    match res.result {
        PolicyResult::Violation { severity, message, confidence, details } => {
            // 3/10 is not below 0.3, and no token limit is set: Medium.
            assert_eq!(severity, ViolationSeverity::Medium);
            assert_eq!(confidence, 900);
            assert_eq!(
                message,
                "Performance violations: Quality score 3/10 below threshold 1000/1000"
            );
            match details {
                Some(ViolationDetails::Performance { quality_score, token_count, .. }) => {
                    assert_eq!(quality_score, QualityScore { num: 3, den: 10 });
                    assert_eq!(token_count, 1);
                }
                other => panic!("unexpected details: {:?}", other),
            }
        }
        other => panic!("expected a violation, got {:?}", other),
    }
}

#[test]
fn performance_token_overrun_is_high_severity() {
    let ev = PerformanceEvaluator::new();
    let policy = perf_policy(1_000_000, 0, Some(2), ViolationAction::Block);
    let res = ev.evaluate(&request("a a a a a"), &policy).unwrap();
    match res.result {
        PolicyResult::Violation { severity, message, .. } => {
            // 5 tokens exceed twice the limit of 2.
            assert_eq!(severity, ViolationSeverity::High);
            assert_eq!(message, "Performance violations: Token count 5 exceeds limit 2");
        }
        other => panic!("expected a violation, got {:?}", other),
    }
}

#[test]
fn performance_good_content_passes() {
    let ev = PerformanceEvaluator::new();
    let policy = perf_policy(1_000_000, 500, Some(100), ViolationAction::Block);
    let res = ev
        .evaluate(&request("A calm and varied sentence with plenty of words in it."), &policy)
        .unwrap();
    assert_eq!(res.result, PolicyResult::Pass);
    assert_eq!(res.policy_type, PolicyType::Performance);
}

#[test]
fn performance_rejects_mismatched_config() {
    let ev = PerformanceEvaluator::new();
    let mut policy = keyword_policy(vec!["x"], true, ViolationAction::Block);
    policy.policy_type = PolicyType::Performance;
    let err = ev.evaluate(&request("x"), &policy).unwrap_err();
    assert!(matches!(err, Error::Config(_)));
}

#[test]
fn evaluators_declare_their_policy_types() {
    let kw = KeywordFilterEvaluator::new();
    assert!(kw.supports_policy_type(&PolicyType::KeywordFilter));
    assert!(!kw.supports_policy_type(&PolicyType::Performance));
    let pf = PerformanceEvaluator::new();
    assert!(pf.supports_policy_type(&PolicyType::Performance));
    assert!(!pf.supports_policy_type(&PolicyType::ContentSafety));
}
