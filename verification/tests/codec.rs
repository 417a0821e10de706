use sentinelai_core::codec::{decode_result, encode_result};
use sentinelai_core::models::{
    PolicyResult, QualityScore, ViolationDetails, ViolationSeverity,
};

fn round_trip(v: &PolicyResult) -> PolicyResult {
    let encoded = encode_result(v);
    decode_result(&encoded).expect("a fresh encoding must decode")
}

#[test]
fn round_trip_preserves_pass() {
    let v = PolicyResult::Pass;
    assert_eq!(round_trip(&v), v);
}

#[test]
fn round_trip_preserves_error_entries() {
    let v = PolicyResult::Error { message: "No evaluator found: semantic".to_string() };
    assert_eq!(round_trip(&v), v);
}

#[test]
fn round_trip_preserves_a_high_severity_violation_exactly() {
    let v = PolicyResult::Violation {
        severity: ViolationSeverity::High,
        message: "Performance violations: Quality score 3/10 below threshold 900/1000"
            .to_string(),
        confidence: 900,
        details: Some(ViolationDetails::Performance {
            quality_score: QualityScore { num: 3, den: 10 },
            token_count: 42,
            execution_time_ms: 7,
            violations: vec!["first finding".to_string(), "".to_string()],
        }),
    };
    assert_eq!(round_trip(&v), v);
}

#[test]
fn round_trip_preserves_keyword_details() {
    let v = PolicyResult::Violation {
        severity: ViolationSeverity::Critical,
        message: "odd text: commas, 'quotes', newline\nand a snowman \u{2603}".to_string(),
        confidence: 1000,
        details: Some(ViolationDetails::Keyword {
            violations: vec!["Pattern 'a' matched: 'a'".to_string()],
            patterns_checked: 3,
            case_sensitive: true,
        }),
    };
    assert_eq!(round_trip(&v), v);
}

#[test]
fn round_trip_preserves_violations_without_details() {
    let v = PolicyResult::Violation {
        severity: ViolationSeverity::Low,
        message: String::new(),
        confidence: 0,
        details: None,
    };
    assert_eq!(round_trip(&v), v);
}

#[test]
fn round_trip_preserves_extreme_quality_fractions() {
    let v = PolicyResult::Violation {
        severity: ViolationSeverity::Medium,
        message: "m".to_string(),
        confidence: 500,
        details: Some(ViolationDetails::Performance {
            quality_score: QualityScore { num: u128::MAX - 1, den: u128::MAX },
            token_count: u32::MAX,
            execution_time_ms: u64::MAX,
            violations: vec![],
        }),
    };
    assert_eq!(round_trip(&v), v);
}

#[test]
fn decoding_rejects_garbage_and_truncation() {
    assert_eq!(decode_result(&vec![]), None);
    assert_eq!(decode_result(&"X".chars().collect()), None);
    assert_eq!(decode_result(&"Pq".chars().collect()), None);
    let mut encoded = encode_result(&PolicyResult::Error { message: "hello".to_string() });
    encoded.pop();
    assert_eq!(decode_result(&encoded), None);
    let mut padded = encode_result(&PolicyResult::Pass);
    padded.push('!');
    assert_eq!(decode_result(&padded), None);
}
