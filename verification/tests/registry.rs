use sentinelai_core::error::Error;
use sentinelai_core::models::{
    ContentSafetyConfig, EvaluationRequest, KeywordFilterConfig, Policy, PolicyConfig,
    PolicyResult, PolicyType, SemanticConfig, ViolationAction,
};
use sentinelai_core::performance::PerformanceEvaluator;
use sentinelai_core::registry::{Evaluator, EvaluatorRegistry};

fn policy_of(policy_type: PolicyType, config: PolicyConfig) -> Policy {
    Policy {
        id: "pol".to_string(),
        name: "a policy".to_string(),
        description: Some("test".to_string()),
        policy_type,
        config,
        enabled: true,
        organization_id: "org".to_string(),
        created_at: 0,
        updated_at: 0,
        created_by: "t".to_string(),
    }
}

fn some_request() -> EvaluationRequest {
    EvaluationRequest {
        id: "r".to_string(),
        content: "plain content".to_string(),
        context: None,
        policies: vec![],
        metadata: None,
    }
}

#[test]
fn registry_fails_cleanly_on_content_safety() {
    let mut registry = EvaluatorRegistry::new();
    let policy = policy_of(
        PolicyType::ContentSafety,
        PolicyConfig::ContentSafety(ContentSafetyConfig {
            toxicity_threshold: 500,
            categories: vec![],
            action: ViolationAction::Block,
        }),
    );
    let err = registry.evaluate(&some_request(), &policy).unwrap_err();
    assert_eq!(err, Error::UnsupportedPolicyType(PolicyType::ContentSafety));
}

#[test]
fn registry_fails_cleanly_on_semantic() {
    let mut registry = EvaluatorRegistry::new();
    let policy = policy_of(
        PolicyType::Semantic,
        PolicyConfig::Semantic(SemanticConfig {
            similarity_threshold: 800,
            reference_texts: vec![],
            action: ViolationAction::Warn,
        }),
    );
    let err = registry.evaluate(&some_request(), &policy).unwrap_err();
    assert_eq!(err, Error::UnsupportedPolicyType(PolicyType::Semantic));
}

#[test]
fn registry_dispatches_keyword_policies() {
    let mut registry = EvaluatorRegistry::new();
    let policy = policy_of(
        PolicyType::KeywordFilter,
        PolicyConfig::KeywordFilter(KeywordFilterConfig {
            patterns: vec!["plain".to_string()],
            case_sensitive: false,
            action: ViolationAction::Block,
        }),
    );
    let res = registry.evaluate(&some_request(), &policy).unwrap();
    assert_eq!(res.policy_type, PolicyType::KeywordFilter);
    assert!(matches!(res.result, PolicyResult::Violation { .. }));
}

#[test]
fn registry_accepts_further_registrations() {
    let mut registry = EvaluatorRegistry::new();
    registry.register(Evaluator::Performance(PerformanceEvaluator::new()));
    let policy = policy_of(
        PolicyType::KeywordFilter,
        PolicyConfig::KeywordFilter(KeywordFilterConfig {
            patterns: vec!["nothing-here".to_string()],
            case_sensitive: true,
            action: ViolationAction::Log,
        }),
    );
    let res = registry.evaluate(&some_request(), &policy).unwrap();
    assert_eq!(res.result, PolicyResult::Pass);
}

#[test]
fn error_messages_name_their_cause() {
    assert_eq!(
        Error::Config("x".to_string()).message(),
        "Configuration error: x"
    );
    assert_eq!(
        Error::UnsupportedPolicyType(PolicyType::Semantic).message(),
        "No evaluator found for policy type: semantic"
    );
    assert_eq!(Error::InvalidPattern("(".to_string()).message(), "Invalid pattern: (");
    assert_eq!(Error::Timeout.message(), "Evaluation timed out");
}
