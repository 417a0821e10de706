use sentinelai_core::error::Error;
use sentinelai_core::models::{
    EvaluationRequest, KeywordFilterConfig, Policy, PolicyConfig, PolicyType, ViolationAction,
};
use sentinelai_core::keyword_filter::KeywordFilterEvaluator;
use sentinelai_core::regex_cache::RegexCache;

#[test]
fn cache_compiles_each_key_once() {
    let mut cache = RegexCache::new();
    assert_eq!(cache.compile_count(), 0);
    for _ in 0..5 {
        let cp = cache.compile("a+", true).unwrap();
        assert_eq!(cp.pattern(), "a+");
        assert!(cp.case_sensitive());
    }
    assert_eq!(cache.compile_count(), 1);
}

#[test]
fn cache_keys_include_case_sensitivity() {
    let mut cache = RegexCache::new();
    cache.compile("a+", true).unwrap();
    cache.compile("a+", false).unwrap();
    cache.compile("a+", true).unwrap();
    cache.compile("b", false).unwrap();
    assert_eq!(cache.compile_count(), 3);
}

#[test]
fn cache_compile_failure_carries_pattern_and_caches_nothing() {
    let mut cache = RegexCache::new();
    match cache.compile("(", false) {
        Ok(_) => panic!("an unbalanced pattern must not compile"),
        Err(Error::InvalidPattern(p)) => assert_eq!(p, "("),
        Err(other) => panic!("expected InvalidPattern, got {:?}", other),
    }
    assert_eq!(cache.compile_count(), 0);
}

#[test]
fn evaluator_reuses_compiled_patterns_across_evaluations() {
    let mut ev = KeywordFilterEvaluator::new();
    let policy = Policy {
        id: "p".to_string(),
        name: "n".to_string(),
        description: None,
        policy_type: PolicyType::KeywordFilter,
        config: PolicyConfig::KeywordFilter(KeywordFilterConfig {
            patterns: vec!["x+".to_string(), "y+".to_string()],
            case_sensitive: false,
            action: ViolationAction::Block,
        }),
        enabled: true,
        organization_id: "org".to_string(),
        created_at: 0,
        updated_at: 0,
        created_by: "t".to_string(),
    };
    let request = EvaluationRequest {
        id: "r".to_string(),
        content: "xxyy".to_string(),
        context: None,
        policies: vec![],
        metadata: None,
    };
    for _ in 0..4 {
        ev.evaluate(&request, &policy).unwrap();
    }
    assert_eq!(ev.compiled_patterns(), 2);
}
