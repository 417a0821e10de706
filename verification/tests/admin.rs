use sentinelai_core::auth::api_key_format_valid;
use sentinelai_core::error::Error;
use sentinelai_core::models::PolicyType;
use sentinelai_core::policy_admin::{required_config_key, validate_config_keys};

#[test]
fn api_keys_must_start_with_the_expected_prefix() {
    assert!(api_key_format_valid("sk_live_12345"));
    assert!(api_key_format_valid("sk_"));
    assert!(!api_key_format_valid("sk"));
    assert!(!api_key_format_valid("pk_live_12345"));
    assert!(!api_key_format_valid(""));
}

#[test]
fn policy_type_names_round_trip() {
    let all = [
        PolicyType::KeywordFilter,
        PolicyType::Performance,
        PolicyType::ContentSafety,
        PolicyType::Semantic,
    ];
    for t in all {
        assert_eq!(PolicyType::parse(t.name()), Some(t));
    }
    assert_eq!(PolicyType::parse("keyword_filter"), Some(PolicyType::KeywordFilter));
    assert_eq!(PolicyType::parse("bogus"), None);
    assert_eq!(PolicyType::parse(""), None);
}

#[test]
fn config_validation_requires_the_type_specific_field() {
    let keys = vec!["patterns".to_string(), "case_sensitive".to_string()];
    assert!(validate_config_keys(&PolicyType::KeywordFilter, &keys).is_ok());

    let err = validate_config_keys(&PolicyType::Performance, &keys).unwrap_err();
    match err {
        Error::Config(m) => assert_eq!(m, "Missing required field: min_length"),
        other => panic!("expected a configuration error, got {:?}", other),
    }

    assert_eq!(required_config_key(&PolicyType::ContentSafety), "toxicity_threshold");
    assert_eq!(required_config_key(&PolicyType::Semantic), "similarity_threshold");
}
