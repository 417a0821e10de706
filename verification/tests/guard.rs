use sentinelai_core::guard::{
    decide, extract_request_content, extract_response_content, parse_policy_list,
    resolve_active, GuardDecision, GuardProxy, InboundOutcome, OutboundOutcome,
};
use sentinelai_core::models::{
    ChatChoice, ChatCompletionRequest, ChatCompletionResponse, ChatMessage, EvaluationResult,
    KeywordFilterConfig, PerformanceConfig, Policy, PolicyConfig, PolicyResult, PolicyType,
    ViolationAction, ViolationSeverity,
};

fn keyword_guard_policy(id: &str, pattern: &str, action: ViolationAction, enabled: bool) -> Policy {
    Policy {
        id: id.to_string(),
        name: format!("policy {}", id),
        description: None,
        policy_type: PolicyType::KeywordFilter,
        config: PolicyConfig::KeywordFilter(KeywordFilterConfig {
            patterns: vec![pattern.to_string()],
            case_sensitive: false,
            action,
        }),
        enabled,
        organization_id: "org".to_string(),
        created_at: 0,
        updated_at: 0,
        created_by: "t".to_string(),
    }
}

fn perf_guard_policy(id: &str, min_quality: u32, action: ViolationAction) -> Policy {
    Policy {
        id: id.to_string(),
        name: format!("policy {}", id),
        description: None,
        policy_type: PolicyType::Performance,
        config: PolicyConfig::Performance(PerformanceConfig {
            max_response_time_ms: 1_000_000,
            min_quality_score: min_quality,
            max_tokens: None,
            action,
        }),
        enabled: true,
        organization_id: "org".to_string(),
        created_at: 0,
        updated_at: 0,
        created_by: "t".to_string(),
    }
}

fn violation_result(policy_id: &str) -> EvaluationResult {
    EvaluationResult {
        id: "e".to_string(),
        request_id: "r".to_string(),
        policy_id: policy_id.to_string(),
        policy_name: "n".to_string(),
        policy_type: PolicyType::KeywordFilter,
        result: PolicyResult::Violation {
            severity: ViolationSeverity::Medium,
            message: "m".to_string(),
            confidence: 1000,
            details: None,
        },
        execution_time_ms: 0,
        timestamp: 0,
    }
}

fn chat_request(contents: Vec<&str>) -> ChatCompletionRequest {
    ChatCompletionRequest {
        model: "m".to_string(),
        messages: contents
            .into_iter()
            .map(|c| ChatMessage { role: "user".to_string(), content: c.to_string() })
            .collect(),
        temperature: None,
        max_tokens: None,
        stream: None,
    }
}

fn chat_response(contents: Vec<&str>) -> ChatCompletionResponse {
    ChatCompletionResponse {
        id: "resp".to_string(),
        object: "chat.completion".to_string(),
        created: 0,
        model: "m".to_string(),
        choices: contents
            .into_iter()
            .enumerate()
            .map(|(i, c)| ChatChoice {
                index: i as u32,
                message: ChatMessage { role: "assistant".to_string(), content: c.to_string() },
                finish_reason: None,
            })
            .collect(),
        usage: None,
    }
}

#[test]
fn block_beats_warn_in_the_aggregated_decision() {
    let policies = vec![
        keyword_guard_policy("warny", "x", ViolationAction::Warn, true),
        keyword_guard_policy("blocky", "x", ViolationAction::Block, true),
    ];
    let results = vec![violation_result("warny"), violation_result("blocky")];
    assert_eq!(decide(&policies, &results), GuardDecision::Block);

    let warn_only = vec![violation_result("warny")];
    assert_eq!(decide(&policies, &warn_only), GuardDecision::Warn);
}

#[test]
fn log_beats_pass_but_nothing_else() {
    let policies = vec![
        keyword_guard_policy("loggy", "x", ViolationAction::Log, true),
        keyword_guard_policy("warny", "x", ViolationAction::Warn, true),
    ];
    assert_eq!(decide(&policies, &vec![violation_result("loggy")]), GuardDecision::Log);
    assert_eq!(
        decide(&policies, &vec![violation_result("loggy"), violation_result("warny")]),
        GuardDecision::Warn
    );
    assert_eq!(decide(&policies, &vec![]), GuardDecision::Pass);
}

#[test]
fn passes_and_errors_do_not_drive_the_decision() {
    let policies = vec![keyword_guard_policy("blocky", "x", ViolationAction::Block, true)];
    let mut pass = violation_result("blocky");
    pass.result = PolicyResult::Pass;
    let mut err = violation_result("blocky");
    err.result = PolicyResult::Error { message: "boom".to_string() };
    assert_eq!(decide(&policies, &vec![pass, err]), GuardDecision::Pass);
}

#[test]
fn early_exit_stops_after_the_first_block() {
    let policies = vec![
        keyword_guard_policy("first", "bad", ViolationAction::Block, true),
        keyword_guard_policy("second", "bad", ViolationAction::Block, true),
    ];
    let mut proxy = GuardProxy::new(None, vec![], true, 1_000_000);
    let results = proxy.evaluate_only("very bad content", &policies, &vec![], 1_000_000).unwrap();
    assert_eq!(results.len(), 1);
    assert_eq!(results[0].policy_id, "first");

    let mut eager = GuardProxy::new(None, vec![], false, 1_000_000);
    let results = eager.evaluate_only("very bad content", &policies, &vec![], 1_000_000).unwrap();
    assert_eq!(results.len(), 2);
}

#[test]
fn resolve_active_prefers_the_explicit_id_list() {
    let policies = vec![
        keyword_guard_policy("a", "x", ViolationAction::Block, true),
        keyword_guard_policy("b", "x", ViolationAction::Block, false),
        keyword_guard_policy("c", "x", ViolationAction::Block, true),
    ];
    let by_default = resolve_active(&policies, &vec![]);
    assert_eq!(by_default, vec![0, 2]);
    let by_ids = resolve_active(&policies, &vec!["b".to_string(), "c".to_string()]);
    assert_eq!(by_ids, vec![1, 2]);
}

#[test]
fn content_extraction_concatenates_in_order() {
    assert_eq!(extract_request_content(&chat_request(vec!["Hello ", "world"])), "Hello world");
    assert_eq!(extract_request_content(&chat_request(vec![])), "");
    assert_eq!(
        extract_response_content(&chat_response(vec!["left", "-right"])),
        "left-right"
    );
}

#[test]
fn inbound_block_returns_a_structured_response() {
    let policies = vec![
        keyword_guard_policy("warny", "content", ViolationAction::Warn, true),
        keyword_guard_policy("blocky", "forbidden", ViolationAction::Block, true),
    ];
    let mut proxy = GuardProxy::new(Some("org".to_string()), vec![], true, 1_000_000);
    let outcome = proxy.handle_request(&chat_request(vec!["forbidden content"]), &policies).unwrap();
    match outcome {
        InboundOutcome::Blocked { response, results } => {
            assert_eq!(response.policy_id, "blocky");
            assert_eq!(response.policy_type, PolicyType::KeywordFilter);
            assert_eq!(response.severity, ViolationSeverity::Medium);
            assert!(response.message.contains("forbidden"));
            assert!(results.len() >= 1);
        }
        InboundOutcome::Forward { .. } => panic!("expected the request to be blocked"),
    }
}

#[test]
fn clean_round_trip_completes_with_warn_advisories() {
    let policies = vec![
        keyword_guard_policy("blocky", "forbidden", ViolationAction::Block, true),
        keyword_guard_policy("warny", "hedging", ViolationAction::Warn, true),
    ];
    let mut proxy = GuardProxy::new(None, vec![], true, 1_000_000);
    let inbound = proxy.handle_request(&chat_request(vec!["a harmless question"]), &policies).unwrap();
    match inbound {
        InboundOutcome::Forward { results } => assert_eq!(results.len(), 2),
        InboundOutcome::Blocked { .. } => panic!("clean content must be forwarded"),
    }
    let outbound = proxy
        .handle_response(&chat_response(vec!["an answer with hedging in it"]), &policies)
        .unwrap();
    match outbound {
        OutboundOutcome::Completed { results, advisories } => {
            assert_eq!(results.len(), 2);
            assert_eq!(advisories, vec![1]);
        }
        OutboundOutcome::Blocked { .. } => panic!("warn findings must not block"),
    }
    proxy.reset();
}

#[test]
fn outbound_block_rejects_the_response() {
    let policies = vec![keyword_guard_policy("blocky", "secret", ViolationAction::Block, true)];
    let mut proxy = GuardProxy::new(None, vec![], true, 1_000_000);
    let inbound = proxy.handle_request(&chat_request(vec!["fine"]), &policies).unwrap();
    assert!(matches!(inbound, InboundOutcome::Forward { .. }));
    let outbound = proxy
        .handle_response(&chat_response(vec!["leaking a secret value"]), &policies)
        .unwrap();
    match outbound {
        OutboundOutcome::Blocked { response, .. } => assert_eq!(response.policy_id, "blocky"),
        OutboundOutcome::Completed { .. } => panic!("expected the response to be blocked"),
    }
}

#[test]
fn guard_uses_its_startup_policy_id_list() {
    let policies = vec![
        keyword_guard_policy("ignored", "bad", ViolationAction::Block, true),
        keyword_guard_policy("chosen", "fine", ViolationAction::Warn, true),
    ];
    let mut proxy = GuardProxy::new(None, vec!["chosen".to_string()], true, 1_000_000);
    let outcome = proxy.handle_request(&chat_request(vec!["bad but fine"]), &policies).unwrap();
    match outcome {
        InboundOutcome::Forward { results } => {
            assert_eq!(results.len(), 1);
            assert_eq!(results[0].policy_id, "chosen");
        }
        InboundOutcome::Blocked { .. } => panic!("the blocking policy was not selected"),
    }
}

#[test]
fn unsupported_policies_become_error_entries_not_failures() {
    let mut bad = perf_guard_policy("odd", 0, ViolationAction::Block);
    bad.policy_type = PolicyType::Semantic;
    let policies = vec![bad, keyword_guard_policy("ok", "zzz", ViolationAction::Block, true)];
    let mut proxy = GuardProxy::new(None, vec![], true, 1_000_000);
    let results = proxy.evaluate_only("content", &policies, &vec![], 1_000_000).unwrap();
    assert_eq!(results.len(), 2);
    match &results[0].result {
        PolicyResult::Error { message } => {
            assert_eq!(message, "No evaluator found for policy type: semantic");
        }
        other => panic!("expected an error entry, got {:?}", other),
    }
    assert_eq!(results[1].result, PolicyResult::Pass);
}

#[test]
fn duplicate_policy_ids_resolve_to_the_first_declaration() {
    let policies = vec![
        keyword_guard_policy("twin", "x", ViolationAction::Log, true),
        keyword_guard_policy("twin", "x", ViolationAction::Block, true),
    ];
    // The lookup takes the first policy with the id, so its Log action wins.
    assert_eq!(decide(&policies, &vec![violation_result("twin")]), GuardDecision::Log);
}

#[test]
fn policy_list_parsing_trims_and_keeps_empty_pieces() {
    assert_eq!(parse_policy_list("a, b ,c"), vec!["a", "b", "c"]);
    assert_eq!(parse_policy_list("a,,b"), vec!["a", "", "b"]);
    assert_eq!(parse_policy_list(""), vec![""]);
    assert_eq!(parse_policy_list("  lone  "), vec!["lone"]);
}
