//! The interception pipeline: content extraction from chat payloads,
//! resolution of the active policy set, the per-request evaluation loop with
//! its early-exit and timeout rules, and the decision precedence
//! Block > Warn > Log > Pass.

use crate::error::Error;
use crate::keyword_filter::{all_patterns_compile, spec_keyword_result};
use crate::models::{
    ChatCompletionRequest, ChatCompletionResponse, ChatMessage, ChatChoice, EvaluationRequest,
    EvaluationResult, Policy, PolicyConfig, PolicyResult, PolicyResultModel, PolicyType,
    ViolationAction, ViolationDetails, ViolationSeverity,
};
use crate::performance::spec_performance_result;
use crate::regex_cache::regex_compiles;
use crate::registry::EvaluatorRegistry;
use crate::stamps::{elapsed_millis, instant_now, new_event_id, now_timestamp_millis};
use crate::text::{chars_of, clone_strings, contains_str, str_eq, string_views};
use vstd::prelude::*;
use vstd::string::StringExecFns;
use vstd::string::StrSliceExecFns;

verus! {

// ---------------------------------------------------------------------------
// Content extraction
// ---------------------------------------------------------------------------

/// The evaluable content of a chat request: the concatenation of its message
/// contents, in order.
pub open spec fn spec_request_content(msgs: Seq<ChatMessage>) -> Seq<char>
    decreases msgs.len(),
{
    if msgs.len() == 0 {
        Seq::empty()
    } else {
        spec_request_content(msgs.drop_last()) + msgs.last().content@
    }
}

/// The evaluable content of a chat response: the concatenation of its
/// choices' message contents, in order.
pub open spec fn spec_response_content(choices: Seq<ChatChoice>) -> Seq<char>
    decreases choices.len(),
{
    if choices.len() == 0 {
        Seq::empty()
    } else {
        spec_response_content(choices.drop_last()) + choices.last().message.content@
    }
}

/// Extracts the evaluable content of a chat-completion request.
pub fn extract_request_content(request: &ChatCompletionRequest) -> (r: String)
    ensures
        r@ == spec_request_content(request.messages@),
{
    let ghost msgs = request.messages@;
    let mut r = String::new();
    let mut i: usize = 0;
    while i < request.messages.len()
        invariant
            i <= msgs.len(),
            msgs == request.messages@,
            r@ == spec_request_content(msgs.take(i as int)),
        decreases msgs.len() - i,
    {
        r.append(request.messages[i].content.as_str());
        proof {
            assert(msgs.take(i + 1).drop_last() =~= msgs.take(i as int));
            assert(msgs.take(i + 1).last() == msgs[i as int]);
        }
        i += 1;
    }
    proof {
        assert(msgs.take(msgs.len() as int) =~= msgs);
    }
    r
}

/// Extracts the evaluable content of a chat-completion response.
pub fn extract_response_content(response: &ChatCompletionResponse) -> (r: String)
    ensures
        r@ == spec_response_content(response.choices@),
{
    let ghost choices = response.choices@;
    let mut r = String::new();
    let mut i: usize = 0;
    while i < response.choices.len()
        invariant
            i <= choices.len(),
            choices == response.choices@,
            r@ == spec_response_content(choices.take(i as int)),
        decreases choices.len() - i,
    {
        r.append(response.choices[i].message.content.as_str());
        proof {
            assert(choices.take(i + 1).drop_last() =~= choices.take(i as int));
            assert(choices.take(i + 1).last() == choices[i as int]);
        }
        i += 1;
    }
    proof {
        assert(choices.take(choices.len() as int) =~= choices);
    }
    r
}

// ---------------------------------------------------------------------------
// Active policy set
// ---------------------------------------------------------------------------

/// The policies whose id occurs in `requested`, in their original order.
pub open spec fn spec_select_by_id(policies: Seq<Policy>, requested: Seq<Seq<char>>) -> Seq<Policy>
    decreases policies.len(),
{
    if policies.len() == 0 {
        Seq::empty()
    } else {
        let rest = spec_select_by_id(policies.drop_last(), requested);
        if requested.contains(policies.last().id@) {
            rest.push(policies.last())
        } else {
            rest
        }
    }
}

/// The enabled policies, in their original order.
pub open spec fn spec_select_enabled(policies: Seq<Policy>) -> Seq<Policy>
    decreases policies.len(),
{
    if policies.len() == 0 {
        Seq::empty()
    } else {
        let rest = spec_select_enabled(policies.drop_last());
        if policies.last().enabled {
            rest.push(policies.last())
        } else {
            rest
        }
    }
}

/// The active policy set: the explicitly requested policies when a request
/// list was supplied, else the full enabled set.
pub open spec fn spec_active(policies: Seq<Policy>, requested: Seq<Seq<char>>) -> Seq<Policy> {
    if requested.len() > 0 {
        spec_select_by_id(policies, requested)
    } else {
        spec_select_enabled(policies)
    }
}

/// Resolves the active policy set, as indices into `policies`: the policies
/// whose id is in `requested` when that list is non-empty, else the enabled
/// ones, in their original order.
pub fn resolve_active(policies: &Vec<Policy>, requested: &Vec<String>) -> (r: Vec<usize>)
    ensures
        r@.len() == spec_active(policies@, string_views(requested@)).len(),
        forall|k: int|
            0 <= k < r@.len() ==> r@[k] < policies@.len() && policies@[#[trigger] r@[k] as int]
                == spec_active(policies@, string_views(requested@))[k],
{
    let ghost req = string_views(requested@);
    let use_ids = requested.len() > 0;
    let mut r: Vec<usize> = Vec::new();
    let mut i: usize = 0;
    proof {
        assert(policies@.take(0) =~= Seq::<Policy>::empty());
    }
    while i < policies.len()
        invariant
            i <= policies@.len(),
            req == string_views(requested@),
            use_ids == (req.len() > 0),
            r@.len() == spec_active(policies@.take(i as int), req).len(),
            forall|k: int|
                0 <= k < r@.len() ==> r@[k] < i && policies@[#[trigger] r@[k] as int]
                    == spec_active(policies@.take(i as int), req)[k],
        decreases policies@.len() - i,
    {
        let selected = if use_ids {
            contains_str(requested, policies[i].id.as_str())
        } else {
            policies[i].enabled
        };
        proof {
            assert(policies@.take(i + 1).drop_last() =~= policies@.take(i as int));
            assert(policies@.take(i + 1).last() == policies@[i as int]);
        }
        if selected {
            r.push(i);
        }
        i += 1;
    }
    proof {
        assert(policies@.take(policies@.len() as int) =~= policies@);
    }
    r
}

// ---------------------------------------------------------------------------
// Startup parameters
// ---------------------------------------------------------------------------

/// The comma-separated pieces of `s`, with `cur` as the piece being read:
/// every comma separates, and empty pieces are kept.
pub open spec fn split_commas_state(s: Seq<char>, cur: Seq<char>) -> Seq<Seq<char>>
    decreases s.len(),
{
    if s.len() == 0 {
        seq![cur]
    } else if s[0] == ',' {
        seq![cur] + split_commas_state(s.drop_first(), Seq::empty())
    } else {
        split_commas_state(s.drop_first(), cur.push(s[0]))
    }
}

/// The policy ids named by a comma-separated startup parameter: each piece,
/// trimmed of surrounding whitespace.
pub open spec fn spec_policy_list(s: Seq<char>) -> Seq<Seq<char>> {
    split_commas_state(s, Seq::empty()).map_values(|p: Seq<char>| crate::text::spec_trim(p))
}

/// Parses the comma-separated policy-id list handed to the guard at
/// startup: each piece is trimmed; empty pieces are kept.
pub fn parse_policy_list(s: &str) -> (r: Vec<String>)
    ensures
        string_views(r@) == spec_policy_list(s@),
{
    let chars = chars_of(s);
    let ghost full = chars@;
    let mut parts: Vec<String> = Vec::new();
    let mut cur: Vec<char> = Vec::new();
    let n = chars.len();
    let mut i: usize = 0;
    proof {
        assert(full.skip(0) =~= full);
        assert(string_views(parts@) =~= Seq::<Seq<char>>::empty());
        assert(string_views(parts@) + split_commas_state(full, Seq::empty()).map_values(
            |p: Seq<char>| crate::text::spec_trim(p),
        ) =~= spec_policy_list(s@));
    }
    while i < n
        invariant
            i <= n,
            n == full.len(),
            full == chars@,
            spec_policy_list(s@) == string_views(parts@) + split_commas_state(
                full.skip(i as int),
                cur@,
            ).map_values(|p: Seq<char>| crate::text::spec_trim(p)),
        decreases n - i,
    {
        let ghost rest = full.skip(i as int);
        proof {
            assert(rest[0] == full[i as int]);
            assert(rest.drop_first() =~= full.skip(i + 1));
        }
        let c = chars[i];
        if c == ',' {
            let ghost piece = cur@;
            let trimmed = crate::text::trim_chars(&cur);
            let part = crate::text::string_from_chars(&trimmed);
            let ghost before = string_views(parts@);
            parts.push(part);
            cur = Vec::new();
            proof {
                assert(string_views(parts@) =~= before.push(crate::text::spec_trim(piece)));
                let tailmap = split_commas_state(full.skip(i + 1), Seq::empty()).map_values(
                    |p: Seq<char>| crate::text::spec_trim(p),
                );
                assert(split_commas_state(rest, piece).map_values(
                    |p: Seq<char>| crate::text::spec_trim(p),
                ) =~= seq![crate::text::spec_trim(piece)] + tailmap);
                assert(before + (seq![crate::text::spec_trim(piece)] + tailmap)
                    =~= string_views(parts@) + tailmap);
            }
        } else {
            let ghost piece = cur@;
            cur.push(c);
            proof {
                assert(cur@ == piece.push(rest[0]));
                assert(split_commas_state(rest, piece) == split_commas_state(
                    full.skip(i + 1),
                    cur@,
                ));
            }
        }
        i += 1;
    }
    proof {
        assert(full.skip(n as int) =~= Seq::<char>::empty());
    }
    let ghost piece = cur@;
    let trimmed = crate::text::trim_chars(&cur);
    let part = crate::text::string_from_chars(&trimmed);
    let ghost before = string_views(parts@);
    parts.push(part);
    proof {
        assert(string_views(parts@) =~= before.push(crate::text::spec_trim(piece)));
        assert(split_commas_state(Seq::<char>::empty(), piece).map_values(
            |p: Seq<char>| crate::text::spec_trim(p),
        ) =~= seq![crate::text::spec_trim(piece)]);
        assert(before + seq![crate::text::spec_trim(piece)] =~= string_views(parts@));
    }
    parts
}

// ---------------------------------------------------------------------------
// Decision precedence
// ---------------------------------------------------------------------------

/// The aggregated decision over one content pass.
#[derive(Clone, Copy, Debug, PartialEq, Eq, Structural)]
pub enum GuardDecision {
    Block,
    Warn,
    Log,
    Pass,
}

/// The first policy in `policies` with the given id.
pub open spec fn spec_find_policy(policies: Seq<Policy>, id: Seq<char>) -> Option<Policy>
    decreases policies.len(),
{
    if policies.len() == 0 {
        None
    } else if policies[0].id@ == id {
        Some(policies[0])
    } else {
        spec_find_policy(policies.drop_first(), id)
    }
}

/// The action a result contributes to the decision: its policy's declared
/// action when the result is a violation, nothing otherwise. Errors and
/// passes never drive the decision.
pub open spec fn spec_effective_action(policies: Seq<Policy>, res: EvaluationResult) -> Option<
    ViolationAction,
> {
    if res.result is Violation {
        match spec_find_policy(policies, res.policy_id@) {
            Some(p) => Some(p.config.spec_action()),
            None => None,
        }
    } else {
        None
    }
}

/// Whether a result asks for the request to be blocked.
pub open spec fn spec_result_blocking(policies: Seq<Policy>, res: EvaluationResult) -> bool {
    spec_effective_action(policies, res) == Some(ViolationAction::Block)
}

/// The aggregated decision: Block beats Warn beats Log beats Pass.
pub open spec fn spec_decision(policies: Seq<Policy>, results: Seq<EvaluationResult>) -> GuardDecision {
    if exists|i: int|
        0 <= i < results.len() && spec_effective_action(policies, #[trigger] results[i]) == Some(
            ViolationAction::Block,
        ) {
        GuardDecision::Block
    } else if exists|i: int|
        0 <= i < results.len() && spec_effective_action(policies, #[trigger] results[i]) == Some(
            ViolationAction::Warn,
        ) {
        GuardDecision::Warn
    } else if exists|i: int|
        0 <= i < results.len() && spec_effective_action(policies, #[trigger] results[i]) == Some(
            ViolationAction::Log,
        ) {
        GuardDecision::Log
    } else {
        GuardDecision::Pass
    }
}

/// Looks up the action of the first policy with the given id.
fn lookup_action(policies: &Vec<Policy>, id: &str) -> (r: Option<ViolationAction>)
    ensures
        r == match spec_find_policy(policies@, id@) {
            Some(p) => Some(p.config.spec_action()),
            None => None::<ViolationAction>,
        },
{
    let mut j: usize = 0;
    proof {
        assert(policies@.skip(0) =~= policies@);
    }
    while j < policies.len()
        invariant
            j <= policies@.len(),
            spec_find_policy(policies@, id@) == spec_find_policy(
                policies@.skip(j as int),
                id@,
            ),
        decreases policies@.len() - j,
    {
        let ghost rest = policies@.skip(j as int);
        proof {
            assert(rest[0] == policies@[j as int]);
            assert(rest.drop_first() =~= policies@.skip(j + 1));
        }
        if str_eq(policies[j].id.as_str(), id) {
            return Some(policies[j].config.action());
        }
        j += 1;
    }
    proof {
        assert(policies@.skip(policies@.len() as int) =~= Seq::<Policy>::empty());
    }
    None
}

/// The action `res` contributes to the decision, per
/// [`spec_effective_action`].
pub fn effective_action(policies: &Vec<Policy>, res: &EvaluationResult) -> (r: Option<
    ViolationAction,
>)
    ensures
        r == spec_effective_action(policies@, *res),
{
    let is_violation = match &res.result {
        PolicyResult::Violation { .. } => true,
        _ => false,
    };
    if is_violation {
        lookup_action(policies, res.policy_id.as_str())
    } else {
        None
    }
}

/// The aggregated decision over `results`, per [`spec_decision`]:
/// Block beats Warn beats Log beats Pass.
pub fn decide(policies: &Vec<Policy>, results: &Vec<EvaluationResult>) -> (r: GuardDecision)
    ensures
        r == spec_decision(policies@, results@),
{
    let mut has_block = false;
    let mut has_warn = false;
    let mut has_log = false;
    let mut i: usize = 0;
    while i < results.len()
        invariant
            i <= results@.len(),
            has_block == exists|k: int|
                0 <= k < i && spec_effective_action(policies@, #[trigger] results@[k]) == Some(
                    ViolationAction::Block,
                ),
            has_warn == exists|k: int|
                0 <= k < i && spec_effective_action(policies@, #[trigger] results@[k]) == Some(
                    ViolationAction::Warn,
                ),
            has_log == exists|k: int|
                0 <= k < i && spec_effective_action(policies@, #[trigger] results@[k]) == Some(
                    ViolationAction::Log,
                ),
        decreases results@.len() - i,
    {
        let ghost old_block = has_block;
        let ghost old_warn = has_warn;
        let ghost old_log = has_log;
        match effective_action(policies, &results[i]) {
            Some(ViolationAction::Block) => {
                has_block = true;
            },
            Some(ViolationAction::Warn) => {
                has_warn = true;
            },
            Some(ViolationAction::Log) => {
                has_log = true;
            },
            None => {},
        }
        proof {
            let acted = spec_effective_action(policies@, results@[i as int]);
            if has_block {
                if old_block {
                    let k = choose|k: int|
                        0 <= k < i && spec_effective_action(policies@, #[trigger] results@[k])
                            == Some(ViolationAction::Block);
                    assert(spec_effective_action(policies@, results@[k]) == Some(
                        ViolationAction::Block,
                    ));
                } else {
                    assert(spec_effective_action(policies@, results@[i as int]) == Some(
                        ViolationAction::Block,
                    ));
                }
            }
            if has_warn {
                if old_warn {
                    let k = choose|k: int|
                        0 <= k < i && spec_effective_action(policies@, #[trigger] results@[k])
                            == Some(ViolationAction::Warn);
                    assert(spec_effective_action(policies@, results@[k]) == Some(
                        ViolationAction::Warn,
                    ));
                } else {
                    assert(spec_effective_action(policies@, results@[i as int]) == Some(
                        ViolationAction::Warn,
                    ));
                }
            }
            if has_log {
                if old_log {
                    let k = choose|k: int|
                        0 <= k < i && spec_effective_action(policies@, #[trigger] results@[k])
                            == Some(ViolationAction::Log);
                    assert(spec_effective_action(policies@, results@[k]) == Some(
                        ViolationAction::Log,
                    ));
                } else {
                    assert(spec_effective_action(policies@, results@[i as int]) == Some(
                        ViolationAction::Log,
                    ));
                }
            }
        }
        i += 1;
    }
    if has_block {
        GuardDecision::Block
    } else if has_warn {
        GuardDecision::Warn
    } else if has_log {
        GuardDecision::Log
    } else {
        GuardDecision::Pass
    }
}

/// The index of the first blocking result, if any.
pub fn first_blocking_index(policies: &Vec<Policy>, results: &Vec<EvaluationResult>) -> (r: Option<
    usize,
>)
    ensures
        r matches Some(k) ==> k < results@.len() && spec_result_blocking(
            policies@,
            results@[k as int],
        ) && (forall|j: int| 0 <= j < k ==> !spec_result_blocking(policies@, #[trigger] results@[j])),
        r is None ==> forall|j: int|
            0 <= j < results@.len() ==> !spec_result_blocking(policies@, #[trigger] results@[j]),
{
    let mut i: usize = 0;
    while i < results.len()
        invariant
            i <= results@.len(),
            forall|j: int| 0 <= j < i ==> !spec_result_blocking(policies@, #[trigger] results@[j]),
        decreases results@.len() - i,
    {
        let act = effective_action(policies, &results[i]);
        let blocking = match act {
            Some(ViolationAction::Block) => true,
            _ => false,
        };
        if blocking {
            return Some(i);
        }
        i += 1;
    }
    None
}

// ---------------------------------------------------------------------------
// Per-result contracts of the evaluation loop
// ---------------------------------------------------------------------------

/// What one result entry of the keyword evaluator looks like: the exact
/// verdict when every pattern compiles, else an error entry carrying the
/// first pattern that does not.
pub open spec fn spec_keyword_outcome(policy: Policy, content: Seq<char>, res: EvaluationResult) -> bool {
    match policy.config {
        PolicyConfig::KeywordFilter(cfg) => {
            if all_patterns_compile(string_views(cfg.patterns@), cfg.case_sensitive) {
                res.result.model() == spec_keyword_result(
                    string_views(cfg.patterns@),
                    cfg.case_sensitive,
                    content,
                )
            } else {
                exists|i: int|
                    0 <= i < cfg.patterns@.len() && !regex_compiles(
                        string_views(cfg.patterns@)[i],
                        cfg.case_sensitive,
                    ) && (forall|j: int|
                        0 <= j < i ==> regex_compiles(
                            #[trigger] string_views(cfg.patterns@)[j],
                            cfg.case_sensitive,
                        )) && res.result.model() == PolicyResultModel::Error {
                        message: "Invalid pattern: "@ + string_views(cfg.patterns@)[i],
                    }
            }
        },
        _ => res.result.model() == PolicyResultModel::Error {
            message: "Configuration error: "@ + "Invalid policy config for keyword filter"@,
        },
    }
}

/// What one result entry of the performance evaluator looks like.
pub open spec fn spec_performance_outcome(policy: Policy, content: Seq<char>, res: EvaluationResult) -> bool {
    match policy.config {
        PolicyConfig::Performance(cfg) => res.result.model() == spec_performance_result(
            content,
            cfg,
            res.execution_time_ms,
        ),
        _ => res.result.model() == PolicyResultModel::Error {
            message: "Configuration error: "@ + "Invalid policy config for performance evaluator"@,
        },
    }
}

/// What one result entry of the evaluation loop looks like for `policy`:
/// back-references and the per-evaluator verdict, or an error entry when no
/// evaluator claims the policy's type. No evaluator kind claims the
/// content-safety or semantic types, so their supported arms are vacuous.
pub open spec fn spec_result_for(
    supported: bool,
    policy: Policy,
    content: Seq<char>,
    res: EvaluationResult,
) -> bool {
    &&& res.policy_id == policy.id
    &&& res.policy_name == policy.name
    &&& res.policy_type == policy.policy_type
    &&& res.id@.len() == 36
    &&& (!supported ==> res.result.model() == PolicyResultModel::Error {
        message: Error::UnsupportedPolicyType(policy.policy_type).spec_message(),
    })
    &&& (supported ==> match policy.policy_type {
        PolicyType::KeywordFilter => spec_keyword_outcome(policy, content, res),
        PolicyType::Performance => spec_performance_outcome(policy, content, res),
        PolicyType::ContentSafety => true,
        PolicyType::Semantic => true,
    })
}

/// What a full evaluation pass looks like: `results` corresponds, entry by
/// entry, to a prefix of the active policy set.
pub open spec fn spec_results_ok(
    registry: EvaluatorRegistry,
    active: Seq<Policy>,
    content: Seq<char>,
    results: Seq<EvaluationResult>,
) -> bool {
    &&& results.len() <= active.len()
    &&& forall|i: int|
        0 <= i < results.len() ==> spec_result_for(
            registry.spec_supports_type(active[i].policy_type),
            active[i],
            content,
            #[trigger] results[i],
        )
}

/// The early-exit shape: evaluation stopped right after the first blocking
/// result, and only there. `active_len` is the size of the active policy
/// set; blocking is judged against the full `policies` list, as the decision
/// is.
pub open spec fn spec_early_exit_shape(
    policies: Seq<Policy>,
    active_len: int,
    results: Seq<EvaluationResult>,
) -> bool {
    &&& forall|i: int|
        0 <= i < results.len() - 1 ==> !spec_result_blocking(policies, #[trigger] results[i])
    &&& (results.len() < active_len ==> results.len() > 0 && spec_result_blocking(
        policies,
        results.last(),
    ))
}

// ---------------------------------------------------------------------------
// The proxy
// ---------------------------------------------------------------------------

/// The states of the interception machine. A request enters at `Idle` and
/// ends at `Blocked` (a violation response was returned) or `Completed` (the
/// upstream response was relayed). The `Receiving`/`Evaluating` states are
/// passed through within one handling call.
#[derive(Clone, Copy, Debug, PartialEq, Eq, Structural)]
pub enum GuardState {
    Idle,
    ReceivingRequest,
    EvaluatingInbound,
    Forwarding,
    EvaluatingOutbound,
    Blocked,
    Completed,
}

/// The structured body returned to the caller when content is blocked:
/// the triggering policy, the severity, the message and the
/// machine-readable details, never a generic error string.
pub struct ViolationResponse {
    pub policy_id: String,
    pub policy_type: PolicyType,
    pub severity: ViolationSeverity,
    pub message: String,
    pub details: Option<ViolationDetails>,
}

/// Whether `v` is the violation response built from result `res`.
pub open spec fn spec_response_matches(v: ViolationResponse, res: EvaluationResult) -> bool {
    &&& v.policy_id == res.policy_id
    &&& v.policy_type == res.policy_type
    &&& (res.result matches PolicyResult::Violation { severity, message, confidence, details }
        ==> v.severity == severity && v.message == message && (match (v.details, details) {
        (Some(a), Some(b)) => a.model() == b.model(),
        (None, None) => true,
        _ => false,
    }))
}

/// What handling inbound content produced: a violation response (the
/// request is rejected, nothing is forwarded), or leave to forward with the
/// accumulated results.
pub enum InboundOutcome {
    Blocked { response: ViolationResponse, results: Vec<EvaluationResult> },
    Forward { results: Vec<EvaluationResult> },
}

/// What handling outbound content produced: a violation response, or the
/// response may be relayed; `advisories` point at the warn-level findings in
/// `results` to attach as advisory metadata (log-level findings stay in
/// `results` and are never surfaced).
pub enum OutboundOutcome {
    Blocked { response: ViolationResponse, results: Vec<EvaluationResult> },
    Completed { results: Vec<EvaluationResult>, advisories: Vec<usize> },
}

/// The guard proxy: holds the evaluator registry, the startup parameters,
/// and the interception state of the current request.
pub struct GuardProxy {
    registry: EvaluatorRegistry,
    organization_id: Option<String>,
    policy_ids: Vec<String>,
    early_exit: bool,
    timeout_ms: u64,
    state: GuardState,
}

impl GuardProxy {
    /// The registry this proxy dispatches through.
    pub closed spec fn spec_registry(&self) -> EvaluatorRegistry {
        self.registry
    }

    /// The interception state of the current request.
    pub closed spec fn spec_state(&self) -> GuardState {
        self.state
    }

    /// The organization the default policy set is scoped to, if any.
    pub closed spec fn spec_organization_id(&self) -> Option<String> {
        self.organization_id
    }

    /// The organization the default policy set is scoped to, if any.
    pub fn organization_id(&self) -> (r: &Option<String>)
        ensures
            *r == self.spec_organization_id(),
    {
        &self.organization_id
    }

    /// The explicit policy-id list supplied at startup (empty: use the
    /// organization's enabled set).
    pub closed spec fn spec_policy_ids(&self) -> Seq<Seq<char>> {
        string_views(self.policy_ids@)
    }

    /// Whether the early-exit latency optimization is on.
    pub closed spec fn spec_early_exit(&self) -> bool {
        self.early_exit
    }

    /// The per-request evaluation budget, in milliseconds.
    pub closed spec fn spec_timeout_ms(&self) -> u64 {
        self.timeout_ms
    }

    /// A proxy is well formed when its registry is.
    pub open spec fn wf(&self) -> bool {
        self.spec_registry().wf()
    }

    /// Everything but the registry's evaluator state and the interception
    /// state is unchanged.
    pub open spec fn config_unchanged(&self, other: &GuardProxy) -> bool {
        &&& self.spec_policy_ids() == other.spec_policy_ids()
        &&& self.spec_early_exit() == other.spec_early_exit()
        &&& self.spec_timeout_ms() == other.spec_timeout_ms()
        &&& forall|pt: PolicyType|
            self.spec_registry().spec_supports_type(pt) == other.spec_registry().spec_supports_type(
                pt,
            )
    }

    /// A proxy with the built-in registry, in the idle state.
    pub fn new(
        organization_id: Option<String>,
        policy_ids: Vec<String>,
        early_exit: bool,
        timeout_ms: u64,
    ) -> (r: Self)
        ensures
            r.wf(),
            r.spec_state() is Idle,
            r.spec_policy_ids() == string_views(policy_ids@),
            r.spec_early_exit() == early_exit,
            r.spec_timeout_ms() == timeout_ms,
            r.spec_registry().spec_supports_type(PolicyType::KeywordFilter),
            r.spec_registry().spec_supports_type(PolicyType::Performance),
            !r.spec_registry().spec_supports_type(PolicyType::ContentSafety),
            !r.spec_registry().spec_supports_type(PolicyType::Semantic),
    {
        GuardProxy {
            registry: EvaluatorRegistry::new(),
            organization_id,
            policy_ids,
            early_exit,
            timeout_ms,
            state: GuardState::Idle,
        }
    }

    /// Returns the proxy to the idle state for the next request.
    pub fn reset(&mut self)
        requires
            old(self).wf(),
        ensures
            final(self).wf(),
            final(self).spec_state() is Idle,
            final(self).config_unchanged(old(self)),
    {
        self.state = GuardState::Idle;
    }

    /// The non-intercepting evaluation interface: runs the policies selected
    /// by `requested` (all enabled ones when it is empty) over `content`,
    /// bounded by a caller-supplied timeout. The interception state is not
    /// touched.
    pub fn evaluate_only(
        &mut self,
        content: &str,
        policies: &Vec<Policy>,
        requested: &Vec<String>,
        timeout_ms: u64,
    ) -> (r: Result<Vec<EvaluationResult>, Error>)
        requires
            old(self).wf(),
        ensures
            final(self).wf(),
            final(self).config_unchanged(old(self)),
            final(self).spec_state() == old(self).spec_state(),
            r matches Err(e) ==> e == Error::Timeout,
            r matches Ok(results) ==> spec_results_ok(
                old(self).spec_registry(),
                spec_active(policies@, string_views(requested@)),
                content@,
                results@,
            ),
            r matches Ok(results) ==> (old(self).spec_early_exit() ==> spec_early_exit_shape(
                policies@,
                spec_active(policies@, string_views(requested@)).len() as int,
                results@,
            )),
            r matches Ok(results) ==> (!old(self).spec_early_exit() ==> results@.len()
                == spec_active(policies@, string_views(requested@)).len()),
    {
        let active = resolve_active(policies, requested);
        let request = EvaluationRequest {
            id: new_event_id(),
            content: content.to_owned(),
            context: None,
            policies: clone_strings(requested),
            metadata: None,
        };
        run_policies(
            &mut self.registry,
            &request,
            policies,
            &active,
            self.early_exit,
            timeout_ms,
        )
    }

    /// Handles inbound content: extracts the request's text, resolves the
    /// active policy set, evaluates, and decides. A Block decision ends the
    /// request in the `Blocked` state with a structured violation response
    /// built from the first blocking result; otherwise the proxy moves to
    /// `Forwarding` and the caller forwards upstream. A timeout aborts back
    /// to `Idle`.
    pub fn handle_request(
        &mut self,
        request: &ChatCompletionRequest,
        policies: &Vec<Policy>,
    ) -> (r: Result<InboundOutcome, Error>)
        requires
            old(self).wf(),
            old(self).spec_state() is Idle,
        ensures
            final(self).wf(),
            final(self).config_unchanged(old(self)),
            r matches Err(e) ==> e == Error::Timeout && final(self).spec_state() is Idle,
            r matches Ok(o) ==> (match o {
                InboundOutcome::Blocked { response, results } => {
                    &&& final(self).spec_state() is Blocked
                    &&& spec_decision(policies@, results@) == GuardDecision::Block
                    &&& exists|k: int|
                        0 <= k < results@.len() && spec_result_blocking(
                            policies@,
                            #[trigger] results@[k],
                        ) && (forall|j: int|
                            0 <= j < k ==> !spec_result_blocking(policies@, #[trigger] results@[j]))
                            && spec_response_matches(response, results@[k])
                    &&& spec_results_ok(
                        old(self).spec_registry(),
                        spec_active(policies@, old(self).spec_policy_ids()),
                        spec_request_content(request.messages@),
                        results@,
                    )
                },
                InboundOutcome::Forward { results } => {
                    &&& final(self).spec_state() is Forwarding
                    &&& spec_decision(policies@, results@) != GuardDecision::Block
                    &&& spec_results_ok(
                        old(self).spec_registry(),
                        spec_active(policies@, old(self).spec_policy_ids()),
                        spec_request_content(request.messages@),
                        results@,
                    )
                    &&& results@.len() == spec_active(
                        policies@,
                        old(self).spec_policy_ids(),
                    ).len()
                },
            }),
            r matches Ok(o) ==> old(self).spec_early_exit() ==> (match o {
                InboundOutcome::Blocked { response, results } => spec_early_exit_shape(
                    policies@,
                    spec_active(policies@, old(self).spec_policy_ids()).len() as int,
                    results@,
                ),
                InboundOutcome::Forward { results } => true,
            }),
    {
        self.state = GuardState::ReceivingRequest;
        let content = extract_request_content(request);
        self.state = GuardState::EvaluatingInbound;
        let outcome = self.evaluate_pass(content, policies);
        match outcome {
            Ok(InboundOutcome::Blocked { response, results }) => {
                self.state = GuardState::Blocked;
                Ok(InboundOutcome::Blocked { response, results })
            },
            Ok(InboundOutcome::Forward { results }) => {
                self.state = GuardState::Forwarding;
                Ok(InboundOutcome::Forward { results })
            },
            Err(e) => {
                self.state = GuardState::Idle;
                Err(e)
            },
        }
    }

    /// Handles outbound content after the upstream call: the same active
    /// policy set is run against the response's text. A Block decision ends
    /// in `Blocked`; otherwise the request completes, with the warn-level
    /// findings pointed out as advisories and log-level findings kept only
    /// in the results.
    pub fn handle_response(
        &mut self,
        response: &ChatCompletionResponse,
        policies: &Vec<Policy>,
    ) -> (r: Result<OutboundOutcome, Error>)
        requires
            old(self).wf(),
            old(self).spec_state() is Forwarding,
        ensures
            final(self).wf(),
            final(self).config_unchanged(old(self)),
            r matches Err(e) ==> e == Error::Timeout && final(self).spec_state() is Idle,
            r matches Ok(o) ==> (match o {
                OutboundOutcome::Blocked { response: v, results } => {
                    &&& final(self).spec_state() is Blocked
                    &&& spec_decision(policies@, results@) == GuardDecision::Block
                    &&& exists|k: int|
                        0 <= k < results@.len() && spec_result_blocking(
                            policies@,
                            #[trigger] results@[k],
                        ) && (forall|j: int|
                            0 <= j < k ==> !spec_result_blocking(policies@, #[trigger] results@[j]))
                            && spec_response_matches(v, results@[k])
                    &&& spec_results_ok(
                        old(self).spec_registry(),
                        spec_active(policies@, old(self).spec_policy_ids()),
                        spec_response_content(response.choices@),
                        results@,
                    )
                },
                OutboundOutcome::Completed { results, advisories } => {
                    &&& final(self).spec_state() is Completed
                    &&& spec_decision(policies@, results@) != GuardDecision::Block
                    &&& spec_results_ok(
                        old(self).spec_registry(),
                        spec_active(policies@, old(self).spec_policy_ids()),
                        spec_response_content(response.choices@),
                        results@,
                    )
                    &&& advisories@.len() == spec_warn_indices(policies@, results@).len()
                    &&& forall|m: int|
                        0 <= m < advisories@.len() ==> #[trigger] advisories@[m] as int
                            == spec_warn_indices(policies@, results@)[m]
                },
            }),
    {
        self.state = GuardState::EvaluatingOutbound;
        let content = extract_response_content(response);
        let outcome = self.evaluate_pass(content, policies);
        match outcome {
            Ok(InboundOutcome::Blocked { response: v, results }) => {
                self.state = GuardState::Blocked;
                Ok(OutboundOutcome::Blocked { response: v, results })
            },
            Ok(InboundOutcome::Forward { results }) => {
                let advisories = warn_indices(policies, &results);
                self.state = GuardState::Completed;
                Ok(OutboundOutcome::Completed { results, advisories })
            },
            Err(e) => {
                self.state = GuardState::Idle;
                Err(e)
            },
        }
    }

    /// One evaluation pass over `content` with the proxy's active policy
    /// set: evaluates, decides, and on a Block builds the violation
    /// response. Shared by the inbound and the outbound half.
    fn evaluate_pass(&mut self, content: String, policies: &Vec<Policy>) -> (r: Result<
        InboundOutcome,
        Error,
    >)
        requires
            old(self).wf(),
        ensures
            final(self).wf(),
            final(self).config_unchanged(old(self)),
            final(self).spec_state() == old(self).spec_state(),
            r matches Err(e) ==> e == Error::Timeout,
            r matches Ok(o) ==> (match o {
                InboundOutcome::Blocked { response, results } => {
                    &&& spec_decision(policies@, results@) == GuardDecision::Block
                    &&& exists|k: int|
                        0 <= k < results@.len() && spec_result_blocking(
                            policies@,
                            #[trigger] results@[k],
                        ) && (forall|j: int|
                            0 <= j < k ==> !spec_result_blocking(policies@, #[trigger] results@[j]))
                            && spec_response_matches(response, results@[k])
                    &&& spec_results_ok(
                        old(self).spec_registry(),
                        spec_active(policies@, old(self).spec_policy_ids()),
                        content@,
                        results@,
                    )
                    &&& (old(self).spec_early_exit() ==> spec_early_exit_shape(
                        policies@,
                        spec_active(policies@, old(self).spec_policy_ids()).len() as int,
                        results@,
                    ))
                },
                InboundOutcome::Forward { results } => {
                    &&& spec_decision(policies@, results@) != GuardDecision::Block
                    &&& spec_results_ok(
                        old(self).spec_registry(),
                        spec_active(policies@, old(self).spec_policy_ids()),
                        content@,
                        results@,
                    )
                    &&& results@.len() == spec_active(
                        policies@,
                        old(self).spec_policy_ids(),
                    ).len()
                },
            }),
    {
        let active = resolve_active(policies, &self.policy_ids);
        let request = EvaluationRequest {
            id: new_event_id(),
            content,
            context: None,
            policies: clone_strings(&self.policy_ids),
            metadata: None,
        };
        let results = match run_policies(
            &mut self.registry,
            &request,
            policies,
            &active,
            self.early_exit,
            self.timeout_ms,
        ) {
            Ok(rs) => rs,
            Err(e) => {
                return Err(e);
            },
        };
        match first_blocking_index(policies, &results) {
            Some(k) => {
                proof {
                    assert(results@[k as int].result is Violation);
                }
                let response = build_response(&results[k]);
                proof {
                    assert(spec_decision(policies@, results@) == GuardDecision::Block);
                }
                Ok(InboundOutcome::Blocked { response, results })
            },
            None => {
                proof {
                    if spec_decision(policies@, results@) == GuardDecision::Block {
                        let k = choose|k: int|
                            0 <= k < results@.len() && spec_effective_action(
                                policies@,
                                #[trigger] results@[k],
                            ) == Some(ViolationAction::Block);
                        assert(spec_result_blocking(policies@, results@[k]));
                        assert(false);
                    }
                    if results@.len() < spec_active(
                        policies@,
                        old(self).spec_policy_ids(),
                    ).len() {
                        if old(self).spec_early_exit() {
                            assert(spec_result_blocking(policies@, results@.last()));
                            assert(false);
                        } else {
                            assert(false);
                        }
                    }
                }
                Ok(InboundOutcome::Forward { results })
            },
        }
    }
}

/// Runs the active policies (given as indices into `policies`) over one
/// piece of content: each policy is dispatched through the registry, a
/// per-policy failure becomes an error entry in the result list, early exit
/// stops scheduling further policies once a blocking result exists, and
/// exceeding the time budget aborts the whole pass with `Timeout`.
fn run_policies(
    registry: &mut EvaluatorRegistry,
    request: &EvaluationRequest,
    policies: &Vec<Policy>,
    active: &Vec<usize>,
    early_exit: bool,
    timeout_ms: u64,
) -> (r: Result<Vec<EvaluationResult>, Error>)
    requires
        old(registry).wf(),
        forall|k: int| 0 <= k < active@.len() ==> #[trigger] active@[k] < policies@.len(),
    ensures
        final(registry).wf(),
        forall|pt: PolicyType|
            final(registry).spec_supports_type(pt) == old(registry).spec_supports_type(pt),
        r matches Err(e) ==> e == Error::Timeout,
        r matches Ok(results) ==> results@.len() <= active@.len() && forall|i: int|
            0 <= i < results@.len() ==> spec_result_for(
                old(registry).spec_supports_type(policies@[active@[i] as int].policy_type),
                policies@[active@[i] as int],
                request.content@,
                #[trigger] results@[i],
            ),
        r matches Ok(results) ==> (early_exit ==> spec_early_exit_shape(
            policies@,
            active@.len() as int,
            results@,
        )),
        r matches Ok(results) ==> (!early_exit ==> results@.len() == active@.len()),
{
    let start = instant_now();
    let mut results: Vec<EvaluationResult> = Vec::new();
    let mut blocked = false;
    let n = active.len();
    let mut i: usize = 0;
    while i < n && !(early_exit && blocked)
        invariant
            i <= n,
            n == active@.len(),
            forall|k: int| 0 <= k < active@.len() ==> #[trigger] active@[k] < policies@.len(),
            registry.wf(),
            forall|pt: PolicyType|
                registry.spec_supports_type(pt) == old(registry).spec_supports_type(pt),
            results@.len() == i,
            forall|k: int|
                0 <= k < i ==> spec_result_for(
                    old(registry).spec_supports_type(policies@[active@[k] as int].policy_type),
                    policies@[active@[k] as int],
                    request.content@,
                    #[trigger] results@[k],
                ),
            blocked == exists|k: int|
                0 <= k < i && spec_result_blocking(policies@, #[trigger] results@[k]),
            early_exit ==> forall|k: int|
                0 <= k < i - 1 ==> !spec_result_blocking(policies@, #[trigger] results@[k]),
            early_exit && blocked ==> i > 0 && spec_result_blocking(
                policies@,
                results@.last(),
            ),
        decreases n - i,
    {
        let elapsed = elapsed_millis(&start);
        if elapsed > timeout_ms {
            return Err(Error::Timeout);
        }
        let idx = active[i];
        let policy = &policies[idx];
        let res = match registry.evaluate(request, policy) {
            Ok(res) => res,
            Err(e) => error_entry(request, policy, &e),
        };
        proof {
            assert(spec_result_for(
                old(registry).spec_supports_type(policy.policy_type),
                *policy,
                request.content@,
                res,
            ));
        }
        let act = effective_action(policies, &res);
        let is_block = match act {
            Some(ViolationAction::Block) => true,
            _ => false,
        };
        let ghost old_blocked = blocked;
        let ghost old_results = results@;
        blocked = blocked || is_block;
        results.push(res);
        proof {
            if blocked {
                if old_blocked {
                    let k = choose|k: int|
                        0 <= k < i && spec_result_blocking(policies@, #[trigger] old_results[k]);
                    assert(spec_result_blocking(policies@, results@[k]));
                } else {
                    assert(spec_result_blocking(policies@, results@[i as int]));
                }
            } else {
                if exists|k: int|
                    0 <= k < i + 1 && spec_result_blocking(policies@, #[trigger] results@[k]) {
                    let k = choose|k: int|
                        0 <= k < i + 1 && spec_result_blocking(policies@, #[trigger] results@[k]);
                    if k < i {
                        assert(spec_result_blocking(policies@, old_results[k]));
                    }
                    assert(false);
                }
            }
            if early_exit {
                assert forall|k: int| 0 <= k < i implies !spec_result_blocking(
                    policies@,
                    #[trigger] results@[k],
                ) by {
                    if k < i {
                        assert(!old_blocked);
                        if spec_result_blocking(policies@, results@[k]) {
                            assert(spec_result_blocking(policies@, old_results[k]));
                            assert(false);
                        }
                    }
                }
            }
        }
        i += 1;
    }
    proof {
        if results@.len() < n {
            assert(early_exit && blocked);
        }
    }
    Ok(results)
}

/// Folds an evaluation failure for one policy into an error entry, so that a
/// single failing policy never aborts the rest of the request.
fn error_entry(request: &EvaluationRequest, policy: &Policy, e: &Error) -> (r: EvaluationResult)
    ensures
        r.request_id == request.id,
        r.policy_id == policy.id,
        r.policy_name == policy.name,
        r.policy_type == policy.policy_type,
        r.id@.len() == 36,
        r.result.model() == (PolicyResultModel::Error { message: e.spec_message() }),
{
    EvaluationResult {
        id: new_event_id(),
        request_id: request.id.clone(),
        policy_id: policy.id.clone(),
        policy_name: policy.name.clone(),
        policy_type: policy.policy_type,
        result: PolicyResult::Error { message: e.message() },
        execution_time_ms: 0,
        timestamp: now_timestamp_millis(),
    }
}

/// A deep copy of violation details, preserving the ghost mirror.
fn clone_details(d: &ViolationDetails) -> (r: ViolationDetails)
    ensures
        r.model() == d.model(),
{
    match d {
        ViolationDetails::Keyword { violations, patterns_checked, case_sensitive } => {
            ViolationDetails::Keyword {
                violations: clone_strings(violations),
                patterns_checked: *patterns_checked,
                case_sensitive: *case_sensitive,
            }
        },
        ViolationDetails::Performance {
            quality_score,
            token_count,
            execution_time_ms,
            violations,
        } => {
            ViolationDetails::Performance {
                quality_score: *quality_score,
                token_count: *token_count,
                execution_time_ms: *execution_time_ms,
                violations: clone_strings(violations),
            }
        },
    }
}

/// Builds the violation response for the blocking result `res`.
fn build_response(res: &EvaluationResult) -> (r: ViolationResponse)
    requires
        res.result is Violation,
    ensures
        spec_response_matches(r, *res),
{
    match &res.result {
        PolicyResult::Violation { severity, message, details, .. } => {
            ViolationResponse {
                policy_id: res.policy_id.clone(),
                policy_type: res.policy_type,
                severity: *severity,
                message: message.clone(),
                details: match details {
                    Some(d) => Some(clone_details(d)),
                    None => None,
                },
            }
        },
        _ => vstd::pervasive::unreached(),
    }
}

/// The indices of the warn-level findings in `results`, in order.
pub open spec fn spec_warn_indices(policies: Seq<Policy>, results: Seq<EvaluationResult>) -> Seq<
    int,
>
    decreases results.len(),
{
    if results.len() == 0 {
        Seq::empty()
    } else {
        let rest = spec_warn_indices(policies, results.drop_last());
        if spec_effective_action(policies, results.last()) == Some(ViolationAction::Warn) {
            rest.push(results.len() - 1)
        } else {
            rest
        }
    }
}

/// Collects the indices of the warn-level findings in `results`, in order:
/// the findings the guard surfaces as advisory metadata.
pub fn warn_indices(policies: &Vec<Policy>, results: &Vec<EvaluationResult>) -> (r: Vec<usize>)
    ensures
        r@.len() == spec_warn_indices(policies@, results@).len(),
        forall|m: int|
            0 <= m < r@.len() ==> #[trigger] r@[m] as int == spec_warn_indices(
                policies@,
                results@,
            )[m],
{
    let mut r: Vec<usize> = Vec::new();
    let mut i: usize = 0;
    proof {
        assert(results@.take(0) =~= Seq::<EvaluationResult>::empty());
    }
    while i < results.len()
        invariant
            i <= results@.len(),
            r@.len() == spec_warn_indices(policies@, results@.take(i as int)).len(),
            forall|m: int|
                0 <= m < r@.len() ==> #[trigger] r@[m] as int == spec_warn_indices(
                    policies@,
                    results@.take(i as int),
                )[m],
        decreases results@.len() - i,
    {
        let act = effective_action(policies, &results[i]);
        let is_warn = match act {
            Some(ViolationAction::Warn) => true,
            _ => false,
        };
        proof {
            assert(results@.take(i + 1).drop_last() =~= results@.take(i as int));
            assert(results@.take(i + 1).last() == results@[i as int]);
        }
        if is_warn {
            r.push(i);
        }
        i += 1;
    }
    proof {
        assert(results@.take(results@.len() as int) =~= results@);
    }
    r
}

} // verus!
