//! Data model of the policy engine: policies and their type-specific
//! configurations, evaluation requests and results, and the chat payloads the
//! guard intercepts.
//!
//! Scores and thresholds that are conceptually real numbers in `[0, 1]`
//! (quality scores, confidences) are held exactly: thresholds and confidences
//! as integers in thousandths (`0 ..= 1000`), computed quality scores as exact
//! fractions ([`QualityScore`]).

use vstd::prelude::*;

verus! {

/// The kind of rule a policy declares. Only `KeywordFilter` and `Performance`
/// have evaluators; the other two are declared types whose evaluation must
/// fail cleanly until an evaluator exists for them.
#[derive(Clone, Copy, Debug, PartialEq, Eq, Structural)]
pub enum PolicyType {
    KeywordFilter,
    Performance,
    ContentSafety,
    Semantic,
}

impl PolicyType {
    /// The wire name of this policy type.
    pub open spec fn spec_name(&self) -> Seq<char> {
        match self {
            PolicyType::KeywordFilter => "keyword_filter"@,
            PolicyType::Performance => "performance"@,
            PolicyType::ContentSafety => "content_safety"@,
            PolicyType::Semantic => "semantic"@,
        }
    }

    /// The wire name of this policy type.
    pub fn name(&self) -> (r: &'static str)
        ensures
            r@ == self.spec_name(),
    {
        match self {
            PolicyType::KeywordFilter => "keyword_filter",
            PolicyType::Performance => "performance",
            PolicyType::ContentSafety => "content_safety",
            PolicyType::Semantic => "semantic",
        }
    }

    /// The policy type a wire name stands for, if any.
    pub open spec fn spec_parse(s: Seq<char>) -> Option<PolicyType> {
        if s == "keyword_filter"@ {
            Some(PolicyType::KeywordFilter)
        } else if s == "performance"@ {
            Some(PolicyType::Performance)
        } else if s == "content_safety"@ {
            Some(PolicyType::ContentSafety)
        } else if s == "semantic"@ {
            Some(PolicyType::Semantic)
        } else {
            None
        }
    }

    /// Parses a wire name back into a policy type.
    pub fn parse(s: &str) -> (r: Option<PolicyType>)
        ensures
            r == PolicyType::spec_parse(s@),
    {
        if crate::text::str_eq(s, "keyword_filter") {
            Some(PolicyType::KeywordFilter)
        } else if crate::text::str_eq(s, "performance") {
            Some(PolicyType::Performance)
        } else if crate::text::str_eq(s, "content_safety") {
            Some(PolicyType::ContentSafety)
        } else if crate::text::str_eq(s, "semantic") {
            Some(PolicyType::Semantic)
        } else {
            None
        }
    }
}

/// What the guard does when a policy is violated: `Block` rejects the
/// request, `Warn` forwards it with an advisory, `Log` forwards it silently.
#[derive(Clone, Copy, Debug, PartialEq, Eq, Structural)]
pub enum ViolationAction {
    Block,
    Warn,
    Log,
}

/// How severe a violation is.
#[derive(Clone, Copy, Debug, PartialEq, Eq, Structural)]
pub enum ViolationSeverity {
    Low,
    Medium,
    High,
    Critical,
}

/// Configuration of a keyword-filter policy: regex patterns tested in
/// declaration order against the content.
#[derive(Clone, Debug, PartialEq, Eq)]
pub struct KeywordFilterConfig {
    pub patterns: Vec<String>,
    pub case_sensitive: bool,
    pub action: ViolationAction,
}

/// Configuration of a performance policy. `min_quality_score` is a threshold
/// in thousandths (`700` stands for 0.7) against the computed quality score.
#[derive(Clone, Copy, Debug, PartialEq, Eq)]
pub struct PerformanceConfig {
    pub max_response_time_ms: u64,
    pub min_quality_score: u32,
    pub max_tokens: Option<u32>,
    pub action: ViolationAction,
}

/// Configuration of a content-safety policy (declared type; no evaluator
/// yet). `toxicity_threshold` is in thousandths.
#[derive(Clone, Debug, PartialEq, Eq)]
pub struct ContentSafetyConfig {
    pub toxicity_threshold: u32,
    pub categories: Vec<String>,
    pub action: ViolationAction,
}

/// Configuration of a semantic policy (declared type; no evaluator yet).
/// `similarity_threshold` is in thousandths.
#[derive(Clone, Debug, PartialEq, Eq)]
pub struct SemanticConfig {
    pub similarity_threshold: u32,
    pub reference_texts: Vec<String>,
    pub action: ViolationAction,
}

/// The type-specific part of a policy. The variant must agree with the
/// policy's declared [`PolicyType`]; a mismatch is a configuration error and
/// is never silently coerced.
#[derive(Clone, Debug, PartialEq, Eq)]
pub enum PolicyConfig {
    KeywordFilter(KeywordFilterConfig),
    Performance(PerformanceConfig),
    ContentSafety(ContentSafetyConfig),
    Semantic(SemanticConfig),
}

impl PolicyConfig {
    /// The policy type this configuration variant belongs to.
    pub open spec fn spec_declared_type(&self) -> PolicyType {
        match self {
            PolicyConfig::KeywordFilter(_) => PolicyType::KeywordFilter,
            PolicyConfig::Performance(_) => PolicyType::Performance,
            PolicyConfig::ContentSafety(_) => PolicyType::ContentSafety,
            PolicyConfig::Semantic(_) => PolicyType::Semantic,
        }
    }

    /// The action this configuration asks for on violation.
    pub open spec fn spec_action(&self) -> ViolationAction {
        match self {
            PolicyConfig::KeywordFilter(c) => c.action,
            PolicyConfig::Performance(c) => c.action,
            PolicyConfig::ContentSafety(c) => c.action,
            PolicyConfig::Semantic(c) => c.action,
        }
    }

    /// The action this configuration asks for on violation.
    pub fn action(&self) -> (a: ViolationAction)
        ensures
            a == self.spec_action(),
    {
        match self {
            PolicyConfig::KeywordFilter(c) => c.action,
            PolicyConfig::Performance(c) => c.action,
            PolicyConfig::ContentSafety(c) => c.action,
            PolicyConfig::Semantic(c) => c.action,
        }
    }

    /// Executable counterpart of [`Self::spec_declared_type`].
    pub fn declared_type(&self) -> (t: PolicyType)
        ensures
            t == self.spec_declared_type(),
    {
        match self {
            PolicyConfig::KeywordFilter(_) => PolicyType::KeywordFilter,
            PolicyConfig::Performance(_) => PolicyType::Performance,
            PolicyConfig::ContentSafety(_) => PolicyType::ContentSafety,
            PolicyConfig::Semantic(_) => PolicyType::Semantic,
        }
    }
}

/// A named rule with a type-specific configuration and an action to take on
/// violation. Audit timestamps are milliseconds since the Unix epoch.
#[derive(Clone, Debug)]
pub struct Policy {
    pub id: String,
    pub name: String,
    pub description: Option<String>,
    pub policy_type: PolicyType,
    pub config: PolicyConfig,
    pub enabled: bool,
    pub organization_id: String,
    pub created_at: i64,
    pub updated_at: i64,
    pub created_by: String,
}

impl Policy {
    /// A policy is well formed when its configuration variant agrees with its
    /// declared type.
    pub open spec fn config_matches_type(&self) -> bool {
        self.config.spec_declared_type() == self.policy_type
    }
}

/// One piece of content handed to the evaluators, with the policy ids to
/// evaluate it against (empty means: every enabled policy of the caller's
/// organization). `metadata` carries an opaque serialized payload.
#[derive(Clone, Debug)]
pub struct EvaluationRequest {
    pub id: String,
    pub content: String,
    pub context: Option<String>,
    pub policies: Vec<String>,
    pub metadata: Option<String>,
}

/// A quality score in `[0, 1]`, held as the exact fraction `num / den`.
#[derive(Clone, Copy, Debug, PartialEq, Eq, Structural)]
pub struct QualityScore {
    pub num: u128,
    pub den: u128,
}

impl QualityScore {
    /// A score is well formed when the fraction is defined, lies in `[0, 1]`,
    /// and its denominator stays under `2^74` (the largest value the quality
    /// computation can produce: at most `1000` times a word count).
    pub open spec fn wf(&self) -> bool {
        0 < self.den < 0x4000000000000000000u128 && self.num <= self.den
    }

    /// Whether this score is strictly below a threshold given in thousandths.
    pub open spec fn spec_below_permille(&self, threshold: u32) -> bool {
        self.num * 1000 < threshold * self.den
    }

    /// Executable counterpart of [`Self::spec_below_permille`].
    pub fn below_permille(&self, threshold: u32) -> (r: bool)
        requires
            self.wf(),
        ensures
            r == self.spec_below_permille(threshold),
    {
        proof {
            assert((threshold as u128) * self.den <= 0xFFFFFFFFu128
                * 0x4000000000000000000u128) by (nonlinear_arith)
                requires
                    threshold as u128 <= 0xFFFFFFFFu128,
                    self.den <= 0x4000000000000000000u128,
            ;
        }
        (self.num * 1000) < (threshold as u128) * self.den
    }
}

/// Structured, machine-readable description of why content violated a
/// policy, mirroring the evaluator that produced it.
#[derive(Clone, Debug, PartialEq, Eq)]
pub enum ViolationDetails {
    Keyword {
        violations: Vec<String>,
        patterns_checked: usize,
        case_sensitive: bool,
    },
    Performance {
        quality_score: QualityScore,
        token_count: u32,
        execution_time_ms: u64,
        violations: Vec<String>,
    },
}

/// The outcome of evaluating one policy against one piece of content.
/// `confidence` is in thousandths (`1000` stands for 1.0).
#[derive(Clone, Debug, PartialEq, Eq)]
pub enum PolicyResult {
    Pass,
    Violation {
        severity: ViolationSeverity,
        message: String,
        confidence: u32,
        details: Option<ViolationDetails>,
    },
    Error {
        message: String,
    },
}

/// Ghost mirror of [`ViolationDetails`] with strings as character sequences,
/// used to state what an evaluator returns.
pub enum DetailsModel {
    Keyword { violations: Seq<Seq<char>>, patterns_checked: int, case_sensitive: bool },
    Performance {
        quality_score: QualityScore,
        token_count: u32,
        execution_time_ms: u64,
        violations: Seq<Seq<char>>,
    },
}

/// Ghost mirror of [`PolicyResult`] with strings as character sequences,
/// used to state what an evaluator returns.
pub enum PolicyResultModel {
    Pass,
    Violation {
        severity: ViolationSeverity,
        message: Seq<char>,
        confidence: u32,
        details: Option<DetailsModel>,
    },
    Error { message: Seq<char> },
}

impl ViolationDetails {
    /// The ghost mirror of this value.
    pub open spec fn model(&self) -> DetailsModel {
        match self {
            ViolationDetails::Keyword { violations, patterns_checked, case_sensitive } => {
                DetailsModel::Keyword {
                    violations: crate::text::string_views(violations@),
                    patterns_checked: *patterns_checked as int,
                    case_sensitive: *case_sensitive,
                }
            },
            ViolationDetails::Performance {
                quality_score,
                token_count,
                execution_time_ms,
                violations,
            } => {
                DetailsModel::Performance {
                    quality_score: *quality_score,
                    token_count: *token_count,
                    execution_time_ms: *execution_time_ms,
                    violations: crate::text::string_views(violations@),
                }
            },
        }
    }
}

impl PolicyResult {
    /// The ghost mirror of this value.
    pub open spec fn model(&self) -> PolicyResultModel {
        match self {
            PolicyResult::Pass => PolicyResultModel::Pass,
            PolicyResult::Violation { severity, message, confidence, details } => {
                PolicyResultModel::Violation {
                    severity: *severity,
                    message: message@,
                    confidence: *confidence,
                    details: match details {
                        Some(d) => Some(d.model()),
                        None => None,
                    },
                }
            },
            PolicyResult::Error { message } => PolicyResultModel::Error { message: message@ },
        }
    }
}

/// One evaluator's verdict, immutable once constructed. `timestamp` is
/// milliseconds since the Unix epoch.
#[derive(Clone, Debug)]
pub struct EvaluationResult {
    pub id: String,
    pub request_id: String,
    pub policy_id: String,
    pub policy_name: String,
    pub policy_type: PolicyType,
    pub result: PolicyResult,
    pub execution_time_ms: u64,
    pub timestamp: i64,
}

/// A user known to the system. Timestamps are milliseconds since the Unix
/// epoch.
#[derive(Clone, Debug)]
pub struct User {
    pub id: String,
    pub email: String,
    pub name: String,
    pub organization_id: String,
    pub role: UserRole,
    pub created_at: i64,
    pub last_login: Option<i64>,
}

/// What a user may do.
#[derive(Clone, Copy, Debug, PartialEq, Eq, Structural)]
pub enum UserRole {
    Admin,
    Manager,
    Analyst,
    Viewer,
}

/// An organization owning policies. `created_at` is milliseconds since the
/// Unix epoch.
#[derive(Clone, Debug)]
pub struct Organization {
    pub id: String,
    pub name: String,
    pub plan: SubscriptionPlan,
    pub usage_limits: UsageLimits,
    pub created_at: i64,
}

/// The subscription tier of an organization.
#[derive(Clone, Copy, Debug, PartialEq, Eq, Structural)]
pub enum SubscriptionPlan {
    Free,
    Pro,
    Enterprise,
}

/// Resource caps attached to a subscription.
#[derive(Clone, Copy, Debug, PartialEq, Eq, Structural)]
pub struct UsageLimits {
    pub evaluations_per_month: u64,
    pub policies_limit: u32,
    pub users_limit: u32,
}

/// The chat-completion request shape the guard accepts. `temperature` is in
/// thousandths (`700` stands for 0.7).
#[derive(Clone, Debug)]
pub struct ChatCompletionRequest {
    pub model: String,
    pub messages: Vec<ChatMessage>,
    pub temperature: Option<u32>,
    pub max_tokens: Option<u32>,
    pub stream: Option<bool>,
}

/// One message of a chat conversation.
#[derive(Clone, Debug, PartialEq, Eq)]
pub struct ChatMessage {
    pub role: String,
    pub content: String,
}

/// The upstream provider's answer to a chat-completion request.
#[derive(Clone, Debug)]
pub struct ChatCompletionResponse {
    pub id: String,
    pub object: String,
    pub created: u64,
    pub model: String,
    pub choices: Vec<ChatChoice>,
    pub usage: Option<Usage>,
}

/// One alternative answer within a chat-completion response.
#[derive(Clone, Debug)]
pub struct ChatChoice {
    pub index: u32,
    pub message: ChatMessage,
    pub finish_reason: Option<String>,
}

/// Token accounting reported by the upstream provider.
#[derive(Clone, Copy, Debug, PartialEq, Eq, Structural)]
pub struct Usage {
    pub prompt_tokens: u32,
    pub completion_tokens: u32,
    pub total_tokens: u32,
}

} // verus!
