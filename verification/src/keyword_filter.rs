//! Keyword filtering: every pattern of a policy is tested, in declaration
//! order and with no early stop, against the content; each match becomes one
//! violation line. Compiled patterns come from the shared [`RegexCache`].

use crate::error::Error;
use crate::models::{
    DetailsModel, EvaluationRequest, EvaluationResult, Policy, PolicyConfig, PolicyResult,
    PolicyResultModel, PolicyType, ViolationDetails, ViolationSeverity,
};
use crate::regex_cache::{regex_compiles, regex_first_match, RegexCache};
use crate::stamps::{elapsed_millis, instant_now, new_event_id, now_timestamp_millis};
use crate::text::{join_comma, join_with_comma, string_views};
use vstd::prelude::*;
use vstd::string::StringExecFns;

verus! {

/// The violation line recorded when `pattern` matched `matched`.
pub open spec fn keyword_violation_msg(pattern: Seq<char>, matched: Seq<char>) -> Seq<char> {
    "Pattern '"@ + pattern + "' matched: '"@ + matched + "'"@
}

/// The violation lines of a keyword evaluation: one per pattern with a match
/// in `content`, in pattern order.
pub open spec fn spec_keyword_msgs(
    patterns: Seq<Seq<char>>,
    case_sensitive: bool,
    content: Seq<char>,
) -> Seq<Seq<char>>
    decreases patterns.len(),
{
    if patterns.len() == 0 {
        Seq::empty()
    } else {
        let rest = spec_keyword_msgs(patterns.drop_last(), case_sensitive, content);
        match regex_first_match(patterns.last(), case_sensitive, content) {
            Some(m) => rest.push(keyword_violation_msg(patterns.last(), m)),
            None => rest,
        }
    }
}

/// Whether every pattern compiles under the given case sensitivity.
pub open spec fn all_patterns_compile(patterns: Seq<Seq<char>>, case_sensitive: bool) -> bool {
    forall|i: int|
        0 <= i < patterns.len() ==> regex_compiles(#[trigger] patterns[i], case_sensitive)
}

/// What a keyword evaluation of `content` returns when all patterns compile:
/// `Pass` when no pattern matched, else a `Medium` violation with confidence
/// 1.0 (matching is deterministic) and the full violation list as details.
pub open spec fn spec_keyword_result(
    patterns: Seq<Seq<char>>,
    case_sensitive: bool,
    content: Seq<char>,
) -> PolicyResultModel {
    let msgs = spec_keyword_msgs(patterns, case_sensitive, content);
    if msgs.len() == 0 {
        PolicyResultModel::Pass
    } else {
        PolicyResultModel::Violation {
            severity: ViolationSeverity::Medium,
            message: "Keyword filter violations: "@ + join_comma(msgs),
            confidence: 1000,
            details: Some(
                DetailsModel::Keyword {
                    violations: msgs,
                    patterns_checked: patterns.len() as int,
                    case_sensitive: case_sensitive,
                },
            ),
        }
    }
}

/// There is a violation line exactly when some pattern has a match.
proof fn lemma_keyword_msgs_empty_iff_no_match(
    patterns: Seq<Seq<char>>,
    case_sensitive: bool,
    content: Seq<char>,
)
    ensures
        spec_keyword_msgs(patterns, case_sensitive, content).len() == 0 <==> (forall|i: int|
            0 <= i < patterns.len() ==> regex_first_match(
                #[trigger] patterns[i],
                case_sensitive,
                content,
            ) is None),
    decreases patterns.len(),
{
    if patterns.len() > 0 {
        lemma_keyword_msgs_empty_iff_no_match(patterns.drop_last(), case_sensitive, content);
        let head = patterns.drop_last();
        if regex_first_match(patterns.last(), case_sensitive, content) is Some {
            assert(regex_first_match(
                patterns[patterns.len() - 1],
                case_sensitive,
                content,
            ) is Some);
        } else {
            if forall|j: int|
                0 <= j < head.len() ==> regex_first_match(
                    #[trigger] head[j],
                    case_sensitive,
                    content,
                ) is None {
                assert forall|i: int| 0 <= i < patterns.len() implies regex_first_match(
                    #[trigger] patterns[i],
                    case_sensitive,
                    content,
                ) is None by {
                    if i < patterns.len() - 1 {
                        assert(regex_first_match(head[i], case_sensitive, content) is None);
                        assert(head[i] == patterns[i]);
                    }
                }
            } else {
                let j = choose|j: int|
                    0 <= j < head.len() && !(regex_first_match(
                        #[trigger] head[j],
                        case_sensitive,
                        content,
                    ) is None);
                assert(head[j] == patterns[j]);
                assert(regex_first_match(patterns[j], case_sensitive, content) is Some);
            }
        }
    }
}

/// Law: a keyword evaluation passes exactly when no pattern has a
/// case-appropriate match in the content; any match makes it a violation.
pub proof fn lemma_keyword_violation_iff_match(
    patterns: Seq<Seq<char>>,
    case_sensitive: bool,
    content: Seq<char>,
)
    ensures
        spec_keyword_result(patterns, case_sensitive, content) is Pass <==> (forall|i: int|
            0 <= i < patterns.len() ==> regex_first_match(
                #[trigger] patterns[i],
                case_sensitive,
                content,
            ) is None),
        spec_keyword_result(patterns, case_sensitive, content) is Pass || spec_keyword_result(
            patterns,
            case_sensitive,
            content,
        ) is Violation,
{
    lemma_keyword_msgs_empty_iff_no_match(patterns, case_sensitive, content);
}

/// Evaluates content against keyword-filter policies, caching compiled
/// patterns across evaluations.
pub struct KeywordFilterEvaluator {
    regex_cache: RegexCache,
}

impl KeywordFilterEvaluator {
    /// The pattern cache this evaluator has built up.
    pub closed spec fn spec_cache(&self) -> RegexCache {
        self.regex_cache
    }

    /// An evaluator is well formed when its cache is.
    pub open spec fn wf(&self) -> bool {
        self.spec_cache().wf()
    }

    /// An evaluator with an empty pattern cache.
    pub fn new() -> (r: Self)
        ensures
            r.wf(),
            r.spec_cache().spec_compile_count() == 0,
    {
        KeywordFilterEvaluator { regex_cache: RegexCache::new() }
    }

    /// How many patterns this evaluator has compiled so far.
    pub fn compiled_patterns(&self) -> (r: usize)
        ensures
            r == self.spec_cache().spec_compile_count(),
    {
        self.regex_cache.compile_count()
    }

    /// Whether this evaluator can judge policies of type `policy_type`.
    pub fn supports_policy_type(&self, policy_type: &PolicyType) -> (r: bool)
        ensures
            r == (policy_type is KeywordFilter),
    {
        match policy_type {
            PolicyType::KeywordFilter => true,
            _ => false,
        }
    }

    /// Evaluates `request`'s content against a keyword-filter policy. Fails
    /// when the policy's configuration is of the wrong kind, or with
    /// `InvalidPattern` carrying the first pattern that is not a valid regex;
    /// otherwise the verdict is [`spec_keyword_result`] of the patterns, the
    /// case flag and the content.
    pub fn evaluate(&mut self, request: &EvaluationRequest, policy: &Policy) -> (r: Result<
        EvaluationResult,
        Error,
    >)
        requires
            old(self).wf(),
        ensures
            final(self).wf(),
            !(policy.config matches PolicyConfig::KeywordFilter(_)) ==> (r matches Err(e)
                && e matches Error::Config(m) && m@
                == "Invalid policy config for keyword filter"@),
            policy.config matches PolicyConfig::KeywordFilter(cfg) ==> (r is Ok
                <==> all_patterns_compile(string_views(cfg.patterns@), cfg.case_sensitive)),
            policy.config matches PolicyConfig::KeywordFilter(cfg) ==> (r matches Err(e) ==> (
            e matches Error::InvalidPattern(p) && exists|i: int|
                0 <= i < cfg.patterns@.len() && p@ == string_views(cfg.patterns@)[i]
                    && !regex_compiles(string_views(cfg.patterns@)[i], cfg.case_sensitive) && (
                forall|j: int|
                    0 <= j < i ==> regex_compiles(
                        #[trigger] string_views(cfg.patterns@)[j],
                        cfg.case_sensitive,
                    )))),
            policy.config matches PolicyConfig::KeywordFilter(cfg) ==> (r matches Ok(res)
                ==> res.result.model() == spec_keyword_result(
                string_views(cfg.patterns@),
                cfg.case_sensitive,
                request.content@,
            )),
            r matches Ok(res) ==> res.request_id == request.id && res.policy_id == policy.id
                && res.policy_name == policy.name && res.policy_type == PolicyType::KeywordFilter
                && res.id@.len() == 36,
    {
        let start = instant_now();
        let cfg = match &policy.config {
            PolicyConfig::KeywordFilter(c) => c,
            _ => {
                return Err(
                    Error::Config("Invalid policy config for keyword filter".to_owned()),
                );
            },
        };
        let ghost pats = string_views(cfg.patterns@);
        let ghost content_view = request.content@;

        let mut violations: Vec<String> = Vec::new();
        proof {
            assert(string_views(violations@) =~= Seq::<Seq<char>>::empty());
            assert(pats.take(0) =~= Seq::<Seq<char>>::empty());
        }
        let n = cfg.patterns.len();
        let mut i: usize = 0;
        while i < n
            invariant
                i <= n,
                n == cfg.patterns@.len(),
                old(self).wf() ==> self.wf(),
                old(self).wf(),
                policy.config == PolicyConfig::KeywordFilter(*cfg),
                pats == string_views(cfg.patterns@),
                content_view == request.content@,
                forall|j: int|
                    0 <= j < i ==> regex_compiles(#[trigger] pats[j], cfg.case_sensitive),
                string_views(violations@) == spec_keyword_msgs(
                    pats.take(i as int),
                    cfg.case_sensitive,
                    content_view,
                ),
            decreases n - i,
        {
            let pattern: &String = &cfg.patterns[i];
            proof {
                assert(pats[i as int] == cfg.patterns@[i as int]@);
            }
            let compiled = match self.regex_cache.compile(pattern.as_str(), cfg.case_sensitive) {
                Ok(cp) => cp,
                Err(e) => {
                    proof {
                        assert(!regex_compiles(pats[i as int], cfg.case_sensitive));
                    }
                    return Err(e);
                },
            };
            match compiled.find_first(request.content.as_str()) {
                Some(matched) => {
                    let line = keyword_violation_message(pattern, &matched);
                    let ghost before = string_views(violations@);
                    violations.push(line);
                    proof {
                        assert(string_views(violations@) =~= before.push(
                            keyword_violation_msg(
                                pats[i as int],
                                regex_first_match(
                                    pats[i as int],
                                    cfg.case_sensitive,
                                    content_view,
                                ).unwrap(),
                            ),
                        ));
                    }
                },
                None => {},
            }
            proof {
                assert(pats.take(i + 1).drop_last() =~= pats.take(i as int));
                assert(pats.take(i + 1).last() == pats[i as int]);
            }
            i += 1;
        }
        proof {
            assert(pats.take(n as int) =~= pats);
        }

        let execution_time = elapsed_millis(&start);
        let result: PolicyResult = if violations.len() == 0 {
            PolicyResult::Pass
        } else {
            let mut message = String::from_str("Keyword filter violations: ");
            message.append(join_with_comma(&violations).as_str());
            PolicyResult::Violation {
                severity: ViolationSeverity::Medium,
                message,
                confidence: 1000,
                details: Some(
                    ViolationDetails::Keyword {
                        violations,
                        patterns_checked: n,
                        case_sensitive: cfg.case_sensitive,
                    },
                ),
            }
        };
        proof {
            assert(result.model() == spec_keyword_result(
                pats,
                cfg.case_sensitive,
                content_view,
            ));
        }

        Ok(
            EvaluationResult {
                id: new_event_id(),
                request_id: request.id.clone(),
                policy_id: policy.id.clone(),
                policy_name: policy.name.clone(),
                policy_type: PolicyType::KeywordFilter,
                result,
                execution_time_ms: execution_time,
                timestamp: now_timestamp_millis(),
            },
        )
    }
}

/// Renders the violation line for one matched pattern.
fn keyword_violation_message(pattern: &String, matched: &String) -> (r: String)
    ensures
        r@ == keyword_violation_msg(pattern@, matched@),
{
    let mut r = String::from_str("Pattern '");
    r.append(pattern.as_str());
    r.append("' matched: '");
    r.append(matched.as_str());
    r.append("'");
    r
}

} // verus!
