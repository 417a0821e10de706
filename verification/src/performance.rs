//! Response-quality and performance checks: a content quality score computed
//! as an exact fraction, an approximate whitespace token count, and the
//! evaluator that judges both against a [`PerformanceConfig`].

use crate::error::Error;
use crate::models::{
    DetailsModel, EvaluationRequest, EvaluationResult, Policy, PolicyConfig, PolicyResult,
    PolicyResultModel, PerformanceConfig, PolicyType, QualityScore, ViolationDetails,
    ViolationSeverity,
};
use crate::stamps::{elapsed_millis, instant_now, new_event_id, now_timestamp_millis};
use crate::text::{
    chars_of, count_distinct, count_upper_and_terminators, dec_str, distinct_count, join_comma,
    join_with_comma, split_words, string_views, terminator_count, u128_to_dec, u64_to_dec,
    upper_count, word_views, words_of,
};
use vstd::prelude::*;
use vstd::string::StringExecFns;

verus! {

/// The quality fraction of `content` before clamping: starts at 1, takes a
/// short-content penalty, the distinct-to-total word ratio, an
/// all-caps penalty and a sentence-structure reward, in that order.
pub open spec fn spec_quality_raw(content: Seq<char>) -> (int, int) {
    let len = content.len() as int;
    let total = words_of(content).len() as int;
    let unique = distinct_count(words_of(content)) as int;
    let caps = upper_count(content) as int;
    let terms = terminator_count(content) as int;
    let a: (int, int) = if len < 10 {
        (3, 10)
    } else if len < 50 {
        (7, 10)
    } else {
        (1, 1)
    };
    let b: (int, int) = if total > 0 {
        (a.0 * unique, a.1 * total)
    } else {
        a
    };
    let c: (int, int) = if caps * 10 > 3 * len {
        (b.0 * 8, b.1 * 10)
    } else {
        b
    };
    if terms > 0 {
        (c.0 * 11, c.1 * 10)
    } else {
        c
    }
}

/// The quality fraction of `content`, clamped into `[0, 1]`.
pub open spec fn spec_quality(content: Seq<char>) -> (int, int) {
    let raw = spec_quality_raw(content);
    if raw.0 <= raw.1 {
        raw
    } else {
        (raw.1, raw.1)
    }
}

/// The quality score of `content` as a [`QualityScore`] value.
pub open spec fn spec_quality_score(content: Seq<char>) -> QualityScore {
    QualityScore {
        num: spec_quality(content).0 as u128,
        den: spec_quality(content).1 as u128,
    }
}

/// How many whitespace-delimited words `content` holds.
pub open spec fn spec_token_count(content: Seq<char>) -> nat {
    words_of(content).len()
}

/// The token count reduced to `u32`, saturating at `u32::MAX`.
pub open spec fn spec_token_count_sat(content: Seq<char>) -> u32 {
    if spec_token_count(content) > 0xFFFFFFFF {
        0xFFFFFFFFu32
    } else {
        spec_token_count(content) as u32
    }
}

/// The message recorded when the quality score falls below the threshold.
pub open spec fn quality_violation_msg(num: int, den: int, threshold: u32) -> Seq<char> {
    "Quality score "@ + dec_str(num) + "/"@ + dec_str(den) + " below threshold "@ + dec_str(
        threshold as int,
    ) + "/1000"@
}

/// The message recorded when the token count exceeds the configured maximum.
pub open spec fn token_violation_msg(tokens: u32, max: u32) -> Seq<char> {
    "Token count "@ + dec_str(tokens as int) + " exceeds limit "@ + dec_str(max as int)
}

/// The message recorded when evaluation took longer than allowed.
pub open spec fn time_violation_msg(elapsed: u64, limit: u64) -> Seq<char> {
    "Response time "@ + dec_str(elapsed as int) + "ms exceeds limit "@ + dec_str(limit as int)
        + "ms"@
}

/// The violation messages a performance evaluation of `content` under `cfg`
/// records when it observed `elapsed` milliseconds of execution time: the
/// quality check, then the token check, then the time check.
pub open spec fn spec_perf_msgs(content: Seq<char>, cfg: PerformanceConfig, elapsed: u64) -> Seq<
    Seq<char>,
> {
    let qs = spec_quality_score(content);
    let tokens = spec_token_count_sat(content);
    let s0 = Seq::<Seq<char>>::empty();
    let s1 = if qs.spec_below_permille(cfg.min_quality_score) {
        s0.push(quality_violation_msg(qs.num as int, qs.den as int, cfg.min_quality_score))
    } else {
        s0
    };
    let s2 = if cfg.max_tokens matches Some(m) && tokens > m {
        s1.push(token_violation_msg(tokens, cfg.max_tokens.unwrap()))
    } else {
        s1
    };
    if elapsed > cfg.max_response_time_ms {
        s2.push(time_violation_msg(elapsed, cfg.max_response_time_ms))
    } else {
        s2
    }
}

/// The severity of a performance violation: `High` when the quality score is
/// below 0.3 or the token count exceeds twice the configured maximum (an
/// absent maximum is unbounded, so that branch cannot fire), else `Medium`.
pub open spec fn spec_perf_severity(content: Seq<char>, cfg: PerformanceConfig) -> ViolationSeverity {
    let qs = spec_quality_score(content);
    let tokens = spec_token_count_sat(content);
    if qs.spec_below_permille(300) || (cfg.max_tokens matches Some(m) && tokens as int > 2 * m) {
        ViolationSeverity::High
    } else {
        ViolationSeverity::Medium
    }
}

/// What a performance evaluation of `content` under `cfg` returns when it
/// observed `elapsed` milliseconds of execution time.
pub open spec fn spec_performance_result(
    content: Seq<char>,
    cfg: PerformanceConfig,
    elapsed: u64,
) -> PolicyResultModel {
    let msgs = spec_perf_msgs(content, cfg, elapsed);
    if msgs.len() == 0 {
        PolicyResultModel::Pass
    } else {
        PolicyResultModel::Violation {
            severity: spec_perf_severity(content, cfg),
            message: "Performance violations: "@ + join_comma(msgs),
            confidence: 900,
            details: Some(
                DetailsModel::Performance {
                    quality_score: spec_quality_score(content),
                    token_count: spec_token_count_sat(content),
                    execution_time_ms: elapsed,
                    violations: msgs,
                },
            ),
        }
    }
}

/// Evaluates content against performance policies: quality score, token
/// count and evaluation time.
pub struct PerformanceEvaluator;

impl PerformanceEvaluator {
    /// A performance evaluator.
    pub fn new() -> (r: Self)
        ensures
            r == (PerformanceEvaluator {}),
    {
        PerformanceEvaluator {}
    }

    /// Whether this evaluator can judge policies of type `policy_type`.
    pub fn supports_policy_type(&self, policy_type: &PolicyType) -> (r: bool)
        ensures
            r == (policy_type is Performance),
    {
        match policy_type {
            PolicyType::Performance => true,
            _ => false,
        }
    }

    /// The quality score of `content`, exactly [`spec_quality_score`]: start
    /// at 1; multiply by 0.3 if shorter than 10 characters, else by 0.7 if
    /// shorter than 50; multiply by the distinct-to-total word ratio (1 when
    /// there are no words); multiply by 0.8 if more than 30% of the
    /// characters are uppercase; multiply by 1.1 if a sentence terminator is
    /// present; clamp into `[0, 1]`.
    pub fn calculate_quality_score(&self, content: &str) -> (r: QualityScore)
        ensures
            r == spec_quality_score(content@),
            r.wf(),
    {
        let chars = chars_of(content);
        let words = split_words(&chars);
        let total: usize = words.len();
        let unique: usize = count_distinct(&words);
        let counts = count_upper_and_terminators(&chars);
        let caps: usize = counts.0;
        let terms: usize = counts.1;
        let len: usize = chars.len();
        proof {
            assert(word_views(words@).len() == words@.len());
        }

        let mut num: u128 = 1;
        let mut den: u128 = 1;
        if len < 10 {
            num = 3;
            den = 10;
        } else if len < 50 {
            num = 7;
            den = 10;
        }
        if total > 0 {
            proof {
                assert(num * (unique as u128) <= 7 * 0xFFFFFFFFFFFFFFFFu128) by (nonlinear_arith)
                    requires
                        num <= 7,
                        unique as u128 <= 0xFFFFFFFFFFFFFFFFu128,
                ;
                assert(den * (total as u128) <= 10 * 0xFFFFFFFFFFFFFFFFu128) by (nonlinear_arith)
                    requires
                        den <= 10,
                        total as u128 <= 0xFFFFFFFFFFFFFFFFu128,
                ;
                assert(den * (total as u128) >= 1) by (nonlinear_arith)
                    requires
                        den >= 1,
                        total as u128 >= 1,
                ;
            }
            num = num * (unique as u128);
            den = den * (total as u128);
        }
        assert(num <= 0x70000000000000000u128);
        assert(1 <= den <= 0xA0000000000000000u128);
        if (caps as u128) * 10 > 3 * (len as u128) {
            num = num * 8;
            den = den * 10;
        }
        if terms > 0 {
            num = num * 11;
            den = den * 10;
        }
        if num > den {
            num = den;
        }
        let r = QualityScore { num, den };
        proof {
            assert(r == spec_quality_score(content@));
        }
        r
    }

    /// The whitespace-delimited word count of `content`, saturating at
    /// `u32::MAX`: an approximate tokenizer, not a true subword tokenizer.
    pub fn count_tokens(&self, content: &str) -> (r: u32)
        ensures
            r == spec_token_count_sat(content@),
    {
        let chars = chars_of(content);
        let words = split_words(&chars);
        proof {
            assert(word_views(words@).len() == words@.len());
        }
        let n = words.len();
        if n > 0xFFFFFFFFusize {
            0xFFFFFFFFu32
        } else {
            n as u32
        }
    }

    /// Evaluates `request`'s content against a performance policy. Fails
    /// exactly when the policy's configuration is not a performance
    /// configuration; otherwise the verdict is [`spec_performance_result`]
    /// of the content, the configuration, and the recorded execution time.
    pub fn evaluate(&self, request: &EvaluationRequest, policy: &Policy) -> (r: Result<
        EvaluationResult,
        Error,
    >)
        ensures
            r is Err <==> !(policy.config matches PolicyConfig::Performance(_)),
            r matches Err(e) ==> e matches Error::Config(m) && m@
                == "Invalid policy config for performance evaluator"@,
            r matches Ok(res) ==> res.request_id == request.id && res.policy_id == policy.id
                && res.policy_name == policy.name && res.policy_type == PolicyType::Performance
                && res.id@.len() == 36,
            policy.config matches PolicyConfig::Performance(cfg) ==> (r matches Ok(res)
                ==> res.result.model() == spec_performance_result(
                request.content@,
                cfg,
                res.execution_time_ms,
            )),
    {
        let start = instant_now();
        let cfg: PerformanceConfig = match &policy.config {
            PolicyConfig::Performance(c) => *c,
            _ => {
                return Err(
                    Error::Config("Invalid policy config for performance evaluator".to_owned()),
                );
            },
        };

        let quality = self.calculate_quality_score(request.content.as_str());
        let token_count = self.count_tokens(request.content.as_str());
        let execution_time = elapsed_millis(&start);

        let ghost msgs = spec_perf_msgs(request.content@, cfg, execution_time);
        let mut violations: Vec<String> = Vec::new();
        proof {
            assert(string_views(violations@) =~= Seq::<Seq<char>>::empty());
        }
        if quality.below_permille(cfg.min_quality_score) {
            let ghost before = string_views(violations@);
            violations.push(
                quality_violation_message(&quality, cfg.min_quality_score),
            );
            proof {
                assert(string_views(violations@) =~= before.push(
                    quality_violation_msg(
                        quality.num as int,
                        quality.den as int,
                        cfg.min_quality_score,
                    ),
                ));
            }
        }
        match cfg.max_tokens {
            Some(m) => {
                if token_count > m {
                    let ghost before = string_views(violations@);
                    violations.push(token_violation_message(token_count, m));
                    proof {
                        assert(string_views(violations@) =~= before.push(
                            token_violation_msg(token_count, m),
                        ));
                    }
                }
            },
            None => {},
        }
        if execution_time > cfg.max_response_time_ms {
            let ghost before = string_views(violations@);
            violations.push(time_violation_message(execution_time, cfg.max_response_time_ms));
            proof {
                assert(string_views(violations@) =~= before.push(
                    time_violation_msg(execution_time, cfg.max_response_time_ms),
                ));
            }
        }
        proof {
            assert(string_views(violations@) == msgs);
        }

        let result: PolicyResult = if violations.len() == 0 {
            PolicyResult::Pass
        } else {
            let over_double = match cfg.max_tokens {
                Some(m) => (token_count as u64) > 2 * (m as u64),
                None => false,
            };
            let severity = if quality.below_permille(300) || over_double {
                ViolationSeverity::High
            } else {
                ViolationSeverity::Medium
            };
            let mut message = String::from_str("Performance violations: ");
            message.append(join_with_comma(&violations).as_str());
            PolicyResult::Violation {
                severity,
                message,
                confidence: 900,
                details: Some(
                    ViolationDetails::Performance {
                        quality_score: quality,
                        token_count,
                        execution_time_ms: execution_time,
                        violations,
                    },
                ),
            }
        };
        proof {
            assert(result.model() == spec_performance_result(
                request.content@,
                cfg,
                execution_time,
            ));
        }

        Ok(
            EvaluationResult {
                id: new_event_id(),
                request_id: request.id.clone(),
                policy_id: policy.id.clone(),
                policy_name: policy.name.clone(),
                policy_type: PolicyType::Performance,
                result,
                execution_time_ms: execution_time,
                timestamp: now_timestamp_millis(),
            },
        )
    }
}

/// Renders the quality-score violation message.
fn quality_violation_message(q: &QualityScore, threshold: u32) -> (r: String)
    ensures
        r@ == quality_violation_msg(q.num as int, q.den as int, threshold),
{
    let mut r = String::from_str("Quality score ");
    r.append(u128_to_dec(q.num).as_str());
    r.append("/");
    r.append(u128_to_dec(q.den).as_str());
    r.append(" below threshold ");
    r.append(u128_to_dec(threshold as u128).as_str());
    r.append("/1000");
    r
}

/// Renders the token-count violation message.
fn token_violation_message(tokens: u32, max: u32) -> (r: String)
    ensures
        r@ == token_violation_msg(tokens, max),
{
    let mut r = String::from_str("Token count ");
    r.append(u64_to_dec(tokens as u64).as_str());
    r.append(" exceeds limit ");
    r.append(u64_to_dec(max as u64).as_str());
    r
}

/// Renders the response-time violation message.
fn time_violation_message(elapsed: u64, limit: u64) -> (r: String)
    ensures
        r@ == time_violation_msg(elapsed, limit),
{
    let mut r = String::from_str("Response time ");
    r.append(u64_to_dec(elapsed).as_str());
    r.append("ms exceeds limit ");
    r.append(u64_to_dec(limit).as_str());
    r.append("ms");
    r
}

} // verus!
