//! The evaluator registry: routes each policy to the first registered
//! evaluator that claims its type, in registration order. Dispatch is a
//! closed tagged variant over the concrete evaluators; adding an evaluator
//! kind is a deliberate registry extension. A policy type nobody claims
//! fails cleanly with `UnsupportedPolicyType`.

use crate::error::Error;
use crate::keyword_filter::{
    all_patterns_compile, spec_keyword_result, KeywordFilterEvaluator,
};
use crate::models::{
    EvaluationRequest, EvaluationResult, Policy, PolicyConfig, PolicyType,
};
use crate::performance::{spec_performance_result, PerformanceEvaluator};
use crate::regex_cache::regex_compiles;
use crate::text::string_views;
use vstd::prelude::*;

verus! {

/// A registered evaluator.
pub enum Evaluator {
    KeywordFilter(KeywordFilterEvaluator),
    Performance(PerformanceEvaluator),
}

impl Evaluator {
    /// An evaluator is well formed when its internal state is.
    pub open spec fn wf(&self) -> bool {
        match self {
            Evaluator::KeywordFilter(e) => e.wf(),
            Evaluator::Performance(_) => true,
        }
    }

    /// Whether this evaluator claims policies of type `policy_type`.
    pub open spec fn spec_supports(&self, policy_type: PolicyType) -> bool {
        match self {
            Evaluator::KeywordFilter(_) => policy_type is KeywordFilter,
            Evaluator::Performance(_) => policy_type is Performance,
        }
    }

    /// Whether this evaluator claims policies of type `policy_type`.
    pub fn supports_policy_type(&self, policy_type: &PolicyType) -> (r: bool)
        ensures
            r == self.spec_supports(*policy_type),
    {
        match self {
            Evaluator::KeywordFilter(e) => e.supports_policy_type(policy_type),
            Evaluator::Performance(e) => e.supports_policy_type(policy_type),
        }
    }
}

/// The ordered list of evaluators; registration order is dispatch
/// precedence.
pub struct EvaluatorRegistry {
    evaluators: Vec<Evaluator>,
}

impl EvaluatorRegistry {
    /// The registered evaluators, in registration order.
    pub closed spec fn spec_evaluators(&self) -> Seq<Evaluator> {
        self.evaluators@
    }

    /// A registry is well formed when each evaluator is.
    pub open spec fn wf(&self) -> bool {
        forall|k: int|
            0 <= k < self.spec_evaluators().len() ==> (#[trigger] self.spec_evaluators()[k]).wf()
    }

    /// Whether some registered evaluator claims `policy_type`.
    pub open spec fn spec_supports_type(&self, policy_type: PolicyType) -> bool {
        exists|k: int|
            0 <= k < self.spec_evaluators().len() && (#[trigger] self.spec_evaluators()[k]).spec_supports(
                policy_type,
            )
    }

    /// A registry with the built-in evaluators: the keyword filter, then the
    /// performance evaluator.
    pub fn new() -> (r: Self)
        ensures
            r.wf(),
            r.spec_evaluators().len() == 2,
            r.spec_evaluators()[0] is KeywordFilter,
            r.spec_evaluators()[1] is Performance,
            r.spec_supports_type(PolicyType::KeywordFilter),
            r.spec_supports_type(PolicyType::Performance),
            !r.spec_supports_type(PolicyType::ContentSafety),
            !r.spec_supports_type(PolicyType::Semantic),
    {
        let mut registry = EvaluatorRegistry { evaluators: Vec::new() };
        registry.register(Evaluator::KeywordFilter(KeywordFilterEvaluator::new()));
        registry.register(Evaluator::Performance(PerformanceEvaluator::new()));
        proof {
            assert(registry.spec_evaluators()[0].spec_supports(PolicyType::KeywordFilter));
            assert(registry.spec_evaluators()[1].spec_supports(PolicyType::Performance));
        }
        registry
    }

    /// Appends an evaluator; earlier registrations take precedence.
    pub fn register(&mut self, evaluator: Evaluator)
        requires
            old(self).wf(),
            evaluator.wf(),
        ensures
            final(self).wf(),
            final(self).spec_evaluators() == old(self).spec_evaluators().push(evaluator),
    {
        self.evaluators.push(evaluator);
    }

    /// Evaluates one policy against `request`'s content, dispatching to the
    /// first registered evaluator that claims the policy's type. Fails with
    /// `UnsupportedPolicyType` exactly when no evaluator claims it; otherwise
    /// the selected evaluator's own contract describes the result.
    pub fn evaluate(&mut self, request: &EvaluationRequest, policy: &Policy) -> (r: Result<
        EvaluationResult,
        Error,
    >)
        requires
            old(self).wf(),
        ensures
            final(self).wf(),
            forall|pt: PolicyType|
                final(self).spec_supports_type(pt) == old(self).spec_supports_type(pt),
            !old(self).spec_supports_type(policy.policy_type) ==> r == Err::<
                EvaluationResult,
                Error,
            >(Error::UnsupportedPolicyType(policy.policy_type)),
            r matches Ok(res) ==> res.request_id == request.id && res.policy_id == policy.id
                && res.policy_name == policy.name && res.policy_type == policy.policy_type
                && res.id@.len() == 36,
            old(self).spec_supports_type(policy.policy_type) ==> (policy.policy_type
                is KeywordFilter ==> ((!(policy.config matches PolicyConfig::KeywordFilter(_))
                ==> (r matches Err(e) && e matches Error::Config(m) && m@
                == "Invalid policy config for keyword filter"@)) && (
            policy.config matches PolicyConfig::KeywordFilter(cfg) ==> ((r is Ok
                <==> all_patterns_compile(string_views(cfg.patterns@), cfg.case_sensitive)) && (
            r matches Err(e) ==> (e matches Error::InvalidPattern(p) && exists|i: int|
                0 <= i < cfg.patterns@.len() && p@ == string_views(cfg.patterns@)[i]
                    && !regex_compiles(string_views(cfg.patterns@)[i], cfg.case_sensitive) && (
                forall|j: int|
                    0 <= j < i ==> regex_compiles(
                        #[trigger] string_views(cfg.patterns@)[j],
                        cfg.case_sensitive,
                    )))) && (r matches Ok(res) ==> res.result.model() == spec_keyword_result(
                string_views(cfg.patterns@),
                cfg.case_sensitive,
                request.content@,
            )))))),
            old(self).spec_supports_type(policy.policy_type) ==> (policy.policy_type is Performance
                ==> ((r is Err <==> !(policy.config matches PolicyConfig::Performance(_))) && (
            r matches Err(e) ==> e matches Error::Config(m) && m@
                == "Invalid policy config for performance evaluator"@) && (
            policy.config matches PolicyConfig::Performance(cfg) ==> (r matches Ok(res)
                ==> res.result.model() == spec_performance_result(
                request.content@,
                cfg,
                res.execution_time_ms,
            ))))),
    {
        let n = self.evaluators.len();
        let mut k: usize = 0;
        while k < n
            invariant
                k <= n,
                n == self.spec_evaluators().len(),
                self == old(self),
                self.wf(),
                forall|j: int|
                    0 <= j < k ==> !(#[trigger] self.spec_evaluators()[j]).spec_supports(
                        policy.policy_type,
                    ),
            decreases n - k,
        {
            if self.evaluators[k].supports_policy_type(&policy.policy_type) {
                let ghost old_evs = self.spec_evaluators();
                let selected = self.evaluators.remove(k);
                let (back, r) = match selected {
                    Evaluator::KeywordFilter(mut e) => {
                        let r = e.evaluate(request, policy);
                        (Evaluator::KeywordFilter(e), r)
                    },
                    Evaluator::Performance(e) => {
                        let r = e.evaluate(request, policy);
                        (Evaluator::Performance(e), r)
                    },
                };
                self.evaluators.insert(k, back);
                proof {
                    assert(self.evaluators@ =~= old_evs.update(k as int, back));
                    assert forall|j: int|
                        0 <= j < self.spec_evaluators().len() implies (
                    #[trigger] self.spec_evaluators()[j]).wf() by {
                        if j != k {
                            assert(self.spec_evaluators()[j] == old_evs[j]);
                        }
                    }
                    assert forall|pt: PolicyType|
                        final(self).spec_supports_type(pt) == old(self).spec_supports_type(
                            pt,
                        ) by {
                        assert forall|j: int|
                            0 <= j < self.spec_evaluators().len() implies (
                        #[trigger] self.spec_evaluators()[j]).spec_supports(pt)
                            == old_evs[j].spec_supports(pt) by {
                            if j != k {
                                assert(self.spec_evaluators()[j] == old_evs[j]);
                            }
                        }
                        if old(self).spec_supports_type(pt) {
                            let w = choose|w: int|
                                0 <= w < old_evs.len() && old_evs[w].spec_supports(pt);
                            assert(self.spec_evaluators()[w].spec_supports(pt));
                        }
                        if final(self).spec_supports_type(pt) {
                            let w = choose|w: int|
                                0 <= w < self.spec_evaluators().len()
                                    && self.spec_evaluators()[w].spec_supports(pt);
                            assert(old_evs[w].spec_supports(pt));
                        }
                    }
                }
                return r;
            }
            k += 1;
        }
        proof {
            if old(self).spec_supports_type(policy.policy_type) {
                let w = choose|w: int|
                    0 <= w < old(self).spec_evaluators().len() && old(
                        self,
                    ).spec_evaluators()[w].spec_supports(policy.policy_type);
                assert(false);
            }
        }
        Err(Error::UnsupportedPolicyType(policy.policy_type))
    }
}

} // verus!
