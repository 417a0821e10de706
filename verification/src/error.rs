//! The error taxonomy of the engine. A single evaluator failure for one
//! policy is folded into that policy's result and never aborts the rest of a
//! request; pipeline-fatal conditions (timeout, upstream failure) surface as
//! hard errors so callers can tell "policy says no" from "the system could
//! not decide".

use crate::models::PolicyType;
use vstd::prelude::*;
use vstd::string::StringExecFns;

verus! {

/// Everything that can go wrong inside the engine.
#[derive(Clone, Debug, PartialEq, Eq)]
pub enum Error {
    /// Malformed or type-mismatched policy configuration.
    Config(String),
    /// No evaluator is registered for this policy type.
    UnsupportedPolicyType(PolicyType),
    /// A regex pattern failed to compile; carries the offending pattern.
    InvalidPattern(String),
    /// The per-request evaluation budget was exceeded.
    Timeout,
    /// The forwarding call to the upstream provider failed.
    Upstream(String),
    /// An evaluator failed internally.
    Evaluation(String),
}

impl Error {
    /// The human-readable description of this error.
    pub open spec fn spec_message(&self) -> Seq<char> {
        match self {
            Error::Config(m) => "Configuration error: "@ + m@,
            Error::UnsupportedPolicyType(t) => "No evaluator found for policy type: "@
                + t.spec_name(),
            Error::InvalidPattern(p) => "Invalid pattern: "@ + p@,
            Error::Timeout => "Evaluation timed out"@,
            Error::Upstream(m) => "Upstream error: "@ + m@,
            Error::Evaluation(m) => "Evaluation error: "@ + m@,
        }
    }

    /// Renders the description of this error.
    pub fn message(&self) -> (r: String)
        ensures
            r@ == self.spec_message(),
    {
        match self {
            Error::Config(m) => {
                let mut r = String::from_str("Configuration error: ");
                r.append(m.as_str());
                r
            },
            Error::UnsupportedPolicyType(t) => {
                let mut r = String::from_str("No evaluator found for policy type: ");
                r.append(t.name());
                r
            },
            Error::InvalidPattern(p) => {
                let mut r = String::from_str("Invalid pattern: ");
                r.append(p.as_str());
                r
            },
            Error::Timeout => String::from_str("Evaluation timed out"),
            Error::Upstream(m) => {
                let mut r = String::from_str("Upstream error: ");
                r.append(m.as_str());
                r
            },
            Error::Evaluation(m) => {
                let mut r = String::from_str("Evaluation error: ");
                r.append(m.as_str());
                r
            },
        }
    }
}

} // verus!
