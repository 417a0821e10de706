//! Validation of policy configuration documents. The caller parses the
//! document and hands over its top-level keys; the check asks only that the
//! field each policy type requires is present, and the error names the
//! missing field.

use crate::error::Error;
use crate::models::PolicyType;
use crate::text::{contains_str, string_views};
use vstd::prelude::*;
use vstd::string::StringExecFns;

verus! {

/// The top-level key a configuration document must hold for each policy
/// type.
pub open spec fn spec_required_config_key(t: PolicyType) -> Seq<char> {
    match t {
        PolicyType::KeywordFilter => "patterns"@,
        PolicyType::Performance => "min_length"@,
        PolicyType::ContentSafety => "toxicity_threshold"@,
        PolicyType::Semantic => "similarity_threshold"@,
    }
}

/// The top-level key a configuration document must hold for `t`.
pub fn required_config_key(t: &PolicyType) -> (r: &'static str)
    ensures
        r@ == spec_required_config_key(*t),
{
    match t {
        PolicyType::KeywordFilter => "patterns",
        PolicyType::Performance => "min_length",
        PolicyType::ContentSafety => "toxicity_threshold",
        PolicyType::Semantic => "similarity_threshold",
    }
}

/// Checks that a configuration document's top-level keys hold the field the
/// policy type requires; fails exactly when it is missing, naming it.
pub fn validate_config_keys(policy_type: &PolicyType, keys: &Vec<String>) -> (r: Result<
    (),
    Error,
>)
    ensures
        r is Ok <==> string_views(keys@).contains(spec_required_config_key(*policy_type)),
        r matches Err(e) ==> e matches Error::Config(m) && m@ == "Missing required field: "@
            + spec_required_config_key(*policy_type),
{
    let required = required_config_key(policy_type);
    if contains_str(keys, required) {
        Ok(())
    } else {
        let mut m = String::from_str("Missing required field: ");
        m.append(required);
        Err(Error::Config(m))
    }
}

} // verus!
