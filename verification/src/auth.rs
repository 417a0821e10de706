//! Credential-format rules, checked before a key is stored or sent
//! anywhere.

use vstd::prelude::*;
use vstd::string::StrSliceExecFns;

verus! {

/// Whether `s` has the shape of an API key: it starts with `sk_`.
pub open spec fn spec_api_key_format(s: Seq<char>) -> bool {
    s.len() >= 3 && s[0] == 's' && s[1] == 'k' && s[2] == '_'
}

/// Checks the shape of an API key.
pub fn api_key_format_valid(key: &str) -> (r: bool)
    ensures
        r == spec_api_key_format(key@),
{
    let n = key.unicode_len();
    if n < 3 {
        return false;
    }
    key.get_char(0) == 's' && key.get_char(1) == 'k' && key.get_char(2) == '_'
}

} // verus!
