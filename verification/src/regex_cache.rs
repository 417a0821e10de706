//! Compile-once cache of regex patterns, keyed by pattern text and case
//! sensitivity. A hit returns a handle to the already compiled pattern; a
//! miss compiles, stores and returns. The cache never evicts: unbounded
//! growth on unbounded pattern sets is a known tradeoff.
//!
//! Compiled matching itself comes from the regex crate and is trusted; its
//! results are named by [`regex_compiles`] and [`regex_first_match`], both
//! functions of the pattern, the case flag and the text alone.

use crate::text::str_eq;
use vstd::prelude::*;

verus! {

/// Declares `regex::Regex`, the regex crate's opaque compiled pattern.
#[verifier::external_type_specification]
#[verifier::external_body]
pub struct ExRegex(regex::Regex);

/// Whether the regex crate accepts `pattern` as a valid regex when compiled
/// with the given case sensitivity.
pub uninterp spec fn regex_compiles(pattern: Seq<char>, case_sensitive: bool) -> bool;

/// The text of the leftmost match of `pattern` in `text` under the given
/// case sensitivity, if any. Matching a compiled regex is a function of
/// these three arguments alone.
pub uninterp spec fn regex_first_match(
    pattern: Seq<char>,
    case_sensitive: bool,
    text: Seq<char>,
) -> Option<Seq<char>>;

/// Relies on `regex::RegexBuilder` (`new`, `case_insensitive`, `build`):
/// building succeeds exactly when the pattern is a valid regex under the
/// chosen case-insensitivity flag, named by [`regex_compiles`].
#[verifier::external_body]
fn build_regex(pattern: &str, case_sensitive: bool) -> (r: Option<regex::Regex>)
    ensures
        r is Some <==> regex_compiles(pattern@, case_sensitive),
{
    regex::RegexBuilder::new(pattern).case_insensitive(!case_sensitive).build().ok()
}

/// Relies on `regex::Regex::clone`: the clone runs the same compiled
/// program, so [`CompiledPattern::find_first`] answers for it exactly as for
/// the original.
#[verifier::external_body]
fn clone_regex(re: &regex::Regex) -> regex::Regex {
    re.clone()
}

/// A compiled pattern, together with the pattern text and case flag it was
/// compiled from. The `regex` field is only ever the output of
/// [`build_regex`] on `pattern` and `case_sensitive`.
pub struct CompiledPattern {
    regex: regex::Regex,
    pattern: String,
    case_sensitive: bool,
}

impl CompiledPattern {
    /// The pattern text this handle was compiled from.
    pub closed spec fn spec_pattern(&self) -> Seq<char> {
        self.pattern@
    }

    /// The case sensitivity this handle was compiled with.
    pub closed spec fn spec_case_sensitive(&self) -> bool {
        self.case_sensitive
    }

    /// A handle is well formed when its pattern is known to compile.
    pub open spec fn wf(&self) -> bool {
        regex_compiles(self.spec_pattern(), self.spec_case_sensitive())
    }

    /// The pattern text this handle was compiled from.
    pub fn pattern(&self) -> (r: &String)
        ensures
            r@ == self.spec_pattern(),
    {
        &self.pattern
    }

    /// The case sensitivity this handle was compiled with.
    pub fn case_sensitive(&self) -> (r: bool)
        ensures
            r == self.spec_case_sensitive(),
    {
        self.case_sensitive
    }

    /// A second handle to the same compiled program.
    pub(crate) fn duplicate(&self) -> (r: CompiledPattern)
        ensures
            r.spec_pattern() == self.spec_pattern(),
            r.spec_case_sensitive() == self.spec_case_sensitive(),
    {
        CompiledPattern {
            regex: clone_regex(&self.regex),
            pattern: self.pattern.clone(),
            case_sensitive: self.case_sensitive,
        }
    }

    /// Relies on `regex::Regex::find`: the leftmost match of the pattern in
    /// `text`, named by [`regex_first_match`].
    #[verifier::external_body]
    pub(crate) fn find_first(&self, text: &str) -> (r: Option<String>)
        ensures
            r is Some <==> regex_first_match(
                self.spec_pattern(),
                self.spec_case_sensitive(),
                text@,
            ) is Some,
            r is Some ==> r.unwrap()@ == regex_first_match(
                self.spec_pattern(),
                self.spec_case_sensitive(),
                text@,
            ).unwrap(),
    {
        self.regex.find(text).map(|m| m.as_str().to_string())
    }
}

/// Compiles `pattern`; on failure the error carries the offending pattern.
fn compile_pattern(pattern: &str, case_sensitive: bool) -> (r: Result<CompiledPattern, crate::error::Error>)
    ensures
        r is Ok <==> regex_compiles(pattern@, case_sensitive),
        r matches Ok(cp) ==> cp.spec_pattern() == pattern@ && cp.spec_case_sensitive()
            == case_sensitive,
        r matches Err(e) ==> e matches crate::error::Error::InvalidPattern(p) && p@ == pattern@,
{
    match build_regex(pattern, case_sensitive) {
        Some(re) => Ok(
            CompiledPattern { regex: re, pattern: pattern.to_owned(), case_sensitive },
        ),
        None => Err(crate::error::Error::InvalidPattern(pattern.to_owned())),
    }
}

/// The compile-once cache. Lookup cost is a scan of the stored keys;
/// a hit never compiles again.
pub struct RegexCache {
    entries: Vec<CompiledPattern>,
}

impl RegexCache {
    /// The cache keys, in insertion order: one per successful compilation.
    pub closed spec fn spec_keys(&self) -> Seq<(Seq<char>, bool)> {
        Seq::new(self.entries@.len(), |i: int| (self.entries@[i].spec_pattern(), self.entries@[i].spec_case_sensitive()))
    }

    /// Whether a compiled pattern for this key is cached.
    pub open spec fn spec_contains(&self, pattern: Seq<char>, case_sensitive: bool) -> bool {
        self.spec_keys().contains((pattern, case_sensitive))
    }

    /// How many patterns have been compiled into this cache.
    pub open spec fn spec_compile_count(&self) -> nat {
        self.spec_keys().len()
    }

    /// A cache is well formed when every stored pattern is known to compile.
    pub closed spec fn wf(&self) -> bool {
        forall|i: int|
            0 <= i < self.entries@.len() ==> (#[trigger] self.entries@[i]).wf()
    }

    /// An empty cache.
    pub fn new() -> (r: Self)
        ensures
            r.wf(),
            r.spec_keys() == Seq::<(Seq<char>, bool)>::empty(),
    {
        let r = RegexCache { entries: Vec::new() };
        proof {
            assert(r.spec_keys() =~= Seq::<(Seq<char>, bool)>::empty());
        }
        r
    }

    /// How many patterns have been compiled into this cache.
    pub fn compile_count(&self) -> (r: usize)
        ensures
            r == self.spec_compile_count(),
    {
        self.entries.len()
    }

    /// Returns a compiled pattern for `(pattern, case_sensitive)`. On a hit
    /// the cached program is handed out and nothing is compiled; on a miss
    /// the pattern is compiled and cached. Fails exactly when the pattern is
    /// not a valid regex, with an error carrying the offending pattern.
    pub fn compile(&mut self, pattern: &str, case_sensitive: bool) -> (r: Result<
        CompiledPattern,
        crate::error::Error,
    >)
        requires
            old(self).wf(),
        ensures
            final(self).wf(),
            r is Ok <==> regex_compiles(pattern@, case_sensitive),
            r matches Ok(cp) ==> cp.spec_pattern() == pattern@ && cp.spec_case_sensitive()
                == case_sensitive && cp.wf(),
            r matches Err(e) ==> e matches crate::error::Error::InvalidPattern(p) && p@ == pattern@,
            old(self).spec_contains(pattern@, case_sensitive) ==> final(self).spec_keys()
                == old(self).spec_keys(),
            r is Err ==> final(self).spec_keys() == old(self).spec_keys(),
            !old(self).spec_contains(pattern@, case_sensitive) && r is Ok
                ==> final(self).spec_keys() == old(self).spec_keys().push(
                (pattern@, case_sensitive),
            ),
    {
        let n = self.entries.len();
        let mut i: usize = 0;
        while i < n
            invariant
                i <= n,
                n == self.entries@.len(),
                self.wf(),
                self == old(self),
                forall|j: int|
                    0 <= j < i ==> #[trigger] self.spec_keys()[j] != (
                        pattern@,
                        case_sensitive,
                    ),
            decreases n - i,
        {
            let hit = {
                let entry = &self.entries[i];
                case_sensitive == entry.case_sensitive() && str_eq(
                    pattern,
                    entry.pattern().as_str(),
                )
            };
            if hit {
                proof {
                    assert(self.spec_keys()[i as int] == (pattern@, case_sensitive));
                    assert(self.spec_contains(pattern@, case_sensitive));
                    assert(self.entries@[i as int].wf());
                }
                let cp = self.entries[i].duplicate();
                return Ok(cp);
            }
            proof {
                assert(self.spec_keys()[i as int] == (
                    self.entries@[i as int].spec_pattern(),
                    self.entries@[i as int].spec_case_sensitive(),
                ));
            }
            i += 1;
        }
        proof {
            if old(self).spec_contains(pattern@, case_sensitive) {
                let k = choose|k: int|
                    0 <= k < old(self).spec_keys().len() && old(self).spec_keys()[k] == (
                        pattern@,
                        case_sensitive,
                    );
                assert(false);
            }
        }
        match compile_pattern(pattern, case_sensitive) {
            Ok(cp) => {
                let ghost old_keys = self.spec_keys();
                let out = cp.duplicate();
                self.entries.push(cp);
                proof {
                    assert(self.spec_keys() =~= old_keys.push((pattern@, case_sensitive)));
                    assert forall|k: int| 0 <= k < self.entries@.len() implies (
                    #[trigger] self.entries@[k]).wf() by {
                        if k < self.entries@.len() - 1 {
                            assert(self.entries@[k] == old(self).entries@[k]);
                        }
                    }
                }
                Ok(out)
            },
            Err(e) => Err(e),
        }
    }
}

} // verus!
