//! A verified canonical encoding of policy results, so that a verdict can be
//! stored or sent and read back exactly. Numbers are fixed-width decimal
//! (20 digits per 64-bit value, 128-bit values as two halves), strings are
//! length-prefixed; decoding inverts encoding, which
//! [`lemma_encode_decode_round_trip`] states and proves.

use crate::models::{
    DetailsModel, PolicyResult, PolicyResultModel, QualityScore, ViolationDetails,
    ViolationSeverity,
};
use crate::text::{chars_of, spec_digit, string_from_chars, string_views};
use vstd::prelude::*;
use vstd::string::StrSliceExecFns;

verus! {

/// Ten to the power `w`.
pub open spec fn pow10(w: nat) -> int
    decreases w,
{
    if w == 0 {
        1
    } else {
        10 * pow10((w - 1) as nat)
    }
}

/// Whether `c` is a decimal digit.
pub open spec fn is_digit(c: char) -> bool {
    c == '0' || c == '1' || c == '2' || c == '3' || c == '4' || c == '5' || c == '6' || c == '7'
        || c == '8' || c == '9'
}

/// The value of a digit character.
pub open spec fn digit_val(c: char) -> int {
    if c == '0' {
        0
    } else if c == '1' {
        1
    } else if c == '2' {
        2
    } else if c == '3' {
        3
    } else if c == '4' {
        4
    } else if c == '5' {
        5
    } else if c == '6' {
        6
    } else if c == '7' {
        7
    } else if c == '8' {
        8
    } else {
        9
    }
}

/// `n` in decimal, zero-padded to exactly `w` digits (modulo `10^w`).
pub open spec fn enc_nat(n: int, w: nat) -> Seq<char>
    decreases w,
{
    if w == 0 {
        Seq::empty()
    } else {
        enc_nat(n / 10, (w - 1) as nat).push(spec_digit(n % 10))
    }
}

/// Whether every character of `s` is a decimal digit.
pub open spec fn is_digit_seq(s: Seq<char>) -> bool {
    forall|i: int| 0 <= i < s.len() ==> is_digit(#[trigger] s[i])
}

/// The value of a digit sequence, most significant digit first.
pub open spec fn parse_nat(s: Seq<char>) -> int
    decreases s.len(),
{
    if s.len() == 0 {
        0
    } else {
        parse_nat(s.drop_last()) * 10 + digit_val(s.last())
    }
}

/// A fixed-width rendering has exactly its width.
pub proof fn lemma_enc_nat_len(n: int, w: nat)
    ensures
        enc_nat(n, w).len() == w,
    decreases w,
{
    if w > 0 {
        lemma_enc_nat_len(n / 10, (w - 1) as nat);
    }
}

/// A fixed-width rendering consists of digits.
pub proof fn lemma_enc_nat_digits(n: int, w: nat)
    ensures
        is_digit_seq(enc_nat(n, w)),
    decreases w,
{
    if w > 0 {
        lemma_enc_nat_digits(n / 10, (w - 1) as nat);
        lemma_enc_nat_len(n / 10, (w - 1) as nat);
        assert forall|i: int| 0 <= i < enc_nat(n, w).len() implies is_digit(
            #[trigger] enc_nat(n, w)[i],
        ) by {
            if i < w - 1 {
                assert(enc_nat(n, w)[i] == enc_nat(n / 10, (w - 1) as nat)[i]);
            } else {
                assert(enc_nat(n, w)[i] == spec_digit(n % 10));
            }
        }
    }
}

/// Parsing inverts fixed-width rendering for values in range.
pub proof fn lemma_parse_enc_nat(n: int, w: nat)
    requires
        0 <= n < pow10(w),
    ensures
        parse_nat(enc_nat(n, w)) == n,
    decreases w,
{
    if w == 0 {
        assert(pow10(0) == 1);
    } else {
        assert(pow10(w) == 10 * pow10((w - 1) as nat));
        assert(0 <= n / 10 && n / 10 < pow10((w - 1) as nat)) by (nonlinear_arith)
            requires
                0 <= n < 10 * pow10((w - 1) as nat),
        ;
        lemma_parse_enc_nat(n / 10, (w - 1) as nat);
        lemma_enc_nat_len(n / 10, (w - 1) as nat);
        let s = enc_nat(n, w);
        assert(s.drop_last() =~= enc_nat(n / 10, (w - 1) as nat));
        assert(s.last() == spec_digit(n % 10));
        assert(digit_val(spec_digit(n % 10)) == n % 10);
    }
}

/// The bound a 20-digit field stays under.
pub proof fn lemma_pow10_20()
    ensures
        pow10(20) == 0x56BC75E2D63100000,
{
    reveal_with_fuel(pow10, 21);
}

/// Writes `n` onto `out`, zero-padded to `width` digits.
fn push_fixed(out: &mut Vec<char>, n: u64, width: usize)
    requires
        width <= 20,
    ensures
        final(out)@ == old(out)@ + enc_nat(n as int, width as nat),
    decreases width,
{
    if width == 0 {
        proof {
            assert(out@ =~= out@ + Seq::<char>::empty());
        }
    } else {
        push_fixed(out, n / 10, width - 1);
        out.push(crate::text::digit_char((n % 10) as u8));
        proof {
            assert(out@ =~= old(out)@ + enc_nat(n as int, width as nat));
        }
    }
}

/// Reads a digit character's value.
fn char_digit(c: char) -> (r: Option<u8>)
    ensures
        r is Some <==> is_digit(c),
        r matches Some(d) ==> d as int == digit_val(c),
{
    if c == '0' {
        Some(0)
    } else if c == '1' {
        Some(1)
    } else if c == '2' {
        Some(2)
    } else if c == '3' {
        Some(3)
    } else if c == '4' {
        Some(4)
    } else if c == '5' {
        Some(5)
    } else if c == '6' {
        Some(6)
    } else if c == '7' {
        Some(7)
    } else if c == '8' {
        Some(8)
    } else if c == '9' {
        Some(9)
    } else {
        None
    }
}

/// A 20-digit field holding a 64-bit value, and what follows it.
pub open spec fn parse_u64_field(s: Seq<char>) -> Option<(int, Seq<char>)> {
    if s.len() >= 20 && is_digit_seq(s.take(20)) && parse_nat(s.take(20)) <= u64::MAX as int {
        Some((parse_nat(s.take(20)), s.skip(20)))
    } else {
        None
    }
}

/// Reads a 20-digit 64-bit field at `pos`.
fn p_u64(s: &Vec<char>, pos: usize) -> (r: Option<(u64, usize)>)
    requires
        pos <= s@.len(),
    ensures
        r is Some <==> parse_u64_field(s@.skip(pos as int)) is Some,
        r matches Some(vp) ==> vp.1 == pos + 20 && vp.1 <= s@.len() && parse_u64_field(
            s@.skip(pos as int),
        ) == Some((vp.0 as int, s@.skip(vp.1 as int))),
{
    let ghost t = s@.skip(pos as int);
    let total = s.len();
    if total - pos < 20 {
        return None;
    }
    let mut acc: u128 = 0;
    let mut i: usize = 0;
    proof {
        assert(t.take(0) =~= Seq::<char>::empty());
    }
    while i < 20
        invariant
            i <= 20,
            total == s@.len(),
            pos + 20 <= total,
            t == s@.skip(pos as int),
            (acc as int) == parse_nat(t.take(i as int)),
            (acc as int) < pow10(i as nat),
            forall|j: int| 0 <= j < i ==> is_digit(#[trigger] t[j]),
        decreases 20 - i,
    {
        let c = s[pos + i];
        proof {
            assert(t[i as int] == s@[pos + i]);
        }
        match char_digit(c) {
            Some(d) => {
                proof {
                    assert(t.take(i + 1).drop_last() =~= t.take(i as int));
                    assert(t.take(i + 1).last() == t[i as int]);
                    assert(pow10((i + 1) as nat) == 10 * pow10(i as nat));
                    assert((acc as int) * 10 + d < 10 * pow10(i as nat)) by (nonlinear_arith)
                        requires
                            (acc as int) < pow10(i as nat),
                            d < 10,
                    ;
                    lemma_pow10_20();
                    assert(pow10(i as nat) <= pow10(20)) by {
                        lemma_pow10_monotone(i as nat, 20);
                    }
                }
                acc = acc * 10 + (d as u128);
            },
            None => {
                proof {
                    if parse_u64_field(t) is Some {
                        assert(is_digit(t.take(20)[i as int]));
                        assert(false);
                    }
                }
                return None;
            },
        }
        i += 1;
    }
    proof {
        assert(t.take(20) =~= t.take(20));
        assert((acc as int) == parse_nat(t.take(20)));
    }
    if acc > 0xFFFFFFFFFFFFFFFFu128 {
        proof {
            if parse_u64_field(t) is Some {
                assert(false);
            }
        }
        None
    } else {
        proof {
            assert(t.skip(20) =~= s@.skip(pos + 20));
        }
        Some((acc as u64, pos + 20))
    }
}

/// Ten to the power is positive and monotone in the exponent.
pub proof fn lemma_pow10_monotone(a: nat, b: nat)
    requires
        a <= b,
    ensures
        1 <= pow10(a) <= pow10(b),
    decreases b,
{
    if b > 0 {
        if a == b {
            lemma_pow10_monotone((b - 1) as nat, (b - 1) as nat);
        } else {
            lemma_pow10_monotone(a, (b - 1) as nat);
        }
        assert(pow10(b) == 10 * pow10((b - 1) as nat));
        assert(pow10((b - 1) as nat) <= 10 * pow10((b - 1) as nat)) by (nonlinear_arith)
            requires
                pow10((b - 1) as nat) >= 1,
        ;
    }
}

/// Rendering a 64-bit value and reading it back returns it, whatever
/// follows.
pub proof fn lemma_u64_field_round_trip(n: int, rest: Seq<char>)
    requires
        0 <= n <= u64::MAX as int,
    ensures
        parse_u64_field(enc_nat(n, 20) + rest) == Some((n, rest)),
{
    lemma_enc_nat_len(n, 20);
    lemma_enc_nat_digits(n, 20);
    lemma_pow10_20();
    lemma_parse_enc_nat(n, 20);
    let s = enc_nat(n, 20) + rest;
    assert(s.take(20) =~= enc_nat(n, 20));
    assert(s.skip(20) =~= rest);
}

// ---------------------------------------------------------------------------
// Strings and string lists
// ---------------------------------------------------------------------------

/// A length-prefixed string field.
pub open spec fn enc_str(s: Seq<char>) -> Seq<char> {
    enc_nat(s.len() as int, 20) + s
}

/// Reads a length-prefixed string field, and what follows it.
pub open spec fn parse_str_field(s: Seq<char>) -> Option<(Seq<char>, Seq<char>)> {
    match parse_u64_field(s) {
        Some((n, rest)) => if rest.len() >= n {
            Some((rest.take(n), rest.skip(n)))
        } else {
            None
        },
        None => None,
    }
}

/// Rendering a string field and reading it back returns it.
pub proof fn lemma_str_field_round_trip(x: Seq<char>, rest: Seq<char>)
    requires
        x.len() <= u64::MAX,
    ensures
        parse_str_field(enc_str(x) + rest) == Some((x, rest)),
{
    assert(enc_str(x) + rest =~= enc_nat(x.len() as int, 20) + (x + rest));
    lemma_u64_field_round_trip(x.len() as int, x + rest);
    assert((x + rest).take(x.len() as int) =~= x);
    assert((x + rest).skip(x.len() as int) =~= rest);
}

/// The concatenation of the string fields of `l`, in order.
pub open spec fn enc_str_items(l: Seq<Seq<char>>) -> Seq<char>
    decreases l.len(),
{
    if l.len() == 0 {
        Seq::empty()
    } else {
        enc_str(l[0]) + enc_str_items(l.drop_first())
    }
}

/// A count-prefixed list of string fields.
pub open spec fn enc_str_list(l: Seq<Seq<char>>) -> Seq<char> {
    enc_nat(l.len() as int, 20) + enc_str_items(l)
}

/// Reads `n` string fields, and what follows them.
pub open spec fn parse_str_items(s: Seq<char>, n: int) -> Option<(Seq<Seq<char>>, Seq<char>)>
    decreases n,
{
    if n <= 0 {
        Some((Seq::empty(), s))
    } else {
        match parse_str_field(s) {
            Some((x, rest)) => match parse_str_items(rest, n - 1) {
                Some((xs, rest2)) => Some((seq![x] + xs, rest2)),
                None => None,
            },
            None => None,
        }
    }
}

/// Reads a count-prefixed list of string fields, and what follows it.
pub open spec fn parse_str_list(s: Seq<char>) -> Option<(Seq<Seq<char>>, Seq<char>)> {
    match parse_u64_field(s) {
        Some((n, rest)) => parse_str_items(rest, n),
        None => None,
    }
}

/// Rendering string items and reading them back returns them.
pub proof fn lemma_str_items_round_trip(l: Seq<Seq<char>>, rest: Seq<char>)
    requires
        forall|i: int| 0 <= i < l.len() ==> (#[trigger] l[i]).len() <= u64::MAX,
    ensures
        parse_str_items(enc_str_items(l) + rest, l.len() as int) == Some((l, rest)),
    decreases l.len(),
{
    if l.len() == 0 {
        assert(enc_str_items(l) + rest =~= rest);
        assert(Seq::<Seq<char>>::empty() =~= l);
    } else {
        let tail = l.drop_first();
        assert(enc_str_items(l) + rest =~= enc_str(l[0]) + (enc_str_items(tail) + rest));
        lemma_str_field_round_trip(l[0], enc_str_items(tail) + rest);
        assert(forall|i: int| 0 <= i < tail.len() ==> (#[trigger] tail[i]).len() <= u64::MAX);
        lemma_str_items_round_trip(tail, rest);
        assert(seq![l[0]] + tail =~= l);
    }
}

/// Rendering a string list and reading it back returns it.
pub proof fn lemma_str_list_round_trip(l: Seq<Seq<char>>, rest: Seq<char>)
    requires
        l.len() <= u64::MAX,
        forall|i: int| 0 <= i < l.len() ==> (#[trigger] l[i]).len() <= u64::MAX,
    ensures
        parse_str_list(enc_str_list(l) + rest) == Some((l, rest)),
{
    assert(enc_str_list(l) + rest =~= enc_nat(l.len() as int, 20) + (enc_str_items(l) + rest));
    lemma_u64_field_round_trip(l.len() as int, enc_str_items(l) + rest);
    lemma_str_items_round_trip(l, rest);
}

// ---------------------------------------------------------------------------
// Tags
// ---------------------------------------------------------------------------

/// The tag character of a severity.
pub open spec fn enc_severity(s: ViolationSeverity) -> char {
    match s {
        ViolationSeverity::Low => 'L',
        ViolationSeverity::Medium => 'M',
        ViolationSeverity::High => 'H',
        ViolationSeverity::Critical => 'C',
    }
}

/// The severity a tag character stands for.
pub open spec fn parse_severity(c: char) -> Option<ViolationSeverity> {
    if c == 'L' {
        Some(ViolationSeverity::Low)
    } else if c == 'M' {
        Some(ViolationSeverity::Medium)
    } else if c == 'H' {
        Some(ViolationSeverity::High)
    } else if c == 'C' {
        Some(ViolationSeverity::Critical)
    } else {
        None
    }
}

/// The tag character of a boolean.
pub open spec fn enc_bool(b: bool) -> char {
    if b {
        '1'
    } else {
        '0'
    }
}

/// The boolean a tag character stands for.
pub open spec fn parse_bool(c: char) -> Option<bool> {
    if c == '1' {
        Some(true)
    } else if c == '0' {
        Some(false)
    } else {
        None
    }
}

// ---------------------------------------------------------------------------
// Details and results
// ---------------------------------------------------------------------------

/// The encoding of violation details. A 128-bit value is carried as its two
/// 64-bit halves.
pub open spec fn enc_details(d: DetailsModel) -> Seq<char> {
    match d {
        DetailsModel::Keyword { violations, patterns_checked, case_sensitive } => seq![
            'K',
            enc_bool(case_sensitive),
        ] + enc_nat(patterns_checked, 20) + enc_str_list(violations),
        DetailsModel::Performance { quality_score, token_count, execution_time_ms, violations } => {
            seq!['Q'] + enc_nat(quality_score.num as int / 0x10000000000000000, 20) + enc_nat(
                quality_score.num as int % 0x10000000000000000,
                20,
            ) + enc_nat(quality_score.den as int / 0x10000000000000000, 20) + enc_nat(
                quality_score.den as int % 0x10000000000000000,
                20,
            ) + enc_nat(token_count as int, 20) + enc_nat(execution_time_ms as int, 20)
                + enc_str_list(violations)
        },
    }
}

/// Reads violation details, and what follows them.
pub open spec fn parse_details(s: Seq<char>) -> Option<(DetailsModel, Seq<char>)> {
    if s.len() < 2 {
        None
    } else if s[0] == 'K' {
        match parse_bool(s[1]) {
            Some(cs) => match parse_u64_field(s.skip(2)) {
                Some((pc, r1)) => if pc <= usize::MAX as int {
                    match parse_str_list(r1) {
                        Some((vs, r2)) => Some(
                            (
                                DetailsModel::Keyword {
                                    violations: vs,
                                    patterns_checked: pc,
                                    case_sensitive: cs,
                                },
                                r2,
                            ),
                        ),
                        None => None,
                    }
                } else {
                    None
                },
                None => None,
            },
            None => None,
        }
    } else if s[0] == 'Q' {
        match parse_u64_field(s.skip(1)) {
            Some((num_hi, r1)) => match parse_u64_field(r1) {
                Some((num_lo, r2)) => match parse_u64_field(r2) {
                    Some((den_hi, r3)) => match parse_u64_field(r3) {
                        Some((den_lo, r4)) => match parse_u64_field(r4) {
                            Some((tc, r5)) => if tc <= u32::MAX as int {
                                match parse_u64_field(r5) {
                                    Some((ms, r6)) => match parse_str_list(r6) {
                                        Some((vs, r7)) => Some(
                                            (
                                                DetailsModel::Performance {
                                                    quality_score: QualityScore {
                                                        num: (num_hi * 0x10000000000000000
                                                            + num_lo) as u128,
                                                        den: (den_hi * 0x10000000000000000
                                                            + den_lo) as u128,
                                                    },
                                                    token_count: tc as u32,
                                                    execution_time_ms: ms as u64,
                                                    violations: vs,
                                                },
                                                r7,
                                            ),
                                        ),
                                        None => None,
                                    },
                                    None => None,
                                }
                            } else {
                                None
                            },
                            None => None,
                        },
                        None => None,
                    },
                    None => None,
                },
                None => None,
            },
            None => None,
        }
    } else {
        None
    }
}

/// Whether every string and list in the mirror is small enough to carry a
/// 20-digit length, and every count fits its machine type. True of the
/// mirror of every value the engine builds.
pub open spec fn spec_model_bounded(m: PolicyResultModel) -> bool {
    match m {
        PolicyResultModel::Pass => true,
        PolicyResultModel::Error { message } => message.len() <= u64::MAX,
        PolicyResultModel::Violation { severity, message, confidence, details } => message.len()
            <= u64::MAX && (match details {
            None => true,
            Some(DetailsModel::Keyword { violations, patterns_checked, case_sensitive }) => 0
                <= patterns_checked <= usize::MAX && violations.len() <= u64::MAX && (forall|
                i: int,
            |
                0 <= i < violations.len() ==> (#[trigger] violations[i]).len() <= u64::MAX),
            Some(
                DetailsModel::Performance { quality_score, token_count, execution_time_ms, violations },
            ) => violations.len() <= u64::MAX && (forall|i: int|
                0 <= i < violations.len() ==> (#[trigger] violations[i]).len() <= u64::MAX),
        }),
    }
}

/// The canonical encoding of a policy-result mirror.
pub open spec fn spec_encode(m: PolicyResultModel) -> Seq<char> {
    match m {
        PolicyResultModel::Pass => seq!['P'],
        PolicyResultModel::Error { message } => seq!['E'] + enc_str(message),
        PolicyResultModel::Violation { severity, message, confidence, details } => seq![
            'V',
            enc_severity(severity),
        ] + enc_nat(confidence as int, 20) + enc_str(message) + (match details {
            None => seq!['N'],
            Some(d) => seq!['D'] + enc_details(d),
        }),
    }
}

/// Reads back a policy-result mirror; the whole input must be consumed.
pub open spec fn spec_decode(s: Seq<char>) -> Option<PolicyResultModel> {
    if s.len() == 0 {
        None
    } else if s[0] == 'P' {
        if s.len() == 1 {
            Some(PolicyResultModel::Pass)
        } else {
            None
        }
    } else if s[0] == 'E' {
        match parse_str_field(s.drop_first()) {
            Some((m, rest)) => if rest.len() == 0 {
                Some(PolicyResultModel::Error { message: m })
            } else {
                None
            },
            None => None,
        }
    } else if s[0] == 'V' {
        if s.len() < 2 {
            None
        } else {
            match parse_severity(s[1]) {
                Some(sev) => match parse_u64_field(s.skip(2)) {
                    Some((conf, r1)) => if conf <= u32::MAX as int {
                        match parse_str_field(r1) {
                            Some((msg, r2)) => if r2.len() == 1 && r2[0] == 'N' {
                                Some(
                                    PolicyResultModel::Violation {
                                        severity: sev,
                                        message: msg,
                                        confidence: conf as u32,
                                        details: None,
                                    },
                                )
                            } else if r2.len() >= 1 && r2[0] == 'D' {
                                match parse_details(r2.drop_first()) {
                                    Some((d, r3)) => if r3.len() == 0 {
                                        Some(
                                            PolicyResultModel::Violation {
                                                severity: sev,
                                                message: msg,
                                                confidence: conf as u32,
                                                details: Some(d),
                                            },
                                        )
                                    } else {
                                        None
                                    },
                                    None => None,
                                }
                            } else {
                                None
                            },
                            None => None,
                        }
                    } else {
                        None
                    },
                    None => None,
                },
                None => None,
            }
        }
    } else {
        None
    }
}

/// Rendering details and reading them back returns them.
#[verifier::rlimit(100)]
pub proof fn lemma_details_round_trip(d: DetailsModel, rest: Seq<char>)
    requires
        spec_model_bounded(
            PolicyResultModel::Violation {
                severity: ViolationSeverity::Low,
                message: Seq::empty(),
                confidence: 0,
                details: Some(d),
            },
        ),
    ensures
        parse_details(enc_details(d) + rest) == Some((d, rest)),
{
    match d {
        DetailsModel::Keyword { violations, patterns_checked, case_sensitive } => {
            let s = enc_details(d) + rest;
            assert(s.skip(2) =~= enc_nat(patterns_checked, 20) + (enc_str_list(violations)
                + rest));
            lemma_u64_field_round_trip(patterns_checked, enc_str_list(violations) + rest);
            lemma_str_list_round_trip(violations, rest);
            assert(s[0] == 'K');
            assert(parse_bool(s[1]) == Some(case_sensitive));
        },
        DetailsModel::Performance { quality_score, token_count, execution_time_ms, violations } => {
            let s = enc_details(d) + rest;
            let num_hi = quality_score.num as int / 0x10000000000000000;
            let num_lo = quality_score.num as int % 0x10000000000000000;
            let den_hi = quality_score.den as int / 0x10000000000000000;
            let den_lo = quality_score.den as int % 0x10000000000000000;
            let t1 = enc_nat(num_lo, 20) + enc_nat(den_hi, 20) + enc_nat(den_lo, 20) + enc_nat(
                token_count as int,
                20,
            ) + enc_nat(execution_time_ms as int, 20) + enc_str_list(violations) + rest;
            assert(num_hi <= u64::MAX && 0 <= num_hi && 0 <= num_lo <= u64::MAX && den_hi
                <= u64::MAX && 0 <= den_hi && 0 <= den_lo <= u64::MAX) by (nonlinear_arith)
                requires
                    num_hi == quality_score.num as int / 0x10000000000000000,
                    num_lo == quality_score.num as int % 0x10000000000000000,
                    den_hi == quality_score.den as int / 0x10000000000000000,
                    den_lo == quality_score.den as int % 0x10000000000000000,
                    0 <= (quality_score.num as int) < 0x100000000000000000000000000000000,
                    0 <= (quality_score.den as int) < 0x100000000000000000000000000000000,
            ;
            assert(s.skip(1) =~= enc_nat(num_hi, 20) + t1);
            lemma_u64_field_round_trip(num_hi, t1);
            let t2 = enc_nat(den_hi, 20) + enc_nat(den_lo, 20) + enc_nat(token_count as int, 20)
                + enc_nat(execution_time_ms as int, 20) + enc_str_list(violations) + rest;
            assert(t1 =~= enc_nat(num_lo, 20) + t2);
            lemma_u64_field_round_trip(num_lo, t2);
            let t3 = enc_nat(den_lo, 20) + enc_nat(token_count as int, 20) + enc_nat(
                execution_time_ms as int,
                20,
            ) + enc_str_list(violations) + rest;
            assert(t2 =~= enc_nat(den_hi, 20) + t3);
            lemma_u64_field_round_trip(den_hi, t3);
            let t4 = enc_nat(token_count as int, 20) + enc_nat(execution_time_ms as int, 20)
                + enc_str_list(violations) + rest;
            assert(t3 =~= enc_nat(den_lo, 20) + t4);
            lemma_u64_field_round_trip(den_lo, t4);
            let t5 = enc_nat(execution_time_ms as int, 20) + enc_str_list(violations) + rest;
            assert(t4 =~= enc_nat(token_count as int, 20) + t5);
            lemma_u64_field_round_trip(token_count as int, t5);
            let t6 = enc_str_list(violations) + rest;
            assert(t5 =~= enc_nat(execution_time_ms as int, 20) + t6);
            lemma_u64_field_round_trip(execution_time_ms as int, t6);
            lemma_str_list_round_trip(violations, rest);
            assert(num_hi * 0x10000000000000000 + num_lo == quality_score.num as int)
                by (nonlinear_arith)
                requires
                    num_hi == quality_score.num as int / 0x10000000000000000,
                    num_lo == quality_score.num as int % 0x10000000000000000,
                    0 <= (quality_score.num as int),
            ;
            assert(den_hi * 0x10000000000000000 + den_lo == quality_score.den as int)
                by (nonlinear_arith)
                requires
                    den_hi == quality_score.den as int / 0x10000000000000000,
                    den_lo == quality_score.den as int % 0x10000000000000000,
                    0 <= (quality_score.den as int),
            ;
            assert(s[0] == 'Q');
        },
    }
}

// ---------------------------------------------------------------------------
// Executable encoder
// ---------------------------------------------------------------------------

/// Writes a length-prefixed string field.
fn push_str_field(out: &mut Vec<char>, s: &String)
    ensures
        final(out)@ == old(out)@ + enc_str(s@),
{
    let cs = chars_of(s.as_str());
    let n = cs.len();
    push_fixed(out, n as u64, 20);
    let ghost mid = out@;
    let mut i: usize = 0;
    while i < cs.len()
        invariant
            i <= cs@.len(),
            cs@ == s@,
            mid == old(out)@ + enc_nat(s@.len() as int, 20),
            out@ == mid + cs@.take(i as int),
        decreases cs@.len() - i,
    {
        out.push(cs[i]);
        proof {
            assert(cs@.take(i + 1) =~= cs@.take(i as int).push(cs@[i as int]));
            assert(mid + cs@.take(i + 1) =~= (mid + cs@.take(i as int)).push(cs@[i as int]));
        }
        i += 1;
    }
    proof {
        assert(cs@.take(cs@.len() as int) =~= cs@);
        assert(out@ =~= old(out)@ + enc_str(s@));
    }
}

/// Writes a count-prefixed list of string fields.
fn push_str_list(out: &mut Vec<char>, l: &Vec<String>)
    ensures
        final(out)@ == old(out)@ + enc_str_list(string_views(l@)),
{
    push_fixed(out, l.len() as u64, 20);
    let ghost views = string_views(l@);
    let ghost base = out@;
    let mut i: usize = 0;
    proof {
        assert(views.skip(0) =~= views);
    }
    while i < l.len()
        invariant
            i <= l@.len(),
            views == string_views(l@),
            base + enc_str_items(views) =~= out@ + enc_str_items(views.skip(i as int)),
        decreases l@.len() - i,
    {
        let ghost rest = views.skip(i as int);
        proof {
            assert(rest[0] == views[i as int]);
            assert(views[i as int] == l@[i as int]@);
            assert(rest.drop_first() =~= views.skip(i + 1));
        }
        let ghost before = out@;
        push_str_field(out, &l[i]);
        proof {
            assert(enc_str_items(rest) =~= enc_str(views[i as int]) + enc_str_items(
                views.skip(i + 1),
            ));
            assert(before + (enc_str(views[i as int]) + enc_str_items(views.skip(i + 1)))
                =~= out@ + enc_str_items(views.skip(i + 1)));
            assert(base + enc_str_items(views) =~= out@ + enc_str_items(views.skip(i + 1)));
        }
        i += 1;
    }
    proof {
        assert(views.skip(views.len() as int) =~= Seq::<Seq<char>>::empty());
        assert(enc_str_items(views.skip(views.len() as int)) =~= Seq::<char>::empty());
        assert(out@ =~= old(out)@ + enc_str_list(views));
    }
}

/// Writes violation details.
fn push_details(out: &mut Vec<char>, d: &ViolationDetails)
    ensures
        final(out)@ == old(out)@ + enc_details(d.model()),
{
    match d {
        ViolationDetails::Keyword { violations, patterns_checked, case_sensitive } => {
            out.push('K');
            if *case_sensitive {
                out.push('1');
            } else {
                out.push('0');
            }
            push_fixed(out, *patterns_checked as u64, 20);
            push_str_list(out, violations);
            proof {
                assert(out@ =~= old(out)@ + enc_details(d.model()));
            }
        },
        ViolationDetails::Performance {
            quality_score,
            token_count,
            execution_time_ms,
            violations,
        } => {
            out.push('Q');
            let num = quality_score.num;
            let den = quality_score.den;
            let num_hi = (num / 0x10000000000000000u128) as u64;
            let num_lo = (num % 0x10000000000000000u128) as u64;
            let den_hi = (den / 0x10000000000000000u128) as u64;
            let den_lo = (den % 0x10000000000000000u128) as u64;
            proof {
                assert(num / 0x10000000000000000u128 <= 0xFFFFFFFFFFFFFFFFu128)
                    by (nonlinear_arith)
                    requires
                        num <= 0xFFFFFFFFFFFFFFFFFFFFFFFFFFFFFFFFu128,
                ;
                assert(den / 0x10000000000000000u128 <= 0xFFFFFFFFFFFFFFFFu128)
                    by (nonlinear_arith)
                    requires
                        den <= 0xFFFFFFFFFFFFFFFFFFFFFFFFFFFFFFFFu128,
                ;
            }
            push_fixed(out, num_hi, 20);
            push_fixed(out, num_lo, 20);
            push_fixed(out, den_hi, 20);
            push_fixed(out, den_lo, 20);
            push_fixed(out, *token_count as u64, 20);
            push_fixed(out, *execution_time_ms, 20);
            push_str_list(out, violations);
            proof {
                assert(out@ =~= old(out)@ + enc_details(d.model()));
            }
        },
    }
}

/// Encodes a policy result canonically; [`decode_result`] inverts it.
pub fn encode_result(v: &PolicyResult) -> (r: Vec<char>)
    ensures
        r@ == spec_encode(v.model()),
{
    let mut out: Vec<char> = Vec::new();
    match v {
        PolicyResult::Pass => {
            out.push('P');
            proof {
                assert(out@ =~= spec_encode(v.model()));
            }
        },
        PolicyResult::Error { message } => {
            out.push('E');
            push_str_field(&mut out, message);
            proof {
                assert(out@ =~= spec_encode(v.model()));
            }
        },
        PolicyResult::Violation { severity, message, confidence, details } => {
            out.push('V');
            let sev_char = match severity {
                ViolationSeverity::Low => 'L',
                ViolationSeverity::Medium => 'M',
                ViolationSeverity::High => 'H',
                ViolationSeverity::Critical => 'C',
            };
            out.push(sev_char);
            push_fixed(&mut out, *confidence as u64, 20);
            push_str_field(&mut out, message);
            match details {
                None => {
                    out.push('N');
                },
                Some(d) => {
                    out.push('D');
                    push_details(&mut out, d);
                },
            }
            proof {
                assert(out@ =~= spec_encode(v.model()));
            }
        },
    }
    out
}

// ---------------------------------------------------------------------------
// Executable decoder
// ---------------------------------------------------------------------------

/// Reads a length-prefixed string field at `pos`.
fn p_str(s: &Vec<char>, pos: usize) -> (r: Option<(String, usize)>)
    requires
        pos <= s@.len(),
    ensures
        r is Some <==> parse_str_field(s@.skip(pos as int)) is Some,
        r matches Some(vp) ==> pos <= vp.1 <= s@.len() && parse_str_field(s@.skip(pos as int))
            == Some((vp.0@, s@.skip(vp.1 as int))),
{
    let ghost t = s@.skip(pos as int);
    match p_u64(s, pos) {
        Some((n, p1)) => {
            let ghost rest = s@.skip(p1 as int);
            let avail = s.len() - p1;
            if n > avail as u64 {
                proof {
                    assert(rest.len() < n);
                }
                None
            } else {
                let total = s.len();
                let cnt = n as usize;
                let mut buf: Vec<char> = Vec::new();
                let mut j: usize = 0;
                proof {
                    assert(rest.take(0) =~= Seq::<char>::empty());
                }
                while j < cnt
                    invariant
                        j <= cnt,
                        total == s@.len(),
                        p1 + cnt <= total,
                        rest == s@.skip(p1 as int),
                        buf@ == rest.take(j as int),
                    decreases cnt - j,
                {
                    proof {
                        assert(rest[j as int] == s@[p1 + j]);
                        assert(rest.take(j + 1) =~= rest.take(j as int).push(rest[j as int]));
                    }
                    buf.push(s[p1 + j]);
                    j += 1;
                }
                let st = string_from_chars(&buf);
                proof {
                    assert(s@.skip(p1 + cnt) =~= rest.skip(cnt as int));
                }
                Some((st, p1 + cnt))
            }
        },
        None => None,
    }
}

/// Reads a count-prefixed list of string fields at `pos`.
fn p_str_vec(s: &Vec<char>, pos: usize) -> (r: Option<(Vec<String>, usize)>)
    requires
        pos <= s@.len(),
    ensures
        r is Some <==> parse_str_list(s@.skip(pos as int)) is Some,
        r matches Some(vp) ==> pos <= vp.1 <= s@.len() && parse_str_list(s@.skip(pos as int))
            == Some((string_views(vp.0@), s@.skip(vp.1 as int))),
{
    let ghost t = s@.skip(pos as int);
    match p_u64(s, pos) {
        Some((n, p1)) => {
            let ghost rest0 = s@.skip(p1 as int);
            let mut out: Vec<String> = Vec::new();
            let mut p: usize = p1;
            let mut k: u64 = 0;
            proof {
                assert(string_views(out@) =~= Seq::<Seq<char>>::empty());
                assert(Seq::<Seq<char>>::empty() + Seq::<Seq<char>>::empty()
                    =~= Seq::<Seq<char>>::empty());
            }
            while k < n
                invariant
                    k <= n,
                    pos <= p <= s@.len(),
                    pos <= s@.len(),
                    t == s@.skip(pos as int),
                    rest0 == s@.skip(p1 as int),
                    parse_u64_field(t) == Some((n as int, rest0)),
                    match parse_str_items(s@.skip(p as int), n as int - k as int) {
                        Some(xsfin) => parse_str_items(rest0, n as int) == Some(
                            (string_views(out@) + xsfin.0, xsfin.1),
                        ),
                        None => parse_str_items(rest0, n as int) is None,
                    },
                decreases n - k,
            {
                match p_str(s, p) {
                    Some((x, p2)) => {
                        let ghost before = string_views(out@);
                        out.push(x);
                        proof {
                            assert(string_views(out@) =~= before.push(out@.last()@));
                        }
                        p = p2;
                        proof {
                            match parse_str_items(s@.skip(p as int), n as int - k as int - 1) {
                                Some(xsfin) => {
                                    assert(before + (seq![out@.last()@] + xsfin.0)
                                        =~= string_views(out@) + xsfin.0);
                                },
                                None => {},
                            }
                        }
                    },
                    None => {
                        return None;
                    },
                }
                k += 1;
            }
            proof {
                assert(parse_str_items(s@.skip(p as int), 0) == Some(
                    (Seq::<Seq<char>>::empty(), s@.skip(p as int)),
                ));
                assert(string_views(out@) + Seq::<Seq<char>>::empty() =~= string_views(out@));
            }
            Some((out, p))
        },
        None => None,
    }
}

/// Reads violation details at `pos`.
fn p_details(s: &Vec<char>, pos: usize) -> (r: Option<(ViolationDetails, usize)>)
    requires
        pos <= s@.len(),
    ensures
        r is Some <==> parse_details(s@.skip(pos as int)) is Some,
        r matches Some(vp) ==> pos <= vp.1 <= s@.len() && parse_details(s@.skip(pos as int))
            == Some((vp.0.model(), s@.skip(vp.1 as int))),
{
    let ghost t = s@.skip(pos as int);
    if s.len() - pos < 2 {
        return None;
    }
    let tag = s[pos];
    proof {
        assert(t[0] == s@[pos as int]);
        assert(t[1] == s@[pos as int + 1]);
    }
    if tag == 'K' {
        let cs_char = s[pos + 1];
        let cs = if cs_char == '1' {
            true
        } else if cs_char == '0' {
            false
        } else {
            return None;
        };
        proof {
            assert(t.skip(2) =~= s@.skip(pos as int + 2));
        }
        match p_u64(s, pos + 2) {
            Some((pc, p1)) => {
                if pc > usize::MAX as u64 {
                    return None;
                }
                match p_str_vec(s, p1) {
                    Some((vs, p2)) => Some(
                        (
                            ViolationDetails::Keyword {
                                violations: vs,
                                patterns_checked: pc as usize,
                                case_sensitive: cs,
                            },
                            p2,
                        ),
                    ),
                    None => None,
                }
            },
            None => None,
        }
    } else if tag == 'Q' {
        proof {
            assert(t.skip(1) =~= s@.skip(pos as int + 1));
        }
        match p_u64(s, pos + 1) {
            Some((num_hi, p1)) => match p_u64(s, p1) {
                Some((num_lo, p2)) => match p_u64(s, p2) {
                    Some((den_hi, p3)) => match p_u64(s, p3) {
                        Some((den_lo, p4)) => match p_u64(s, p4) {
                            Some((tc, p5)) => {
                                if tc > u32::MAX as u64 {
                                    return None;
                                }
                                match p_u64(s, p5) {
                                    Some((ms, p6)) => match p_str_vec(s, p6) {
                                        Some((vs, p7)) => {
                                            let num = (num_hi as u128) * 0x10000000000000000u128
                                                + (num_lo as u128);
                                            let den = (den_hi as u128) * 0x10000000000000000u128
                                                + (den_lo as u128);
                                            proof {
                                                assert((num_hi as u128) * 0x10000000000000000u128
                                                    <= 0xFFFFFFFFFFFFFFFFu128
                                                    * 0x10000000000000000u128)
                                                    by (nonlinear_arith)
                                                    requires
                                                        num_hi as u128
                                                            <= 0xFFFFFFFFFFFFFFFFu128,
                                                ;
                                                assert((den_hi as u128) * 0x10000000000000000u128
                                                    <= 0xFFFFFFFFFFFFFFFFu128
                                                    * 0x10000000000000000u128)
                                                    by (nonlinear_arith)
                                                    requires
                                                        den_hi as u128
                                                            <= 0xFFFFFFFFFFFFFFFFu128,
                                                ;
                                            }
                                            Some(
                                                (
                                                    ViolationDetails::Performance {
                                                        quality_score: QualityScore { num, den },
                                                        token_count: tc as u32,
                                                        execution_time_ms: ms,
                                                        violations: vs,
                                                    },
                                                    p7,
                                                ),
                                            )
                                        },
                                        None => None,
                                    },
                                    None => None,
                                }
                            },
                            None => None,
                        },
                        None => None,
                    },
                    None => None,
                },
                None => None,
            },
            None => None,
        }
    } else {
        None
    }
}

/// Decodes a canonical policy-result encoding; returns the encoded result
/// exactly when the whole input is one well-formed encoding.
pub fn decode_result(s: &Vec<char>) -> (r: Option<PolicyResult>)
    ensures
        r is Some <==> spec_decode(s@) is Some,
        r matches Some(v) ==> spec_decode(s@) == Some(v.model()),
{
    if s.len() == 0 {
        return None;
    }
    let tag = s[0];
    if tag == 'P' {
        if s.len() == 1 {
            Some(PolicyResult::Pass)
        } else {
            None
        }
    } else if tag == 'E' {
        proof {
            assert(s@.skip(1) =~= s@.drop_first());
        }
        match p_str(s, 1) {
            Some((m, p)) => {
                if p == s.len() {
                    proof {
                        assert(s@.skip(p as int).len() == 0);
                    }
                    Some(PolicyResult::Error { message: m })
                } else {
                    proof {
                        assert(s@.skip(p as int).len() > 0);
                    }
                    None
                }
            },
            None => None,
        }
    } else if tag == 'V' {
        if s.len() < 2 {
            return None;
        }
        let sev_char = s[1];
        let sev = if sev_char == 'L' {
            ViolationSeverity::Low
        } else if sev_char == 'M' {
            ViolationSeverity::Medium
        } else if sev_char == 'H' {
            ViolationSeverity::High
        } else if sev_char == 'C' {
            ViolationSeverity::Critical
        } else {
            return None;
        };
        match p_u64(s, 2) {
            Some((conf, p1)) => {
                if conf > u32::MAX as u64 {
                    return None;
                }
                match p_str(s, p1) {
                    Some((msg, p2)) => {
                        let ghost r2 = s@.skip(p2 as int);
                        if p2 < s.len() {
                            let dtag = s[p2];
                            proof {
                                assert(r2[0] == s@[p2 as int]);
                            }
                            if dtag == 'N' && p2 + 1 == s.len() {
                                Some(
                                    PolicyResult::Violation {
                                        severity: sev,
                                        message: msg,
                                        confidence: conf as u32,
                                        details: None,
                                    },
                                )
                            } else if dtag == 'D' {
                                proof {
                                    assert(r2.drop_first() =~= s@.skip(p2 as int + 1));
                                }
                                match p_details(s, p2 + 1) {
                                    Some((d, p3)) => {
                                        if p3 == s.len() {
                                            proof {
                                                assert(s@.skip(p3 as int).len() == 0);
                                            }
                                            Some(
                                                PolicyResult::Violation {
                                                    severity: sev,
                                                    message: msg,
                                                    confidence: conf as u32,
                                                    details: Some(d),
                                                },
                                            )
                                        } else {
                                            proof {
                                                assert(s@.skip(p3 as int).len() > 0);
                                            }
                                            None
                                        }
                                    },
                                    None => None,
                                }
                            } else {
                                None
                            }
                        } else {
                            proof {
                                assert(r2.len() == 0);
                            }
                            None
                        }
                    },
                    None => None,
                }
            },
            None => None,
        }
    } else {
        None
    }
}

/// The round-trip law: decoding an encoded policy result returns it
/// exactly, for every result whose strings and counts are small enough to
/// encode (true of every result the engine builds).
pub proof fn lemma_encode_decode_round_trip(m: PolicyResultModel)
    requires
        spec_model_bounded(m),
    ensures
        spec_decode(spec_encode(m)) == Some(m),
{
    match m {
        PolicyResultModel::Pass => {
            assert(spec_encode(m).len() == 1);
            assert(spec_encode(m)[0] == 'P');
        },
        PolicyResultModel::Error { message } => {
            let s = spec_encode(m);
            assert(s[0] == 'E');
            assert(s.drop_first() =~= enc_str(message) + Seq::<char>::empty());
            lemma_str_field_round_trip(message, Seq::empty());
        },
        PolicyResultModel::Violation { severity, message, confidence, details } => {
            let s = spec_encode(m);
            assert(s[0] == 'V');
            assert(s[1] == enc_severity(severity));
            assert(parse_severity(enc_severity(severity)) == Some(severity));
            match details {
                None => {
                    let tail = enc_str(message) + seq!['N'];
                    assert(s.skip(2) =~= enc_nat(confidence as int, 20) + tail);
                    lemma_u64_field_round_trip(confidence as int, tail);
                    lemma_str_field_round_trip(message, seq!['N']);
                    assert(tail =~= enc_str(message) + seq!['N']);
                },
                Some(d) => {
                    let dtail = seq!['D'] + enc_details(d);
                    let tail = enc_str(message) + dtail;
                    assert(s.skip(2) =~= enc_nat(confidence as int, 20) + tail);
                    lemma_u64_field_round_trip(confidence as int, tail);
                    lemma_str_field_round_trip(message, dtail);
                    assert(dtail[0] == 'D');
                    assert(dtail.drop_first() =~= enc_details(d) + Seq::<char>::empty());
                    lemma_details_round_trip(d, Seq::empty());
                },
            }
        },
    }
}

} // verus!
