//! Verified text utilities the evaluators are built on: character classes,
//! whitespace tokenization, distinct-word counting, and exact decimal
//! rendering for messages.

use vstd::prelude::*;
use vstd::string::StrSliceExecFns;
use vstd::string::StringExecFns;

verus! {

/// Whether `c` has the Unicode `White_Space` property (the set of code
/// points `char::is_whitespace` accepts).
pub open spec fn is_space_char(c: char) -> bool {
    c == ' ' || c == '\t' || c == '\n' || c == '\r' || c == '\u{000b}' || c == '\u{000c}'
        || c == '\u{0085}' || c == '\u{00a0}' || c == '\u{1680}' || ('\u{2000}' as int <= c as int
        <= '\u{200a}' as int) || c == '\u{2028}' || c == '\u{2029}' || c == '\u{202f}'
        || c == '\u{205f}' || c == '\u{3000}'
}

/// Relies on `char::is_whitespace`: true exactly on the Unicode
/// `White_Space` code points, which [`is_space_char`] enumerates.
#[verifier::external_body]
pub fn char_is_space(c: char) -> (r: bool)
    ensures
        r == is_space_char(c),
{
    c.is_whitespace()
}

/// Whether `c` has the Unicode `Uppercase` property. The set is too large to
/// enumerate here; it is a fixed function of the character alone.
pub uninterp spec fn is_upper_char(c: char) -> bool;

/// Relies on `char::is_uppercase`: true exactly on the code points with the
/// Unicode `Uppercase` property, named by [`is_upper_char`].
#[verifier::external_body]
pub fn char_is_upper(c: char) -> (r: bool)
    ensures
        r == is_upper_char(c),
{
    c.is_uppercase()
}

/// Relies on `String::push`: appends exactly one character.
#[verifier::external_body]
pub fn push_char(s: &mut String, c: char)
    ensures
        final(s)@ == old(s)@.push(c),
{
    s.push(c)
}

/// The characters of `s`, as a vector.
pub fn chars_of(s: &str) -> (r: Vec<char>)
    ensures
        r@ == s@,
{
    let n = s.unicode_len();
    let mut r: Vec<char> = Vec::new();
    let mut i: usize = 0;
    while i < n
        invariant
            i <= n,
            n == s@.len(),
            r@ == s@.take(i as int),
        decreases n - i,
    {
        let c = s.get_char(i);
        r.push(c);
        proof {
            assert(s@.take(i + 1) =~= s@.take(i as int).push(s@[i as int]));
        }
        i += 1;
    }
    proof {
        assert(s@.take(n as int) =~= s@);
    }
    r
}

/// A `String` holding exactly the characters of `v`.
pub fn string_from_chars(v: &Vec<char>) -> (r: String)
    ensures
        r@ == v@,
{
    let mut r = String::new();
    let mut i: usize = 0;
    while i < v.len()
        invariant
            i <= v.len(),
            r@ == v@.take(i as int),
        decreases v.len() - i,
    {
        push_char(&mut r, v[i]);
        proof {
            assert(v@.take(i + 1) =~= v@.take(i as int).push(v@[i as int]));
        }
        i += 1;
    }
    proof {
        assert(v@.take(v@.len() as int) =~= v@);
    }
    r
}

/// Whether two strings hold the same characters.
pub fn str_eq(a: &str, b: &str) -> (r: bool)
    ensures
        r == (a@ == b@),
{
    let na = a.unicode_len();
    let nb = b.unicode_len();
    if na != nb {
        return false;
    }
    let mut i: usize = 0;
    while i < na
        invariant
            i <= na,
            na == a@.len(),
            na == b@.len(),
            forall|j: int| 0 <= j < i ==> a@[j] == b@[j],
        decreases na - i,
    {
        if a.get_char(i) != b.get_char(i) {
            return false;
        }
        i += 1;
    }
    proof {
        assert(a@ =~= b@);
    }
    true
}

/// Whether two character vectors hold the same characters.
pub fn chars_eq(a: &Vec<char>, b: &Vec<char>) -> (r: bool)
    ensures
        r == (a@ == b@),
{
    if a.len() != b.len() {
        return false;
    }
    let mut i: usize = 0;
    while i < a.len()
        invariant
            i <= a.len(),
            a@.len() == b@.len(),
            forall|j: int| 0 <= j < i ==> a@[j] == b@[j],
        decreases a.len() - i,
    {
        if a[i] != b[i] {
            return false;
        }
        i += 1;
    }
    proof {
        assert(a@ =~= b@);
    }
    true
}

/// The views of a sequence of character vectors.
pub open spec fn word_views(ws: Seq<Vec<char>>) -> Seq<Seq<char>> {
    Seq::new(ws.len(), |i: int| ws[i]@)
}

/// The views of a sequence of strings.
pub open spec fn string_views(ss: Seq<String>) -> Seq<Seq<char>> {
    Seq::new(ss.len(), |i: int| ss[i]@)
}

/// Whether `list` holds a string with the characters of `s`.
pub fn contains_str(list: &Vec<String>, s: &str) -> (r: bool)
    ensures
        r == string_views(list@).contains(s@),
{
    let ghost vs = string_views(list@);
    let mut i: usize = 0;
    while i < list.len()
        invariant
            i <= list.len(),
            vs == string_views(list@),
            forall|j: int| 0 <= j < i ==> vs[j] != s@,
        decreases list.len() - i,
    {
        if str_eq(list[i].as_str(), s) {
            proof {
                assert(vs[i as int] == s@);
                assert(vs.contains(s@));
            }
            return true;
        }
        i += 1;
    }
    proof {
        if vs.contains(s@) {
            let k = choose|k: int| 0 <= k < vs.len() && vs[k] == s@;
            assert(false);
        }
    }
    false
}

/// A deep copy of a vector of strings.
pub fn clone_strings(v: &Vec<String>) -> (r: Vec<String>)
    ensures
        string_views(r@) == string_views(v@),
        r@.len() == v@.len(),
{
    let mut r: Vec<String> = Vec::new();
    let mut i: usize = 0;
    while i < v.len()
        invariant
            i <= v.len(),
            r@.len() == i,
            forall|j: int| 0 <= j < i ==> #[trigger] r@[j]@ == v@[j]@,
        decreases v.len() - i,
    {
        r.push(v[i].clone());
        i += 1;
    }
    proof {
        assert(string_views(r@) =~= string_views(v@));
    }
    r
}

/// The words of `s` after the characters in `cur` have been read into a
/// pending word: maximal runs of non-whitespace characters, in order.
pub open spec fn split_state(s: Seq<char>, cur: Seq<char>) -> Seq<Seq<char>>
    decreases s.len(),
{
    if s.len() == 0 {
        if cur.len() == 0 {
            Seq::empty()
        } else {
            seq![cur]
        }
    } else if is_space_char(s[0]) {
        if cur.len() == 0 {
            split_state(s.drop_first(), Seq::empty())
        } else {
            seq![cur] + split_state(s.drop_first(), Seq::empty())
        }
    } else {
        split_state(s.drop_first(), cur.push(s[0]))
    }
}

/// The whitespace-delimited words of `s`, in order.
pub open spec fn words_of(s: Seq<char>) -> Seq<Seq<char>> {
    split_state(s, Seq::empty())
}

/// Splits `chars` into its whitespace-delimited words.
pub fn split_words(chars: &Vec<char>) -> (words: Vec<Vec<char>>)
    ensures
        word_views(words@) == words_of(chars@),
        forall|k: int| 0 <= k < words@.len() ==> #[trigger] words@[k]@.len() > 0,
{
    let mut words: Vec<Vec<char>> = Vec::new();
    let mut cur: Vec<char> = Vec::new();
    let n = chars.len();
    let mut i: usize = 0;
    proof {
        assert(chars@.skip(0) =~= chars@);
        assert(word_views(words@) =~= Seq::<Seq<char>>::empty());
        assert(word_views(words@) + split_state(chars@, Seq::empty()) =~= split_state(
            chars@,
            Seq::empty(),
        ));
    }
    while i < n
        invariant
            i <= n,
            n == chars@.len(),
            words_of(chars@) == word_views(words@) + split_state(chars@.skip(i as int), cur@),
            forall|k: int| 0 <= k < words@.len() ==> #[trigger] words@[k]@.len() > 0,
        decreases n - i,
    {
        let ghost rest = chars@.skip(i as int);
        proof {
            assert(rest.drop_first() =~= chars@.skip(i + 1));
            assert(rest[0] == chars@[i as int]);
        }
        let c = chars[i];
        let ghost old_cur = cur@;
        if char_is_space(c) {
            if cur.len() > 0 {
                let ghost old_words = word_views(words@);
                let ghost w = cur@;
                words.push(cur);
                cur = Vec::new();
                proof {
                    assert(split_state(rest, w) == seq![w] + split_state(
                        chars@.skip(i + 1),
                        Seq::empty(),
                    ));
                    assert(word_views(words@) =~= old_words.push(w));
                    assert(old_words + (seq![w] + split_state(chars@.skip(i + 1), Seq::empty()))
                        =~= word_views(words@) + split_state(chars@.skip(i + 1), Seq::empty()));
                }
            } else {
                proof {
                    assert(old_cur =~= Seq::<char>::empty());
                    assert(split_state(rest, old_cur) == split_state(
                        chars@.skip(i + 1),
                        old_cur,
                    ));
                }
            }
        } else {
            cur.push(c);
            proof {
                assert(cur@ == old_cur.push(rest[0]));
                assert(split_state(rest, old_cur) == split_state(chars@.skip(i + 1), cur@));
            }
        }
        i += 1;
    }
    proof {
        assert(chars@.skip(n as int) =~= Seq::<char>::empty());
    }
    if cur.len() > 0 {
        let ghost old_words = word_views(words@);
        let ghost w = cur@;
        words.push(cur);
        proof {
            assert(word_views(words@) =~= old_words.push(w));
            assert(old_words + seq![w] =~= old_words.push(w));
        }
    } else {
        proof {
            assert(word_views(words@) + Seq::<Seq<char>>::empty() =~= word_views(words@));
        }
    }
    words
}

/// `s` without its leading whitespace.
pub open spec fn spec_trim_front(s: Seq<char>) -> Seq<char>
    decreases s.len(),
{
    if s.len() > 0 && is_space_char(s[0]) {
        spec_trim_front(s.drop_first())
    } else {
        s
    }
}

/// `s` without its trailing whitespace.
pub open spec fn spec_trim_back(s: Seq<char>) -> Seq<char>
    decreases s.len(),
{
    if s.len() > 0 && is_space_char(s.last()) {
        spec_trim_back(s.drop_last())
    } else {
        s
    }
}

/// `s` without leading and trailing whitespace.
pub open spec fn spec_trim(s: Seq<char>) -> Seq<char> {
    spec_trim_back(spec_trim_front(s))
}

/// Strips leading and trailing whitespace from `v`.
pub fn trim_chars(v: &Vec<char>) -> (r: Vec<char>)
    ensures
        r@ == spec_trim(v@),
{
    let mut start: usize = 0;
    proof {
        assert(v@.skip(0) =~= v@);
    }
    while start < v.len() && char_is_space(v[start])
        invariant
            start <= v@.len(),
            spec_trim_front(v@) == spec_trim_front(v@.skip(start as int)),
        decreases v@.len() - start,
    {
        proof {
            assert(v@.skip(start as int)[0] == v@[start as int]);
            assert(v@.skip(start as int).drop_first() =~= v@.skip(start + 1));
        }
        start += 1;
    }
    proof {
        if start < v@.len() {
            assert(v@.skip(start as int)[0] == v@[start as int]);
        }
        assert(spec_trim_front(v@) == v@.skip(start as int));
    }
    let ghost t = v@.skip(start as int);
    let mut end: usize = v.len();
    proof {
        assert(t.take(t.len() as int) =~= t);
    }
    while end > start && char_is_space(v[end - 1])
        invariant
            start <= end <= v@.len(),
            t == v@.skip(start as int),
            spec_trim_back(t) == spec_trim_back(t.take(end - start)),
        decreases end,
    {
        proof {
            let piece = t.take(end - start);
            assert(piece.last() == v@[end - 1]);
            assert(piece.drop_last() =~= t.take(end - 1 - start));
        }
        end -= 1;
    }
    proof {
        if end > start {
            assert(t.take(end - start).last() == v@[end - 1]);
        } else {
            assert(t.take(0) =~= Seq::<char>::empty());
        }
        assert(spec_trim_back(t) == t.take(end - start));
    }
    let mut r: Vec<char> = Vec::new();
    let mut i: usize = start;
    while i < end
        invariant
            start <= i <= end <= v@.len(),
            r@ == v@.subrange(start as int, i as int),
        decreases end - i,
    {
        r.push(v[i]);
        proof {
            assert(v@.subrange(start as int, i + 1) =~= v@.subrange(start as int, i as int).push(
                v@[i as int],
            ));
        }
        i += 1;
    }
    proof {
        assert(v@.subrange(start as int, end as int) =~= t.take(end - start));
    }
    r
}

/// How many distinct values `ws` holds.
pub open spec fn distinct_count(ws: Seq<Seq<char>>) -> nat
    decreases ws.len(),
{
    if ws.len() == 0 {
        0
    } else if ws.drop_last().contains(ws.last()) {
        distinct_count(ws.drop_last())
    } else {
        distinct_count(ws.drop_last()) + 1
    }
}

/// Counts the distinct words of `words`.
pub fn count_distinct(words: &Vec<Vec<char>>) -> (r: usize)
    ensures
        r == distinct_count(word_views(words@)),
{
    let ghost ws = word_views(words@);
    let mut r: usize = 0;
    let mut i: usize = 0;
    while i < words.len()
        invariant
            i <= words.len(),
            r <= i,
            ws == word_views(words@),
            r == distinct_count(ws.take(i as int)),
        decreases words.len() - i,
    {
        let mut seen = false;
        let mut j: usize = 0;
        while j < i
            invariant
                j <= i,
                i < words.len(),
                ws == word_views(words@),
                seen == exists|k: int| 0 <= k < j && ws[k] == ws[i as int],
            decreases i - j,
        {
            let ghost old_seen = seen;
            if chars_eq(&words[j], &words[i]) {
                seen = true;
            }
            proof {
                assert(ws[j as int] == words@[j as int]@);
                assert(ws[i as int] == words@[i as int]@);
                if seen {
                    if old_seen {
                        assert(exists|k: int| 0 <= k < j + 1 && ws[k] == ws[i as int]);
                    } else {
                        assert(ws[j as int] == ws[i as int]);
                        assert(exists|k: int| 0 <= k < j + 1 && ws[k] == ws[i as int]);
                    }
                }
            }
            j += 1;
        }
        proof {
            assert(ws.take(i + 1).drop_last() =~= ws.take(i as int));
            assert(ws.take(i + 1).last() == ws[i as int]);
            if seen {
                let k = choose|k: int| 0 <= k < i && ws[k] == ws[i as int];
                assert(ws.take(i as int)[k] == ws[i as int]);
                assert(ws.take(i as int).contains(ws[i as int]));
            } else {
                if ws.take(i as int).contains(ws[i as int]) {
                    let k = choose|k: int|
                        0 <= k < i && ws.take(i as int)[k] == ws[i as int];
                    assert(ws[k] == ws[i as int]);
                    assert(false);
                }
            }
            assert(seen == ws.take(i as int).contains(ws[i as int]));
        }
        if !seen {
            r += 1;
        }
        i += 1;
    }
    proof {
        assert(ws.take(ws.len() as int) =~= ws);
    }
    r
}

/// How many characters of `s` have the Unicode `Uppercase` property.
pub open spec fn upper_count(s: Seq<char>) -> nat
    decreases s.len(),
{
    if s.len() == 0 {
        0
    } else {
        upper_count(s.drop_last()) + if is_upper_char(s.last()) {
            1nat
        } else {
            0nat
        }
    }
}

/// Whether `c` ends a sentence.
pub open spec fn is_terminator_char(c: char) -> bool {
    c == '.' || c == '!' || c == '?'
}

/// How many characters of `s` end a sentence.
pub open spec fn terminator_count(s: Seq<char>) -> nat
    decreases s.len(),
{
    if s.len() == 0 {
        0
    } else {
        terminator_count(s.drop_last()) + if is_terminator_char(s.last()) {
            1nat
        } else {
            0nat
        }
    }
}

/// Counts the uppercase characters and the sentence terminators of `chars`.
pub fn count_upper_and_terminators(chars: &Vec<char>) -> (r: (usize, usize))
    ensures
        r.0 == upper_count(chars@),
        r.1 == terminator_count(chars@),
{
    let mut upper: usize = 0;
    let mut terms: usize = 0;
    let mut i: usize = 0;
    while i < chars.len()
        invariant
            i <= chars.len(),
            upper <= i,
            terms <= i,
            upper == upper_count(chars@.take(i as int)),
            terms == terminator_count(chars@.take(i as int)),
        decreases chars.len() - i,
    {
        let c = chars[i];
        proof {
            assert(chars@.take(i + 1).drop_last() =~= chars@.take(i as int));
            assert(chars@.take(i + 1).last() == chars@[i as int]);
        }
        if char_is_upper(c) {
            upper += 1;
        }
        if c == '.' || c == '!' || c == '?' {
            terms += 1;
        }
        i += 1;
    }
    proof {
        assert(chars@.take(chars@.len() as int) =~= chars@);
    }
    (upper, terms)
}

/// The decimal digit character for `d`.
pub open spec fn spec_digit(d: int) -> char {
    if d == 0 {
        '0'
    } else if d == 1 {
        '1'
    } else if d == 2 {
        '2'
    } else if d == 3 {
        '3'
    } else if d == 4 {
        '4'
    } else if d == 5 {
        '5'
    } else if d == 6 {
        '6'
    } else if d == 7 {
        '7'
    } else if d == 8 {
        '8'
    } else {
        '9'
    }
}

/// The shortest decimal rendering of `n` (for `n >= 0`).
pub open spec fn dec_str(n: int) -> Seq<char>
    decreases n,
{
    if n < 10 {
        seq![spec_digit(n)]
    } else {
        dec_str(n / 10).push(spec_digit(n % 10))
    }
}

/// The decimal digit character for `d`.
pub fn digit_char(d: u8) -> (r: char)
    requires
        d < 10,
    ensures
        r == spec_digit(d as int),
{
    match d {
        0 => '0',
        1 => '1',
        2 => '2',
        3 => '3',
        4 => '4',
        5 => '5',
        6 => '6',
        7 => '7',
        8 => '8',
        _ => '9',
    }
}

/// Renders `n` in decimal.
pub fn u128_to_dec(n: u128) -> (r: String)
    ensures
        r@ == dec_str(n as int),
    decreases n,
{
    if n < 10 {
        let mut s = String::new();
        push_char(&mut s, digit_char(n as u8));
        s
    } else {
        let mut s = u128_to_dec(n / 10);
        push_char(&mut s, digit_char((n % 10) as u8));
        s
    }
}

/// Renders `n` in decimal.
pub fn u64_to_dec(n: u64) -> (r: String)
    ensures
        r@ == dec_str(n as int),
{
    let r = u128_to_dec(n as u128);
    r
}

/// `parts` joined with a comma and a space between neighbours.
pub open spec fn join_comma(parts: Seq<Seq<char>>) -> Seq<char>
    decreases parts.len(),
{
    if parts.len() == 0 {
        Seq::empty()
    } else if parts.len() == 1 {
        parts[0]
    } else {
        join_comma(parts.drop_last()) + ", "@ + parts.last()
    }
}

/// Joins `parts` with `", "` between neighbours.
pub fn join_with_comma(parts: &Vec<String>) -> (r: String)
    ensures
        r@ == join_comma(string_views(parts@)),
{
    let ghost ps = string_views(parts@);
    let mut r = String::new();
    let mut i: usize = 0;
    while i < parts.len()
        invariant
            i <= parts.len(),
            ps == string_views(parts@),
            r@ == join_comma(ps.take(i as int)),
        decreases parts.len() - i,
    {
        if i > 0 {
            r.append(", ");
        }
        r.append(parts[i].as_str());
        proof {
            assert(ps[i as int] == parts@[i as int]@);
            assert(ps.take(i + 1).drop_last() =~= ps.take(i as int));
            assert(ps.take(i + 1).last() == ps[i as int]);
            if i == 0 {
                assert(r@ =~= join_comma(ps.take(1)));
            } else {
                assert(r@ =~= join_comma(ps.take(i as int)) + ", "@ + ps[i as int]);
            }
        }
        i += 1;
    }
    proof {
        assert(ps.take(ps.len() as int) =~= ps);
    }
    r
}

} // verus!
