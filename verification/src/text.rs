//! String helpers used throughout the proxy core, with their meaning stated
//! over `Seq<char>`.

use crate::search::{first_match, lemma_first_match_bounds, lemma_first_match_is};
use vstd::prelude::*;

verus! {

/// The condition of being the character `c`.
pub open spec fn is_char(c: char) -> spec_fn(char) -> bool {
    |x: char| x == c
}

/// Position of the first occurrence of `c` in `s`, or `s.len()` when there is none.
pub open spec fn first_index_of(s: Seq<char>, c: char) -> int {
    first_match(s, is_char(c))
}

/// The pieces of `s` between occurrences of `sep`; always at least one piece.
pub open spec fn split(s: Seq<char>, sep: char) -> Seq<Seq<char>>
    decreases s.len(),
{
    let i = first_index_of(s, sep);
    if i >= s.len() {
        seq![s]
    } else {
        proof {
            lemma_first_match_bounds(s, is_char(sep));
        }
        seq![s.take(i)] + split(s.skip(i + 1), sep)
    }
}

/// The characters of `s`, one by one.
pub fn chars_of(s: &str) -> (out: Vec<char>)
    ensures
        out@ == s@,
{
    let mut out: Vec<char> = Vec::new();
    for c in it: s.chars()
        invariant
            out@ == it.seq().take(it.index()),
    {
        out.push(c);
    }
    out
}

/// Splits `s` at every `sep`, as `str::split` does for a single character.
pub fn split_on(s: &str, sep: char) -> (out: Vec<String>)
    ensures
        out.deep_view() == split(s@, sep),
{
    let chars = chars_of(s);
    let n = chars.len();
    let mut out: Vec<String> = Vec::new();
    let mut start: usize = 0;
    let mut pos: usize = 0;
    assert(s@.skip(0) =~= s@);
    assert(out.deep_view() =~= Seq::<Seq<char>>::empty());
    while pos < n
        invariant
            chars@ == s@,
            n == chars.len(),
            start <= pos <= n,
            forall|k: int| start <= k < pos ==> !is_char(sep)(#[trigger] chars@[k]),
            split(s@, sep) == out.deep_view() + split(s@.skip(start as int), sep),
        decreases n - pos,
    {
        if chars[pos] == sep {
            let piece = s.substring_char(start, pos).to_owned();
            proof {
                let rest = s@.skip(start as int);
                assert forall|k: int| 0 <= k < pos - start implies !is_char(sep)(
                    #[trigger] rest[k],
                ) by {
                    assert(rest[k] == chars@[start + k]);
                }
                lemma_first_match_is(rest, is_char(sep), pos - start);
                assert(rest.take(pos - start) =~= s@.subrange(start as int, pos as int));
                assert(rest.skip(pos - start + 1) =~= s@.skip(pos + 1));
                assert(out.deep_view().push(piece@) + split(s@.skip(pos + 1), sep)
                    =~= out.deep_view() + split(rest, sep));
            }
            let ghost before = out.deep_view();
            out.push(piece);
            assert(out.deep_view() =~= before.push(piece@));
            start = pos + 1;
        }
        pos = pos + 1;
    }
    let piece = s.substring_char(start, n).to_owned();
    proof {
        let rest = s@.skip(start as int);
        assert forall|k: int| 0 <= k < n - start implies !is_char(sep)(#[trigger] rest[k]) by {
            assert(rest[k] == chars@[start + k]);
        }
        lemma_first_match_is(rest, is_char(sep), n - start);
        assert(rest =~= s@.subrange(start as int, n as int));
    }
    let ghost before = out.deep_view();
    out.push(piece);
    assert(out.deep_view() =~= before.push(piece@));
    out
}

/// Whether `a` and `b` hold the same characters.
pub fn same_text(a: &str, b: &str) -> (r: bool)
    ensures
        r == (a@ == b@),
{
    let x = chars_of(a);
    let y = chars_of(b);
    if x.len() != y.len() {
        return false;
    }
    let mut i: usize = 0;
    while i < x.len()
        invariant
            x@ == a@,
            y@ == b@,
            i <= x.len() == y.len(),
            forall|k: int| 0 <= k < i ==> x@[k] == y@[k],
        decreases x.len() - i,
    {
        if x[i] != y[i] {
            return false;
        }
        i = i + 1;
    }
    assert(x@ =~= y@);
    true
}

/// `a` followed by `b`.
pub fn joined(a: &str, b: &str) -> (r: String)
    ensures
        r@ == a@ + b@,
{
    let mut r = a.to_owned();
    r.append(b);
    r
}

/// A copy of every string of `v`, in order.
pub fn clone_strings(v: &Vec<String>) -> (out: Vec<String>)
    ensures
        out.deep_view() == v.deep_view(),
{
    let mut out: Vec<String> = Vec::new();
    let mut i: usize = 0;
    while i < v.len()
        invariant
            i <= v.len(),
            out.len() == i,
            forall|k: int| 0 <= k < i ==> out[k]@ == v[k]@,
        decreases v.len() - i,
    {
        out.push(v[i].clone());
        i = i + 1;
    }
    assert(out.deep_view() =~= v.deep_view());
    out
}

/// The upper-case form of an ASCII lower-case letter; any other character unchanged.
pub open spec fn ascii_upper(c: char) -> char {
    if 'a' <= c <= 'z' {
        ((c as u32) - 32) as char
    } else {
        c
    }
}

/// Whether every character of `s` is ASCII.
pub open spec fn is_ascii_text(s: Seq<char>) -> bool {
    forall|i: int| 0 <= i < s.len() ==> (#[trigger] s[i]) <= '\u{7f}'
}

/// The lower-case form of an ASCII upper-case letter; any other character unchanged.
pub open spec fn ascii_lower(c: char) -> char {
    if 'A' <= c <= 'Z' {
        ((c as u32) + 32) as char
    } else {
        c
    }
}

/// `a` and `b` have the same length and agree up to the case of ASCII letters.
pub open spec fn eq_ignoring_ascii_case(a: Seq<char>, b: Seq<char>) -> bool {
    &&& a.len() == b.len()
    &&& forall|i: int| 0 <= i < a.len() ==> ascii_lower(#[trigger] a[i]) == ascii_lower(b[i])
}

fn to_ascii_lower(c: char) -> (r: char)
    ensures
        r == ascii_lower(c),
{
    if 'A' <= c && c <= 'Z' {
        ((c as u8) + 32) as char
    } else {
        c
    }
}

/// ASCII case-insensitive comparison, as `str::eq_ignore_ascii_case`.
pub fn eq_ignore_ascii_case(a: &str, b: &str) -> (r: bool)
    ensures
        r == eq_ignoring_ascii_case(a@, b@),
{
    let x = chars_of(a);
    let y = chars_of(b);
    if x.len() != y.len() {
        return false;
    }
    let mut i: usize = 0;
    while i < x.len()
        invariant
            x@ == a@,
            y@ == b@,
            i <= x.len() == y.len(),
            forall|k: int| 0 <= k < i ==> ascii_lower(#[trigger] x@[k]) == ascii_lower(y@[k]),
        decreases x.len() - i,
    {
        if to_ascii_lower(x[i]) != to_ascii_lower(y[i]) {
            assert(ascii_lower(a@[i as int]) != ascii_lower(b@[i as int]));
            return false;
        }
        i = i + 1;
    }
    true
}

/// Whether `c` has the Unicode property White_Space: the controls from
/// tabulator to carriage return, the space, next line, the no-break spaces,
/// the Ogham space mark, the spaces of fixed width, the line and paragraph
/// separators, the mathematical space and the ideographic space.
pub open spec fn unicode_whitespace(c: char) -> bool {
    ||| '\u{9}' <= c <= '\u{d}'
    ||| c == ' '
    ||| c == '\u{85}'
    ||| c == '\u{a0}'
    ||| c == '\u{1680}'
    ||| '\u{2000}' <= c <= '\u{200a}'
    ||| c == '\u{2028}'
    ||| c == '\u{2029}'
    ||| c == '\u{202f}'
    ||| c == '\u{205f}'
    ||| c == '\u{3000}'
}

/// `char::is_whitespace`: whether `c` has the White_Space property.
#[verifier::external_body]
fn is_whitespace(c: char) -> (r: bool)
    ensures
        r == unicode_whitespace(c),
{
    c.is_whitespace()
}

/// Number of characters at the start of `s` that all meet `wanted`.
pub open spec fn leading_count(s: Seq<char>, wanted: spec_fn(char) -> bool) -> nat
    decreases s.len(),
{
    if s.len() > 0 && wanted(s[0]) {
        1 + leading_count(s.drop_first(), wanted)
    } else {
        0
    }
}

/// Number of characters at the end of `s` that all meet `wanted`.
pub open spec fn trailing_count(s: Seq<char>, wanted: spec_fn(char) -> bool) -> nat
    decreases s.len(),
{
    if s.len() > 0 && wanted(s.last()) {
        1 + trailing_count(s.drop_last(), wanted)
    } else {
        0
    }
}

/// The whitespace characters.
pub open spec fn is_space() -> spec_fn(char) -> bool {
    |c: char| unicode_whitespace(c)
}

/// `s` without the whitespace at its start and at its end.
pub open spec fn trimmed(s: Seq<char>) -> Seq<char> {
    let rest = s.skip(leading_count(s, is_space()) as int);
    rest.take(rest.len() - trailing_count(rest, is_space()))
}

/// `n` characters lead `s` where the first `n` meet `wanted` and the next
/// one, if there is one, does not.
pub proof fn lemma_leading_count(s: Seq<char>, wanted: spec_fn(char) -> bool, n: int)
    requires
        0 <= n <= s.len(),
        forall|k: int| 0 <= k < n ==> wanted(#[trigger] s[k]),
        n == s.len() || !wanted(s[n]),
    ensures
        leading_count(s, wanted) == n,
    decreases s.len(),
{
    if n > 0 {
        let t = s.drop_first();
        assert forall|k: int| 0 <= k < n - 1 implies wanted(#[trigger] t[k]) by {
            assert(t[k] == s[k + 1]);
        }
        assert(wanted(s[0]));
        lemma_leading_count(t, wanted, n - 1);
    }
}

/// `n` characters trail `s` where the last `n` meet `wanted` and the one
/// before them, if there is one, does not.
pub proof fn lemma_trailing_count(s: Seq<char>, wanted: spec_fn(char) -> bool, n: int)
    requires
        0 <= n <= s.len(),
        forall|k: int| s.len() - n <= k < s.len() ==> wanted(#[trigger] s[k]),
        n == s.len() || !wanted(s[s.len() - n - 1]),
    ensures
        trailing_count(s, wanted) == n,
    decreases s.len(),
{
    if n > 0 {
        let t = s.drop_last();
        assert forall|k: int| t.len() - (n - 1) <= k < t.len() implies wanted(#[trigger] t[k]) by {
            assert(t[k] == s[k]);
        }
        assert(wanted(s[s.len() - 1]));
        lemma_trailing_count(t, wanted, n - 1);
    }
}

/// Removes leading and trailing whitespace, as `str::trim`.
pub fn trim(s: &str) -> (r: &str)
    ensures
        r@ == trimmed(s@),
{
    let chars = chars_of(s);
    let n = chars.len();
    let mut start: usize = 0;
    while start < n && is_whitespace(chars[start])
        invariant
            start <= n == chars.len(),
            forall|k: int| 0 <= k < start ==> is_space()(#[trigger] chars@[k]),
        decreases n - start,
    {
        start = start + 1;
    }
    let mut end: usize = n;
    while end > start && is_whitespace(chars[end - 1])
        invariant
            start <= end <= n == chars.len(),
            forall|k: int| end <= k < n ==> is_space()(#[trigger] chars@[k]),
        decreases end,
    {
        end = end - 1;
    }
    proof {
        lemma_leading_count(s@, is_space(), start as int);
        let rest = s@.skip(start as int);
        assert forall|k: int| rest.len() - (n - end) <= k < rest.len() implies is_space()(
            #[trigger] rest[k],
        ) by {
            assert(rest[k] == chars@[k + start]);
        }
        if n - end < rest.len() {
            assert(rest[rest.len() - (n - end) - 1] == chars@[end - 1]);
        }
        lemma_trailing_count(rest, is_space(), n - end);
        assert(rest.take(rest.len() - (n - end)) =~= s@.subrange(start as int, end as int));
    }
    s.substring_char(start, end)
}

/// The upper-case form of a string under Unicode's case mapping, which is
/// what `str::to_uppercase` returns.
pub uninterp spec fn uppercase(s: Seq<char>) -> Seq<char>;

/// The upper-case form of a string: for ASCII text the letters `a` to `z`
/// become `A` to `Z` and the rest stays; for any other text it is Unicode's
/// mapping.
pub open spec fn upper_case(s: Seq<char>) -> Seq<char> {
    if is_ascii_text(s) {
        s.map_values(|c: char| ascii_upper(c))
    } else {
        uppercase(s)
    }
}

/// `str::to_uppercase`: the result is the Unicode upper-case mapping of `s`,
/// which this library names and does not spell out but for ASCII text:
/// there it turns the letters `a` to `z` into `A` to `Z` and keeps the rest.
#[verifier::external_body]
pub(crate) fn to_uppercase(s: &str) -> (r: String)
    ensures
        r@ == uppercase(s@),
        is_ascii_text(s@) ==> r@ == s@.map_values(|c: char| ascii_upper(c)),
{
    s.to_uppercase()
}

/// The lower-case form of a string under Unicode's case mapping, which is
/// what `str::to_lowercase` returns.
pub uninterp spec fn lowercase(s: Seq<char>) -> Seq<char>;

/// The lower-case form of a string: for ASCII text the letters `A` to `Z`
/// become `a` to `z` and the rest stays; for any other text it is Unicode's
/// mapping.
pub open spec fn lower_case(s: Seq<char>) -> Seq<char> {
    if is_ascii_text(s) {
        s.map_values(|c: char| ascii_lower(c))
    } else {
        lowercase(s)
    }
}

/// `str::to_lowercase`: the result is the Unicode lower-case mapping of `s`,
/// which this library names and does not spell out but for ASCII text:
/// there it turns the letters `A` to `Z` into `a` to `z` and keeps the rest.
#[verifier::external_body]
pub(crate) fn to_lowercase(s: &str) -> (r: String)
    ensures
        r@ == lowercase(s@),
        is_ascii_text(s@) ==> r@ == s@.map_values(|c: char| ascii_lower(c)),
{
    s.to_lowercase()
}

/// Whether `c` is in one of Unicode's general categories for numbers, which
/// is what `char::is_numeric` reports.
pub uninterp spec fn unicode_numeric(c: char) -> bool;

/// `char::is_numeric`: the result is whether `c` is a Unicode number
/// character, which this library names and does not spell out.
#[verifier::external_body]
pub(crate) fn is_numeric(c: char) -> (r: bool)
    ensures
        r == unicode_numeric(c),
{
    c.is_numeric()
}

/// An ASCII decimal digit.
pub open spec fn is_digit(c: char) -> bool {
    '0' <= c <= '9'
}

/// The number that the digits of `s` spell in base ten.
pub open spec fn digits_value(s: Seq<char>) -> nat
    decreases s.len(),
{
    if s.len() == 0 {
        0
    } else {
        digits_value(s.drop_last()) * 10 + ((s.last() as u32) - ('0' as u32)) as nat
    }
}

/// The text of an unsigned number without its optional leading `+`.
pub open spec fn unsigned_digits(s: Seq<char>) -> Seq<char> {
    if s.len() > 0 && s[0] == '+' {
        s.drop_first()
    } else {
        s
    }
}

/// The unsigned number that `s` spells, when it does and the number is at
/// most `max`: an optional `+`, then one or more ASCII digits and nothing else.
pub open spec fn parse_unsigned(s: Seq<char>, max: nat) -> Option<nat> {
    let digits = unsigned_digits(s);
    if digits.len() > 0 && (forall|i: int| 0 <= i < digits.len() ==> is_digit(#[trigger] digits[i]))
        && digits_value(digits) <= max {
        Some(digits_value(digits))
    } else {
        None
    }
}

/// The digits of a number spell at least what any of their prefixes spells.
pub proof fn lemma_digits_value_prefix(s: Seq<char>, k: int)
    requires
        0 <= k <= s.len(),
        forall|i: int| 0 <= i < s.len() ==> is_digit(#[trigger] s[i]),
    ensures
        digits_value(s.take(k)) <= digits_value(s),
    decreases s.len() - k,
{
    if k == s.len() {
        assert(s.take(k) =~= s);
    } else {
        lemma_digits_value_prefix(s, k + 1);
        assert(s.take(k + 1).drop_last() =~= s.take(k));
        assert(is_digit(s[k]));
    }
}

/// Parses an unsigned decimal number of at most 64 bits, as `u64::from_str`.
pub fn parse_u64(s: &str) -> (r: Option<u64>)
    ensures
        r matches Some(v) ==> parse_unsigned(s@, u64::MAX as nat) == Some(v as nat),
        r is None ==> parse_unsigned(s@, u64::MAX as nat) is None,
{
    let chars = chars_of(s);
    let n = chars.len();
    let first: usize = if n > 0 && chars[0] == '+' { 1 } else { 0 };
    let ghost digits = unsigned_digits(s@);
    assert(digits =~= s@.skip(first as int));
    if first == n {
        return None;
    }
    let mut value: u64 = 0;
    let mut i: usize = first;
    assert(digits.take(0) =~= Seq::<char>::empty());
    while i < n
        invariant
            first <= i <= n == chars.len(),
            chars@ == s@,
            digits == s@.skip(first as int),
            digits == unsigned_digits(s@),
            forall|k: int| 0 <= k < i - first ==> is_digit(#[trigger] digits[k]),
            value == digits_value(digits.take(i - first)),
        decreases n - i,
    {
        let c = chars[i];
        assert(digits[i - first] == c);
        if !('0' <= c && c <= '9') {
            assert(!is_digit(digits[i - first]));
            return None;
        }
        let d: u64 = ((c as u32) - ('0' as u32)) as u64;
        proof {
            assert(digits.take(i - first + 1).drop_last() =~= digits.take(i - first));
            assert(digits.take(i - first + 1).last() == c);
        }
        if value > (u64::MAX - d) / 10 {
            proof {
                if forall|k: int| 0 <= k < digits.len() ==> is_digit(#[trigger] digits[k]) {
                    lemma_digits_value_prefix(digits, i - first + 1);
                }
            }
            return None;
        }
        value = value * 10 + d;
        i = i + 1;
    }
    assert(digits.take(n - first) =~= digits);
    Some(value)
}

/// The decimal digit for `d`.
pub open spec fn digit_char(d: nat) -> char
    recommends
        d < 10,
{
    (('0' as u32) + d) as char
}

/// `n` in decimal, without leading zeros.
pub open spec fn decimal(n: nat) -> Seq<char>
    decreases n,
{
    if n < 10 {
        seq![digit_char(n)]
    } else {
        decimal(n / 10).push(digit_char(n % 10))
    }
}

fn digit_text(d: u64) -> (r: &'static str)
    requires
        d < 10,
    ensures
        r@ == seq![digit_char(d as nat)],
{
    proof {
        reveal_strlit("0");
        reveal_strlit("1");
        reveal_strlit("2");
        reveal_strlit("3");
        reveal_strlit("4");
        reveal_strlit("5");
        reveal_strlit("6");
        reveal_strlit("7");
        reveal_strlit("8");
        reveal_strlit("9");
    }
    let r = if d == 0 {
        "0"
    } else if d == 1 {
        "1"
    } else if d == 2 {
        "2"
    } else if d == 3 {
        "3"
    } else if d == 4 {
        "4"
    } else if d == 5 {
        "5"
    } else if d == 6 {
        "6"
    } else if d == 7 {
        "7"
    } else if d == 8 {
        "8"
    } else {
        "9"
    };
    assert(r@ =~= seq![digit_char(d as nat)]);
    r
}

/// Writes `n` in decimal.
pub fn decimal_text(n: u64) -> (r: String)
    ensures
        r@ == decimal(n as nat),
    decreases n,
{
    if n < 10 {
        digit_text(n).to_owned()
    } else {
        let head = decimal_text(n / 10);
        let r = head.concat(digit_text(n % 10));
        assert(r@ =~= decimal(n as nat));
        r
    }
}

} // verus!
