//! Character classes and the leaf recognisers of the assembly grammar.
//!
//! The recognisers are the ones of the `nom` crate. Each is called through a
//! small function whose contract states, over the character sequence of the
//! input, where `nom` splits it. Those contracts are believed, not proved;
//! everything built on them is proved.

use vstd::prelude::*;
use vstd::string::*;

verus! {

/// A space or a tab.
pub open spec fn is_blank(c: char) -> bool {
    c == ' ' || c == '\t'
}

/// An ASCII letter, of either case.
pub open spec fn is_letter(c: char) -> bool {
    ('a' <= c && c <= 'z') || ('A' <= c && c <= 'Z')
}

/// An ASCII decimal digit.
pub open spec fn is_digit(c: char) -> bool {
    '0' <= c && c <= '9'
}

/// How many characters at the front of `s` satisfy `class`.
pub open spec fn run_len(s: Seq<char>, class: spec_fn(char) -> bool) -> nat
    decreases s.len(),
{
    if s.len() > 0 && class(s[0]) {
        1 + run_len(s.drop_first(), class)
    } else {
        0
    }
}

/// The length of the longest prefix of `s` made of spaces and tabs.
pub open spec fn blank_run(s: Seq<char>) -> nat {
    run_len(s, |c: char| is_blank(c))
}

/// `s` without its leading spaces and tabs.
pub open spec fn skip_blanks(s: Seq<char>) -> Seq<char> {
    s.skip(blank_run(s) as int)
}

/// The length of the longest prefix of `s` made of ASCII letters.
pub open spec fn letter_run(s: Seq<char>) -> nat {
    run_len(s, |c: char| is_letter(c))
}

/// The length of the longest prefix of `s` made of ASCII decimal digits.
pub open spec fn digit_run(s: Seq<char>) -> nat {
    run_len(s, |c: char| is_digit(c))
}

/// A run is a prefix: it is no longer than the sequence, every character in
/// it belongs to the class, and the character after it, if any, does not.
pub proof fn lemma_run_len(s: Seq<char>, class: spec_fn(char) -> bool)
    ensures
        run_len(s, class) <= s.len(),
        forall|i: int| 0 <= i < run_len(s, class) ==> class(#[trigger] s[i]),
        run_len(s, class) < s.len() ==> !class(s[run_len(s, class) as int]),
    decreases s.len(),
{
    if s.len() > 0 && class(s[0]) {
        let t = s.drop_first();
        lemma_run_len(t, class);
        assert forall|i: int| 0 <= i < run_len(s, class) implies class(#[trigger] s[i]) by {
            if i > 0 {
                assert(s[i] == t[i - 1]);
            }
        }
        if run_len(s, class) < s.len() {
            assert(s[run_len(s, class) as int] == t[run_len(t, class) as int]);
        }
    }
}

/// What stands behind `sigil` at the front of `s`, after any spaces and
/// tabs: the remainder behind the digits, and the digits themselves, of
/// which there is at least one.
pub open spec fn spec_sigil_digits(sigil: Seq<char>, s: Seq<char>) -> Option<
    (Seq<char>, Seq<char>),
> {
    let start = skip_blanks(s);
    let body = start.skip(sigil.len() as int);
    let n = digit_run(body) as int;
    if sigil.is_prefix_of(start) && n > 0 {
        Some((body.skip(n), body.take(n)))
    } else {
        None
    }
}

/// Skipping blanks shortens or keeps the sequence, and leaves no blank at the
/// front, so that skipping again changes nothing.
pub proof fn lemma_skip_blanks(s: Seq<char>)
    ensures
        skip_blanks(s).len() <= s.len(),
        blank_run(skip_blanks(s)) == 0,
        skip_blanks(skip_blanks(s)) == skip_blanks(s),
{
    lemma_run_len(s, |c: char| is_blank(c));
    let t = skip_blanks(s);
    if t.len() > 0 {
        assert(t[0] == s[blank_run(s) as int]);
    }
    assert(t.skip(0) =~= t);
}

/// Where a sigil and digits are read, at least two characters are consumed.
pub proof fn lemma_sigil_digits(sigil: Seq<char>, s: Seq<char>)
    requires
        sigil.len() == 1,
    ensures
        spec_sigil_digits(sigil, s) matches Some(p) ==> p.0.len() + 2 <= s.len(),
{
    lemma_skip_blanks(s);
    let start = skip_blanks(s);
    let body = start.skip(1);
    lemma_run_len(body, |c: char| is_digit(c));
}

/// One or more characters, all of them decimal digits.
pub open spec fn is_decimal(s: Seq<char>) -> bool {
    s.len() > 0 && forall|i: int| 0 <= i < s.len() ==> is_digit(#[trigger] s[i])
}

/// The number that a sequence of decimal digits denotes.
pub open spec fn decimal_value(s: Seq<char>) -> nat
    decreases s.len(),
{
    if s.len() == 0 {
        0
    } else {
        decimal_value(s.drop_last()) * 10 + (s.last() as nat - '0' as nat) as nat
    }
}

/// Digits read so far never denote more than the whole sequence does.
pub proof fn lemma_decimal_value_grows(s: Seq<char>, j: int)
    requires
        0 <= j <= s.len(),
        forall|i: int| 0 <= i < s.len() ==> is_digit(#[trigger] s[i]),
    ensures
        decimal_value(s.take(j)) <= decimal_value(s),
    decreases s.len() - j,
{
    if j == s.len() {
        assert(s.take(j) =~= s);
    } else {
        lemma_decimal_value_grows(s, j + 1);
        let t = s.take(j + 1);
        assert(t.drop_last() =~= s.take(j));
        assert(is_digit(s[j]));
        assert(t.last() == s[j]);
    }
}

/// The characters of a string.
pub fn chars_of(s: &str) -> (v: Vec<char>)
    ensures
        v@ == s@,
{
    let mut v: Vec<char> = Vec::new();
    for c in it: s.chars()
        invariant
            it.seq() == s@,
            v@ == s@.take(it.index() as int),
    {
        assert(s@.take(it.index() + 1) =~= s@.take(it.index() as int).push(c));
        v.push(c);
    }
    assert(s@.take(s@.len() as int) =~= s@);
    v
}

/// Whether two strings hold the same characters.
pub fn str_eq(a: &str, b: &str) -> (r: bool)
    ensures
        r == (a@ == b@),
{
    let n = a.unicode_len();
    if b.unicode_len() != n {
        return false;
    }
    let mut i: usize = 0;
    while i < n
        invariant
            i <= n,
            n == a@.len(),
            n == b@.len(),
            forall|k: int| 0 <= k < i ==> a@[k] == b@[k],
        decreases n - i,
    {
        if a.get_char(i) != b.get_char(i) {
            return false;
        }
        i += 1;
    }
    assert(a@ =~= b@);
    true
}

/// The value of a decimal digit.
pub fn digit_of(c: char) -> (r: Option<u8>)
    ensures
        r is Some <==> is_digit(c),
        r matches Some(d) ==> d == c as nat - '0' as nat,
{
    let code: u32 = c as u32;
    if 48 <= code && code <= 57 {
        Some((code - 48) as u8)
    } else {
        None
    }
}

/// Reads a string of one or more decimal digits as a number no greater than
/// `limit`. Any other string, and any greater number, gives `None`.
pub fn parse_decimal(digits: &str, limit: u32) -> (r: Option<u32>)
    ensures
        r is Some <==> is_decimal(digits@) && decimal_value(digits@) <= limit,
        r matches Some(value) ==> value == decimal_value(digits@),
{
    let chars = chars_of(digits);
    let n = chars.len();
    if n == 0 {
        return None;
    }
    let mut acc: u64 = 0;
    let mut i: usize = 0;
    while i < n
        invariant
            i <= n,
            n == digits@.len(),
            chars@ == digits@,
            forall|k: int| 0 <= k < i ==> is_digit(#[trigger] digits@[k]),
            acc == decimal_value(digits@.take(i as int)),
            acc <= limit,
        decreases n - i,
    {
        let d: u64 = match digit_of(chars[i]) {
            Some(d) => d as u64,
            None => {
                return None;
            },
        };
        proof {
            let t = digits@.take(i + 1);
            assert(t.drop_last() =~= digits@.take(i as int));
            assert(t.last() == digits@[i as int]);
            assert(is_digit(digits@[i as int]));
        }
        let next: u64 = acc * 10 + d;
        if next > limit as u64 {
            proof {
                if is_decimal(digits@) {
                    lemma_decimal_value_grows(digits@, i + 1);
                }
            }
            return None;
        }
        acc = next;
        i += 1;
    }
    assert(digits@.take(n as int) =~= digits@);
    Some(acc as u32)
}

/// The error type of `nom`'s parsers.
#[verifier::external_type_specification]
#[verifier::external_body]
#[verifier::reject_recursive_types(E)]
pub struct ExNomErr<E>(nom::Err<E>);

/// The payload of `nom`'s default parse error.
#[verifier::external_type_specification]
#[verifier::external_body]
#[verifier::reject_recursive_types(I)]
pub struct ExNomError<I>(nom::error::Error<I>);

/// `nom::character::complete::space0` on a string slice. It never fails: it
/// splits the input after its longest prefix of spaces and tabs, and returns
/// the remainder first and the prefix second.
#[verifier::external_body]
pub(crate) fn space0(input: &str) -> (r: Result<(&str, &str), nom::Err<nom::error::Error<&str>>>)
    ensures
        r is Ok,
        r matches Ok(p) ==> p.0@ == input@.skip(blank_run(input@) as int),
        r matches Ok(p) ==> p.1@ == input@.take(blank_run(input@) as int),
{
    nom::character::complete::space0(input)
}

/// `nom::character::complete::alpha1` on a string slice. It succeeds exactly
/// when the input starts with an ASCII letter, and then splits the input
/// after its longest prefix of ASCII letters, remainder first.
#[verifier::external_body]
pub(crate) fn alpha1(input: &str) -> (r: Result<(&str, &str), nom::Err<nom::error::Error<&str>>>)
    ensures
        r is Ok <==> letter_run(input@) > 0,
        r matches Ok(p) ==> p.0@ == input@.skip(letter_run(input@) as int),
        r matches Ok(p) ==> p.1@ == input@.take(letter_run(input@) as int),
{
    nom::character::complete::alpha1(input)
}

/// `nom::character::complete::digit1` on a string slice. It succeeds exactly
/// when the input starts with an ASCII decimal digit, and then splits the
/// input after its longest prefix of such digits, remainder first.
#[verifier::external_body]
pub(crate) fn digit1(input: &str) -> (r: Result<(&str, &str), nom::Err<nom::error::Error<&str>>>)
    ensures
        r is Ok <==> digit_run(input@) > 0,
        r matches Ok(p) ==> p.0@ == input@.skip(digit_run(input@) as int),
        r matches Ok(p) ==> p.1@ == input@.take(digit_run(input@) as int),
{
    nom::character::complete::digit1(input)
}

/// `nom::bytes::complete::tag` on string slices. It succeeds exactly when the
/// input starts with `prefix`, and then splits the input after it, remainder
/// first.
#[verifier::external_body]
pub(crate) fn tag<'a>(prefix: &str, input: &'a str) -> (r: Result<
    (&'a str, &'a str),
    nom::Err<nom::error::Error<&'a str>>,
>)
    ensures
        r is Ok <==> prefix@.is_prefix_of(input@),
        r matches Ok(p) ==> p.0@ == input@.skip(prefix@.len() as int),
        r matches Ok(p) ==> p.1@ == prefix@,
{
    nom::bytes::complete::tag(prefix)(input)
}

/// The input without its leading spaces and tabs.
pub fn skip_space(input: &str) -> (rest: &str)
    ensures
        rest@ == skip_blanks(input@),
{
    match space0(input) {
        Ok((rest, _)) => rest,
        Err(_) => input,
    }
}

/// Reads `sigil` and the decimal digits behind it from the front of `input`,
/// after any spaces and tabs. Gives the digits and what follows them, or
/// `None` where the sigil or the first digit is missing.
pub fn sigil_digits<'a>(sigil: &str, input: &'a str) -> (r: Option<(&'a str, &'a str)>)
    ensures
        r is Some <==> spec_sigil_digits(sigil@, input@) is Some,
        r matches Some(p) ==> spec_sigil_digits(sigil@, input@) == Some((p.0@, p.1@)),
{
    let start = skip_space(input);
    let after_sigil = match tag(sigil, start) {
        Ok((rest, _)) => rest,
        Err(_) => { return None; },
    };
    match digit1(after_sigil) {
        Ok((rest, digits)) => Some((rest, digits)),
        Err(_) => None,
    }
}

} // verus!
