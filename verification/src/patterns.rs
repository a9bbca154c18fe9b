//! Glob patterns and regular expressions.

use crate::text::{from_chars, opt_text, texts, to_chars};
use vstd::prelude::*;

verus! {

/// What `glob::Pattern::new` says against a pattern; nothing where it accepts it.
pub uninterp spec fn glob_problem(pattern: Seq<char>) -> Option<Seq<char>>;

/// Whether `glob::Pattern::matches_with` finds that a path matches a pattern, under the
/// options that letter case counts, that a wildcard does not match a path separator, and
/// that a leading dot has to be matched literally.
pub uninterp spec fn glob_matches(
    pattern: Seq<char>,
    path: Seq<char>,
    case_sensitive: bool,
    literal_separator: bool,
    literal_leading_dot: bool,
) -> bool;

/// `glob::Pattern::new`: what it says against a pattern depends on the pattern alone.
#[verifier::external_body]
pub(crate) fn glob_error(pattern: &str) -> (r: Option<String>)
    ensures
        opt_text(r) == glob_problem(pattern@),
{
    glob::Pattern::new(pattern).err().map(|e| e.to_string())
}

/// `glob::Pattern::matches_with`: the result depends on the pattern, the path and the options
/// alone. Nothing matches a pattern that is not accepted.
#[verifier::external_body]
pub(crate) fn glob_match(
    pattern: &str,
    path: &str,
    case_sensitive: bool,
    literal_separator: bool,
    literal_leading_dot: bool,
) -> (r: bool)
    ensures
        r == glob_matches(
            pattern@,
            path@,
            case_sensitive,
            literal_separator,
            literal_leading_dot,
        ),
{
    let options = glob::MatchOptions {
        case_sensitive,
        require_literal_separator: literal_separator,
        require_literal_leading_dot: literal_leading_dot,
    };
    glob::Pattern::new(pattern).map_or(false, |p| p.matches_with(path, options))
}

/// A compiled regular expression of the `regex` crate.
#[verifier::external_type_specification]
#[verifier::external_body]
pub struct ExRegex(regex::Regex);

/// What decides the matches of a regular expression: of one that `regex::Regex::new` made,
/// the pattern that it was made from.
pub uninterp spec fn regex_pattern(re: regex::Regex) -> Seq<char>;

/// What `regex::Regex::new` says against a pattern; nothing where it compiles it.
pub uninterp spec fn regex_problem(pattern: Seq<char>) -> Option<Seq<char>>;

/// Whether `regex::Regex::is_match` finds a match of the pattern in a text.
pub uninterp spec fn regex_matches(pattern: Seq<char>, text: Seq<char>) -> bool;

/// The text that `regex::Regex::replace_all` makes of a text and a replacement.
pub uninterp spec fn regex_replaced(pattern: Seq<char>, text: Seq<char>, with: Seq<char>) -> Seq<
    char,
>;

/// What the first group holds in the first match that `regex::Regex::captures` finds.
pub uninterp spec fn regex_group(pattern: Seq<char>, text: Seq<char>) -> Option<Seq<char>>;

/// The pieces that `regex::Regex::split` finds between the matches in a text.
pub uninterp spec fn regex_pieces(pattern: Seq<char>, text: Seq<char>) -> Seq<Seq<char>>;

/// What the first group holds in each match that `regex::Regex::captures_iter` finds.
pub uninterp spec fn regex_groups(pattern: Seq<char>, text: Seq<char>) -> Seq<Seq<char>>;

/// `regex::Regex::new`: whether a pattern compiles, and what is said against it, depends on
/// the pattern alone; the result keeps the pattern.
#[verifier::external_body]
pub(crate) fn compile_regex(pattern: &str) -> (r: Result<regex::Regex, String>)
    ensures
        match r {
            Ok(re) => regex_problem(pattern@) is None && regex_pattern(re) == pattern@,
            Err(e) => regex_problem(pattern@) == Some(e@),
        },
{
    regex::Regex::new(pattern).map_err(|e| e.to_string())
}

/// `regex::Regex::is_match`: the result depends on the pattern and the text alone.
#[verifier::external_body]
pub(crate) fn regex_is_match(re: &regex::Regex, text: &str) -> (r: bool)
    ensures
        r == regex_matches(regex_pattern(*re), text@),
{
    re.is_match(text)
}

/// `regex::Regex::replace_all`: the result depends on the pattern, the text and the
/// replacement alone.
#[verifier::external_body]
pub(crate) fn regex_replace_all(re: &regex::Regex, text: &str, with: &str) -> (r: String)
    ensures
        r@ == regex_replaced(regex_pattern(*re), text@, with@),
{
    re.replace_all(text, with).into_owned()
}

/// `regex::Regex::captures`: what the first group of the first match holds depends on the
/// pattern and the text alone.
#[verifier::external_body]
pub(crate) fn regex_first_group(re: &regex::Regex, text: &str) -> (r: Option<String>)
    ensures
        opt_text(r) == regex_group(regex_pattern(*re), text@),
{
    re.captures(text).and_then(|c| c.get(1).map(|m| m.as_str().to_string()))
}

/// `regex::Regex::split`: the pieces depend on the pattern and the text alone, and there is one
/// more of them than there are matches.
#[verifier::external_body]
pub(crate) fn regex_split(re: &regex::Regex, text: &str) -> (r: Vec<String>)
    ensures
        texts(r@) == regex_pieces(regex_pattern(*re), text@),
        r@.len() == regex_groups(regex_pattern(*re), text@).len() + 1,
{
    re.split(text).map(|s| s.to_string()).collect()
}

/// `regex::Regex::captures_iter`: what the first group holds in each match, in order, depends
/// on the pattern and the text alone.
#[verifier::external_body]
pub(crate) fn regex_first_groups(re: &regex::Regex, text: &str) -> (r: Vec<String>)
    ensures
        texts(r@) == regex_groups(regex_pattern(*re), text@),
{
    re.captures_iter(text).map(|c| c.get(1).map_or("", |m| m.as_str()).to_string()).collect()
}

/// The text with each match replaced; as it is where the pattern does not compile.
pub open spec fn replaced_by(pattern: Seq<char>, text: Seq<char>, with: Seq<char>) -> Seq<char> {
    if regex_problem(pattern) is None {
        regex_replaced(pattern, text, with)
    } else {
        text
    }
}

/// The text with each match replaced.
pub fn replace_matches(pattern: &str, text: &str, with: &str) -> (r: String)
    ensures
        r@ == replaced_by(pattern@, text@, with@),
{
    match compile_regex(pattern) {
        Ok(re) => regex_replace_all(&re, text, with),
        Err(_) => crate::text::owned(text),
    }
}

/// The value of a digit in a base up to sixteen.
pub open spec fn digit_value(c: char) -> Option<int> {
    if '0' <= c && c <= '9' {
        Some(c as int - 48)
    } else if 'a' <= c && c <= 'f' {
        Some(c as int - 87)
    } else if 'A' <= c && c <= 'F' {
        Some(c as int - 55)
    } else {
        None
    }
}

/// The number that digits spell in a base; nothing where one is no digit.
pub open spec fn number_of(s: Seq<char>, base: int) -> Option<int>
    decreases s.len(),
{
    if s.len() == 0 {
        Some(0)
    } else {
        match (number_of(s.drop_last(), base), digit_value(s.last())) {
            (Some(n), Some(d)) => if d < base {
                Some(n * base + d)
            } else {
                None
            },
            _ => None,
        }
    }
}

/// Whether the number is that of a character.
pub open spec fn is_scalar(n: int) -> bool {
    0 <= n < 0xd800 || 0xe000 <= n <= 0x10ffff
}

/// `char::from_u32`: the character with the number, where there is one.
pub assume_specification[ char::from_u32 ](n: u32) -> (r: Option<char>)
    ensures
        r == if is_scalar(n as int) {
            Some(n as char)
        } else {
            None
        },
;

/// The character whose number a text spells, in decimal or, behind an `x`, in hexadecimal;
/// nothing where there is none.
pub open spec fn numbered_char(s: Seq<char>) -> Seq<char> {
    let hex = s.len() > 0 && (s[0] == 'x' || s[0] == 'X');
    let digits = if hex {
        s.skip(1)
    } else {
        s
    };
    let n = number_of(
        digits,
        if hex {
            16
        } else {
            10
        },
    );
    if digits.len() > 0 && (n matches Some(n) && is_scalar(n)) {
        seq![n.unwrap() as char]
    } else {
        Seq::empty()
    }
}

fn digit(c: char) -> (r: Option<u32>)
    ensures
        match r {
            Some(d) => digit_value(c) == Some(d as int) && d < 16,
            None => digit_value(c) is None,
        },
{
    let n: u32 = c as u32;
    if '0' <= c && c <= '9' {
        Some(n - 48)
    } else if 'a' <= c && c <= 'f' {
        Some(n - 87)
    } else if 'A' <= c && c <= 'F' {
        Some(n - 55)
    } else {
        None
    }
}

proof fn lemma_number_grows(s: Seq<char>, base: int, i: int)
    requires
        base == 10 || base == 16,
        0 <= i <= s.len(),
    ensures
        number_of(s, base) matches Some(n) ==> (number_of(s.take(i), base) matches Some(m) && 0 <= m
            <= n),
    decreases s.len(),
{
    if i == s.len() {
        assert(s.take(i) =~= s);
        if s.len() > 0 {
            lemma_number_grows(s.drop_last(), base, i - 1);
        }
    } else {
        lemma_number_grows(s.drop_last(), base, i);
        assert(s.drop_last().take(i) =~= s.take(i));
    }
}

/// The character whose number a text spells, in decimal or, behind an `x`, in hexadecimal;
/// nothing where there is none.
pub fn decode_number(s: &str) -> (r: String)
    ensures
        r@ == numbered_char(s@),
{
    let v = to_chars(s);
    let hex = v.len() > 0 && (v[0] == 'x' || v[0] == 'X');
    let (from, base): (usize, u32) = if hex {
        (1, 16)
    } else {
        (0, 10)
    };
    let ghost digits = v@.skip(from as int);
    assert(v@.skip(0) =~= v@);
    let none: Vec<char> = Vec::new();
    if from == v.len() {
        return from_chars(&none);
    }
    let mut n: u32 = 0;
    let mut i: usize = from;
    assert(digits.take(0) =~= Seq::empty());
    while i < v.len()
        invariant
            from <= i <= v@.len(),
            digits == v@.skip(from as int),
            base == 10 || base == 16,
            base == if hex {
                16int
            } else {
                10int
            },
            from == if hex {
                1int
            } else {
                0int
            },
            hex == (v@.len() > 0 && (v@[0] == 'x' || v@[0] == 'X')),
            v@ == s@,
            none@.len() == 0,
            digits.len() > 0,
            digits == if hex {
                s@.skip(1)
            } else {
                s@
            },
            number_of(digits.take(i - from), base as int) == Some(n as int),
            n <= 0x10ffff,
        decreases v.len() - i,
    {
        let ghost k = i - from;
        proof {
            assert(digits.take(k + 1).drop_last() =~= digits.take(k));
            assert(digits.take(k + 1).last() == v@[i as int]);
            lemma_number_grows(digits, base as int, k + 1);
        }
        match digit(v[i]) {
            Some(d) => {
                if d >= base {
                    assert(number_of(digits.take(k + 1), base as int) is None);
                    return from_chars(&none);
                }
                n = n * base + d;
                if n > 0x10ffff {
                    return from_chars(&none);
                }
            },
            None => {
                assert(number_of(digits.take(k + 1), base as int) is None);
                return from_chars(&none);
            },
        }
        i = i + 1;
    }
    assert(digits.take(i - from) =~= digits);
    match char::from_u32(n) {
        Some(c) => {
            let mut out: Vec<char> = Vec::new();
            out.push(c);
            assert(out@ =~= seq![c]);
            from_chars(&out)
        },
        None => from_chars(&none),
    }
}

/// The first `n` pieces, each followed by the character that its number spells.
pub open spec fn filled(pieces: Seq<Seq<char>>, numbers: Seq<Seq<char>>, n: int) -> Seq<char>
    decreases n,
{
    if n <= 0 {
        Seq::empty()
    } else {
        let with = filled(pieces, numbers, n - 1) + pieces[n - 1];
        if n - 1 < numbers.len() {
            with + numbered_char(numbers[n - 1])
        } else {
            with
        }
    }
}

/// The pieces, each followed by the character that its number spells.
pub fn fill_numbers(pieces: &[String], numbers: &[String]) -> (r: String)
    ensures
        r@ == filled(texts(pieces@), texts(numbers@), pieces@.len() as int),
{
    let mut out = String::new();
    let mut i: usize = 0;
    assert(out@ =~= Seq::empty());
    while i < pieces.len()
        invariant
            i <= pieces@.len(),
            out@ == filled(texts(pieces@), texts(numbers@), i as int),
        decreases pieces.len() - i,
    {
        assert(texts(pieces@)[i as int] == pieces@[i as int]@);
        assert(texts(numbers@).len() == numbers@.len());
        out.append(pieces[i].as_str());
        if i < numbers.len() {
            assert(texts(numbers@)[i as int] == numbers@[i as int]@);
            out.append(decode_number(numbers[i].as_str()).as_str());
        }
        i = i + 1;
    }
    out
}

} // verus!
