//! Small helpers: capitalisation, file-name extensions and decimal numerals.

use crate::text::{append_text, chars_of, matches_at, string_of, subtext};
use vstd::prelude::*;

verus! {

/// The upper-case form of an ASCII lower-case letter; any other character
/// unchanged.
pub open spec fn ascii_upper(c: char) -> char {
    if 'a' <= c && c <= 'z' {
        ((c as u8 - 32) as u8) as char
    } else {
        c
    }
}

/// `s` with its first character put in upper case where that character is an
/// ASCII lower-case letter.
pub open spec fn capitalized(s: Seq<char>) -> Seq<char> {
    if s.len() == 0 {
        s
    } else {
        seq![ascii_upper(s[0])] + s.skip(1)
    }
}

/// Puts an ASCII lower-case letter in upper case.
pub fn to_ascii_upper(c: char) -> (r: char)
    ensures
        r == ascii_upper(c),
{
    if 'a' <= c && c <= 'z' {
        ((c as u8) - 32) as char
    } else {
        c
    }
}

/// Puts the first character of `text` in upper case where it is an ASCII
/// lower-case letter, and leaves the rest as it is.
pub fn capitalize_text(text: &Vec<char>) -> (out: Vec<char>)
    ensures
        out@ == capitalized(text@),
{
    let mut out: Vec<char> = Vec::new();
    if text.len() == 0 {
        return out;
    }
    out.push(to_ascii_upper(text[0]));
    let rest = subtext(text, 1, text.len());
    append_text(&mut out, &rest);
    assert(text@.subrange(1, text.len() as int) == text@.skip(1));
    out
}

/// Puts the first character of `s` in upper case where it is an ASCII
/// lower-case letter, and leaves the rest as it is.
pub fn capitalize_first_letter_ascii(s: &str) -> (out: String)
    ensures
        out@ == capitalized(s@),
{
    string_of(&capitalize_text(&chars_of(s)))
}

/// Whether `name` is a non-empty stem followed by a dot and `ext`.
pub open spec fn ends_in_extension(name: Seq<char>, ext: Seq<char>) -> bool {
    &&& name.len() > ext.len() + 1
    &&& name.skip(name.len() - ext.len() - 1) == seq!['.'] + ext
}

/// Whether the file name `name` has the extension `ext`: a name that is only
/// a dot and the extension has none.
pub fn has_extension(name: &str, ext: &str) -> (r: bool)
    ensures
        r == ends_in_extension(name@, ext@),
{
    let chars = chars_of(name);
    let mut suffix: Vec<char> = Vec::new();
    suffix.push('.');
    append_text(&mut suffix, &chars_of(ext));
    if chars.len() <= suffix.len() {
        return false;
    }
    let at = chars.len() - suffix.len();
    assert(chars@.subrange(at as int, at + suffix.len()) == chars@.skip(at as int));
    matches_at(&chars, &suffix, at)
}

/// The decimal digit of value `d`.
pub open spec fn digit(d: nat) -> char {
    seq!['0', '1', '2', '3', '4', '5', '6', '7', '8', '9'][d as int]
}

/// The decimal numeral of `n`, without leading zeros.
pub open spec fn decimal(n: nat) -> Seq<char>
    decreases n,
{
    if n < 10 {
        seq![digit(n)]
    } else {
        decimal(n / 10).push(digit(n % 10))
    }
}

fn digit_of(d: usize) -> (c: char)
    requires
        d < 10,
    ensures
        c == digit(d as nat),
{
    if d == 0 {
        '0'
    } else if d == 1 {
        '1'
    } else if d == 2 {
        '2'
    } else if d == 3 {
        '3'
    } else if d == 4 {
        '4'
    } else if d == 5 {
        '5'
    } else if d == 6 {
        '6'
    } else if d == 7 {
        '7'
    } else if d == 8 {
        '8'
    } else {
        '9'
    }
}

/// Writes `n` as a decimal numeral.
pub fn decimal_of(n: usize) -> (out: Vec<char>)
    ensures
        out@ == decimal(n as nat),
{
    let mut digits: Vec<char> = Vec::new();
    let mut m: usize = n;
    digits.push(digit_of(m % 10));
    m = m / 10;
    while m > 0
        invariant
            digits@.len() > 0,
            decimal(n as nat) == if m == 0 {
                digits@.reverse()
            } else {
                decimal(m as nat) + digits@.reverse()
            },
        decreases m,
    {
        let ghost before = digits@;
        digits.push(digit_of(m % 10));
        assert(digits@.reverse() == seq![digit((m % 10) as nat)] + before.reverse());
        assert(decimal(m as nat) + before.reverse() == if m < 10 {
            digits@.reverse()
        } else {
            decimal((m / 10) as nat) + digits@.reverse()
        });
        m = m / 10;
    }
    let mut out: Vec<char> = Vec::new();
    let mut k: usize = digits.len();
    while k > 0
        invariant
            k <= digits.len(),
            out@ == digits@.reverse().take(digits.len() - k),
        decreases k,
    {
        k = k - 1;
        out.push(digits[k]);
    }
    out
}

} // verus!
