//! White space, and trimming it off the ends of a text.

use crate::text::subtext;
use vstd::prelude::*;

verus! {

/// Whether `c` is white space in the sense of Unicode: one of the characters
/// that its character database lists as `White_Space`. They are the controls
/// from tab to carriage return, the blank, next line, the no-break space, the
/// Ogham space mark, the spaces from en quad to hair space, the line and
/// paragraph separators, the narrow no-break space, the medium mathematical
/// space and the ideographic space.
pub open spec fn white_space(c: char) -> bool {
    ||| ('\u{9}' <= c && c <= '\u{d}')
    ||| c == ' '
    ||| c == '\u{85}'
    ||| c == '\u{a0}'
    ||| c == '\u{1680}'
    ||| ('\u{2000}' <= c && c <= '\u{200a}')
    ||| c == '\u{2028}'
    ||| c == '\u{2029}'
    ||| c == '\u{202f}'
    ||| c == '\u{205f}'
    ||| c == '\u{3000}'
}

/// Whether `c` is white space.
pub fn is_white_space(c: char) -> (b: bool)
    ensures
        b == white_space(c),
{
    if c <= '\u{a0}' {
        ('\u{9}' <= c && c <= '\u{d}') || c == ' ' || c == '\u{85}' || c == '\u{a0}'
    } else if c <= '\u{200a}' {
        c == '\u{1680}' || '\u{2000}' <= c
    } else {
        c == '\u{2028}' || c == '\u{2029}' || c == '\u{202f}' || c == '\u{205f}' || c == '\u{3000}'
    }
}

/// `s` without the white space it begins with.
pub open spec fn trim_start(s: Seq<char>) -> Seq<char>
    decreases s.len(),
{
    if s.len() > 0 && white_space(s[0]) {
        trim_start(s.skip(1))
    } else {
        s
    }
}

/// `s` without the white space it ends with.
pub open spec fn trim_end(s: Seq<char>) -> Seq<char>
    decreases s.len(),
{
    if s.len() > 0 && white_space(s.last()) {
        trim_end(s.drop_last())
    } else {
        s
    }
}

/// `s` without the white space at either end.
pub open spec fn trimmed(s: Seq<char>) -> Seq<char> {
    trim_end(trim_start(s))
}

/// Whether `s` holds white space only.
pub open spec fn blank(s: Seq<char>) -> bool {
    forall|i: int| 0 <= i < s.len() ==> white_space(#[trigger] s[i])
}

/// `trim_start` cuts off a blank beginning, of the length returned, and what
/// is left does not begin with white space.
pub proof fn lemma_trim_start(s: Seq<char>) -> (a: int)
    ensures
        0 <= a <= s.len(),
        trim_start(s) == s.skip(a),
        blank(s.take(a)),
        a < s.len() ==> !white_space(s[a]),
    decreases s.len(),
{
    if s.len() > 0 && white_space(s[0]) {
        let a = lemma_trim_start(s.skip(1));
        assert(s.skip(1).skip(a) == s.skip(a + 1));
        assert forall|i: int| 0 <= i < s.take(a + 1).len() implies white_space(
            #[trigger] s.take(a + 1)[i],
        ) by {
            if i > 0 {
                assert(s.take(a + 1)[i] == s.skip(1).take(a)[i - 1]);
            }
        }
        a + 1
    } else {
        assert(s.skip(0) == s);
        0
    }
}

/// `trim_end` cuts off a blank end, which begins at the index returned, and
/// what is left does not end with white space.
pub proof fn lemma_trim_end(s: Seq<char>) -> (b: int)
    ensures
        0 <= b <= s.len(),
        trim_end(s) == s.take(b),
        blank(s.skip(b)),
        0 < b ==> !white_space(s[b - 1]),
    decreases s.len(),
{
    if s.len() > 0 && white_space(s.last()) {
        let b = lemma_trim_end(s.drop_last());
        assert(s.drop_last().take(b) == s.take(b));
        assert forall|i: int| 0 <= i < s.skip(b).len() implies white_space(
            #[trigger] s.skip(b)[i],
        ) by {
            if i < s.skip(b).len() - 1 {
                assert(s.skip(b)[i] == s.drop_last().skip(b)[i]);
            }
        }
        b
    } else {
        assert(s.take(s.len() as int) == s);
        s.len() as int
    }
}

/// Trimming takes nothing away but white space at the two ends, and takes
/// all of it: `s` is a blank text, then `trimmed(s)`, then a blank text, and
/// `trimmed(s)` neither begins nor ends with white space.
pub proof fn lemma_trimmed(s: Seq<char>) -> (cut: (int, int))
    ensures
        0 <= cut.0 <= cut.1 <= s.len(),
        blank(s.take(cut.0)),
        blank(s.skip(cut.1)),
        trimmed(s) == s.subrange(cut.0, cut.1),
        s == s.take(cut.0) + trimmed(s) + s.skip(cut.1),
        trimmed(s).len() > 0 ==> !white_space(trimmed(s)[0]) && !white_space(trimmed(s).last()),
{
    let a = lemma_trim_start(s);
    let b = lemma_trim_end(s.skip(a));
    assert(s.skip(a).take(b) == s.subrange(a, a + b));
    assert(s.skip(a).skip(b) == s.skip(a + b));
    assert(s == s.take(a) + s.subrange(a, a + b) + s.skip(a + b));
    if b > 0 {
        assert(s.subrange(a, a + b)[0] == s[a]);
        assert(s.subrange(a, a + b).last() == s.skip(a)[b - 1]);
    }
    (a, a + b)
}

/// Strips the white space at either end of `text`.
pub fn trim(text: &Vec<char>) -> (out: Vec<char>)
    ensures
        out@ == trimmed(text@),
{
    let mut a: usize = 0;
    assert(text@.skip(0) == text@);
    while a < text.len() && is_white_space(text[a])
        invariant
            a <= text.len(),
            trim_start(text@) == trim_start(text@.skip(a as int)),
        decreases text.len() - a,
    {
        assert(text@.skip(a as int).skip(1) == text@.skip(a + 1));
        a = a + 1;
    }
    let mut b: usize = text.len();
    assert(text@.skip(a as int) == text@.subrange(a as int, b as int));
    while b > a && is_white_space(text[b - 1])
        invariant
            a <= b <= text.len(),
            trimmed(text@) == trim_end(text@.subrange(a as int, b as int)),
        decreases b - a,
    {
        assert(text@.subrange(a as int, b as int).drop_last() == text@.subrange(
            a as int,
            b - 1,
        ));
        b = b - 1;
    }
    subtext(text, a, b)
}

} // verus!
