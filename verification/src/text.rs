//! Texts as sequences of characters: conversion from and to strings,
//! comparison, copying and search.

use vstd::prelude::*;

verus! {

/// `String::push` of std appends one character to the string.
pub assume_specification[ String::push ](s: &mut String, ch: char)
    ensures
        final(s)@ == old(s)@.push(ch),
;

/// The characters of `s`, in order.
pub fn chars_of(s: &str) -> (v: Vec<char>)
    ensures
        v@ == s@,
{
    let mut v: Vec<char> = Vec::new();
    for c in it: s.chars()
        invariant
            v@ == it.seq().take(it.index() as int),
            it.seq() == s@,
    {
        v.push(c);
    }
    v
}

/// The string made of the characters of `v`, in order.
pub fn string_of(v: &Vec<char>) -> (s: String)
    ensures
        s@ == v@,
{
    let mut s = String::new();
    let mut i: usize = 0;
    while i < v.len()
        invariant
            i <= v.len(),
            s@ == v@.take(i as int),
        decreases v.len() - i,
    {
        s.push(v[i]);
        i = i + 1;
    }
    s
}

/// Whether two texts hold the same characters.
pub fn same_text(a: &Vec<char>, b: &Vec<char>) -> (r: bool)
    ensures
        r == (a@ == b@),
{
    if a.len() != b.len() {
        return false;
    }
    let mut i: usize = 0;
    while i < a.len()
        invariant
            i <= a.len(),
            a.len() == b.len(),
            a@.take(i as int) == b@.take(i as int),
        decreases a.len() - i,
    {
        if a[i] != b[i] {
            return false;
        }
        assert(a@.take(i + 1) == a@.take(i as int).push(a@[i as int]));
        assert(b@.take(i + 1) == b@.take(i as int).push(b@[i as int]));
        i = i + 1;
    }
    assert(a@.take(a.len() as int) == a@);
    assert(b@.take(b.len() as int) == b@);
    true
}

/// Whether two strings hold the same characters.
pub fn same_str(a: &str, b: &str) -> (r: bool)
    ensures
        r == (a@ == b@),
{
    let x = chars_of(a);
    let y = chars_of(b);
    same_text(&x, &y)
}

/// Appends the characters of `src` to `out`.
pub fn append_text(out: &mut Vec<char>, src: &Vec<char>)
    ensures
        final(out)@ == old(out)@ + src@,
{
    let mut k: usize = 0;
    while k < src.len()
        invariant
            k <= src.len(),
            out@ == old(out)@ + src@.take(k as int),
        decreases src.len() - k,
    {
        out.push(src[k]);
        k = k + 1;
    }
    assert(src@.take(src.len() as int) == src@);
}

/// The characters of `text` from index `from` up to, not including, `to`.
pub(crate) fn subtext(text: &Vec<char>, from: usize, to: usize) -> (out: Vec<char>)
    requires
        from <= to <= text.len(),
    ensures
        out@ == text@.subrange(from as int, to as int),
{
    let mut out: Vec<char> = Vec::new();
    let mut k: usize = from;
    while k < to
        invariant
            from <= k <= to <= text.len(),
            out@ == text@.subrange(from as int, k as int),
        decreases to - k,
    {
        out.push(text[k]);
        k = k + 1;
    }
    out
}

/// Whether `pat` stands in `text` at index `i`.
pub open spec fn occurs_at(text: Seq<char>, pat: Seq<char>, i: int) -> bool {
    &&& 0 <= i
    &&& i + pat.len() <= text.len()
    &&& text.subrange(i, i + pat.len()) == pat
}

/// Whether `pat` stands somewhere in `text`.
pub open spec fn occurs(text: Seq<char>, pat: Seq<char>) -> bool {
    exists|i: int| occurs_at(text, pat, i)
}

/// Whether `i` is the leftmost index at which `pat` stands in `text`.
pub open spec fn is_first_occurrence(text: Seq<char>, pat: Seq<char>, i: int) -> bool {
    &&& occurs_at(text, pat, i)
    &&& forall|j: int| 0 <= j < i ==> !occurs_at(text, pat, j)
}

/// The leftmost index at which `pat` stands in `text`, where it occurs.
pub open spec fn first_occurrence(text: Seq<char>, pat: Seq<char>) -> int {
    choose|i: int| is_first_occurrence(text, pat, i)
}

/// A leftmost occurrence is the leftmost occurrence.
pub proof fn lemma_first_occurrence(text: Seq<char>, pat: Seq<char>, i: int)
    requires
        is_first_occurrence(text, pat, i),
    ensures
        occurs(text, pat),
        first_occurrence(text, pat) == i,
{
    let k = first_occurrence(text, pat);
    assert(is_first_occurrence(text, pat, k));
    if k < i {
        assert(!occurs_at(text, pat, k));
    }
    if i < k {
        assert(!occurs_at(text, pat, i));
    }
}

/// Where `pat` occurs at all, it has a leftmost occurrence, and
/// `first_occurrence` is its index.
pub proof fn lemma_least_occurrence(text: Seq<char>, pat: Seq<char>, i: int)
    requires
        occurs_at(text, pat, i),
    ensures
        is_first_occurrence(text, pat, first_occurrence(text, pat)),
        first_occurrence(text, pat) <= i,
    decreases i,
{
    if exists|j: int| 0 <= j < i && occurs_at(text, pat, j) {
        let j = choose|j: int| 0 <= j < i && occurs_at(text, pat, j);
        lemma_least_occurrence(text, pat, j);
    } else {
        assert(is_first_occurrence(text, pat, i));
        lemma_first_occurrence(text, pat, i);
    }
}

/// What occurs in a text occurs in any text that holds it.
pub proof fn lemma_occurs_within(
    before: Seq<char>,
    text: Seq<char>,
    after: Seq<char>,
    pat: Seq<char>,
)
    requires
        occurs(text, pat),
    ensures
        occurs(before + text + after, pat),
{
    let i = choose|i: int| occurs_at(text, pat, i);
    let whole = before + text + after;
    assert(whole.subrange(before.len() + i, before.len() + i + pat.len()) == text.subrange(
        i,
        i + pat.len(),
    ));
    assert(occurs_at(whole, pat, before.len() + i));
}

/// Whether `pat` stands in `text` at index `i`.
pub fn matches_at(text: &Vec<char>, pat: &Vec<char>, i: usize) -> (r: bool)
    ensures
        r == occurs_at(text@, pat@, i as int),
{
    if pat.len() > text.len() || i > text.len() - pat.len() {
        return false;
    }
    let mut k: usize = 0;
    while k < pat.len()
        invariant
            k <= pat.len(),
            i + pat.len() <= text.len(),
            text@.subrange(i as int, i + k) == pat@.take(k as int),
        decreases pat.len() - k,
    {
        if text[i + k] != pat[k] {
            assert(text@.subrange(i as int, i + pat.len())[k as int] != pat@[k as int]);
            return false;
        }
        assert(text@.subrange(i as int, i + k + 1) == text@.subrange(i as int, i + k).push(
            text@[i + k],
        ));
        assert(pat@.take(k + 1) == pat@.take(k as int).push(pat@[k as int]));
        k = k + 1;
    }
    assert(pat@.take(pat.len() as int) == pat@);
    true
}

/// The leftmost index at or after `from` at which `pat` stands in `text`.
pub fn find_from(text: &Vec<char>, pat: &Vec<char>, from: usize) -> (r: Option<usize>)
    ensures
        match r {
            Some(i) => {
                &&& from <= i
                &&& occurs_at(text@, pat@, i as int)
                &&& forall|j: int| from <= j < i ==> !occurs_at(text@, pat@, j)
            },
            None => forall|j: int| from <= j ==> !occurs_at(text@, pat@, j),
        },
{
    if from > text.len() {
        return None;
    }
    let mut i: usize = from;
    while i < text.len()
        invariant
            from <= i <= text.len(),
            forall|j: int| from <= j < i ==> !occurs_at(text@, pat@, j),
        decreases text.len() - i,
    {
        if matches_at(text, pat, i) {
            return Some(i);
        }
        i = i + 1;
    }
    if matches_at(text, pat, i) {
        Some(i)
    } else {
        None
    }
}

/// The leftmost index at which `pat` stands in `text`.
pub fn find(text: &Vec<char>, pat: &Vec<char>) -> (r: Option<usize>)
    ensures
        match r {
            Some(i) => {
                &&& occurs(text@, pat@)
                &&& is_first_occurrence(text@, pat@, i as int)
                &&& i == first_occurrence(text@, pat@)
            },
            None => !occurs(text@, pat@),
        },
{
    let r = find_from(text, pat, 0);
    proof {
        if let Some(i) = r {
            lemma_first_occurrence(text@, pat@, i as int);
        }
    }
    r
}

} // verus!
