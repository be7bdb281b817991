//! Literal replacement of one text by another.

use crate::text::{append_text, matches_at, occurs, occurs_at};
use vstd::prelude::*;

verus! {

/// `text` with every occurrence of `pat` replaced by `with`: the text is read
/// from the left, and after a replaced occurrence reading goes on behind it,
/// so that the occurrences replaced do not overlap. An empty `pat` occurs
/// nowhere.
pub open spec fn replaced(text: Seq<char>, pat: Seq<char>, with: Seq<char>) -> Seq<char>
    decreases text.len(),
{
    if pat.len() == 0 || text.len() == 0 {
        text
    } else if occurs_at(text, pat, 0) {
        with + replaced(text.skip(pat.len() as int), pat, with)
    } else {
        seq![text[0]] + replaced(text.skip(1), pat, with)
    }
}

/// Where a non-empty `pat` occurs in `text`, `with` occurs in the result.
pub proof fn lemma_replaced_holds_value(text: Seq<char>, pat: Seq<char>, with: Seq<char>)
    requires
        pat.len() > 0,
        occurs(text, pat),
    ensures
        occurs(replaced(text, pat, with), with),
    decreases text.len(),
{
    let i = choose|i: int| occurs_at(text, pat, i);
    let out = replaced(text, pat, with);
    if occurs_at(text, pat, 0) {
        assert(out.subrange(0, with.len() as int) == with);
        assert(occurs_at(out, with, 0));
    } else {
        assert(i >= 1);
        assert(text.skip(1).subrange(i - 1, i - 1 + pat.len()) == text.subrange(i, i + pat.len()));
        assert(occurs_at(text.skip(1), pat, i - 1));
        lemma_replaced_holds_value(text.skip(1), pat, with);
        let rest = replaced(text.skip(1), pat, with);
        let j = choose|j: int| occurs_at(rest, with, j);
        assert(out.subrange(j + 1, j + 1 + with.len()) == rest.subrange(j, j + with.len()));
        assert(occurs_at(out, with, j + 1));
    }
}

/// Whether no character of `a` is a character of `b`.
pub open spec fn no_common_character(a: Seq<char>, b: Seq<char>) -> bool {
    forall|i: int, j: int| 0 <= i < a.len() && 0 <= j < b.len() ==> a[i] != b[j]
}

/// The beginning of a text is copied as it is as far as `pat` occurs at none
/// of its indices.
pub proof fn lemma_replaced_copies_beginning(
    text: Seq<char>,
    pat: Seq<char>,
    with: Seq<char>,
    m: int,
)
    requires
        0 <= m <= text.len(),
        pat.len() > 0,
        forall|k: int| 0 <= k < m ==> !occurs_at(text, pat, k),
    ensures
        replaced(text, pat, with) == text.take(m) + replaced(text.skip(m), pat, with),
    decreases m,
{
    if m == 0 {
        assert(text.skip(0) == text);
        assert(text.take(0) + replaced(text, pat, with) == replaced(text, pat, with));
    } else {
        assert(!occurs_at(text, pat, 0));
        assert forall|k: int| 0 <= k < m - 1 implies !occurs_at(text.skip(1), pat, k) by {
            if occurs_at(text.skip(1), pat, k) {
                assert(text.subrange(k + 1, k + 1 + pat.len()) == text.skip(1).subrange(
                    k,
                    k + pat.len(),
                ));
                assert(occurs_at(text, pat, k + 1));
            }
        }
        lemma_replaced_copies_beginning(text.skip(1), pat, with, m - 1);
        assert(text.skip(1).skip(m - 1) == text.skip(m));
        assert(seq![text[0]] + text.skip(1).take(m - 1) == text.take(m));
        assert(seq![text[0]] + (text.skip(1).take(m - 1) + replaced(text.skip(m), pat, with))
            == text.take(m) + replaced(text.skip(m), pat, with));
    }
}

/// A text `kept` that occurs in `text` and shares no character with `pat`
/// still occurs once `pat` is replaced.
pub proof fn lemma_replaced_keeps(
    text: Seq<char>,
    pat: Seq<char>,
    with: Seq<char>,
    kept: Seq<char>,
)
    requires
        occurs(text, kept),
        no_common_character(kept, pat),
    ensures
        occurs(replaced(text, pat, with), kept),
    decreases text.len(),
{
    let i = choose|i: int| occurs_at(text, kept, i);
    let out = replaced(text, pat, with);
    if kept.len() == 0 {
        assert(out.subrange(0, 0) == kept);
        assert(occurs_at(out, kept, 0));
    } else if pat.len() == 0 || text.len() == 0 {
    } else if i == 0 {
        assert forall|k: int| 0 <= k < kept.len() implies !occurs_at(text, pat, k) by {
            if occurs_at(text, pat, k) {
                assert(text.subrange(0, kept.len() as int)[k] == kept[k]);
                assert(text.subrange(k, k + pat.len())[0] == pat[0]);
            }
        }
        lemma_replaced_copies_beginning(text, pat, with, kept.len() as int);
        assert(text.take(kept.len() as int) == kept);
        assert(out.subrange(0, kept.len() as int) == kept);
        assert(occurs_at(out, kept, 0));
    } else if occurs_at(text, pat, 0) {
        if i < pat.len() {
            assert(text.subrange(i, i + kept.len())[0] == kept[0]);
            assert(text.subrange(0, pat.len() as int)[i] == pat[i]);
        }
        let n = pat.len() as int;
        assert(text.skip(n).subrange(i - n, i - n + kept.len()) == text.subrange(
            i,
            i + kept.len(),
        ));
        assert(occurs_at(text.skip(n), kept, i - n));
        lemma_replaced_keeps(text.skip(n), pat, with, kept);
        let rest = replaced(text.skip(n), pat, with);
        let j = choose|j: int| occurs_at(rest, kept, j);
        assert(out.subrange(with.len() + j, with.len() + j + kept.len()) == rest.subrange(
            j,
            j + kept.len(),
        ));
        assert(occurs_at(out, kept, with.len() + j));
    } else {
        assert(text.skip(1).subrange(i - 1, i - 1 + kept.len()) == text.subrange(
            i,
            i + kept.len(),
        ));
        assert(occurs_at(text.skip(1), kept, i - 1));
        lemma_replaced_keeps(text.skip(1), pat, with, kept);
        let rest = replaced(text.skip(1), pat, with);
        let j = choose|j: int| occurs_at(rest, kept, j);
        assert(out.subrange(j + 1, j + 1 + kept.len()) == rest.subrange(j, j + kept.len()));
        assert(occurs_at(out, kept, j + 1));
    }
}

/// Replaces every occurrence of `pat` in `text` by `with`.
pub fn replace_all(text: &Vec<char>, pat: &Vec<char>, with: &Vec<char>) -> (out: Vec<char>)
    ensures
        out@ == replaced(text@, pat@, with@),
{
    let mut out: Vec<char> = Vec::new();
    if pat.len() == 0 {
        append_text(&mut out, text);
        return out;
    }
    let mut i: usize = 0;
    assert(text@.skip(0) == text@);
    while i < text.len()
        invariant
            i <= text.len(),
            pat.len() > 0,
            replaced(text@, pat@, with@) == out@ + replaced(text@.skip(i as int), pat@, with@),
        decreases text.len() - i,
    {
        let ghost rest = text@.skip(i as int);
        let ghost before = out@;
        assert(rest.len() > 0);
        assert(occurs_at(rest, pat@, 0) == occurs_at(text@, pat@, i as int)) by {
            if i + pat.len() <= text.len() {
                assert(rest.subrange(0, pat.len() as int) == text@.subrange(
                    i as int,
                    i + pat.len(),
                ));
            }
        }
        if matches_at(text, pat, i) {
            append_text(&mut out, with);
            assert(rest.skip(pat.len() as int) == text@.skip(i + pat.len()));
            assert(out@ + replaced(text@.skip(i + pat.len()), pat@, with@) == before + (with@
                + replaced(text@.skip(i + pat.len()), pat@, with@)));
            i = i + pat.len();
        } else {
            out.push(text[i]);
            assert(rest.skip(1) == text@.skip(i + 1));
            assert(out@ + replaced(text@.skip(i + 1), pat@, with@) == before + (seq![rest[0]]
                + replaced(text@.skip(i + 1), pat@, with@)));
            i = i + 1;
        }
    }
    assert(text@.skip(i as int).len() == 0);
    assert(out@ + Seq::<char>::empty() == out@);
    out
}

} // verus!
