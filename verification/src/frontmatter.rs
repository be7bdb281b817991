//! Splitting a song file into its front matter and its body.
//!
//! The front matter ends where a line other than the first begins with the
//! terminator `---`. What stands before that line is the front matter, what
//! stands behind it is the body; the terminator line itself belongs to
//! neither.

use crate::error::TemplaterError;
use crate::text::{
    chars_of, find, find_from, first_occurrence, lemma_least_occurrence, occurs, occurs_at,
    string_of,
};
use crate::trim::{trim, trimmed};
use extract_frontmatter::Extractor;
use vstd::prelude::*;

verus! {

/// The literal with which the terminator line begins.
pub open spec fn terminator() -> Seq<char> {
    seq!['-', '-', '-']
}

/// A line break followed by `pat`: what `text` holds where a line other than
/// its first begins with `pat`.
pub open spec fn at_line_start(pat: Seq<char>) -> Seq<char> {
    seq!['\n'] + pat
}

/// Whether a line of `text` other than the first begins with `pat`.
pub open spec fn has_line_starting(text: Seq<char>, pat: Seq<char>) -> bool {
    occurs(text, at_line_start(pat))
}

/// What stands in `text` before the first line, other than the first, that
/// begins with `pat`, without the line break that ends it.
pub open spec fn front_part(text: Seq<char>, pat: Seq<char>) -> Seq<char> {
    text.take(first_occurrence(text, at_line_start(pat)))
}

/// What stands in `text` from the first line, other than the first, that
/// begins with `pat`.
pub open spec fn rest_part(text: Seq<char>, pat: Seq<char>) -> Seq<char> {
    text.skip(first_occurrence(text, at_line_start(pat)) + 1)
}

/// The first line of `s`, without its line break.
pub open spec fn first_line(s: Seq<char>) -> Seq<char>
    decreases s.len(),
{
    if s.len() == 0 || s[0] == '\n' {
        Seq::empty()
    } else {
        seq![s[0]] + first_line(s.skip(1))
    }
}

/// What follows the first line break of `s`; nothing where `s` has none.
pub open spec fn after_first_line(s: Seq<char>) -> Seq<char>
    decreases s.len(),
{
    if s.len() == 0 {
        Seq::empty()
    } else if s[0] == '\n' {
        s.skip(1)
    } else {
        after_first_line(s.skip(1))
    }
}

/// The pieces of `s` between its line breaks: one more piece than `s` has
/// line breaks, so a text that ends in a line break has an empty last piece.
pub open spec fn split_lines(s: Seq<char>) -> Seq<Seq<char>>
    decreases s.len(),
{
    if s.len() == 0 {
        seq![Seq::empty()]
    } else {
        let before = split_lines(s.drop_last());
        if s.last() == '\n' {
            before.push(Seq::empty())
        } else {
            before.update(before.len() - 1, before.last().push(s.last()))
        }
    }
}

/// The lines of `s`, each without the white space at either end.
pub open spec fn trimmed_lines(s: Seq<char>) -> Seq<Seq<char>> {
    split_lines(s).map_values(|line: Seq<char>| trimmed(line))
}

/// Whether `text` has a terminator line.
pub open spec fn has_terminator(text: Seq<char>) -> bool {
    has_line_starting(text, terminator())
}

/// The lines of the front matter of `text`, trimmed.
pub open spec fn metadata_lines(text: Seq<char>) -> Seq<Seq<char>> {
    trimmed_lines(front_part(text, terminator()))
}

/// The terminator line of `text`, without its line break.
pub open spec fn terminator_line(text: Seq<char>) -> Seq<char> {
    first_line(rest_part(text, terminator()))
}

/// The body of `text` as it stands behind the terminator line.
pub open spec fn raw_body(text: Seq<char>) -> Seq<char> {
    after_first_line(rest_part(text, terminator()))
}

/// The body of `text`, trimmed.
pub open spec fn body_of(text: Seq<char>) -> Seq<char> {
    trimmed(raw_body(text))
}

/// The two parts of a song file.
#[derive(Debug, Clone, PartialEq, Eq)]
pub struct Frontmatter {
    /// The lines of the front matter, each without white space at its ends.
    pub metadata: Vec<String>,
    /// The body, without white space at its ends.
    pub body: String,
}

/// `Extractor` of the crate `extract_frontmatter`, with `select_by_terminator`
/// and `strip_whitespace` set, and its method `split`.
///
/// The extractor looks for the first place where a line break is followed by
/// `terminator`. The contract speaks of inputs that have such a place. The
/// first result holds the lines of what stands before that line break, each
/// trimmed by `str::trim` of std, which takes away the white space of Unicode
/// at both ends: the characters that `white_space` lists. The second holds
/// what follows the line that begins with `terminator`; where the input ends
/// within that line, it holds that line instead.
#[verifier::external_body]
fn split_by_terminator(input: &str, terminator: &str) -> (parts: (Vec<String>, String))
    requires
        has_line_starting(input@, terminator@),
    ensures
        parts.0.deep_view() == trimmed_lines(front_part(input@, terminator@)),
        parts.1@ == if rest_part(input@, terminator@).contains('\n') {
            after_first_line(rest_part(input@, terminator@))
        } else {
            rest_part(input@, terminator@)
        },
{
    let mut extractor = Extractor::new(input);
    extractor.select_by_terminator(terminator).strip_whitespace();
    let (front_matter, document) = extractor.split();
    (front_matter.into_iter().map(String::from).collect(), document.to_string())
}

/// A text without line break has nothing behind its first line.
pub proof fn lemma_single_line(s: Seq<char>)
    requires
        !s.contains('\n'),
    ensures
        after_first_line(s) == Seq::<char>::empty(),
        first_line(s) == s,
    decreases s.len(),
{
    if s.len() > 0 {
        assert(s[0] != '\n');
        assert forall|i: int| 0 <= i < s.skip(1).len() implies s.skip(1)[i] != '\n' by {
            assert(s.skip(1)[i] == s[i + 1]);
        }
        lemma_single_line(s.skip(1));
        assert(s == seq![s[0]] + s.skip(1));
    }
}

/// Splits a song file into its front matter and its body.
///
/// Fails with `MissingFrontmatter` where no line of `text` other than the
/// first begins with `---`. Else the metadata are the lines before the first
/// such line and the body is what follows it, all trimmed of white space.
pub fn extract(text: &str) -> (r: Result<Frontmatter, TemplaterError>)
    ensures
        match r {
            Ok(parts) => {
                &&& has_terminator(text@)
                &&& parts.metadata.deep_view() == metadata_lines(text@)
                &&& parts.body@ == body_of(text@)
            },
            Err(e) => !has_terminator(text@) && e == TemplaterError::MissingFrontmatter,
        },
{
    let chars = chars_of(text);
    let marker = chars_of("\n---");
    proof {
        reveal_strlit("\n---");
        reveal_strlit("---");
        assert(marker@ == at_line_start(terminator()));
        assert("---"@ == terminator());
    }
    match find(&chars, &marker) {
        None => Err(TemplaterError::MissingFrontmatter),
        Some(at) => {
            assert(occurs_at(chars@, marker@, at as int) && marker@.len() == 4);
            assert(at + 4 <= chars.len());
            let (metadata, document) = split_by_terminator(text, "---");
            let ghost rest = rest_part(text@, terminator());
            let mut line_break: Vec<char> = Vec::new();
            line_break.push('\n');
            let found = find_from(&chars, &line_break, at + 1);
            proof {
                assert(rest == chars@.skip(at + 1));
                assert forall|j: int| 0 <= j < rest.len() implies (rest[j] == '\n') == occurs_at(
                    chars@,
                    line_break@,
                    at + 1 + j,
                ) by {
                    assert(chars@.subrange(at + 1 + j, at + 1 + j + 1) == seq![rest[j]]);
                    assert(seq![rest[j]][0] == rest[j]);
                    assert(line_break@[0] == '\n');
                }
            }
            let body = match found {
                None => {
                    proof {
                        assert(!rest.contains('\n'));
                        lemma_single_line(rest);
                    }
                    String::new()
                },
                Some(j) => {
                    assert(rest[j - (at + 1)] == '\n');
                    let raw = chars_of(document.as_str());
                    string_of(&trim(&raw))
                },
            };
            Ok(Frontmatter { metadata, body })
        },
    }
}

/// `lines` put together again, with a line break between one and the next.
pub open spec fn join_lines(lines: Seq<Seq<char>>) -> Seq<char>
    decreases lines.len(),
{
    if lines.len() == 0 {
        Seq::empty()
    } else if lines.len() == 1 {
        lines[0]
    } else {
        join_lines(lines.drop_last()) + seq!['\n'] + lines.last()
    }
}

/// A text has at least one line, no line holds a line break, and the lines
/// joined by line breaks give the text back.
pub proof fn lemma_split_lines(s: Seq<char>)
    ensures
        split_lines(s).len() >= 1,
        forall|k: int|
            0 <= k < split_lines(s).len() ==> !(#[trigger] split_lines(s)[k]).contains('\n'),
        join_lines(split_lines(s)) == s,
    decreases s.len(),
{
    if s.len() > 0 {
        let before = split_lines(s.drop_last());
        let lines = split_lines(s);
        lemma_split_lines(s.drop_last());
        assert(s == s.drop_last().push(s.last()));
        if s.last() == '\n' {
            assert(lines.drop_last() == before);
            assert(join_lines(before) + seq!['\n'] + Seq::<char>::empty() == s);
        } else {
            let line = before.last().push(s.last());
            assert forall|k: int| 0 <= k < lines.len() implies !(#[trigger] lines[k]).contains(
                '\n',
            ) by {
                if k == lines.len() - 1 {
                    assert forall|i: int| 0 <= i < line.len() implies line[i] != '\n' by {
                        if i < line.len() - 1 {
                            assert(before.last()[i] == line[i]);
                            assert(before.last().contains(line[i]));
                        }
                    }
                } else {
                    assert(lines[k] == before[k]);
                }
            }
            if before.len() == 1 {
                assert(join_lines(lines) == s);
            } else {
                assert(lines.drop_last() == before.drop_last());
                assert(join_lines(before.drop_last()) + seq!['\n'] + line == (join_lines(
                    before.drop_last(),
                ) + seq!['\n'] + before.last()).push(s.last()));
            }
        }
    } else {
        assert(!Seq::<char>::empty().contains('\n'));
    }
}

/// A text is its first line, followed, where it holds a line break, by that
/// line break and what comes after it.
pub proof fn lemma_first_line(s: Seq<char>)
    ensures
        !first_line(s).contains('\n'),
        s == first_line(s) + if s.contains('\n') {
            seq!['\n'] + after_first_line(s)
        } else {
            Seq::empty()
        },
    decreases s.len(),
{
    if s.len() == 0 {
        assert(s == first_line(s) + Seq::<char>::empty());
    } else if s[0] == '\n' {
        assert(s.contains('\n'));
        assert(s == Seq::<char>::empty() + (seq!['\n'] + s.skip(1)));
    } else {
        let tail = s.skip(1);
        lemma_first_line(tail);
        assert(s == seq![s[0]] + tail);
        if tail.contains('\n') {
            let i = choose|i: int| 0 <= i < tail.len() && tail[i] == '\n';
            assert(s[i + 1] == '\n');
            assert(s == seq![s[0]] + first_line(tail) + (seq!['\n'] + after_first_line(tail)));
        } else {
            assert forall|i: int| 0 <= i < s.len() implies s[i] != '\n' by {
                if i > 0 {
                    assert(tail[i - 1] == s[i]);
                    assert(tail.contains(s[i]));
                }
            }
            assert(s == seq![s[0]] + first_line(tail) + Seq::<char>::empty());
        }
        let line = first_line(s);
        assert forall|i: int| 0 <= i < line.len() implies line[i] != '\n' by {
            if i > 0 {
                assert(first_line(tail)[i - 1] == line[i]);
                assert(first_line(tail).contains(line[i]));
            }
        }
    }
}

/// Splitting a song file loses nothing but the white space around its
/// pieces. With a terminator line in `text`:
/// - `text` is the lines of its front matter joined by line breaks, then a
///   line break, then the terminator line, then, where the text goes on, a
///   line break and the body as it stands;
/// - the terminator line begins with the terminator and holds no line break;
/// - the metadata are those lines, each trimmed, as many as there are;
/// - the body is the body as it stands, trimmed.
pub proof fn lemma_near_round_trip(text: Seq<char>)
    requires
        has_terminator(text),
    ensures
        ({
            let lines = split_lines(front_part(text, terminator()));
            let rest = rest_part(text, terminator());
            &&& text == join_lines(lines) + seq!['\n'] + terminator_line(text) + if rest.contains(
                '\n',
            ) {
                seq!['\n'] + raw_body(text)
            } else {
                Seq::empty()
            }
            &&& terminator_line(text).len() >= terminator().len()
            &&& terminator_line(text).take(terminator().len() as int) == terminator()
            &&& !terminator_line(text).contains('\n')
            &&& metadata_lines(text).len() == lines.len()
            &&& forall|k: int|
                0 <= k < lines.len() ==> #[trigger] metadata_lines(text)[k] == trimmed(lines[k])
            &&& body_of(text) == trimmed(raw_body(text))
        }),
{
    let marker = at_line_start(terminator());
    let at = first_occurrence(text, marker);
    let front = front_part(text, terminator());
    let rest = rest_part(text, terminator());
    let tail = if rest.contains('\n') {
        seq!['\n'] + raw_body(text)
    } else {
        Seq::empty()
    };
    assert(occurs_at(text, marker, at)) by {
        let i = choose|i: int| occurs_at(text, marker, i);
        lemma_least_occurrence(text, marker, i);
    }
    lemma_split_lines(front);
    lemma_first_line(rest);
    assert(text.subrange(at, at + 4) == marker);
    assert(text[at] == text.subrange(at, at + 4)[0]);
    assert(text == front + seq!['\n'] + rest);
    assert(text == front + seq!['\n'] + terminator_line(text) + tail) by {
        assert(rest == terminator_line(text) + tail);
        assert(front + seq!['\n'] + (terminator_line(text) + tail) == front + seq!['\n']
            + terminator_line(text) + tail);
    }
    assert(rest.take(3) == terminator()) by {
        assert(rest.take(3) == text.subrange(at, at + 4).skip(1));
    }
    assert forall|i: int| 0 <= i < 3 implies rest[i] != '\n' by {
        assert(rest[i] == rest.take(3)[i]);
    }
    lemma_begins_first_line(rest, 3);
}

/// The first line of `s` holds the first `n` characters of `s` where none of
/// them is a line break.
proof fn lemma_begins_first_line(s: Seq<char>, n: int)
    requires
        0 <= n <= s.len(),
        forall|i: int| 0 <= i < n ==> s[i] != '\n',
    ensures
        first_line(s).len() >= n,
        first_line(s).take(n) == s.take(n),
    decreases n,
{
    if n > 0 {
        assert(s[0] != '\n');
        assert forall|i: int| 0 <= i < n - 1 implies s.skip(1)[i] != '\n' by {
            assert(s.skip(1)[i] == s[i + 1]);
        }
        lemma_begins_first_line(s.skip(1), n - 1);
        assert(first_line(s).take(n) == seq![s[0]] + first_line(s.skip(1)).take(n - 1));
        assert(s.take(n) == seq![s[0]] + s.skip(1).take(n - 1));
    } else {
        assert(first_line(s).take(0) == s.take(0));
    }
}

} // verus!
