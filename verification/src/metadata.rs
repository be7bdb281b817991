//! Reading the fields of a song out of the lines of its front matter.
//!
//! A line sets a field where it holds a colon: the key stands before the
//! first colon, the value behind it, both trimmed of white space. Lines
//! without colon and lines with a key that is not known are passed over.
//! Where several lines set one field, the last of them counts.

use crate::error::TemplaterError;
use crate::text::{
    chars_of, find, first_occurrence, occurs, occurs_at, same_text, string_of, subtext,
};
use crate::trim::{trim, trimmed};
use vstd::prelude::*;

verus! {

/// The fields that the front matter of a song can set.
#[derive(Debug, Clone, PartialEq, Eq)]
pub struct SongMetadata {
    /// The title, by which the songs are ordered. Every song has one.
    pub title: String,
    /// The composer; empty where the front matter names none.
    pub composer: String,
    /// The meter; empty where the front matter names none.
    pub meter: String,
    /// The tempo in beats per minute; empty where the front matter names none.
    pub bpm: String,
}

/// The fields of a song as texts.
pub struct MetadataView {
    pub title: Seq<char>,
    pub composer: Seq<char>,
    pub meter: Seq<char>,
    pub bpm: Seq<char>,
}

impl View for SongMetadata {
    type V = MetadataView;

    open spec fn view(&self) -> MetadataView {
        MetadataView {
            title: self.title@,
            composer: self.composer@,
            meter: self.meter@,
            bpm: self.bpm@,
        }
    }
}

/// The colon that parts a key from its value.
pub open spec fn separator() -> Seq<char> {
    seq![':']
}

/// The key and the value that `line` sets, if it holds a colon.
pub open spec fn field_of(line: Seq<char>) -> Option<(Seq<char>, Seq<char>)> {
    if occurs(line, separator()) {
        let at = first_occurrence(line, separator());
        Some((trimmed(line.take(at)), trimmed(line.skip(at + 1))))
    } else {
        None
    }
}

/// The value that `lines` give to `key`: that of the last line that sets it.
pub open spec fn lookup(lines: Seq<Seq<char>>, key: Seq<char>) -> Option<Seq<char>>
    decreases lines.len(),
{
    if lines.len() == 0 {
        None
    } else {
        match field_of(lines.last()) {
            Some(field) if field.0 == key => Some(field.1),
            _ => lookup(lines.drop_last(), key),
        }
    }
}

/// The value that `lines` give to `key`, or the empty text.
pub open spec fn lookup_or_empty(lines: Seq<Seq<char>>, key: Seq<char>) -> Seq<char> {
    match lookup(lines, key) {
        Some(value) => value,
        None => Seq::empty(),
    }
}

/// The fields that `lines` set, if they set a title.
pub open spec fn metadata_of(lines: Seq<Seq<char>>) -> Option<MetadataView> {
    match lookup(lines, "title"@) {
        Some(title) => Some(
            MetadataView {
                title,
                composer: lookup_or_empty(lines, "composer"@),
                meter: lookup_or_empty(lines, "meter"@),
                bpm: lookup_or_empty(lines, "bpm"@),
            },
        ),
        None => None,
    }
}

/// Splits a line at its first colon into key and value, both trimmed.
pub fn parse_field(line: &str) -> (r: Option<(Vec<char>, Vec<char>)>)
    ensures
        match r {
            Some(field) => field_of(line@) == Some((field.0@, field.1@)),
            None => field_of(line@) is None,
        },
{
    let chars = chars_of(line);
    let mut colon: Vec<char> = Vec::new();
    colon.push(':');
    assert(colon@ == separator());
    match find(&chars, &colon) {
        None => None,
        Some(at) => {
            assert(occurs_at(chars@, colon@, at as int));
            let key = trim(&subtext(&chars, 0, at));
            let value = trim(&subtext(&chars, at + 1, chars.len()));
            assert(chars@.subrange(0, at as int) == chars@.take(at as int));
            assert(chars@.subrange(at + 1, chars.len() as int) == chars@.skip(at + 1));
            Some((key, value))
        },
    }
}

spec fn slot_view(slot: Option<Vec<char>>) -> Option<Seq<char>> {
    match slot {
        Some(value) => Some(value@),
        None => None,
    }
}

fn text_or_empty(slot: Option<Vec<char>>) -> (s: String)
    ensures
        s@ == match slot {
            Some(value) => value@,
            None => Seq::empty(),
        },
{
    match slot {
        Some(value) => string_of(&value),
        None => String::new(),
    }
}

/// Reads the fields of a song out of the lines of its front matter.
///
/// Fails with `MissingTitle` where no line sets `title`. A field other than
/// the title that no line sets is empty.
pub fn parse_metadata(lines: &Vec<String>) -> (r: Result<SongMetadata, TemplaterError>)
    ensures
        match r {
            Ok(found) => metadata_of(lines.deep_view()) == Some(found@),
            Err(e) => metadata_of(lines.deep_view()) is None && e == TemplaterError::MissingTitle,
        },
{
    let title_key = chars_of("title");
    let composer_key = chars_of("composer");
    let meter_key = chars_of("meter");
    let bpm_key = chars_of("bpm");
    let mut title: Option<Vec<char>> = None;
    let mut composer: Option<Vec<char>> = None;
    let mut meter: Option<Vec<char>> = None;
    let mut bpm: Option<Vec<char>> = None;
    let ghost all = lines.deep_view();
    let mut i: usize = 0;
    while i < lines.len()
        invariant
            i <= lines.len(),
            all == lines.deep_view(),
            title_key@ == "title"@,
            composer_key@ == "composer"@,
            meter_key@ == "meter"@,
            bpm_key@ == "bpm"@,
            slot_view(title) == lookup(all.take(i as int), "title"@),
            slot_view(composer) == lookup(all.take(i as int), "composer"@),
            slot_view(meter) == lookup(all.take(i as int), "meter"@),
            slot_view(bpm) == lookup(all.take(i as int), "bpm"@),
        decreases lines.len() - i,
    {
        proof {
            reveal_strlit("title");
            reveal_strlit("composer");
            reveal_strlit("meter");
            reveal_strlit("bpm");
            assert("title"@.len() == 5 && "composer"@.len() == 8 && "meter"@[0] == 'm' && "bpm"@[0]
                == 'b');
            assert(all.take(i + 1).drop_last() == all.take(i as int));
            assert(all.take(i + 1).last() == lines@[i as int]@);
        }
        match parse_field(lines[i].as_str()) {
            None => {},
            Some(field) => {
                let (key, value) = field;
                if same_text(&key, &title_key) {
                    title = Some(value);
                } else if same_text(&key, &composer_key) {
                    composer = Some(value);
                } else if same_text(&key, &meter_key) {
                    meter = Some(value);
                } else if same_text(&key, &bpm_key) {
                    bpm = Some(value);
                }
            },
        }
        i = i + 1;
    }
    assert(all.take(lines.len() as int) == all);
    match title {
        None => Err(TemplaterError::MissingTitle),
        Some(found) => Ok(
            SongMetadata {
                title: string_of(&found),
                composer: text_or_empty(composer),
                meter: text_or_empty(meter),
                bpm: text_or_empty(bpm),
            },
        ),
    }
}

} // verus!
