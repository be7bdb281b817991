//! The templates of a book and the placeholders in them.
//!
//! A template is a text with placeholders of the form `%%NAME%%`. Filling a
//! placeholder replaces each of its occurrences by a value, literally. The
//! placeholders are fixed: there is no template language.
//!
//! What is filled in where:
//! - intro: `%%TRANSPOSE%%` (the label of the transposition, capitalised),
//!   then `%%NUM_TUNES%%`;
//! - song-header: `%%TITLE%%`, `%%COMPOSER%%`, `%%METER%%`, `%%BPM%%`;
//! - voice, lyrics, chords: `%%TRANSPOSE%%` (the directive of the
//!   transposition), then `%%BODY%%`;
//! - song-body: `%%HEADER%%`, `%%VOICE%%`, `%%LYRICS%%`, `%%CHORDS%%`;
//! - bookpart: nothing; the store hands it out as it was read.

use crate::replace::{replace_all, replaced};
use crate::text::{chars_of, string_of};
use crate::transpose::TemplaterConfig;
use crate::utils::{capitalize_text, capitalized, decimal, decimal_of};
use vstd::prelude::*;

verus! {

/// The placeholders that a template can hold.
#[derive(Debug, Clone, Copy, PartialEq, Eq)]
pub enum Slot {
    /// The transposition: its label in the intro, its directive in voice,
    /// lyrics and chords.
    Transpose,
    /// The number of songs in the book.
    NumTunes,
    /// The title of a song.
    Title,
    /// The composer of a song.
    Composer,
    /// The meter of a song.
    Meter,
    /// The tempo of a song.
    Bpm,
    /// The body of a song file.
    Body,
    /// The rendered header of a song.
    Header,
    /// The rendered voice of a song.
    Voice,
    /// The rendered lyrics of a song.
    Lyrics,
    /// The rendered chords of a song.
    Chords,
}

impl Slot {
    /// The text that stands in a template for this placeholder.
    pub open spec fn token(self) -> Seq<char> {
        match self {
            Slot::Transpose => "%%TRANSPOSE%%"@,
            Slot::NumTunes => "%%NUM_TUNES%%"@,
            Slot::Title => "%%TITLE%%"@,
            Slot::Composer => "%%COMPOSER%%"@,
            Slot::Meter => "%%METER%%"@,
            Slot::Bpm => "%%BPM%%"@,
            Slot::Body => "%%BODY%%"@,
            Slot::Header => "%%HEADER%%"@,
            Slot::Voice => "%%VOICE%%"@,
            Slot::Lyrics => "%%LYRICS%%"@,
            Slot::Chords => "%%CHORDS%%"@,
        }
    }

    /// The text that stands in a template for this placeholder.
    pub fn token_str(self) -> (s: &'static str)
        ensures
            s@ == self.token(),
    {
        match self {
            Slot::Transpose => "%%TRANSPOSE%%",
            Slot::NumTunes => "%%NUM_TUNES%%",
            Slot::Title => "%%TITLE%%",
            Slot::Composer => "%%COMPOSER%%",
            Slot::Meter => "%%METER%%",
            Slot::Bpm => "%%BPM%%",
            Slot::Body => "%%BODY%%",
            Slot::Header => "%%HEADER%%",
            Slot::Voice => "%%VOICE%%",
            Slot::Lyrics => "%%LYRICS%%",
            Slot::Chords => "%%CHORDS%%",
        }
    }
}

/// `template` with every occurrence of the placeholder `slot` replaced by
/// `value`.
pub open spec fn filled(template: Seq<char>, slot: Slot, value: Seq<char>) -> Seq<char> {
    replaced(template, slot.token(), value)
}

/// Fills the placeholder `slot` in `template` with `value`.
pub fn fill(template: &Vec<char>, slot: Slot, value: &Vec<char>) -> (out: Vec<char>)
    ensures
        out@ == filled(template@, slot, value@),
{
    let token = chars_of(slot.token_str());
    replace_all(template, &token, value)
}

/// Fills the placeholder `slot` in `template` with `value`.
pub fn substitute(template: &str, slot: Slot, value: &str) -> (out: String)
    ensures
        out@ == filled(template@, slot, value@),
{
    let text = chars_of(template);
    let with = chars_of(value);
    string_of(&fill(&text, slot, &with))
}

/// The templates of a book, by name.
#[derive(Debug, Clone, Copy, PartialEq, Eq)]
pub enum TemplateName {
    /// What opens the book.
    Intro,
    /// What frames a part of the book.
    Bookpart,
    /// What lays out the parts of a song.
    SongBody,
    /// The header of a song.
    SongHeader,
    /// The voice of a song.
    Voice,
    /// The lyrics of a song.
    Lyrics,
    /// The chords of a song.
    Chords,
}

impl TemplateName {
    /// The name of the file that holds this template.
    pub open spec fn file_name_text(self) -> Seq<char> {
        match self {
            TemplateName::Intro => "intro"@,
            TemplateName::Bookpart => "bookpart"@,
            TemplateName::SongBody => "song-body"@,
            TemplateName::SongHeader => "song-header"@,
            TemplateName::Voice => "voice"@,
            TemplateName::Lyrics => "lyrics"@,
            TemplateName::Chords => "chords"@,
        }
    }

    /// The name of the file that holds this template.
    pub fn file_name(self) -> (s: &'static str)
        ensures
            s@ == self.file_name_text(),
    {
        match self {
            TemplateName::Intro => "intro",
            TemplateName::Bookpart => "bookpart",
            TemplateName::SongBody => "song-body",
            TemplateName::SongHeader => "song-header",
            TemplateName::Voice => "voice",
            TemplateName::Lyrics => "lyrics",
            TemplateName::Chords => "chords",
        }
    }
}

/// The texts of the seven templates.
pub struct Templates {
    pub intro: Seq<char>,
    pub bookpart: Seq<char>,
    pub song_body: Seq<char>,
    pub song_header: Seq<char>,
    pub voice: Seq<char>,
    pub lyrics: Seq<char>,
    pub chords: Seq<char>,
}

impl Templates {
    /// The text of the template `name`.
    pub open spec fn text(self, name: TemplateName) -> Seq<char> {
        match name {
            TemplateName::Intro => self.intro,
            TemplateName::Bookpart => self.bookpart,
            TemplateName::SongBody => self.song_body,
            TemplateName::SongHeader => self.song_header,
            TemplateName::Voice => self.voice,
            TemplateName::Lyrics => self.lyrics,
            TemplateName::Chords => self.chords,
        }
    }
}

/// The templates as they were read, before anything is filled in.
#[derive(Debug, Clone, PartialEq, Eq)]
pub struct RawTemplates {
    pub intro: String,
    pub bookpart: String,
    pub song_body: String,
    pub song_header: String,
    pub voice: String,
    pub lyrics: String,
    pub chords: String,
}

impl View for RawTemplates {
    type V = Templates;

    open spec fn view(&self) -> Templates {
        Templates {
            intro: self.intro@,
            bookpart: self.bookpart@,
            song_body: self.song_body@,
            song_header: self.song_header@,
            voice: self.voice@,
            lyrics: self.lyrics@,
            chords: self.chords@,
        }
    }
}

/// The templates of a run, with what holds for the whole book filled in.
/// Once made, a store is only read.
#[derive(Debug, Clone, PartialEq, Eq)]
pub struct TemplateStore {
    intro: String,
    bookpart: String,
    song_body: String,
    song_header: String,
    voice: String,
    lyrics: String,
    chords: String,
}

/// The templates of a book of `num_songs` songs under the transposition
/// `transpose`, made from the templates `raw`. In the intro the label of the
/// transposition, capitalised, fills `%%TRANSPOSE%%`, and then the number of
/// songs fills `%%NUM_TUNES%%`. In the voice the directive of the
/// transposition fills `%%TRANSPOSE%%`. The others stay as they are.
pub open spec fn loaded(raw: Templates, transpose: (Seq<char>, Seq<char>), num_songs: nat)
    -> Templates {
    Templates {
        intro: filled(
            filled(raw.intro, Slot::Transpose, capitalized(transpose.0)),
            Slot::NumTunes,
            decimal(num_songs),
        ),
        bookpart: raw.bookpart,
        song_body: raw.song_body,
        song_header: raw.song_header,
        voice: filled(raw.voice, Slot::Transpose, transpose.1),
        lyrics: raw.lyrics,
        chords: raw.chords,
    }
}

impl View for TemplateStore {
    type V = Templates;

    closed spec fn view(&self) -> Templates {
        Templates {
            intro: self.intro@,
            bookpart: self.bookpart@,
            song_body: self.song_body@,
            song_header: self.song_header@,
            voice: self.voice@,
            lyrics: self.lyrics@,
            chords: self.chords@,
        }
    }
}

impl TemplateStore {
    /// Makes the store of a run from the templates as read.
    pub fn new(raw: RawTemplates, conf: &TemplaterConfig, num_songs: usize) -> (store:
        TemplateStore)
        ensures
            store@ == loaded(raw@, conf@, num_songs as nat),
    {
        let label = capitalize_text(&chars_of(conf.transpose_text.display_text.as_str()));
        let count = decimal_of(num_songs);
        let directive = chars_of(conf.transpose_text.lilypond_text.as_str());
        let intro = fill(&chars_of(raw.intro.as_str()), Slot::Transpose, &label);
        let intro = fill(&intro, Slot::NumTunes, &count);
        let voice = fill(&chars_of(raw.voice.as_str()), Slot::Transpose, &directive);
        TemplateStore {
            intro: string_of(&intro),
            bookpart: raw.bookpart,
            song_body: raw.song_body,
            song_header: raw.song_header,
            voice: string_of(&voice),
            lyrics: raw.lyrics,
            chords: raw.chords,
        }
    }

    /// The template `name`.
    pub fn get(&self, name: TemplateName) -> (template: &String)
        ensures
            template@ == self@.text(name),
    {
        match name {
            TemplateName::Intro => &self.intro,
            TemplateName::Bookpart => &self.bookpart,
            TemplateName::SongBody => &self.song_body,
            TemplateName::SongHeader => &self.song_header,
            TemplateName::Voice => &self.voice,
            TemplateName::Lyrics => &self.lyrics,
            TemplateName::Chords => &self.chords,
        }
    }
}

} // verus!
