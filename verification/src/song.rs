//! A song: its fields, its body and the blocks rendered from them.

use crate::error::TemplaterError;
use crate::frontmatter::{body_of, extract, has_terminator, metadata_lines};
use crate::metadata::{metadata_of, parse_metadata};
use crate::replace::{lemma_replaced_holds_value, lemma_replaced_keeps, no_common_character};
use crate::template::{fill, filled, loaded, Slot, TemplateName, TemplateStore, Templates};
use crate::text::{chars_of, occurs, string_of};
use crate::transpose::{is_directive, is_pitch, TransposeText};
use vstd::prelude::*;

verus! {

/// One song of the book. A song is made from a song file and then gets its
/// rendered blocks attached; nothing else changes it.
#[derive(Debug, Clone, PartialEq, Eq)]
pub struct Song {
    pub title: String,
    pub composer: String,
    pub meter: String,
    pub bpm: String,
    /// The body of the song file.
    pub raw_body: String,
    /// The header template with the fields of the song filled in.
    pub rendered_header: String,
    /// The voice template with the body filled in.
    pub rendered_voice: String,
    /// The lyrics template with the body filled in.
    pub rendered_lyrics: String,
    /// The chords template with the body filled in.
    pub rendered_chords: String,
}

/// A song as texts.
pub struct SongText {
    pub title: Seq<char>,
    pub composer: Seq<char>,
    pub meter: Seq<char>,
    pub bpm: Seq<char>,
    pub raw_body: Seq<char>,
    pub rendered_header: Seq<char>,
    pub rendered_voice: Seq<char>,
    pub rendered_lyrics: Seq<char>,
    pub rendered_chords: Seq<char>,
}

impl View for Song {
    type V = SongText;

    open spec fn view(&self) -> SongText {
        SongText {
            title: self.title@,
            composer: self.composer@,
            meter: self.meter@,
            bpm: self.bpm@,
            raw_body: self.raw_body@,
            rendered_header: self.rendered_header@,
            rendered_voice: self.rendered_voice@,
            rendered_lyrics: self.rendered_lyrics@,
            rendered_chords: self.rendered_chords@,
        }
    }
}

/// The song that the front matter `lines` and the body `document` make, with
/// nothing rendered yet; `None` where the lines set no title.
pub open spec fn new_song(lines: Seq<Seq<char>>, document: Seq<char>) -> Option<SongText> {
    match metadata_of(lines) {
        Some(fields) => Some(
            SongText {
                title: fields.title,
                composer: fields.composer,
                meter: fields.meter,
                bpm: fields.bpm,
                raw_body: document,
                rendered_header: Seq::empty(),
                rendered_voice: Seq::empty(),
                rendered_lyrics: Seq::empty(),
                rendered_chords: Seq::empty(),
            },
        ),
        None => None,
    }
}

/// What reading the song file `source` gives: the song, or the reason why
/// there is none.
pub open spec fn song_of_source(source: Seq<char>) -> Result<SongText, TemplaterError> {
    if !has_terminator(source) {
        Err(TemplaterError::MissingFrontmatter)
    } else {
        match new_song(metadata_lines(source), body_of(source)) {
            Some(song) => Ok(song),
            None => Err(TemplaterError::MissingTitle),
        }
    }
}

/// The header template with title, composer, meter and tempo filled in, in
/// this order.
pub open spec fn header_text(template: Seq<char>, song: SongText) -> Seq<char> {
    filled(
        filled(
            filled(filled(template, Slot::Title, song.title), Slot::Composer, song.composer),
            Slot::Meter,
            song.meter,
        ),
        Slot::Bpm,
        song.bpm,
    )
}

/// A voice, lyrics or chords template with the directive of the
/// transposition filled in and then the body of the song.
pub open spec fn part_text(template: Seq<char>, directive: Seq<char>, body: Seq<char>)
    -> Seq<char> {
    filled(filled(template, Slot::Transpose, directive), Slot::Body, body)
}

/// `song` with its four blocks rendered from `templates` under the
/// transposition directive `directive`.
pub open spec fn rendered(song: SongText, templates: Templates, directive: Seq<char>) -> SongText {
    SongText {
        rendered_header: header_text(templates.song_header, song),
        rendered_voice: part_text(templates.voice, directive, song.raw_body),
        rendered_lyrics: part_text(templates.lyrics, directive, song.raw_body),
        rendered_chords: part_text(templates.chords, directive, song.raw_body),
        ..song
    }
}

/// The block of `song` in the book: the song-body template with the rendered
/// header, voice, lyrics and chords filled in, in this order.
pub open spec fn block_text(song: SongText, templates: Templates) -> Seq<char> {
    filled(
        filled(
            filled(
                filled(templates.song_body, Slot::Header, song.rendered_header),
                Slot::Voice,
                song.rendered_voice,
            ),
            Slot::Lyrics,
            song.rendered_lyrics,
        ),
        Slot::Chords,
        song.rendered_chords,
    )
}

/// Every rendered voice holds the directive of the transposition of the
/// book, where the voice template as read holds `%%TRANSPOSE%%` and the
/// directive is well formed.
pub proof fn lemma_voice_holds_directive(
    raw: Templates,
    transpose: (Seq<char>, Seq<char>),
    num_songs: nat,
    song: SongText,
)
    requires
        occurs(raw.voice, Slot::Transpose.token()),
        is_directive(transpose.1),
    ensures
        occurs(
            rendered(song, loaded(raw, transpose, num_songs), transpose.1).rendered_voice,
            transpose.1,
        ),
{
    let directive = transpose.1;
    let voice = loaded(raw, transpose, num_songs).voice;
    reveal_strlit("%%TRANSPOSE%%");
    reveal_strlit("%%BODY%%");
    lemma_replaced_holds_value(raw.voice, Slot::Transpose.token(), directive);
    let at = choose|i: int|
        0 < i < directive.len() && directive[i] == ' ' && is_pitch(directive.take(i)) && is_pitch(
            directive.skip(i + 1),
        );
    assert forall|i: int| 0 <= i < directive.len() implies directive[i] == ' ' || ('a'
        <= #[trigger] directive[i] && directive[i] <= 'z') by {
        if i < at {
            assert(directive.take(at)[i] == directive[i]);
        } else if i > at {
            assert(directive.skip(at + 1)[i - at - 1] == directive[i]);
        }
    }
    assert(no_common_character(directive, Slot::Transpose.token()));
    assert(no_common_character(directive, Slot::Body.token()));
    lemma_replaced_keeps(voice, Slot::Transpose.token(), directive, directive);
    lemma_replaced_keeps(
        filled(voice, Slot::Transpose, directive),
        Slot::Body.token(),
        song.raw_body,
        directive,
    );
}

fn render_part(template: &String, directive: &Vec<char>, body: &Vec<char>) -> (out: Vec<char>)
    ensures
        out@ == part_text(template@, directive@, body@),
{
    let part = fill(&chars_of(template.as_str()), Slot::Transpose, directive);
    fill(&part, Slot::Body, body)
}

impl Song {
    /// Makes a song from the lines of its front matter and its body.
    ///
    /// Fails with `MissingTitle` where no line sets a title.
    pub fn new(front_matter: &Vec<String>, document: &str) -> (r: Result<Song, TemplaterError>)
        ensures
            match r {
                Ok(song) => new_song(front_matter.deep_view(), document@) == Some(song@),
                Err(e) => {
                    &&& new_song(front_matter.deep_view(), document@) is None
                    &&& e == TemplaterError::MissingTitle
                },
            },
    {
        match parse_metadata(front_matter) {
            Err(e) => Err(e),
            Ok(fields) => Ok(
                Song {
                    title: fields.title,
                    composer: fields.composer,
                    meter: fields.meter,
                    bpm: fields.bpm,
                    raw_body: document.to_owned(),
                    rendered_header: String::new(),
                    rendered_voice: String::new(),
                    rendered_lyrics: String::new(),
                    rendered_chords: String::new(),
                },
            ),
        }
    }

    /// Reads a song file.
    ///
    /// Fails with `MissingFrontmatter` where the file has no terminator line,
    /// and with `MissingTitle` where its front matter sets no title.
    pub fn from_source(source: &str) -> (r: Result<Song, TemplaterError>)
        ensures
            match r {
                Ok(song) => song_of_source(source@) == Ok::<SongText, TemplaterError>(song@),
                Err(e) => song_of_source(source@) == Err::<SongText, TemplaterError>(e),
            },
    {
        match extract(source) {
            Err(e) => Err(e),
            Ok(parts) => Song::new(&parts.metadata, parts.body.as_str()),
        }
    }

    /// Renders the four blocks of the song from `templates` under the
    /// transposition `transpose`, and attaches them.
    pub fn render(&mut self, templates: &TemplateStore, transpose: &TransposeText)
        ensures
            final(self)@ == rendered(old(self)@, templates@, transpose.lilypond_text@),
    {
        let body = chars_of(self.raw_body.as_str());
        let directive = chars_of(transpose.lilypond_text.as_str());
        let header = chars_of(templates.get(TemplateName::SongHeader).as_str());
        let header = fill(&header, Slot::Title, &chars_of(self.title.as_str()));
        let header = fill(&header, Slot::Composer, &chars_of(self.composer.as_str()));
        let header = fill(&header, Slot::Meter, &chars_of(self.meter.as_str()));
        let header = fill(&header, Slot::Bpm, &chars_of(self.bpm.as_str()));
        let voice = render_part(templates.get(TemplateName::Voice), &directive, &body);
        let lyrics = render_part(templates.get(TemplateName::Lyrics), &directive, &body);
        let chords = render_part(templates.get(TemplateName::Chords), &directive, &body);
        self.rendered_header = string_of(&header);
        self.rendered_voice = string_of(&voice);
        self.rendered_lyrics = string_of(&lyrics);
        self.rendered_chords = string_of(&chords);
    }

    /// The block of the song in the book, made of the blocks attached to it.
    pub fn block(&self, templates: &TemplateStore) -> (out: String)
        ensures
            out@ == block_text(self@, templates@),
    {
        let block = chars_of(templates.get(TemplateName::SongBody).as_str());
        let block = fill(&block, Slot::Header, &chars_of(self.rendered_header.as_str()));
        let block = fill(&block, Slot::Voice, &chars_of(self.rendered_voice.as_str()));
        let block = fill(&block, Slot::Lyrics, &chars_of(self.rendered_lyrics.as_str()));
        let block = fill(&block, Slot::Chords, &chars_of(self.rendered_chords.as_str()));
        string_of(&block)
    }
}

} // verus!
