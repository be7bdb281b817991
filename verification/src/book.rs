//! Putting the book together: the order of the songs, the text of the book
//! and the name of its file.

use crate::error::TemplaterError;
use crate::frontmatter::{has_terminator, metadata_lines};
use crate::metadata::metadata_of;
use crate::order::{
    indices, is_stable_order, lemma_title_order_is_stable, stable_order, texts_of, title_order,
};
use crate::song::{block_text, rendered, song_of_source, Song, SongText};
use crate::template::{loaded, RawTemplates, TemplateName, TemplateStore, Templates};
use crate::text::{append_text, chars_of, lemma_occurs_within, occurs, occurs_at, string_of};
use crate::transpose::{transpose_text, transposition, TemplaterConfig, TransposeText};
use vstd::prelude::*;

verus! {

/// The titles of `songs`, in the order in which the songs were found.
pub open spec fn titles_of(songs: Seq<SongText>) -> Seq<Seq<char>> {
    songs.map_values(|song: SongText| song.title)
}

/// The texts of `songs`.
pub open spec fn song_texts(songs: Seq<Song>) -> Seq<SongText> {
    songs.map_values(|song: Song| song@)
}

/// The order of the songs in the book, as indices into `songs`: by ascending
/// title, case counting, and by the order in which they were found where
/// titles are equal.
pub fn order_by_title(songs: &Vec<Song>) -> (order: Vec<usize>)
    ensures
        indices(order@) == title_order(titles_of(song_texts(songs@))),
        is_stable_order(titles_of(song_texts(songs@)), indices(order@)),
{
    let mut titles: Vec<Vec<char>> = Vec::new();
    let mut n: usize = 0;
    while n < songs.len()
        invariant
            n <= songs.len(),
            titles.len() == n,
            forall|k: int| 0 <= k < n ==> (#[trigger] titles@[k])@ == songs@[k].title@,
        decreases songs.len() - n,
    {
        titles.push(chars_of(songs[n].title.as_str()));
        n = n + 1;
    }
    assert(texts_of(titles@) =~= titles_of(song_texts(songs@)));
    stable_order(&titles)
}

/// What closes the book.
pub open spec fn closing() -> Seq<char> {
    "}\n"@
}

/// The texts `blocks` one after another, in the order `order`.
pub open spec fn blocks_in_order(blocks: Seq<Seq<char>>, order: Seq<int>) -> Seq<char>
    decreases order.len(),
{
    if order.len() == 0 {
        Seq::empty()
    } else {
        blocks_in_order(blocks, order.drop_last()) + blocks[order.last()]
    }
}

/// The blocks of `songs` under `templates`.
pub open spec fn blocks_of(songs: Seq<SongText>, templates: Templates) -> Seq<Seq<char>> {
    songs.map_values(|song: SongText| block_text(song, templates))
}

/// The text of the book: the intro, the block of each song in the order of
/// the titles, and the closing.
pub open spec fn book_text(songs: Seq<SongText>, templates: Templates) -> Seq<char> {
    templates.intro + blocks_in_order(blocks_of(songs, templates), title_order(titles_of(songs)))
        + closing()
}

/// The blocks put one after another hold every block that the order names.
pub proof fn lemma_blocks_in_order_hold(blocks: Seq<Seq<char>>, order: Seq<int>, m: int)
    requires
        0 <= m < order.len(),
    ensures
        occurs(blocks_in_order(blocks, order), blocks[order[m]]),
    decreases order.len(),
{
    let front = blocks_in_order(blocks, order.drop_last());
    let last = blocks[order.last()];
    if m == order.len() - 1 {
        assert(last.subrange(0, last.len() as int) == last);
        assert(occurs_at(last, last, 0));
        lemma_occurs_within(front, last, Seq::empty(), last);
        assert(front + last + Seq::<char>::empty() == front + last);
    } else {
        lemma_blocks_in_order_hold(blocks, order.drop_last(), m);
        assert(order.drop_last()[m] == order[m]);
        lemma_occurs_within(Seq::empty(), front, last, blocks[order[m]]);
        assert(Seq::<char>::empty() + front + last == front + last);
    }
}

/// The book leaves no song out: the block of every song stands in its text.
pub proof fn lemma_book_holds_every_song(songs: Seq<SongText>, templates: Templates, k: int)
    requires
        0 <= k < songs.len(),
    ensures
        occurs(book_text(songs, templates), block_text(songs[k], templates)),
{
    let order = title_order(titles_of(songs));
    let blocks = blocks_of(songs, templates);
    lemma_title_order_is_stable(titles_of(songs));
    assert(order.contains(k));
    let m = choose|m: int| 0 <= m < order.len() && order[m] == k;
    lemma_blocks_in_order_hold(blocks, order, m);
    lemma_occurs_within(templates.intro, blocks_in_order(blocks, order), closing(), blocks[k]);
}

/// The titles of `songs` in the order of the book.
pub open spec fn titles_in_order(songs: Seq<SongText>) -> Seq<Seq<char>> {
    title_order(titles_of(songs)).map_values(|i: int| songs[i].title)
}

/// The name of the file of the book with the transposition label `display`.
pub open spec fn file_name_text(display: Seq<char>) -> Seq<char> {
    "openbook-"@ + display + ".ly"@
}

/// The name of the file that the book is written to. It depends on the label
/// of the transposition alone.
pub fn output_file_name(transpose: &TransposeText) -> (name: String)
    ensures
        name@ == file_name_text(transpose.display_text@),
{
    let mut name = chars_of("openbook-");
    append_text(&mut name, &chars_of(transpose.display_text.as_str()));
    append_text(&mut name, &chars_of(".ly"));
    string_of(&name)
}

/// Writes the text of the book: the intro, the block of each song in the
/// order of the titles, and the closing.
pub fn write_book(templates: &TemplateStore, songs: &Vec<Song>) -> (out: String)
    ensures
        out@ == book_text(song_texts(songs@), templates@),
{
    let ghost texts = song_texts(songs@);
    let ghost blocks = blocks_of(texts, templates@);
    let order = order_by_title(songs);
    let mut out = chars_of(templates.get(TemplateName::Intro).as_str());
    let mut k: usize = 0;
    assert(indices(order@).take(0) == Seq::<int>::empty());
    assert(out@ + Seq::<char>::empty() == out@);
    while k < order.len()
        invariant
            k <= order.len(),
            texts == song_texts(songs@),
            blocks == blocks_of(texts, templates@),
            is_stable_order(titles_of(texts), indices(order@)),
            out@ == templates@.intro + blocks_in_order(blocks, indices(order@).take(k as int)),
        decreases order.len() - k,
    {
        let ghost upto = indices(order@).take(k + 1);
        proof {
            assert(indices(order@)[k as int] == order@[k as int]);
            assert(upto.drop_last() == indices(order@).take(k as int));
            assert(upto.last() == order@[k as int]);
        }
        let block = songs[order[k]].block(templates);
        append_text(&mut out, &chars_of(block.as_str()));
        assert(out@ == templates@.intro + blocks_in_order(blocks, upto)) by {
            assert(blocks[order@[k as int] as int] == block@);
            assert(templates@.intro + blocks_in_order(blocks, upto.drop_last()) + block@
                == templates@.intro + (blocks_in_order(blocks, upto.drop_last()) + block@));
        }
        k = k + 1;
    }
    assert(indices(order@).take(order.len() as int) == indices(order@));
    append_text(&mut out, &chars_of("}\n"));
    string_of(&out)
}

/// What reading the song files `sources` gives: the songs, in the order of
/// the files, or the failure of the first file that has one.
pub open spec fn songs_of_sources(sources: Seq<Seq<char>>) -> Result<Seq<SongText>, TemplaterError>
    decreases sources.len(),
{
    if sources.len() == 0 {
        Ok(Seq::empty())
    } else {
        match songs_of_sources(sources.drop_last()) {
            Err(e) => Err(e),
            Ok(songs) => match song_of_source(sources.last()) {
                Err(e) => Err(e),
                Ok(song) => Ok(songs.push(song)),
            },
        }
    }
}

/// Reading the song files gives a song for every file where every file gives
/// one, and else the failure of the first file that gives none.
pub proof fn lemma_songs_of_sources(sources: Seq<Seq<char>>)
    ensures
        match songs_of_sources(sources) {
            Ok(songs) => {
                &&& songs.len() == sources.len()
                &&& forall|k: int|
                    0 <= k < sources.len() ==> song_of_source(#[trigger] sources[k]) == Ok::<
                        SongText,
                        TemplaterError,
                    >(songs[k])
            },
            Err(e) => exists|k: int|
                {
                    &&& 0 <= k < sources.len()
                    &&& #[trigger] song_of_source(sources[k]) == Err::<SongText, TemplaterError>(e)
                    &&& forall|j: int| 0 <= j < k ==> song_of_source(#[trigger] sources[j]) is Ok
                },
        },
    decreases sources.len(),
{
    if sources.len() > 0 {
        let fewer = sources.drop_last();
        lemma_songs_of_sources(fewer);
        match songs_of_sources(fewer) {
            Err(e) => {
                let k = choose|k: int|
                    {
                        &&& 0 <= k < fewer.len()
                        &&& #[trigger] song_of_source(fewer[k]) == Err::<SongText, TemplaterError>(
                            e,
                        )
                        &&& forall|j: int| 0 <= j < k ==> song_of_source(#[trigger] fewer[j]) is Ok
                    };
                assert(sources[k] == fewer[k]);
                assert forall|j: int| 0 <= j < k implies song_of_source(
                    #[trigger] sources[j],
                ) is Ok by {
                    assert(sources[j] == fewer[j]);
                }
            },
            Ok(songs) => {
                assert forall|j: int| 0 <= j < fewer.len() implies song_of_source(
                    #[trigger] sources[j],
                ) == Ok::<SongText, TemplaterError>(songs[j]) by {
                    assert(sources[j] == fewer[j]);
                }
                match song_of_source(sources.last()) {
                    Err(e) => {
                        assert(song_of_source(sources[sources.len() - 1]) == Err::<
                            SongText,
                            TemplaterError,
                        >(e));
                    },
                    Ok(song) => {},
                }
            },
        }
    }
}

/// One song file without a title, or without a terminator line, is enough
/// for the reading to fail: no book is made with a song left out.
pub proof fn lemma_one_failure_fails_all(sources: Seq<Seq<char>>, k: int)
    requires
        0 <= k < sources.len(),
        song_of_source(sources[k]) is Err,
    ensures
        songs_of_sources(sources) is Err,
{
    lemma_songs_of_sources(sources);
}

/// Where the first song file that gives no song has a terminator line and no
/// title, the reading fails with `MissingTitle`.
pub proof fn lemma_missing_title_fails(sources: Seq<Seq<char>>, k: int)
    requires
        0 <= k < sources.len(),
        forall|j: int| 0 <= j < k ==> song_of_source(#[trigger] sources[j]) is Ok,
        has_terminator(sources[k]),
        metadata_of(metadata_lines(sources[k])) is None,
    ensures
        songs_of_sources(sources) == Err::<Seq<SongText>, TemplaterError>(
            TemplaterError::MissingTitle,
        ),
{
    lemma_songs_of_sources(sources);
    assert(song_of_source(sources[k]) == Err::<SongText, TemplaterError>(
        TemplaterError::MissingTitle,
    ));
    match songs_of_sources(sources) {
        Ok(songs) => {},
        Err(e) => {
            let m = choose|m: int|
                {
                    &&& 0 <= m < sources.len()
                    &&& #[trigger] song_of_source(sources[m]) == Err::<SongText, TemplaterError>(e)
                    &&& forall|j: int| 0 <= j < m ==> song_of_source(#[trigger] sources[j]) is Ok
                };
            if m < k {
                assert(song_of_source(sources[m]) is Ok);
            } else if k < m {
                assert(song_of_source(sources[k]) is Ok);
            }
        },
    }
}

/// Reads the song files, in their order. The first file that has no
/// terminator line or no title ends the reading with its failure.
pub fn read_songs(sources: &Vec<String>) -> (r: Result<Vec<Song>, TemplaterError>)
    ensures
        match r {
            Ok(songs) => songs_of_sources(sources.deep_view()) == Ok::<
                Seq<SongText>,
                TemplaterError,
            >(song_texts(songs@)),
            Err(e) => songs_of_sources(sources.deep_view()) == Err::<Seq<SongText>, TemplaterError>(
                e,
            ),
        },
{
    let ghost all = sources.deep_view();
    let mut songs: Vec<Song> = Vec::new();
    let mut i: usize = 0;
    assert(all.take(0) == Seq::<Seq<char>>::empty());
    assert(song_texts(songs@) == Seq::<SongText>::empty());
    while i < sources.len()
        invariant
            i <= sources.len(),
            all == sources.deep_view(),
            songs_of_sources(all.take(i as int)) == Ok::<Seq<SongText>, TemplaterError>(
                song_texts(songs@),
            ),
        decreases sources.len() - i,
    {
        proof {
            assert(all.take(i + 1).drop_last() == all.take(i as int));
            assert(all.take(i + 1).last() == sources@[i as int]@);
        }
        let ghost before = song_texts(songs@);
        match Song::from_source(sources[i].as_str()) {
            Err(e) => {
                proof {
                    lemma_failure_stays(all, i + 1);
                }
                return Err(e);
            },
            Ok(song) => {
                songs.push(song);
                assert(song_texts(songs@) == before.push(song@));
            },
        }
        i = i + 1;
    }
    assert(all.take(sources.len() as int) == all);
    Ok(songs)
}

/// A failure among the first `n` song files is the failure of them all.
pub proof fn lemma_failure_stays(sources: Seq<Seq<char>>, n: int)
    requires
        0 <= n <= sources.len(),
        songs_of_sources(sources.take(n)) is Err,
    ensures
        songs_of_sources(sources) == songs_of_sources(sources.take(n)),
    decreases sources.len(),
{
    if n < sources.len() {
        assert(sources.drop_last().take(n) == sources.take(n));
        lemma_failure_stays(sources.drop_last(), n);
    } else {
        assert(sources.take(n) == sources);
    }
}

/// `songs`, each with its blocks rendered from `templates` under the
/// transposition directive `directive`.
pub open spec fn all_rendered(songs: Seq<SongText>, templates: Templates, directive: Seq<char>)
    -> Seq<SongText> {
    songs.map_values(|song: SongText| rendered(song, templates, directive))
}

/// A compiled book.
#[derive(Debug, Clone, PartialEq, Eq)]
pub struct Book {
    /// The name of the file that the book goes to.
    pub file_name: String,
    /// The titles of the songs, in the order of the book.
    pub titles: Vec<String>,
    /// The text of the book.
    pub contents: String,
}

/// A compiled book as texts.
pub struct BookText {
    pub file_name: Seq<char>,
    pub titles: Seq<Seq<char>>,
    pub contents: Seq<char>,
}

impl View for Book {
    type V = BookText;

    open spec fn view(&self) -> BookText {
        BookText {
            file_name: self.file_name@,
            titles: self.titles.deep_view(),
            contents: self.contents@,
        }
    }
}

/// The book made of `songs` under the transposition `transpose`, with the
/// templates `raw`: the templates are loaded for the transposition and the
/// number of songs, every song is rendered from them, and the blocks follow
/// the intro in the order of the titles.
pub open spec fn compiled(transpose: (Seq<char>, Seq<char>), songs: Seq<SongText>, raw: Templates)
    -> BookText {
    let templates = loaded(raw, transpose, songs.len());
    let ready = all_rendered(songs, templates, transpose.1);
    BookText {
        file_name: file_name_text(transpose.0),
        titles: titles_in_order(ready),
        contents: book_text(ready, templates),
    }
}

/// The titles of `songs` in the order of the book.
pub fn ordered_titles(songs: &Vec<Song>) -> (titles: Vec<String>)
    ensures
        titles.deep_view() == titles_in_order(song_texts(songs@)),
{
    let order = order_by_title(songs);
    let ghost texts = song_texts(songs@);
    let mut titles: Vec<String> = Vec::new();
    let mut k: usize = 0;
    while k < order.len()
        invariant
            k <= order.len(),
            texts == song_texts(songs@),
            is_stable_order(titles_of(texts), indices(order@)),
            indices(order@) == title_order(titles_of(texts)),
            titles.len() == k,
            forall|j: int| 0 <= j < k ==> (#[trigger] titles@[j])@ == titles_in_order(texts)[j],
        decreases order.len() - k,
    {
        assert(indices(order@)[k as int] == order@[k as int]);
        titles.push(songs[order[k]].title.clone());
        k = k + 1;
    }
    assert(titles.deep_view() =~= titles_in_order(texts));
    titles
}

/// Compiles the book for the transposition key `key` from the song files
/// `sources` and the templates `raw`.
///
/// Fails with `UnknownTransposition` where the key is not known; songs are
/// not looked at then. Else fails with the failure of the first song file
/// that has no terminator line (`MissingFrontmatter`) or no title
/// (`MissingTitle`). Else there is a book, and it holds every song.
pub fn compile_book(key: &str, sources: &Vec<String>, raw: RawTemplates) -> (r: Result<
    Book,
    TemplaterError,
>)
    ensures
        match r {
            Ok(book) => {
                &&& transposition(key@) matches Some(transpose)
                &&& songs_of_sources(sources.deep_view()) matches Ok(songs)
                &&& book@ == compiled(transpose, songs, raw@)
            },
            Err(e) => match transposition(key@) {
                None => e matches TemplaterError::UnknownTransposition(kept) && kept@ == key@,
                Some(_) => songs_of_sources(sources.deep_view()) == Err::<
                    Seq<SongText>,
                    TemplaterError,
                >(e),
            },
        },
{
    let transpose = match transpose_text(key) {
        Err(e) => {
            return Err(e);
        },
        Ok(transpose) => transpose,
    };
    let conf = TemplaterConfig::new(transpose);
    let mut songs = match read_songs(sources) {
        Err(e) => {
            return Err(e);
        },
        Ok(songs) => songs,
    };
    let ghost found = song_texts(songs@);
    let templates = TemplateStore::new(raw, &conf, songs.len());
    let mut i: usize = 0;
    while i < songs.len()
        invariant
            i <= songs.len(),
            songs.len() == found.len(),
            forall|k: int|
                0 <= k < i ==> (#[trigger] songs@[k])@ == rendered(
                    found[k],
                    templates@,
                    conf.transpose_text.lilypond_text@,
                ),
            forall|k: int| i <= k < songs.len() ==> (#[trigger] songs@[k])@ == found[k],
        decreases songs.len() - i,
    {
        songs[i].render(&templates, &conf.transpose_text);
        i = i + 1;
    }
    assert(song_texts(songs@) =~= all_rendered(
        found,
        templates@,
        conf.transpose_text.lilypond_text@,
    ));
    let file_name = output_file_name(&conf.transpose_text);
    let titles = ordered_titles(&songs);
    let contents = write_book(&templates, &songs);
    Ok(Book { file_name, titles, contents })
}

} // verus!

