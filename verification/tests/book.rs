use templater::book::{
    compile_book, order_by_title, ordered_titles, output_file_name, read_songs, write_book,
};
use templater::error::TemplaterError;
use templater::song::Song;
use templater::template::{RawTemplates, TemplateStore};
use templater::transpose::{transpose_text, TemplaterConfig, TransposeText};

fn raw() -> RawTemplates {
    RawTemplates {
        intro: "% %%TRANSPOSE%% book, %%NUM_TUNES%% tunes\n\\book {\n".to_string(),
        bookpart: "\\bookpart { }".to_string(),
        song_body: "%%HEADER%%%%VOICE%%%%LYRICS%%%%CHORDS%%".to_string(),
        song_header: "% %%TITLE%% (%%COMPOSER%%) %%METER%% %%BPM%%\n".to_string(),
        voice: "\\transpose %%TRANSPOSE%% { %%BODY%% }\n".to_string(),
        lyrics: "".to_string(),
        chords: "".to_string(),
    }
}

fn source(title: &str, body: &str) -> String {
    format!("title: {}\ncomposer: Trad.\n---\n{}\n", title, body)
}

fn songs(titles: &[&str]) -> Vec<Song> {
    titles.iter().map(|t| Song::from_source(&source(t, "c")).unwrap()).collect()
}

#[test]
fn songs_come_out_in_alphabetical_order() {
    let found = songs(&["Zebra Song", "Amazing Grace", "Blue Moon"]);
    assert_eq!(order_by_title(&found), vec![1, 2, 0]);
    assert_eq!(
        ordered_titles(&found),
        vec!["Amazing Grace".to_string(), "Blue Moon".to_string(), "Zebra Song".to_string()]
    );
    let sources =
        vec![source("Zebra Song", "z"), source("Amazing Grace", "a"), source("Blue Moon", "b")];
    let book = compile_book("c", &sources, raw()).unwrap();
    assert_eq!(
        book.titles,
        vec!["Amazing Grace".to_string(), "Blue Moon".to_string(), "Zebra Song".to_string()]
    );
    assert_eq!(
        book.contents,
        "% Concert book, 3 tunes\n\\book {\n\
         % Amazing Grace (Trad.)  \n\\transpose c c { a }\n\
         % Blue Moon (Trad.)  \n\\transpose c c { b }\n\
         % Zebra Song (Trad.)  \n\\transpose c c { z }\n\
         }\n"
    );
}

#[test]
fn order_of_no_songs_and_of_one() {
    assert_eq!(order_by_title(&vec![]), Vec::<usize>::new());
    assert_eq!(order_by_title(&songs(&["Only"])), vec![0]);
}

#[test]
fn order_is_case_sensitive() {
    assert_eq!(order_by_title(&songs(&["apple", "Zebra", "Apple", "zebra"])), vec![2, 1, 0, 3]);
}

#[test]
fn equal_titles_keep_the_order_in_which_they_were_found() {
    let sources = vec![
        source("Same", "first"),
        source("Other", "x"),
        source("Same", "second"),
        source("Same", "third"),
    ];
    let found = read_songs(&sources).unwrap();
    assert_eq!(order_by_title(&found), vec![1, 0, 2, 3]);
    let book = compile_book("c", &sources, raw()).unwrap();
    let first = book.contents.find("first").unwrap();
    let second = book.contents.find("second").unwrap();
    let third = book.contents.find("third").unwrap();
    assert!(first < second && second < third);
}

#[test]
fn order_agrees_with_a_stable_sort() {
    let titles = ["b", "a", "c", "a", "B", "", "ab", "a", "é", "b", "", "Z"];
    let found = songs(&titles);
    let mut expected: Vec<usize> = (0..titles.len()).collect();
    expected.sort_by(|x, y| found[*x].title.cmp(&found[*y].title));
    assert_eq!(order_by_title(&found), expected);
}

#[test]
fn file_name_comes_from_the_label() {
    assert_eq!(output_file_name(&transpose_text("bb").unwrap()), "openbook-Bb.ly");
    assert_eq!(output_file_name(&transpose_text("c").unwrap()), "openbook-Concert.ly");
    assert_eq!(output_file_name(&transpose_text("eb").unwrap()), "openbook-Eb.ly");
    assert_eq!(output_file_name(&transpose_text("testing-f").unwrap()), "openbook-Testing.ly");
    let odd = TransposeText { display_text: "".to_string(), lilypond_text: "c c".to_string() };
    assert_eq!(output_file_name(&odd), "openbook-.ly");
}

#[test]
fn bb_book_has_its_file_name_and_its_directive_in_every_voice() {
    let sources =
        vec![source("Zebra Song", "z"), source("Amazing Grace", "a"), source("Blue Moon", "b")];
    let book = compile_book("bb", &sources, raw()).unwrap();
    assert_eq!(book.file_name, "openbook-Bb.ly");
    let mut found = read_songs(&sources).unwrap();
    let conf = TemplaterConfig::new(transpose_text("bb").unwrap());
    let templates = TemplateStore::new(raw(), &conf, found.len());
    for song in found.iter_mut() {
        song.render(&templates, &transpose_text("bb").unwrap());
        assert!(song.rendered_voice.contains("c d"));
    }
    assert_eq!(book.contents.matches("\\transpose c d {").count(), 3);
    assert!(book.contents.starts_with("% Bb book, 3 tunes\n"));
}

#[test]
fn a_song_without_title_fails_the_whole_run() {
    let sources = vec![source("A", "a"), "composer: X\n---\nnotes\n".to_string(), source("B", "b")];
    assert_eq!(compile_book("c", &sources, raw()), Err(TemplaterError::MissingTitle));
    assert_eq!(read_songs(&sources), Err(TemplaterError::MissingTitle));
}

#[test]
fn a_song_without_terminator_fails_the_whole_run() {
    let sources = vec![source("A", "a"), "title: X\nnotes\n".to_string()];
    assert_eq!(compile_book("c", &sources, raw()), Err(TemplaterError::MissingFrontmatter));
}

#[test]
fn the_first_failing_song_decides_the_error() {
    let no_title = "composer: X\n---\nnotes\n".to_string();
    let no_terminator = "title: X\nnotes\n".to_string();
    assert_eq!(
        compile_book("c", &vec![no_title.clone(), no_terminator.clone()], raw()),
        Err(TemplaterError::MissingTitle)
    );
    assert_eq!(
        compile_book("c", &vec![no_terminator, no_title], raw()),
        Err(TemplaterError::MissingFrontmatter)
    );
}

#[test]
fn an_unknown_key_fails_before_the_songs_are_read() {
    let sources = vec!["no front matter".to_string()];
    assert_eq!(
        compile_book("bass", &sources, raw()),
        Err(TemplaterError::UnknownTransposition("bass".to_string()))
    );
}

#[test]
fn a_book_without_songs_is_intro_and_closing() {
    let book = compile_book("eb", &vec![], raw()).unwrap();
    assert_eq!(book.file_name, "openbook-Eb.ly");
    assert_eq!(book.titles, Vec::<String>::new());
    assert_eq!(book.contents, "% Eb book, 0 tunes\n\\book {\n}\n");
}

#[test]
fn compiling_twice_gives_the_same_book() {
    let sources = vec![source("B", "b"), source("A", "a")];
    assert_eq!(compile_book("bb", &sources, raw()), compile_book("bb", &sources, raw()));
}

#[test]
fn write_book_uses_the_blocks_attached_to_the_songs() {
    let mut found = songs(&["B", "A"]);
    let conf = TemplaterConfig::new(transpose_text("c").unwrap());
    let templates = TemplateStore::new(raw(), &conf, 2);
    assert_eq!(write_book(&templates, &found), "% Concert book, 2 tunes\n\\book {\n}\n");
    for song in found.iter_mut() {
        song.render(&templates, &transpose_text("c").unwrap());
    }
    assert_eq!(
        write_book(&templates, &found),
        "% Concert book, 2 tunes\n\\book {\n\
         % A (Trad.)  \n\\transpose c c { c }\n\
         % B (Trad.)  \n\\transpose c c { c }\n\
         }\n"
    );
}

#[test]
fn the_book_holds_the_block_of_every_song() {
    let sources: Vec<String> =
        ["delta", "alpha", "charlie", "bravo"].iter().map(|t| source(t, t)).collect();
    let book = compile_book("eb", &sources, raw()).unwrap();
    for title in ["alpha", "bravo", "charlie", "delta"] {
        let block = format!("% {} (Trad.)  \n\\transpose ees c {{ {} }}\n", title, title);
        assert_eq!(book.contents.matches(&block).count(), 1);
    }
}
