use templater::error::TemplaterError;
use templater::song::Song;
use templater::template::{RawTemplates, TemplateStore};
use templater::transpose::{transpose_text, TemplaterConfig};

fn raw() -> RawTemplates {
    RawTemplates {
        intro: "intro\n".to_string(),
        bookpart: "".to_string(),
        song_body: "[%%HEADER%%|%%VOICE%%|%%LYRICS%%|%%CHORDS%%]\n".to_string(),
        song_header: "%%TITLE%% by %%COMPOSER%%, %%METER%% at %%BPM%%".to_string(),
        voice: "voice(%%TRANSPOSE%%): %%BODY%%".to_string(),
        lyrics: "lyrics: %%BODY%%".to_string(),
        chords: "chords(%%TRANSPOSE%%): %%BODY%%".to_string(),
    }
}

fn store(key: &str) -> TemplateStore {
    TemplateStore::new(raw(), &TemplaterConfig::new(transpose_text(key).unwrap()), 1)
}

fn lines(ls: &[&str]) -> Vec<String> {
    ls.iter().map(|l| l.to_string()).collect()
}

#[test]
fn new_song_holds_fields_and_body_and_nothing_rendered() {
    let song = Song::new(&lines(&["title: Blue Moon", "bpm: 96"]), "{ c d e }").unwrap();
    assert_eq!(song.title, "Blue Moon");
    assert_eq!(song.composer, "");
    assert_eq!(song.meter, "");
    assert_eq!(song.bpm, "96");
    assert_eq!(song.raw_body, "{ c d e }");
    assert_eq!(song.rendered_header, "");
    assert_eq!(song.rendered_voice, "");
    assert_eq!(song.rendered_lyrics, "");
    assert_eq!(song.rendered_chords, "");
}

#[test]
fn song_without_title_is_rejected() {
    assert_eq!(Song::new(&lines(&["composer: X"]), "body"), Err(TemplaterError::MissingTitle));
    assert_eq!(Song::from_source("composer: X\n---\nbody"), Err(TemplaterError::MissingTitle));
}

#[test]
fn song_file_without_terminator_is_rejected() {
    assert_eq!(Song::from_source("title: X\nbody"), Err(TemplaterError::MissingFrontmatter));
}

#[test]
fn song_file_is_read() {
    let source = "title: Blue Moon\ncomposer: Rodgers\nmeter: 4/4\n---\n\n{ c d e }\n";
    let song = Song::from_source(source).unwrap();
    assert_eq!(song.title, "Blue Moon");
    assert_eq!(song.composer, "Rodgers");
    assert_eq!(song.meter, "4/4");
    assert_eq!(song.bpm, "");
    assert_eq!(song.raw_body, "{ c d e }");
}

#[test]
fn render_attaches_the_four_blocks() {
    let source = "title: Blue Moon\ncomposer: Rodgers\nmeter: 4/4\nbpm: 96\n---\n{ c d e }\n";
    let mut song = Song::from_source(source).unwrap();
    let before = song.clone();
    song.render(&store("bb"), &transpose_text("bb").unwrap());
    assert_eq!(song.rendered_header, "Blue Moon by Rodgers, 4/4 at 96");
    assert_eq!(song.rendered_voice, "voice(c d): { c d e }");
    assert_eq!(song.rendered_lyrics, "lyrics: { c d e }");
    assert_eq!(song.rendered_chords, "chords(c d): { c d e }");
    assert_eq!(song.title, before.title);
    assert_eq!(song.composer, before.composer);
    assert_eq!(song.meter, before.meter);
    assert_eq!(song.bpm, before.bpm);
    assert_eq!(song.raw_body, before.raw_body);
}

#[test]
fn rendered_voice_holds_the_directive_of_the_transposition() {
    for (key, directive) in [("c", "c c"), ("bb", "c d"), ("eb", "ees c"), ("testing-f", "c g")] {
        let mut song = Song::from_source("title: T\n---\nnotes").unwrap();
        song.render(&store(key), &transpose_text(key).unwrap());
        assert!(song.rendered_voice.contains(directive));
        assert_eq!(song.rendered_voice, format!("voice({}): notes", directive));
    }
}

#[test]
fn block_follows_the_song_body_template() {
    let templates = store("eb");
    let mut song = Song::from_source("title: T\ncomposer: C\n---\nnotes").unwrap();
    assert_eq!(song.block(&templates), "[|||]\n");
    song.render(&templates, &transpose_text("eb").unwrap());
    assert_eq!(
        song.block(&templates),
        "[T by C,  at |voice(ees c): notes|lyrics: notes|chords(ees c): notes]\n"
    );
}

#[test]
fn fields_are_filled_in_one_after_another() {
    let templates = store("c");
    let front_matter =
        lines(&["title: %%COMPOSER%%", "composer: %%TITLE%%", "meter: %%BPM%%", "bpm: 1"]);
    let mut song = Song::new(&front_matter, "").unwrap();
    song.render(&templates, &transpose_text("c").unwrap());
    assert_eq!(song.rendered_header, "%%TITLE%% by %%TITLE%%, 1 at 1");
}

#[test]
fn the_body_is_put_in_as_it_stands() {
    let templates = store("bb");
    let mut song = Song::from_source("title: T\n---\n%%TRANSPOSE%% %%BODY%% %%TITLE%%").unwrap();
    song.render(&templates, &transpose_text("bb").unwrap());
    assert_eq!(song.rendered_voice, "voice(c d): %%TRANSPOSE%% %%BODY%% %%TITLE%%");
    assert_eq!(song.rendered_lyrics, "lyrics: %%TRANSPOSE%% %%BODY%% %%TITLE%%");
    assert_eq!(song.rendered_chords, "chords(c d): %%TRANSPOSE%% %%BODY%% %%TITLE%%");
}
