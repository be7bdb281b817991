use templater::error::TemplaterError;
use templater::transpose::{transpose_key, transpose_text, TemplaterConfig, TransposeText};

fn pair(display: &str, lilypond: &str) -> TransposeText {
    TransposeText { display_text: display.to_string(), lilypond_text: lilypond.to_string() }
}

#[test]
fn known_keys_resolve_to_the_table() {
    assert_eq!(transpose_text("c"), Ok(pair("Concert", "c c")));
    assert_eq!(transpose_text("bb"), Ok(pair("Bb", "c d")));
    assert_eq!(transpose_text("eb"), Ok(pair("Eb", "ees c")));
    assert_eq!(transpose_text("testing-f"), Ok(pair("Testing", "c g")));
}

#[test]
fn unknown_keys_are_rejected_with_the_key() {
    for key in ["", "C", "Bb", "bb ", " bb", "bass", "f", "testing", "c c"] {
        assert_eq!(transpose_text(key), Err(TemplaterError::UnknownTransposition(key.to_string())));
    }
}

#[test]
fn unknown_key_message_names_the_key() {
    let err = transpose_text("bass").unwrap_err();
    assert_eq!(err.message(), "Unable to parse transpose input of [bass]");
}

#[test]
fn other_messages() {
    assert_eq!(
        TemplaterError::MissingFrontmatter.message(),
        "Song file has no front matter terminator"
    );
    assert_eq!(
        TemplaterError::MissingTitle.message(),
        "Song file has no title in its front matter"
    );
}

#[test]
fn key_defaults_to_concert_pitch() {
    assert_eq!(transpose_key(None), "c");
    assert_eq!(transpose_key(Some("eb".to_string())), "eb");
    assert_eq!(transpose_key(Some(String::new())), "");
    assert_eq!(transpose_text(&transpose_key(None)), Ok(pair("Concert", "c c")));
}

#[test]
fn config_keeps_the_transposition() {
    let conf = TemplaterConfig::new(pair("Bb", "c d"));
    assert_eq!(conf.transpose_text, pair("Bb", "c d"));
}

#[test]
fn messages_of_the_failures_at_the_edges() {
    let load = TemplaterError::TemplateLoadFailure {
        name: "song-body".to_string(),
        cause: "not found".to_string(),
    };
    assert_eq!(load.message(), "Unable to read song-body template: not found");
    assert_eq!(load.exit_code(), 1);
    let write = TemplaterError::OutputWriteFailure { cause: "disk full".to_string() };
    assert_eq!(write.message(), "Unable to write output file: disk full");
    assert_eq!(write.exit_code(), 1);
}
