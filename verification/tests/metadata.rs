use templater::error::TemplaterError;
use templater::metadata::{parse_field, parse_metadata, SongMetadata};

fn lines(ls: &[&str]) -> Vec<String> {
    ls.iter().map(|l| l.to_string()).collect()
}

fn cs(s: &str) -> Vec<char> {
    s.chars().collect()
}

#[test]
fn fields_are_read_and_trimmed() {
    let found = parse_metadata(&lines(&[
        "title:  Blue Moon ",
        "composer: Richard Rodgers",
        "meter: 4/4",
        "bpm:120",
    ]));
    assert_eq!(
        found,
        Ok(SongMetadata {
            title: "Blue Moon".to_string(),
            composer: "Richard Rodgers".to_string(),
            meter: "4/4".to_string(),
            bpm: "120".to_string(),
        })
    );
}

#[test]
fn absent_fields_default_to_empty() {
    let found = parse_metadata(&lines(&["title: Blue Moon"])).unwrap();
    assert_eq!(found.title, "Blue Moon");
    assert_eq!(found.composer, "");
    assert_eq!(found.meter, "");
    assert_eq!(found.bpm, "");
}

#[test]
fn missing_title_is_an_error() {
    assert_eq!(parse_metadata(&lines(&[])), Err(TemplaterError::MissingTitle));
    let missing = Err(TemplaterError::MissingTitle);
    assert_eq!(parse_metadata(&lines(&["composer: X", "bpm: 90"])), missing);
    assert_eq!(parse_metadata(&lines(&["title", "Title: X", "titles: Y"])), missing);
}

#[test]
fn unknown_keys_and_lines_without_colon_are_ignored() {
    let found =
        parse_metadata(&lines(&["---", "", "style: swing", "title: A", "just words"])).unwrap();
    assert_eq!(found.title, "A");
    assert_eq!(found.composer, "");
}

#[test]
fn the_last_line_that_sets_a_field_counts() {
    let found = parse_metadata(&lines(&["title: A", "bpm: 90", "title: B", "bpm: 100"])).unwrap();
    assert_eq!(found.title, "B");
    assert_eq!(found.bpm, "100");
}

#[test]
fn the_value_stands_behind_the_first_colon() {
    let found = parse_metadata(&lines(&["title: Suite: Part 1", " composer : A : B "])).unwrap();
    assert_eq!(found.title, "Suite: Part 1");
    assert_eq!(found.composer, "A : B");
    assert_eq!(parse_field("a:b:c"), Some((cs("a"), cs("b:c"))));
    assert_eq!(parse_field(":"), Some((cs(""), cs(""))));
    assert_eq!(parse_field("no colon"), None);
    assert_eq!(parse_field(""), None);
}

#[test]
fn an_empty_title_is_a_title() {
    let found = parse_metadata(&lines(&["title:"])).unwrap();
    assert_eq!(found.title, "");
}
