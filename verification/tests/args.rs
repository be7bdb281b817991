use templater::args::{parse_args, parse_from, usage, AppArgs, Invocation};
use templater::error::TemplaterError;

fn strings(args: &[&str]) -> Vec<String> {
    args.iter().map(|a| a.to_string()).collect()
}

fn run(transpose: Option<&str>, unused: &[&str]) -> Result<Invocation, TemplaterError> {
    Ok(Invocation::Run {
        args: AppArgs { transpose: transpose.map(|t| t.to_string()) },
        unused: strings(unused),
    })
}

#[test]
fn no_arguments_ask_for_a_run_without_key() {
    assert_eq!(parse_args(strings(&[])), run(None, &[]));
}

#[test]
fn transpose_takes_the_argument_that_follows() {
    assert_eq!(parse_args(strings(&["--transpose", "bb"])), run(Some("bb"), &[]));
    assert_eq!(parse_args(strings(&["--transpose", ""])), run(Some(""), &[]));
    assert_eq!(parse_args(strings(&["--transpose", "--transpose"])), run(Some("--transpose"), &[]));
    assert_eq!(parse_args(strings(&["--transpose", "-h"])), run(Some("-h"), &[]));
}

#[test]
fn transpose_without_value_is_an_error() {
    let expected = Err(TemplaterError::ArgParseError(
        "the '--transpose' option doesn't have an associated value".to_string(),
    ));
    assert_eq!(parse_args(strings(&["--transpose"])), expected);
    assert_eq!(parse_args(strings(&["-h", "--transpose"])), expected);
    assert_eq!(parse_args(strings(&["x", "--help", "--transpose"])), expected);
    let err = parse_args(strings(&["--transpose"])).unwrap_err();
    assert_eq!(err.message(), "Error: the '--transpose' option doesn't have an associated value.");
    assert_eq!(err.exit_code(), 1);
}

#[test]
fn help_is_asked_with_either_flag() {
    assert_eq!(parse_args(strings(&["-h"])), Ok(Invocation::Help));
    assert_eq!(parse_args(strings(&["--help"])), Ok(Invocation::Help));
    assert_eq!(parse_args(strings(&["x", "--help", "y"])), Ok(Invocation::Help));
    assert_eq!(parse_args(strings(&["--transpose", "bb", "-h"])), Ok(Invocation::Help));
    assert_eq!(parse_args(strings(&["-h", "--transpose", "bb"])), Ok(Invocation::Help));
    assert_eq!(parse_args(strings(&["--transpose", "x", "--help", "-h"])), Ok(Invocation::Help));
}

#[test]
fn other_arguments_are_handed_back_in_their_order() {
    assert_eq!(parse_args(strings(&["x", "--transpose", "eb", "y"])), run(Some("eb"), &["x", "y"]));
    assert_eq!(parse_args(strings(&["a", "b", "c"])), run(None, &["a", "b", "c"]));
    assert_eq!(parse_args(strings(&["--transpose=bb"])), run(None, &["--transpose=bb"]));
    assert_eq!(parse_args(strings(&["-help", "--h", "-H"])), run(None, &["-help", "--h", "-H"]));
}

#[test]
fn only_the_first_transpose_is_taken() {
    assert_eq!(
        parse_args(strings(&["--transpose", "a", "--transpose", "b"])),
        run(Some("a"), &["--transpose", "b"])
    );
    assert_eq!(
        parse_args(strings(&["x", "--transpose", "a", "y", "--transpose"])),
        run(Some("a"), &["x", "y", "--transpose"])
    );
}

#[test]
fn usage_text() {
    assert_eq!(usage(), "args:\n--transpose: pass in bb/eb/bass");
}

#[test]
fn exit_codes() {
    assert_eq!(TemplaterError::ArgParseError("x".to_string()).exit_code(), 1);
    assert_eq!(TemplaterError::UnknownTransposition("x".to_string()).exit_code(), 0);
    assert_eq!(TemplaterError::MissingFrontmatter.exit_code(), 1);
    assert_eq!(TemplaterError::MissingTitle.exit_code(), 1);
}

fn parser(args: &[&str]) -> pico_args::Arguments {
    pico_args::Arguments::from_vec(args.iter().map(|a| a.into()).collect())
}

#[test]
fn a_parser_is_read_as_the_arguments_it_holds() {
    assert_eq!(parse_from(parser(&[])), run(None, &[]));
    assert_eq!(parse_from(parser(&["--transpose", "bb"])), run(Some("bb"), &[]));
    assert_eq!(parse_from(parser(&["x", "--transpose", "eb", "y"])), run(Some("eb"), &["x", "y"]));
    assert_eq!(parse_from(parser(&["x", "--help"])), Ok(Invocation::Help));
    assert_eq!(
        parse_from(parser(&["-h", "--transpose"])),
        Err(TemplaterError::ArgParseError(
            "the '--transpose' option doesn't have an associated value".to_string()
        ))
    );
}

#[test]
fn a_parser_that_lost_its_flag_asks_for_help_no_more() {
    let mut held = parser(&["-h", "--transpose", "c"]);
    assert!(held.contains("-h"));
    assert_eq!(parse_from(held), run(Some("c"), &[]));
}
