//! Reading the command line: one option, `--transpose <key>`, and the flag
//! `-h` or `--help`. The arguments are taken without the path of the program.
//!
//! An argument of a process need not be a text: it may hold bytes that are no
//! valid UTF-8. Such an argument equals no key, and it cannot be the value of
//! `--transpose`.

use crate::error::TemplaterError;
use pico_args::Arguments;
use vstd::prelude::*;

verus! {

/// `Arguments` of the crate `pico_args`: a parser, which holds the arguments
/// that were not taken from it yet.
#[verifier::external_type_specification]
#[verifier::external_body]
pub struct ExArguments(pico_args::Arguments);

/// `Error` of the crate `pico_args`.
#[verifier::external_type_specification]
#[verifier::external_body]
pub struct ExArgumentsError(pico_args::Error);

/// The arguments that a parser still holds, in their order: for each the text
/// it holds, or `None` where it holds no valid UTF-8.
pub uninterp spec fn remaining(parser: Arguments) -> Seq<Option<Seq<char>>>;

/// The index of the first of `items` that is the text `key`, or the length of
/// `items` where none is.
pub open spec fn position(items: Seq<Option<Seq<char>>>, key: Seq<char>) -> int
    decreases items.len(),
{
    if items.len() == 0 || items[0] == Some(key) {
        0
    } else {
        1 + position(items.skip(1), key)
    }
}

/// The texts `args` as arguments.
pub open spec fn as_items(args: Seq<Seq<char>>) -> Seq<Option<Seq<char>>> {
    args.map_values(|text: Seq<char>| Some(text))
}

/// Whether `texts` show `items`: there is one text for each item, and it is
/// the text of the item where the item is a text.
pub open spec fn shows(texts: Seq<Seq<char>>, items: Seq<Option<Seq<char>>>) -> bool {
    &&& texts.len() == items.len()
    &&& forall|i: int| 0 <= i < items.len() && items[i] is Some ==> items[i] == Some(texts[i])
}

/// Whether `key` has the form of a long key: it begins with two dashes.
pub open spec fn is_long_key(key: Seq<char>) -> bool {
    key.len() >= 2 && key[0] == '-' && key[1] == '-'
}

/// Whether `key` has the form of a short key: a dash and one other character.
pub open spec fn is_short_key(key: Seq<char>) -> bool {
    key.len() == 2 && key[0] == '-' && key[1] != '-'
}

/// `Arguments::from_vec` of the crate `pico_args`: the parser holds the
/// arguments given, in their order, and each is a text.
#[verifier::external_body]
fn parser_of(args: Vec<String>) -> (parser: Arguments)
    ensures
        remaining(parser) == as_items(args.deep_view()),
{
    Arguments::from_vec(args.into_iter().map(Into::into).collect())
}

/// `Arguments::opt_value_from_str` of the crate `pico_args`, for one long key
/// and a value of type `String`.
///
/// The parser looks for the first argument that equals `key`. Where there is
/// none, it returns `None` and keeps its arguments. Where that argument is
/// the last, or the one that follows is no text, it fails and keeps its
/// arguments. Else it returns the argument that follows and gives up both.
#[verifier::external_body]
fn take_value(parser: &mut Arguments, key: &'static str) -> (r: Result<
    Option<String>,
    pico_args::Error,
>)
    requires
        is_long_key(key@),
    ensures
        ({
            let items = remaining(*old(parser));
            let at = position(items, key@);
            if at == items.len() {
                r matches Ok(None) && remaining(*final(parser)) == items
            } else if at + 1 == items.len() || items[at + 1] is None {
                r is Err && remaining(*final(parser)) == items
            } else {
                &&& r matches Ok(Some(value)) && items[at + 1] == Some(value@)
                &&& remaining(*final(parser)) == items.remove(at).remove(at)
            }
        }),
{
    parser.opt_value_from_str(key)
}

/// `Arguments::contains` of the crate `pico_args`, for a short and a long
/// key.
///
/// The parser looks for the first argument that equals `short` and, where
/// there is none, for the first that equals `long`. It gives up the argument
/// it found and says whether it found one.
#[verifier::external_body]
fn take_flag(parser: &mut Arguments, short: &'static str, long: &'static str) -> (found: bool)
    requires
        is_short_key(short@),
        is_long_key(long@),
    ensures
        ({
            let items = remaining(*old(parser));
            let at = if position(items, short@) < items.len() {
                position(items, short@)
            } else {
                position(items, long@)
            };
            &&& found == (at < items.len())
            &&& remaining(*final(parser)) == if found {
                items.remove(at)
            } else {
                items
            }
        }),
{
    parser.contains([short, long])
}

/// `Arguments::finish` of the crate `pico_args`: the arguments that the
/// parser still holds. One that is no text comes out as some text that stands
/// for it.
#[verifier::external_body]
fn rest_of(parser: Arguments) -> (rest: Vec<String>)
    ensures
        shows(rest.deep_view(), remaining(parser)),
{
    parser.finish().into_iter().map(|arg| arg.to_string_lossy().into_owned()).collect()
}

/// `Display` of `Error` of the crate `pico_args`: the text for an error.
/// Nothing is claimed of the text.
#[verifier::external_body]
fn error_text(e: &pico_args::Error) -> (text: String) {
    e.to_string()
}

/// What the command line asks for besides help.
#[derive(Debug, Clone, PartialEq, Eq)]
pub struct AppArgs {
    /// The transposition key given with `--transpose`, if any.
    pub transpose: Option<String>,
}

/// What the command line asks for.
#[derive(Debug, Clone, PartialEq, Eq)]
pub enum Invocation {
    /// To show the usage and do nothing else.
    Help,
    /// To compile the book. The arguments in `unused` were not understood;
    /// they are worth a warning and nothing more.
    Run { args: AppArgs, unused: Vec<String> },
}

/// The key of the option that selects the transposition.
pub open spec fn transpose_option() -> Seq<char> {
    "--transpose"@
}

/// Whether `--transpose` stands in `items` without a value: its first
/// occurrence is the last argument, or what follows it is no text.
pub open spec fn lacks_value(items: Seq<Option<Seq<char>>>) -> bool {
    let at = position(items, transpose_option());
    at + 1 == items.len() || (at + 1 < items.len() && items[at + 1] is None)
}

/// The value of `--transpose` in `items`: the argument that follows its first
/// occurrence.
pub open spec fn transpose_value(items: Seq<Option<Seq<char>>>) -> Option<Seq<char>> {
    let at = position(items, transpose_option());
    if at + 1 < items.len() {
        items[at + 1]
    } else {
        None
    }
}

/// `items` without the first `--transpose` and its value.
pub open spec fn other_arguments(items: Seq<Option<Seq<char>>>) -> Seq<Option<Seq<char>>> {
    let at = position(items, transpose_option());
    if at + 1 < items.len() {
        items.remove(at).remove(at)
    } else {
        items
    }
}

/// Whether one of `items` is `-h` or `--help`.
pub open spec fn asks_for_help(items: Seq<Option<Seq<char>>>) -> bool {
    position(items, "-h"@) < items.len() || position(items, "--help"@) < items.len()
}

/// What `position` finds: the first place of the text `key` among `items`.
pub proof fn lemma_position(items: Seq<Option<Seq<char>>>, key: Seq<char>)
    ensures
        0 <= position(items, key) <= items.len(),
        position(items, key) < items.len() ==> items[position(items, key)] == Some(key),
        forall|i: int| 0 <= i < position(items, key) ==> #[trigger] items[i] != Some(key),
        position(items, key) < items.len() <==> items.contains(Some(key)),
    decreases items.len(),
{
    if items.len() == 0 || items[0] == Some(key) {
    } else {
        lemma_position(items.skip(1), key);
        let p = position(items.skip(1), key);
        assert forall|i: int| 0 <= i < p + 1 implies #[trigger] items[i] != Some(key) by {
            if i > 0 {
                assert(items.skip(1)[i - 1] == items[i]);
            }
        }
        if p < items.skip(1).len() {
            assert(items.skip(1)[p] == items[p + 1]);
        }
    }
}

/// The usage, as shown for `-h` and `--help`.
pub fn usage() -> (text: &'static str)
    ensures
        text@ == "args:\n--transpose: pass in bb/eb/bass"@,
{
    "args:\n--transpose: pass in bb/eb/bass"
}

/// Reads the command line out of a parser that holds its arguments.
///
/// Fails with `ArgParseError` where `--transpose` has no value: it is the
/// last argument, or what follows it is no text. This comes before anything
/// else. Else asks for help where one of the other arguments is `-h` or
/// `--help`. Else asks for a run with the value of `--transpose`, if it is
/// there, and hands back the other arguments as unused.
pub fn parse_from(parser: Arguments) -> (r: Result<Invocation, TemplaterError>)
    ensures
        match r {
            Err(e) => lacks_value(remaining(parser)) && e is ArgParseError,
            Ok(Invocation::Help) => {
                &&& !lacks_value(remaining(parser))
                &&& asks_for_help(other_arguments(remaining(parser)))
            },
            Ok(Invocation::Run { args: found, unused }) => {
                &&& !lacks_value(remaining(parser))
                &&& !asks_for_help(other_arguments(remaining(parser)))
                &&& match found.transpose {
                    Some(key) => transpose_value(remaining(parser)) == Some(key@),
                    None => transpose_value(remaining(parser)) is None,
                }
                &&& shows(unused.deep_view(), other_arguments(remaining(parser)))
            },
        },
{
    proof {
        reveal_strlit("--transpose");
        reveal_strlit("-h");
        reveal_strlit("--help");
        lemma_position(remaining(parser), transpose_option());
    }
    let mut parser = parser;
    let transpose = match take_value(&mut parser, "--transpose") {
        Err(e) => {
            return Err(TemplaterError::ArgParseError(error_text(&e)));
        },
        Ok(value) => value,
    };
    if take_flag(&mut parser, "-h", "--help") {
        return Ok(Invocation::Help);
    }
    let unused = rest_of(parser);
    Ok(Invocation::Run { args: AppArgs { transpose }, unused })
}

/// Reads a command line of which every argument is a text.
///
/// Fails with `ArgParseError` where `--transpose` is the last argument and so
/// has no value; this comes before anything else. Else asks for help where
/// one of the other arguments is `-h` or `--help`. Else asks for a run with
/// the value of `--transpose`, if it is there, and hands back the other
/// arguments as unused.
pub fn parse_args(args: Vec<String>) -> (r: Result<Invocation, TemplaterError>)
    ensures
        match r {
            Err(e) => lacks_value(as_items(args.deep_view())) && e is ArgParseError,
            Ok(Invocation::Help) => {
                &&& !lacks_value(as_items(args.deep_view()))
                &&& asks_for_help(other_arguments(as_items(args.deep_view())))
            },
            Ok(Invocation::Run { args: found, unused }) => {
                &&& !lacks_value(as_items(args.deep_view()))
                &&& !asks_for_help(other_arguments(as_items(args.deep_view())))
                &&& match found.transpose {
                    Some(key) => transpose_value(as_items(args.deep_view())) == Some(key@),
                    None => transpose_value(as_items(args.deep_view())) is None,
                }
                &&& as_items(unused.deep_view()) == other_arguments(as_items(args.deep_view()))
            },
        },
{
    let ghost items = as_items(args.deep_view());
    let r = parse_from(parser_of(args));
    proof {
        lemma_position(items, transpose_option());
        if let Ok(Invocation::Run { args: found, unused }) = &r {
            let others = other_arguments(items);
            assert forall|i: int| 0 <= i < others.len() implies (#[trigger] others[i]) is Some by {
                let at = position(items, transpose_option());
                if at + 1 < items.len() {
                    if i < at {
                        assert(others[i] == items[i]);
                    } else {
                        assert(others[i] == items[i + 2]);
                    }
                }
            }
            assert(as_items(unused.deep_view()) =~= others);
        }
    }
    r
}

} // verus!
