//! The ways in which a run fails.

use vstd::prelude::*;
use vstd::string::StringExecFns;

verus! {

/// Why a run ended without a book. Every failure is final: nothing is tried
/// again, and no book is produced with a song left out.
#[derive(Debug, Clone, PartialEq, Eq)]
pub enum TemplaterError {
    /// The command line is malformed; the text says how.
    ArgParseError(String),
    /// The transposition key, kept here, is not one of the known keys.
    UnknownTransposition(String),
    /// A song file has no terminator line behind its front matter.
    MissingFrontmatter,
    /// The front matter of a song file has no `title` field.
    MissingTitle,
    /// The template of this name could not be read.
    TemplateLoadFailure { name: String, cause: String },
    /// The book could not be written.
    OutputWriteFailure { cause: String },
}

impl TemplaterError {
    /// The text of the message for this error.
    pub open spec fn message_text(self) -> Seq<char> {
        match self {
            TemplaterError::ArgParseError(cause) => "Error: "@ + cause@ + "."@,
            TemplaterError::UnknownTransposition(key) => "Unable to parse transpose input of ["@
                + key@ + "]"@,
            TemplaterError::MissingFrontmatter => "Song file has no front matter terminator"@,
            TemplaterError::MissingTitle => "Song file has no title in its front matter"@,
            TemplaterError::TemplateLoadFailure { name, cause } => "Unable to read "@ + name@
                + " template: "@ + cause@,
            TemplaterError::OutputWriteFailure { cause } => "Unable to write output file: "@
                + cause@,
        }
    }

    /// The exit code of a run that ends with this error: 0 for an unknown
    /// transposition key, 1 for every other failure.
    pub open spec fn exit_code_value(self) -> int {
        match self {
            TemplaterError::UnknownTransposition(_) => 0,
            _ => 1,
        }
    }

    /// The exit code of a run that ends with this error.
    pub fn exit_code(&self) -> (code: i32)
        ensures
            code == self.exit_code_value(),
    {
        match self {
            TemplaterError::UnknownTransposition(_) => 0,
            _ => 1,
        }
    }

    /// The message to show for this error.
    pub fn message(&self) -> (s: String)
        ensures
            s@ == self.message_text(),
    {
        match self {
            TemplaterError::ArgParseError(cause) => {
                let mut s = "Error: ".to_owned();
                s.append(cause.as_str());
                s.append(".");
                s
            },
            TemplaterError::UnknownTransposition(key) => {
                let mut s = "Unable to parse transpose input of [".to_owned();
                s.append(key.as_str());
                s.append("]");
                s
            },
            TemplaterError::MissingFrontmatter => {
                "Song file has no front matter terminator".to_owned()
            },
            TemplaterError::MissingTitle => "Song file has no title in its front matter".to_owned(),
            TemplaterError::TemplateLoadFailure { name, cause } => {
                let mut s = "Unable to read ".to_owned();
                s.append(name.as_str());
                s.append(" template: ");
                s.append(cause.as_str());
                s
            },
            TemplaterError::OutputWriteFailure { cause } => {
                let mut s = "Unable to write output file: ".to_owned();
                s.append(cause.as_str());
                s
            },
        }
    }
}

} // verus!
