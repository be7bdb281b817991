//! Resolving a transposition key to the texts that stand for it.

use crate::error::TemplaterError;
use crate::text::same_str;
use vstd::prelude::*;

verus! {

/// The texts that stand for a transposition: the label shown to the reader
/// and the directive handed to the music typesetter.
#[derive(Debug, Clone, PartialEq, Eq)]
pub struct TransposeText {
    /// The label, as in the title of the book and in the name of its file.
    pub display_text: String,
    /// The pitch the music is transposed from and the pitch it is transposed
    /// to, separated by one blank.
    pub lilypond_text: String,
}

/// What is fixed for a whole run.
#[derive(Debug, Clone, PartialEq, Eq)]
pub struct TemplaterConfig {
    /// The transposition of every part of the book.
    pub transpose_text: TransposeText,
}

/// Whether `s` is the name of a pitch: lower-case ASCII letters, at least one.
pub open spec fn is_pitch(s: Seq<char>) -> bool {
    &&& s.len() > 0
    &&& forall|i: int| 0 <= i < s.len() ==> 'a' <= #[trigger] s[i] && s[i] <= 'z'
}

/// Whether `s` is two pitch names separated by one blank.
pub open spec fn is_directive(s: Seq<char>) -> bool {
    exists|i: int| 0 < i < s.len() && s[i] == ' ' && is_pitch(s.take(i)) && is_pitch(s.skip(i + 1))
}

impl View for TransposeText {
    type V = (Seq<char>, Seq<char>);

    /// The label and the directive.
    open spec fn view(&self) -> (Seq<char>, Seq<char>) {
        (self.display_text@, self.lilypond_text@)
    }
}

impl TransposeText {
    /// Whether the directive is well formed.
    pub open spec fn wf(self) -> bool {
        is_directive(self.lilypond_text@)
    }
}

impl View for TemplaterConfig {
    type V = (Seq<char>, Seq<char>);

    /// The view of the transposition.
    open spec fn view(&self) -> (Seq<char>, Seq<char>) {
        self.transpose_text@
    }
}

impl TemplaterConfig {
    /// The configuration of a run with the transposition `transpose_text`.
    pub fn new(transpose_text: TransposeText) -> (conf: TemplaterConfig)
        ensures
            conf.transpose_text == transpose_text,
    {
        TemplaterConfig { transpose_text }
    }
}

/// The table of the known transposition keys: for each the label and the
/// directive, and `None` for any other text.
pub open spec fn transposition(key: Seq<char>) -> Option<(Seq<char>, Seq<char>)> {
    if key == "c"@ {
        Some(("Concert"@, "c c"@))
    } else if key == "bb"@ {
        Some(("Bb"@, "c d"@))
    } else if key == "eb"@ {
        Some(("Eb"@, "ees c"@))
    } else if key == "testing-f"@ {
        Some(("Testing"@, "c g"@))
    } else {
        None
    }
}

/// The key that stands for no transposition, used where none is given.
pub open spec fn default_key() -> Seq<char> {
    "c"@
}

/// The transposition key of a run: the one given, or the default.
pub fn transpose_key(given: Option<String>) -> (key: String)
    ensures
        key@ == match given {
            Some(k) => k@,
            None => default_key(),
        },
{
    match given {
        Some(k) => k,
        None => "c".to_owned(),
    }
}

fn entry(display: &str, lilypond: &str) -> (t: TransposeText)
    ensures
        t@ == (display@, lilypond@),
{
    TransposeText { display_text: display.to_owned(), lilypond_text: lilypond.to_owned() }
}

/// The four keys of the table are four different texts, so each has the row
/// that the table lists for it.
pub proof fn lemma_keys_differ()
    ensures
        transposition("c"@) == Some(("Concert"@, "c c"@)),
        transposition("bb"@) == Some(("Bb"@, "c d"@)),
        transposition("eb"@) == Some(("Eb"@, "ees c"@)),
        transposition("testing-f"@) == Some(("Testing"@, "c g"@)),
{
    reveal_strlit("c");
    reveal_strlit("bb");
    reveal_strlit("eb");
    reveal_strlit("testing-f");
    assert("c"@.len() == 1 && "bb"@.len() == 2 && "eb"@.len() == 2 && "testing-f"@.len() == 9);
    assert("bb"@[0] == 'b' && "eb"@[0] == 'e');
}

/// Every directive of the table is well formed.
pub proof fn lemma_table_well_formed(key: Seq<char>)
    requires
        transposition(key) is Some,
    ensures
        transposition(key) matches Some(found) && is_directive(found.1),
{
    reveal_strlit("c c");
    reveal_strlit("c d");
    reveal_strlit("ees c");
    reveal_strlit("c g");
    let found = transposition(key).unwrap();
    let d = found.1;
    if d == "ees c"@ {
        assert(d[3] == ' ' && is_pitch(d.take(3)) && is_pitch(d.skip(4)));
    } else {
        assert(d[1] == ' ' && is_pitch(d.take(1)) && is_pitch(d.skip(2)));
    }
}

/// Resolves a transposition key by exact match against the table.
///
/// A known key gives the label and the directive that the table lists for
/// it. Any other text fails with `UnknownTransposition`, which keeps the text.
pub fn transpose_text(input: &str) -> (r: Result<TransposeText, TemplaterError>)
    ensures
        match r {
            Ok(t) => transposition(input@) == Some(t@) && t.wf(),
            Err(e) => {
                &&& transposition(input@) is None
                &&& e matches TemplaterError::UnknownTransposition(key)
                &&& key@ == input@
            },
        },
        input@ == "c"@ ==> (r matches Ok(t) && t@ == ("Concert"@, "c c"@)),
        input@ == "bb"@ ==> (r matches Ok(t) && t@ == ("Bb"@, "c d"@)),
        input@ == "eb"@ ==> (r matches Ok(t) && t@ == ("Eb"@, "ees c"@)),
        input@ == "testing-f"@ ==> (r matches Ok(t) && t@ == ("Testing"@, "c g"@)),
{
    proof {
        lemma_keys_differ();
        if transposition(input@) is Some {
            lemma_table_well_formed(input@);
        }
    }
    if same_str(input, "c") {
        Ok(entry("Concert", "c c"))
    } else if same_str(input, "bb") {
        Ok(entry("Bb", "c d"))
    } else if same_str(input, "eb") {
        Ok(entry("Eb", "ees c"))
    } else if same_str(input, "testing-f") {
        Ok(entry("Testing", "c g"))
    } else {
        Err(TemplaterError::UnknownTransposition(input.to_owned()))
    }
}

} // verus!
