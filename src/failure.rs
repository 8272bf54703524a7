use vstd::prelude::*;

verus! {

/// Why a part of the source could not be made into a token.
///
/// The scanner is permissive with numbers and words: a numeral ends before a
/// `.` that no digit follows (`10.` is `10` and then `.`), and a word ends at
/// the first character that cannot continue it. Neither is ever a failure.
#[derive(Debug, Clone, Copy, PartialEq, Eq, Structural)]
pub enum FailureKind {
    /// An opening quote with no closing quote before the end of the input.
    UnterminatedString,
    /// A character that starts no token.
    UnexpectedCharacter,
}

/// The message that describes a failure of kind `k`.
pub open spec fn message_of(k: FailureKind) -> Seq<char> {
    match k {
        FailureKind::UnterminatedString => "Unterminated string."@,
        FailureKind::UnexpectedCharacter => "Unexpected character."@,
    }
}

/// One recoverable lexical error.
#[derive(Debug, Clone, PartialEq, Eq)]
pub struct CompilationFailure {
    /// The line, counted from 1, on which the offending lexeme starts.
    pub line_no: usize,
    /// What was wrong.
    pub msg: String,
    /// The offending source text.
    pub context: String,
    /// Which kind of failure this is.
    pub kind: FailureKind,
}

impl CompilationFailure {
    /// A failure of kind `kind` at `line_no`, with the message for that kind.
    pub fn new(kind: FailureKind, line_no: usize, context: String) -> (r: Self)
        ensures
            r.kind == kind,
            r.line_no == line_no,
            r.context@ == context@,
            r.msg@ == message_of(kind),
    {
        let msg = match kind {
            FailureKind::UnterminatedString => String::from_str("Unterminated string."),
            FailureKind::UnexpectedCharacter => String::from_str("Unexpected character."),
        };
        CompilationFailure { line_no, msg, context, kind }
    }
}

} // verus!
