use vstd::prelude::*;

verus! {

/// A lexical error, reported with the line on which it was detected.
#[derive(Debug, Clone, Copy, PartialEq, Eq, Structural)]
pub enum ScanError {
    /// A character that starts no token.
    UnexpectedCharacter { line: usize },
    /// A string literal still open when the input ended; the line is the last one reached.
    UnterminatedString { line: usize },
}

} // verus!
