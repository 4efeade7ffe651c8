//! A lexical scanner for a small dynamic language.
//!
//! The scanner turns a source string into an ordered sequence of typed
//! tokens, terminated by a single end-of-input token, together with an
//! ordered sequence of diagnostics for the lexical errors it recovered
//! from along the way.  The exact token sequence is pinned down by the
//! mathematical model in [`model`], and the executable scanner in
//! [`scanner`] is proved to return precisely that sequence.

use vstd::prelude::*;

pub mod token;
pub mod model;
pub mod scanner;
pub mod scan;
pub mod laws;

verus! {

/// A non-fatal lexical error report, paired with the line it occurred on.
///
/// Diagnostics are collected as values while scanning; the scan never
/// aborts on malformed input.
pub struct Diagnostic {
    pub line: i32,
    pub message: String,
}

/// The mathematical content of a [`Diagnostic`]: its line and message text.
pub struct DiagModel {
    pub line: int,
    pub message: Seq<char>,
}

impl View for Diagnostic {
    type V = DiagModel;

    open spec fn view(&self) -> DiagModel {
        DiagModel { line: self.line as int, message: self.message@ }
    }
}

/// Builds the diagnostic record for a lexical error on the given line.
pub fn error(line: i32, message: String) -> (d: Diagnostic)
    ensures
        d@ == (DiagModel { line: line as int, message: message@ }),
{
    Diagnostic { line, message }
}

} // verus!
