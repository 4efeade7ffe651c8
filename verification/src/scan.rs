//! One-call scanning: build a scanner, run it, and hand back both the
//! token sequence and the diagnostics of the pass.

use vstd::prelude::*;

use crate::Diagnostic;
use crate::model::diag_models;
use crate::model::scan_spec;
use crate::model::tok_models;
use crate::scanner::Scanner;
use crate::token::Token;

verus! {

/// A position in the source text: a line and a column.
#[derive(Copy, Clone, Default, Debug, PartialEq, Eq, Structural)]
pub struct Location {
    pub line: usize,
    pub column: usize,
}

/// Scans `input` in one pass and returns the token sequence, always
/// terminated by exactly one end-of-input token, together with every
/// diagnostic the pass collected.  Malformed input never aborts the scan.
/// The length bound keeps the scanner's line counter within its machine
/// type.
pub fn scan_tokens(input: String) -> (r: (Vec<Token>, Vec<Diagnostic>))
    requires
        input@.len() < i32::MAX as int,
    ensures
        tok_models(r.0@) == scan_spec(input@).tokens,
        diag_models(r.1@) == scan_spec(input@).diags,
{
    let mut scanner = Scanner::new(input);
    let tokens = scanner.scan_tokens();
    let errors = scanner.take_diagnostics();
    (tokens, errors)
}

} // verus!
