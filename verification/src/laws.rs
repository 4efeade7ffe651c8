//! Laws of the scanner, proved over the model that
//! [`crate::scanner::Scanner::scan_tokens`] is proved to implement: the
//! shape of the token sequence, the order of reported lines, and the
//! round trip of string literals.

use vstd::prelude::*;

use crate::model::digits_end;
use crate::model::is_digit_char;
use crate::model::lemma_digits_end;
use crate::model::lemma_digits_end_unique;
use crate::model::lemma_quote_end;
use crate::model::lemma_step_bounds;
use crate::model::matches_number_grammar;
use crate::model::opt_diag_seq;
use crate::model::opt_token_seq;
use crate::model::scan_at;
use crate::model::scan_from;
use crate::model::scan_spec;
use crate::token::TokenType;

verus! {

proof fn lemma_scan_from_eof(src: Seq<char>, pos: int, line: int)
    requires
        0 <= pos <= src.len(),
    ensures
        scan_from(src, pos, line).tokens.len() >= 1,
        scan_from(src, pos, line).tokens.last().kind == TokenType::Eof,
        forall|i: int|
            0 <= i < scan_from(src, pos, line).tokens.len() - 1 ==> scan_from(
                src,
                pos,
                line,
            ).tokens[i].kind != TokenType::Eof,
    decreases src.len() - pos,
{
    if pos < src.len() {
        let st = scan_at(src, pos, line);
        lemma_step_bounds(src, pos, line);
        lemma_scan_from_eof(src, st.next, st.line);
        assert(match st.token {
            Some(m) => m.kind != TokenType::Eof,
            None => true,
        });
    }
}

/// For every input, the scan yields at least one token; its last token is
/// the end-of-input sentinel, and that sentinel appears nowhere else in
/// the sequence.
pub proof fn lemma_tokens_end_with_eof(src: Seq<char>)
    ensures
        scan_spec(src).tokens.len() >= 1,
        scan_spec(src).tokens.last().kind == TokenType::Eof,
        forall|i: int|
            0 <= i < scan_spec(src).tokens.len() - 1 ==> scan_spec(src).tokens[i].kind
                != TokenType::Eof,
{
    lemma_scan_from_eof(src, 0, 1);
}

proof fn lemma_scan_from_lines(src: Seq<char>, pos: int, line: int)
    requires
        0 <= pos <= src.len(),
    ensures
        forall|i: int|
            0 <= i < scan_from(src, pos, line).tokens.len() ==> scan_from(
                src,
                pos,
                line,
            ).tokens[i].line >= line,
        forall|i: int, j: int|
            0 <= i <= j < scan_from(src, pos, line).tokens.len() ==> scan_from(
                src,
                pos,
                line,
            ).tokens[i].line <= scan_from(src, pos, line).tokens[j].line,
        forall|i: int|
            0 <= i < scan_from(src, pos, line).diags.len() ==> scan_from(
                src,
                pos,
                line,
            ).diags[i].line >= line,
        forall|i: int, j: int|
            0 <= i <= j < scan_from(src, pos, line).diags.len() ==> scan_from(
                src,
                pos,
                line,
            ).diags[i].line <= scan_from(src, pos, line).diags[j].line,
    decreases src.len() - pos,
{
    if pos < src.len() {
        let st = scan_at(src, pos, line);
        lemma_step_bounds(src, pos, line);
        lemma_scan_from_lines(src, st.next, st.line);
        assert(match st.token {
            Some(m) => line <= m.line <= st.line,
            None => true,
        });
        assert(match st.diag {
            Some(m) => line <= m.line <= st.line,
            None => true,
        });
        let toks = scan_from(src, pos, line).tokens;
        let hd = opt_token_seq(st.token);
        let rest = scan_from(src, st.next, st.line).tokens;
        assert forall|i: int, j: int| 0 <= i <= j < toks.len() implies toks[i].line
            <= toks[j].line by {
            if hd.len() <= i {
                assert(toks[i] == rest[i - hd.len()]);
                assert(toks[j] == rest[j - hd.len()]);
            } else if hd.len() <= j {
                assert(toks[j] == rest[j - hd.len()]);
                assert(toks[j].line >= st.line);
            }
        }
        let ds = scan_from(src, pos, line).diags;
        let dhd = opt_diag_seq(st.diag);
        let drest = scan_from(src, st.next, st.line).diags;
        assert forall|i: int, j: int| 0 <= i <= j < ds.len() implies ds[i].line <= ds[j].line by {
            if dhd.len() <= i {
                assert(ds[i] == drest[i - dhd.len()]);
                assert(ds[j] == drest[j - dhd.len()]);
            } else if dhd.len() <= j {
                assert(ds[j] == drest[j - dhd.len()]);
                assert(ds[j].line >= st.line);
            }
        }
    }
}

/// For every input, the lines reported on tokens are non-decreasing in
/// scan order, and so are the lines reported on diagnostics; every
/// reported line is at least 1.
pub proof fn lemma_lines_monotone(src: Seq<char>)
    ensures
        forall|i: int, j: int|
            0 <= i <= j < scan_spec(src).tokens.len() ==> scan_spec(src).tokens[i].line
                <= scan_spec(src).tokens[j].line,
        forall|i: int, j: int|
            0 <= i <= j < scan_spec(src).diags.len() ==> scan_spec(src).diags[i].line <= scan_spec(
                src,
            ).diags[j].line,
        forall|i: int| 0 <= i < scan_spec(src).tokens.len() ==> scan_spec(src).tokens[i].line >= 1,
        forall|i: int| 0 <= i < scan_spec(src).diags.len() ==> scan_spec(src).diags[i].line >= 1,
{
    lemma_scan_from_lines(src, 0, 1);
}

proof fn lemma_scan_from_strings(src: Seq<char>, pos: int, line: int)
    requires
        0 <= pos <= src.len(),
    ensures
        forall|i: int|
            0 <= i < scan_from(src, pos, line).tokens.len() && scan_from(
                src,
                pos,
                line,
            ).tokens[i].kind == TokenType::String ==> scan_from(src, pos, line).tokens[i].lexeme
                == seq!['"'] + scan_from(src, pos, line).tokens[i].literal + seq!['"'],
    decreases src.len() - pos,
{
    if pos < src.len() {
        let st = scan_at(src, pos, line);
        lemma_step_bounds(src, pos, line);
        lemma_scan_from_strings(src, st.next, st.line);
        if src[pos] == '"' {
            lemma_quote_end(src, pos + 1);
            assert(match st.token {
                Some(m) => m.lexeme =~= seq!['"'] + m.literal + seq!['"'],
                None => true,
            });
        }
        assert(match st.token {
            Some(m) => m.kind == TokenType::String ==> m.lexeme == seq!['"'] + m.literal
                + seq!['"'],
            None => true,
        });
        let toks = scan_from(src, pos, line).tokens;
        let hd = opt_token_seq(st.token);
        let rest = scan_from(src, st.next, st.line).tokens;
        assert forall|i: int|
            0 <= i < toks.len() && toks[i].kind == TokenType::String implies toks[i].lexeme
            == seq!['"'] + toks[i].literal + seq!['"'] by {
            if hd.len() <= i {
                assert(toks[i] == rest[i - hd.len()]);
            }
        }
    }
}

/// Round trip of string literals: for every input, every string token the
/// scan produces has a lexeme that is exactly an opening quote, the
/// token's literal text, and a closing quote, so the literal is the
/// lexeme with its quotes stripped and nothing else changed.
pub proof fn lemma_string_literal_round_trip(src: Seq<char>)
    ensures
        forall|i: int|
            0 <= i < scan_spec(src).tokens.len() && scan_spec(src).tokens[i].kind
                == TokenType::String ==> scan_spec(src).tokens[i].lexeme == seq!['"'] + scan_spec(
                src,
            ).tokens[i].literal + seq!['"'],
{
    lemma_scan_from_strings(src, 0, 1);
}

proof fn lemma_scan_from_numbers(src: Seq<char>, pos: int, line: int)
    requires
        0 <= pos <= src.len(),
    ensures
        forall|i: int|
            0 <= i < scan_from(src, pos, line).tokens.len() && scan_from(
                src,
                pos,
                line,
            ).tokens[i].kind == TokenType::Number ==> scan_from(src, pos, line).tokens[i].literal
                == scan_from(src, pos, line).tokens[i].lexeme && matches_number_grammar(
                scan_from(src, pos, line).tokens[i].literal,
            ),
    decreases src.len() - pos,
{
    if pos < src.len() {
        let st = scan_at(src, pos, line);
        lemma_step_bounds(src, pos, line);
        lemma_scan_from_numbers(src, st.next, st.line);
        if is_digit_char(src[pos]) {
            let ie = digits_end(src, pos + 1);
            lemma_digits_end(src, pos + 1);
            let m = ie - pos;
            if ie < src.len() && src[ie] == '.' && ie + 1 < src.len() && is_digit_char(
                src[ie + 1],
            ) {
                let fe = digits_end(src, ie + 1);
                lemma_digits_end(src, ie + 1);
                lemma_digits_end(src, ie + 2);
                assert(fe == digits_end(src, ie + 2));
                let lex = src.subrange(pos, fe);
                assert(forall|j: int| 0 <= j < m ==> is_digit_char(lex[j]));
                assert(lex[m] == '.');
                lemma_digits_end_unique(lex, 0, m);
                assert(forall|j: int| m + 1 <= j < lex.len() ==> is_digit_char(lex[j]));
                lemma_digits_end_unique(lex, m + 1, lex.len() as int);
                assert(matches_number_grammar(lex));
            } else {
                let lex = src.subrange(pos, ie);
                assert(forall|j: int| 0 <= j < m ==> is_digit_char(lex[j]));
                lemma_digits_end_unique(lex, 0, m);
                assert(matches_number_grammar(lex));
            }
        }
        assert(match st.token {
            Some(t) => t.kind == TokenType::Number ==> t.literal == t.lexeme
                && matches_number_grammar(t.literal),
            None => true,
        });
        let toks = scan_from(src, pos, line).tokens;
        let hd = opt_token_seq(st.token);
        let rest = scan_from(src, st.next, st.line).tokens;
        assert forall|i: int|
            0 <= i < toks.len() && toks[i].kind == TokenType::Number implies toks[i].literal
            == toks[i].lexeme && matches_number_grammar(toks[i].literal) by {
            if hd.len() <= i {
                assert(toks[i] == rest[i - hd.len()]);
            }
        }
    }
}

/// Every number token carries its exact matched lexeme as its literal,
/// and that text always matches the number grammar: a non-empty digit
/// run, optionally followed by a dot and a further non-empty digit run.
/// Decoding such a literal as a numeric value therefore cannot hit the
/// scan's internal-fault case.
pub proof fn lemma_number_literals_match_grammar(src: Seq<char>)
    ensures
        forall|i: int|
            0 <= i < scan_spec(src).tokens.len() && scan_spec(src).tokens[i].kind
                == TokenType::Number ==> scan_spec(src).tokens[i].literal == scan_spec(
                src,
            ).tokens[i].lexeme && matches_number_grammar(scan_spec(src).tokens[i].literal),
{
    lemma_scan_from_numbers(src, 0, 1);
}

} // verus!
