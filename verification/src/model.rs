//! The mathematical model of scanning.
//!
//! [`scan_spec`] maps a source text, as a sequence of characters, to the
//! exact token and diagnostic sequences the scanner must produce.  It is
//! a single forward pass: [`scan_at`] classifies the character at the
//! cursor and says how far the cursor moves, what line the scan is on
//! afterwards, and which token or diagnostic (if any) the step emits;
//! [`scan_from`] chains steps until the input is exhausted and appends
//! the final end-of-input token.

use vstd::prelude::*;

use crate::DiagModel;
use crate::Diagnostic;
use crate::token::Token;
use crate::token::TokenModel;
use crate::token::TokenType;

verus! {

/// Whether `c` is a decimal digit.
pub open spec fn is_digit_char(c: char) -> bool {
    ('0' as u32) <= (c as u32) && (c as u32) <= ('9' as u32)
}

/// Whether `c` is alphabetic in the sense of `char::is_alphabetic`.
/// The value is pinned only through the trusted wrapper in the scanner.
pub uninterp spec fn alphabetic(c: char) -> bool;

/// Whether `c` may begin an identifier: alphabetic or an underscore.
pub open spec fn is_alpha_char(c: char) -> bool {
    alphabetic(c) || c == '_'
}

/// Whether `c` may continue an identifier.
pub open spec fn is_alnum_char(c: char) -> bool {
    is_alpha_char(c) || is_digit_char(c)
}

/// The reserved word for the exact text `s`, if there is one.
pub open spec fn keyword_kind(s: Seq<char>) -> Option<TokenType> {
    if s == "and"@ {
        Some(TokenType::And)
    } else if s == "class"@ {
        Some(TokenType::Class)
    } else if s == "else"@ {
        Some(TokenType::Else)
    } else if s == "false"@ {
        Some(TokenType::False)
    } else if s == "for"@ {
        Some(TokenType::For)
    } else if s == "fun"@ {
        Some(TokenType::Fun)
    } else if s == "if"@ {
        Some(TokenType::If)
    } else if s == "nil"@ {
        Some(TokenType::Nil)
    } else if s == "or"@ {
        Some(TokenType::Or)
    } else if s == "print"@ {
        Some(TokenType::Print)
    } else if s == "return"@ {
        Some(TokenType::Return)
    } else if s == "super"@ {
        Some(TokenType::Super)
    } else if s == "this"@ {
        Some(TokenType::This)
    } else if s == "true"@ {
        Some(TokenType::True)
    } else if s == "var"@ {
        Some(TokenType::Var)
    } else if s == "while"@ {
        Some(TokenType::While)
    } else {
        None
    }
}

/// The first index at or after `i` whose character is not a digit, or the
/// length of the input.
pub open spec fn digits_end(src: Seq<char>, i: int) -> int
    decreases src.len() - i
        when 0 <= i <= src.len()
{
    if i == src.len() {
        i
    } else if is_digit_char(src[i]) {
        digits_end(src, i + 1)
    } else {
        i
    }
}

/// The first index at or after `i` whose character cannot continue an
/// identifier, or the length of the input.
pub open spec fn ident_end(src: Seq<char>, i: int) -> int
    decreases src.len() - i
        when 0 <= i <= src.len()
{
    if i == src.len() {
        i
    } else if is_alnum_char(src[i]) {
        ident_end(src, i + 1)
    } else {
        i
    }
}

/// The first index at or after `i` holding a newline, or the length of
/// the input: where a line comment stops consuming.
pub open spec fn comment_end(src: Seq<char>, i: int) -> int
    decreases src.len() - i
        when 0 <= i <= src.len()
{
    if i == src.len() {
        i
    } else if src[i] != '\n' {
        comment_end(src, i + 1)
    } else {
        i
    }
}

/// The first index at or after `i` holding a double quote, or the length
/// of the input: where a string literal closes.
pub open spec fn quote_end(src: Seq<char>, i: int) -> int
    decreases src.len() - i
        when 0 <= i <= src.len()
{
    if i == src.len() {
        i
    } else if src[i] != '"' {
        quote_end(src, i + 1)
    } else {
        i
    }
}

/// The number of newline characters in `src[lo..hi)`.
pub open spec fn newlines(src: Seq<char>, lo: int, hi: int) -> int
    decreases hi - lo
{
    if hi <= lo {
        0
    } else {
        newlines(src, lo, hi - 1) + if src[hi - 1] == '\n' { 1int } else { 0int }
    }
}

/// What one dispatch step does: where the cursor stands afterwards, the
/// line the scan is then on, and the token or diagnostic it emits.
pub struct Step {
    pub next: int,
    pub line: int,
    pub token: Option<TokenModel>,
    pub diag: Option<DiagModel>,
}

/// A step that consumes one character and emits nothing.
pub open spec fn empty_step(pos: int, line: int) -> Step {
    Step { next: pos + 1, line, token: None, diag: None }
}

/// A single-character token.
pub open spec fn punct_step(src: Seq<char>, pos: int, line: int, kind: TokenType) -> Step {
    Step {
        next: pos + 1,
        line,
        token: Some(
            TokenModel {
                kind,
                lexeme: src.subrange(pos, pos + 1),
                literal: Seq::empty(),
                line,
            },
        ),
        diag: None,
    }
}

/// A one- or two-character operator: greedy longest match, preferring the
/// two-character kind exactly when the next character is `=`.
pub open spec fn pair_step(
    src: Seq<char>,
    pos: int,
    line: int,
    two: TokenType,
    one: TokenType,
) -> Step {
    if pos + 1 < src.len() && src[pos + 1] == '=' {
        Step {
            next: pos + 2,
            line,
            token: Some(
                TokenModel {
                    kind: two,
                    lexeme: src.subrange(pos, pos + 2),
                    literal: Seq::empty(),
                    line,
                },
            ),
            diag: None,
        }
    } else {
        punct_step(src, pos, line, one)
    }
}

/// A slash: a line comment when followed by another slash (consumed up to
/// but not including the newline, emitting nothing), else a `Slash` token.
pub open spec fn slash_step(src: Seq<char>, pos: int, line: int) -> Step {
    if pos + 1 < src.len() && src[pos + 1] == '/' {
        Step { next: comment_end(src, pos + 2), line, token: None, diag: None }
    } else {
        punct_step(src, pos, line, TokenType::Slash)
    }
}

/// A string literal opened at `pos`.  The literal runs to the next double
/// quote; newlines inside it advance the line count.  If no closing quote
/// remains, the step emits an unterminated-string diagnostic at the line
/// reached at end of input and no token.
pub open spec fn string_step(src: Seq<char>, pos: int, line: int) -> Step {
    let close = quote_end(src, pos + 1);
    let end_line = line + newlines(src, pos + 1, close);
    if close == src.len() {
        Step {
            next: close,
            line: end_line,
            token: None,
            diag: Some(DiagModel { line: end_line, message: "Unterminated string."@ }),
        }
    } else {
        Step {
            next: close + 1,
            line: end_line,
            token: Some(
                TokenModel {
                    kind: TokenType::String,
                    lexeme: src.subrange(pos, close + 1),
                    literal: src.subrange(pos + 1, close),
                    line: end_line,
                },
            ),
            diag: None,
        }
    }
}

/// A number literal opened by the digit at `pos`: a maximal digit run,
/// then a fractional part only when a dot is directly followed by another
/// digit.  The literal text is the exact matched lexeme.
pub open spec fn number_step(src: Seq<char>, pos: int, line: int) -> Step {
    let int_end = digits_end(src, pos + 1);
    let end = if int_end < src.len() && src[int_end] == '.' && int_end + 1 < src.len()
        && is_digit_char(src[int_end + 1]) {
        digits_end(src, int_end + 1)
    } else {
        int_end
    };
    Step {
        next: end,
        line,
        token: Some(
            TokenModel {
                kind: TokenType::Number,
                lexeme: src.subrange(pos, end),
                literal: src.subrange(pos, end),
                line,
            },
        ),
        diag: None,
    }
}

/// An identifier or reserved word opened by the character at `pos`: a
/// maximal run of identifier characters, then an exact-match lookup in
/// the keyword table.
pub open spec fn identifier_step(src: Seq<char>, pos: int, line: int) -> Step {
    let end = ident_end(src, pos + 1);
    let lex = src.subrange(pos, end);
    let kind = match keyword_kind(lex) {
        Some(k) => k,
        None => TokenType::Identifier,
    };
    Step {
        next: end,
        line,
        token: Some(TokenModel { kind, lexeme: lex, literal: Seq::empty(), line }),
        diag: None,
    }
}

/// One dispatch step of the scan, on the character at `pos`.
pub open spec fn scan_at(src: Seq<char>, pos: int, line: int) -> Step
    recommends
        0 <= pos < src.len(),
{
    let c = src[pos];
    if c == '(' {
        punct_step(src, pos, line, TokenType::LeftParen)
    } else if c == ')' {
        punct_step(src, pos, line, TokenType::RightParen)
    } else if c == '{' {
        punct_step(src, pos, line, TokenType::LeftBrace)
    } else if c == '}' {
        punct_step(src, pos, line, TokenType::RightBrace)
    } else if c == ',' {
        punct_step(src, pos, line, TokenType::Comma)
    } else if c == '.' {
        punct_step(src, pos, line, TokenType::Dot)
    } else if c == '-' {
        punct_step(src, pos, line, TokenType::Minus)
    } else if c == '+' {
        punct_step(src, pos, line, TokenType::Plus)
    } else if c == ';' {
        punct_step(src, pos, line, TokenType::Semicolon)
    } else if c == '*' {
        punct_step(src, pos, line, TokenType::Star)
    } else if c == '!' {
        pair_step(src, pos, line, TokenType::BangEqual, TokenType::Bang)
    } else if c == '=' {
        pair_step(src, pos, line, TokenType::EqualEqual, TokenType::Equal)
    } else if c == '<' {
        pair_step(src, pos, line, TokenType::LessEqual, TokenType::Less)
    } else if c == '>' {
        pair_step(src, pos, line, TokenType::GreaterEqual, TokenType::Greater)
    } else if c == '/' {
        slash_step(src, pos, line)
    } else if c == ' ' || c == '\r' || c == '\t' {
        empty_step(pos, line)
    } else if c == '\n' {
        Step { next: pos + 1, line: line + 1, token: None, diag: None }
    } else if c == '"' {
        string_step(src, pos, line)
    } else if is_digit_char(c) {
        number_step(src, pos, line)
    } else if is_alpha_char(c) {
        identifier_step(src, pos, line)
    } else {
        Step {
            next: pos + 1,
            line,
            token: None,
            diag: Some(DiagModel { line, message: "Unexpected character."@ }),
        }
    }
}

/// The token of a finished scan: the end-of-input sentinel.
pub open spec fn eof_token(line: int) -> TokenModel {
    TokenModel { kind: TokenType::Eof, lexeme: Seq::empty(), literal: Seq::empty(), line }
}

/// The output of a scan: the token sequence and the diagnostic sequence,
/// each in scan order.
pub struct ScanOut {
    pub tokens: Seq<TokenModel>,
    pub diags: Seq<DiagModel>,
}

/// A step's emitted token, as a sequence of zero or one elements.
pub open spec fn opt_token_seq(t: Option<TokenModel>) -> Seq<TokenModel> {
    match t {
        Some(m) => seq![m],
        None => Seq::empty(),
    }
}

/// A step's emitted diagnostic, as a sequence of zero or one elements.
pub open spec fn opt_diag_seq(d: Option<DiagModel>) -> Seq<DiagModel> {
    match d {
        Some(m) => seq![m],
        None => Seq::empty(),
    }
}

/// The rest of the scan, from cursor `pos` on line `line`: all remaining
/// steps, then the end-of-input token at the final line.
pub open spec fn scan_from(src: Seq<char>, pos: int, line: int) -> ScanOut
    decreases src.len() - pos
        when 0 <= pos <= src.len()
{
    if pos == src.len() {
        ScanOut { tokens: seq![eof_token(line)], diags: Seq::empty() }
    } else {
        let st = scan_at(src, pos, line);
        proof {
            lemma_step_bounds(src, pos, line);
        }
        let rest = scan_from(src, st.next, st.line);
        ScanOut {
            tokens: opt_token_seq(st.token) + rest.tokens,
            diags: opt_diag_seq(st.diag) + rest.diags,
        }
    }
}

/// The whole scan of a source text: from the start, on line 1.
pub open spec fn scan_spec(src: Seq<char>) -> ScanOut {
    scan_from(src, 0, 1)
}

/// The models of a sequence of tokens.
pub open spec fn tok_models(ts: Seq<Token>) -> Seq<TokenModel> {
    ts.map_values(|t: Token| t@)
}

/// The models of a sequence of diagnostics.
pub open spec fn diag_models(ds: Seq<Diagnostic>) -> Seq<DiagModel> {
    ds.map_values(|d: Diagnostic| d@)
}

/// `digits_end` stays within bounds, skips only digits, and stops at the
/// first non-digit.
pub proof fn lemma_digits_end(src: Seq<char>, i: int)
    requires
        0 <= i <= src.len(),
    ensures
        i <= digits_end(src, i) <= src.len(),
        forall|j: int| i <= j < digits_end(src, i) ==> is_digit_char(src[j]),
        digits_end(src, i) < src.len() ==> !is_digit_char(src[digits_end(src, i)]),
    decreases src.len() - i,
{
    if i < src.len() && is_digit_char(src[i]) {
        lemma_digits_end(src, i + 1);
    }
}

/// `ident_end` stays within bounds, skips only identifier characters, and
/// stops at the first character that cannot continue an identifier.
pub proof fn lemma_ident_end(src: Seq<char>, i: int)
    requires
        0 <= i <= src.len(),
    ensures
        i <= ident_end(src, i) <= src.len(),
        forall|j: int| i <= j < ident_end(src, i) ==> is_alnum_char(src[j]),
        ident_end(src, i) < src.len() ==> !is_alnum_char(src[ident_end(src, i)]),
    decreases src.len() - i,
{
    if i < src.len() && is_alnum_char(src[i]) {
        lemma_ident_end(src, i + 1);
    }
}

/// `comment_end` stays within bounds, skips everything up to a newline,
/// and stops at one.
pub proof fn lemma_comment_end(src: Seq<char>, i: int)
    requires
        0 <= i <= src.len(),
    ensures
        i <= comment_end(src, i) <= src.len(),
        forall|j: int| i <= j < comment_end(src, i) ==> src[j] != '\n',
        comment_end(src, i) < src.len() ==> src[comment_end(src, i)] == '\n',
    decreases src.len() - i,
{
    if i < src.len() && src[i] != '\n' {
        lemma_comment_end(src, i + 1);
    }
}

/// `quote_end` stays within bounds, skips everything up to a double
/// quote, and stops at one.
pub proof fn lemma_quote_end(src: Seq<char>, i: int)
    requires
        0 <= i <= src.len(),
    ensures
        i <= quote_end(src, i) <= src.len(),
        forall|j: int| i <= j < quote_end(src, i) ==> src[j] != '"',
        quote_end(src, i) < src.len() ==> src[quote_end(src, i)] == '"',
    decreases src.len() - i,
{
    if i < src.len() && src[i] != '"' {
        lemma_quote_end(src, i + 1);
    }
}

/// The newline count of a range is non-negative and at most the range's
/// width.
pub proof fn lemma_newlines_bounds(src: Seq<char>, lo: int, hi: int)
    requires
        lo <= hi,
    ensures
        0 <= newlines(src, lo, hi) <= hi - lo,
    decreases hi - lo,
{
    if lo < hi {
        lemma_newlines_bounds(src, lo, hi - 1);
    }
}

/// Every dispatch step consumes at least one character, never runs past
/// the end of the input, and never decreases the line count.
pub proof fn lemma_step_bounds(src: Seq<char>, pos: int, line: int)
    ensures
        0 <= pos < src.len() ==> pos < scan_at(src, pos, line).next <= src.len(),
        0 <= pos < src.len() ==> scan_at(src, pos, line).line >= line,
{
    if 0 <= pos && pos < src.len() {
        if pos + 1 <= src.len() {
            lemma_digits_end(src, pos + 1);
            lemma_ident_end(src, pos + 1);
            lemma_quote_end(src, pos + 1);
            lemma_newlines_bounds(src, pos + 1, quote_end(src, pos + 1));
            let int_end = digits_end(src, pos + 1);
            if int_end + 1 <= src.len() {
                lemma_digits_end(src, int_end + 1);
            }
        }
        if pos + 2 <= src.len() {
            lemma_comment_end(src, pos + 2);
        }
    }
}

/// Whether `s` is a well-formed number lexeme: a non-empty run of digits,
/// optionally followed by a dot and a further non-empty run of digits.
pub open spec fn matches_number_grammar(s: Seq<char>) -> bool {
    let k = digits_end(s, 0);
    &&& k >= 1
    &&& (k == s.len() || (s[k] == '.' && k + 1 < s.len() && digits_end(s, k + 1) == s.len()))
}

/// `digits_end` is pinned by its two defining facts: everything before the
/// answer is a digit, and the answer is the end of the input or holds a
/// non-digit.
pub proof fn lemma_digits_end_unique(s: Seq<char>, i: int, m: int)
    requires
        0 <= i <= m <= s.len(),
        forall|j: int| i <= j < m ==> is_digit_char(s[j]),
        m == s.len() || !is_digit_char(s[m]),
    ensures
        digits_end(s, i) == m,
    decreases m - i,
{
    if i < m {
        lemma_digits_end_unique(s, i + 1, m);
    }
}

/// Appending an empty token sequence changes nothing.
pub proof fn lemma_tok_concat_empty(s: Seq<TokenModel>)
    ensures
        s + Seq::<TokenModel>::empty() == s,
{
    assert(s + Seq::<TokenModel>::empty() =~= s);
}

/// Appending an empty diagnostic sequence changes nothing.
pub proof fn lemma_diag_concat_empty(s: Seq<DiagModel>)
    ensures
        s + Seq::<DiagModel>::empty() == s,
{
    assert(s + Seq::<DiagModel>::empty() =~= s);
}

/// Pushing one token is appending a one-element sequence.
pub proof fn lemma_tok_push_concat(s: Seq<TokenModel>, m: TokenModel)
    ensures
        s.push(m) == s + seq![m],
{
    assert(s.push(m) =~= s + seq![m]);
}

/// Pushing one diagnostic is appending a one-element sequence.
pub proof fn lemma_diag_push_concat(s: Seq<DiagModel>, m: DiagModel)
    ensures
        s.push(m) == s + seq![m],
{
    assert(s.push(m) =~= s + seq![m]);
}

/// Concatenation of token sequences is associative.
pub proof fn lemma_tok_concat_assoc(a: Seq<TokenModel>, b: Seq<TokenModel>, c: Seq<TokenModel>)
    ensures
        (a + b) + c == a + (b + c),
{
    assert((a + b) + c =~= a + (b + c));
}

/// Concatenation of diagnostic sequences is associative.
pub proof fn lemma_diag_concat_assoc(a: Seq<DiagModel>, b: Seq<DiagModel>, c: Seq<DiagModel>)
    ensures
        (a + b) + c == a + (b + c),
{
    assert((a + b) + c =~= a + (b + c));
}

} // verus!
