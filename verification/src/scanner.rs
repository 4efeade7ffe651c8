//! The scanner: a single forward pass over the source text that emits
//! tokens and diagnostics, proved to produce exactly the sequences given
//! by the model in [`crate::model`].

use vstd::prelude::*;
use vstd::string::StrSliceExecFns;
use vstd::string::StringExecFns;

use crate::Diagnostic;
use crate::error;
use crate::model::alphabetic;
use crate::model::comment_end;
use crate::model::diag_models;
use crate::model::digits_end;
use crate::model::ident_end;
use crate::model::is_alnum_char;
use crate::model::is_alpha_char;
use crate::model::is_digit_char;
use crate::model::keyword_kind;
use crate::model::lemma_diag_concat_assoc;
use crate::model::lemma_diag_concat_empty;
use crate::model::lemma_diag_push_concat;
use crate::model::lemma_step_bounds;
use crate::model::lemma_tok_concat_assoc;
use crate::model::lemma_tok_concat_empty;
use crate::model::lemma_tok_push_concat;
use crate::model::newlines;
use crate::model::opt_diag_seq;
use crate::model::opt_token_seq;
use crate::model::quote_end;
use crate::model::scan_at;
use crate::model::scan_from;
use crate::model::scan_spec;
use crate::model::tok_models;
use crate::model::eof_token;
use crate::DiagModel;
use crate::token::Token;
use crate::token::TokenModel;
use crate::token::TokenType;

verus! {

/// Relies on `char::is_alphabetic`: whether a character has the Unicode
/// `Alphabetic` property depends on the character alone.
#[verifier::external_body]
fn char_is_alphabetic(c: char) -> (r: bool)
    ensures
        r == alphabetic(c),
{
    c.is_alphabetic()
}

/// The scanner: owns the source text and a scanning cursor, and collects
/// the tokens and diagnostics of one pass.
///
/// `start` is the offset of the lexeme currently being scanned, `current`
/// the offset of the next unread character, and `line` the 1-based line
/// count; `0 <= start <= current <= source length` holds between tokens
/// and `line >= 1` always.
pub struct Scanner {
    source: String,
    tokens: Vec<Token>,
    errors: Vec<Diagnostic>,
    start: usize,
    current: usize,
    line: i32,
}

impl Scanner {
    /// The source text being scanned.
    pub closed spec fn src(&self) -> Seq<char> {
        self.source@
    }

    /// The models of the diagnostics collected so far.
    pub closed spec fn diags(&self) -> Seq<DiagModel> {
        diag_models(self.errors@)
    }

    /// The cursor invariant: offsets in bounds, the line count 1-based and
    /// bounded by the characters consumed, and the source short enough for
    /// the line counter never to overflow.
    pub closed spec fn wf(&self) -> bool {
        &&& self.start <= self.current
        &&& self.current as int <= self.source@.len()
        &&& 1 <= self.line as int
        &&& self.line as int <= self.current as int + 1
        &&& self.source@.len() < i32::MAX as int
    }

    /// A scanner that has not consumed anything yet.
    pub closed spec fn fresh(&self) -> bool {
        &&& self.current == 0
        &&& self.start == 0
        &&& self.line as int == 1
        &&& self.tokens@.len() == 0
        &&& self.errors@.len() == 0
    }

    /// Builds a scanner over `source`.  The length bound keeps the line
    /// counter, which is at most one more than the characters consumed,
    /// within its machine type.
    pub fn new(source: String) -> (s: Scanner)
        requires
            source@.len() < i32::MAX as int,
        ensures
            s.fresh(),
            s.wf(),
            s.src() == source@,
    {
        Scanner {
            source,
            tokens: Vec::new(),
            errors: Vec::new(),
            start: 0,
            current: 0,
            line: 1,
        }
    }

    /// Runs the scan to completion and returns the token sequence, always
    /// terminated by exactly one end-of-input token.  The tokens returned
    /// and the diagnostics collected are exactly those of the model, so
    /// the result is a function of the source text alone: scanning equal
    /// sources always yields equal token and diagnostic sequences.
    pub fn scan_tokens(&mut self) -> (tokens: Vec<Token>)
        requires
            old(self).wf(),
            old(self).fresh(),
        ensures
            final(self).wf(),
            final(self).src() == old(self).src(),
            tok_models(tokens@) == scan_spec(old(self).src()).tokens,
            final(self).diags() == scan_spec(old(self).src()).diags,
    {
        let ghost src = self.source@;
        proof {
            lemma_tok_concat_empty(scan_from(src, 0, 1).tokens);
            lemma_diag_concat_empty(scan_from(src, 0, 1).diags);
            assert(tok_models(self.tokens@) =~= Seq::<TokenModel>::empty());
            assert(diag_models(self.errors@) =~= Seq::<DiagModel>::empty());
            assert(Seq::<TokenModel>::empty() + scan_from(src, 0, 1).tokens =~= scan_from(
                src,
                0,
                1,
            ).tokens);
            assert(Seq::<DiagModel>::empty() + scan_from(src, 0, 1).diags =~= scan_from(
                src,
                0,
                1,
            ).diags);
        }
        while !self.is_at_end()
            invariant
                self.wf(),
                self.source@ == src,
                src.len() < i32::MAX as int,
                scan_spec(src).tokens == tok_models(self.tokens@) + scan_from(
                    src,
                    self.current as int,
                    self.line as int,
                ).tokens,
                scan_spec(src).diags == diag_models(self.errors@) + scan_from(
                    src,
                    self.current as int,
                    self.line as int,
                ).diags,
            decreases src.len() - self.current as int,
        {
            let ghost p = self.current as int;
            let ghost l = self.line as int;
            let ghost tks = self.tokens@;
            let ghost ers = self.errors@;
            self.start = self.current;
            self.scan_token();
            proof {
                let st = scan_at(src, p, l);
                lemma_step_bounds(src, p, l);
                lemma_tok_concat_assoc(
                    tok_models(tks),
                    opt_token_seq(st.token),
                    scan_from(src, st.next, st.line).tokens,
                );
                lemma_diag_concat_assoc(
                    diag_models(ers),
                    opt_diag_seq(st.diag),
                    scan_from(src, st.next, st.line).diags,
                );
            }
        }
        let ghost tks = self.tokens@;
        let line = self.line;
        let eof = Token::new(TokenType::Eof, String::new(), String::new(), line);
        self.tokens.push(eof);
        proof {
            assert(tok_models(self.tokens@) =~= tok_models(tks).push(eof_token(line as int)));
            lemma_tok_push_concat(tok_models(tks), eof_token(line as int));
            lemma_diag_concat_empty(diag_models(self.errors@));
        }
        let mut out: Vec<Token> = Vec::new();
        core::mem::swap(&mut out, &mut self.tokens);
        out
    }

    /// Removes and returns the diagnostics collected by the scan.
    pub fn take_diagnostics(&mut self) -> (r: Vec<Diagnostic>)
        ensures
            diag_models(r@) == old(self).diags(),
            final(self).diags() == Seq::<DiagModel>::empty(),
            final(self).src() == old(self).src(),
    {
        let mut out: Vec<Diagnostic> = Vec::new();
        core::mem::swap(&mut out, &mut self.errors);
        proof {
            assert(diag_models(self.errors@) =~= Seq::<DiagModel>::empty());
        }
        out
    }

    /// Whether the whole source has been consumed.
    fn is_at_end(&self) -> (r: bool)
        ensures
            r == (self.current as int >= self.source@.len()),
    {
        self.current >= self.source.as_str().unicode_len()
    }

    /// Consumes and returns the next character.
    fn advance(&mut self) -> (c: char)
        requires
            old(self).wf(),
            (old(self).current as int) < old(self).source@.len(),
        ensures
            final(self).wf(),
            final(self).source == old(self).source,
            final(self).tokens == old(self).tokens,
            final(self).errors == old(self).errors,
            final(self).start == old(self).start,
            final(self).line == old(self).line,
            final(self).current == old(self).current + 1,
            c == old(self).source@[old(self).current as int],
    {
        let c = self.source.as_str().get_char(self.current);
        self.current = self.current + 1;
        c
    }

    /// The next unread character, without consuming it; the NUL character
    /// at end of input.
    fn peek(&self) -> (c: char)
        requires
            self.wf(),
        ensures
            c == (if self.current as int == self.source@.len() {
                '\0'
            } else {
                self.source@[self.current as int]
            }),
    {
        if self.is_at_end() {
            return '\0';
        }
        self.source.as_str().get_char(self.current)
    }

    /// The character after the next one, without consuming anything; the
    /// NUL character when fewer than two characters remain.
    fn peek_next(&self) -> (c: char)
        requires
            self.wf(),
        ensures
            c == (if self.current as int + 1 >= self.source@.len() {
                '\0'
            } else {
                self.source@[self.current as int + 1]
            }),
    {
        if self.current + 1 >= self.source.as_str().unicode_len() {
            return '\0';
        }
        self.source.as_str().get_char(self.current + 1)
    }

    /// Consumes the next character exactly when it equals `expected`:
    /// the single-character lookahead for two-character operators.
    fn match_char(&mut self, expected: char) -> (r: bool)
        requires
            old(self).wf(),
        ensures
            final(self).wf(),
            final(self).source == old(self).source,
            final(self).tokens == old(self).tokens,
            final(self).errors == old(self).errors,
            final(self).start == old(self).start,
            final(self).line == old(self).line,
            r == ((old(self).current as int) < old(self).source@.len()
                && old(self).source@[old(self).current as int] == expected),
            final(self).current as int == (if r {
                old(self).current as int + 1
            } else {
                old(self).current as int
            }),
    {
        if self.is_at_end() {
            return false;
        }
        if self.source.as_str().get_char(self.current) != expected {
            return false;
        }
        self.current = self.current + 1;
        true
    }

    /// Whether `c` is a decimal digit.
    fn is_digit(&self, c: char) -> (r: bool)
        ensures
            r == is_digit_char(c),
    {
        ('0' as u32) <= (c as u32) && (c as u32) <= ('9' as u32)
    }

    /// Whether `c` may begin an identifier.
    fn is_alpha(&self, c: char) -> (r: bool)
        ensures
            r == is_alpha_char(c),
    {
        char_is_alphabetic(c) || c == '_'
    }

    /// Whether `c` may continue an identifier.
    fn is_alpha_numeric(&self, c: char) -> (r: bool)
        ensures
            r == is_alnum_char(c),
    {
        self.is_alpha(c) || self.is_digit(c)
    }

    /// Appends a token for the current lexeme, with no literal value.
    fn add_token(&mut self, token_type: TokenType)
        requires
            old(self).wf(),
        ensures
            final(self).wf(),
            final(self).source == old(self).source,
            final(self).errors == old(self).errors,
            final(self).start == old(self).start,
            final(self).current == old(self).current,
            final(self).line == old(self).line,
            ({
                let m = (TokenModel {
                    kind: token_type,
                    lexeme: old(self).source@.subrange(
                        old(self).start as int,
                        old(self).current as int,
                    ),
                    literal: Seq::<char>::empty(),
                    line: old(self).line as int,
                });
                tok_models(final(self).tokens@) == tok_models(old(self).tokens@) + seq![m]
            }),
    {
        proof {
            reveal_strlit("");
            assert(""@ =~= Seq::<char>::empty());
        }
        self.add_token_with_literal(token_type, "");
    }

    /// Appends a token for the current lexeme, carrying the given decoded
    /// literal text.
    fn add_token_with_literal(&mut self, token_type: TokenType, literal: &str)
        requires
            old(self).wf(),
        ensures
            final(self).wf(),
            final(self).source == old(self).source,
            final(self).errors == old(self).errors,
            final(self).start == old(self).start,
            final(self).current == old(self).current,
            final(self).line == old(self).line,
            ({
                let m = (TokenModel {
                    kind: token_type,
                    lexeme: old(self).source@.subrange(
                        old(self).start as int,
                        old(self).current as int,
                    ),
                    literal: literal@,
                    line: old(self).line as int,
                });
                tok_models(final(self).tokens@) == tok_models(old(self).tokens@) + seq![m]
            }),
    {
        let ghost ts0 = self.tokens@;
        let text = self.source.as_str().substring_char(self.start, self.current);
        let lexeme = String::from_str(text);
        let lit = String::from_str(literal);
        let line = self.line;
        let t = Token::new(token_type, lexeme, lit, line);
        let ghost tm = t@;
        self.tokens.push(t);
        proof {
            assert(tok_models(self.tokens@) =~= tok_models(ts0) + seq![tm]);
        }
    }

    /// Scans one lexeme: dispatches on the next character and emits at
    /// most one token or one diagnostic, as the model's step says.
    fn scan_token(&mut self)
        requires
            old(self).wf(),
            old(self).start == old(self).current,
            (old(self).current as int) < old(self).source@.len(),
        ensures
            final(self).wf(),
            final(self).source == old(self).source,
            final(self).start == old(self).start,
            ({
                let st = scan_at(
                    old(self).source@,
                    old(self).current as int,
                    old(self).line as int,
                );
                &&& final(self).current as int == st.next
                &&& final(self).line as int == st.line
                &&& tok_models(final(self).tokens@) == tok_models(old(self).tokens@) + opt_token_seq(
                    st.token,
                )
                &&& diag_models(final(self).errors@) == diag_models(old(self).errors@) + opt_diag_seq(
                    st.diag,
                )
            }),
    {
        let ghost src = self.source@;
        let ghost pos = self.current as int;
        let ghost l = self.line as int;
        let c = self.advance();
        match c {
            '(' => {
                self.add_token(TokenType::LeftParen);
                proof {
                    lemma_diag_concat_empty(diag_models(self.errors@));
                }
            },
            ')' => {
                self.add_token(TokenType::RightParen);
                proof {
                    lemma_diag_concat_empty(diag_models(self.errors@));
                }
            },
            '{' => {
                self.add_token(TokenType::LeftBrace);
                proof {
                    lemma_diag_concat_empty(diag_models(self.errors@));
                }
            },
            '}' => {
                self.add_token(TokenType::RightBrace);
                proof {
                    lemma_diag_concat_empty(diag_models(self.errors@));
                }
            },
            ',' => {
                self.add_token(TokenType::Comma);
                proof {
                    lemma_diag_concat_empty(diag_models(self.errors@));
                }
            },
            '.' => {
                self.add_token(TokenType::Dot);
                proof {
                    lemma_diag_concat_empty(diag_models(self.errors@));
                }
            },
            '-' => {
                self.add_token(TokenType::Minus);
                proof {
                    lemma_diag_concat_empty(diag_models(self.errors@));
                }
            },
            '+' => {
                self.add_token(TokenType::Plus);
                proof {
                    lemma_diag_concat_empty(diag_models(self.errors@));
                }
            },
            ';' => {
                self.add_token(TokenType::Semicolon);
                proof {
                    lemma_diag_concat_empty(diag_models(self.errors@));
                }
            },
            '*' => {
                self.add_token(TokenType::Star);
                proof {
                    lemma_diag_concat_empty(diag_models(self.errors@));
                }
            },
            '!' => {
                let matched = self.match_char('=');
                if matched {
                    self.add_token(TokenType::BangEqual);
                } else {
                    self.add_token(TokenType::Bang);
                }
                proof {
                    lemma_diag_concat_empty(diag_models(self.errors@));
                }
            },
            '=' => {
                let matched = self.match_char('=');
                if matched {
                    self.add_token(TokenType::EqualEqual);
                } else {
                    self.add_token(TokenType::Equal);
                }
                proof {
                    lemma_diag_concat_empty(diag_models(self.errors@));
                }
            },
            '<' => {
                let matched = self.match_char('=');
                if matched {
                    self.add_token(TokenType::LessEqual);
                } else {
                    self.add_token(TokenType::Less);
                }
                proof {
                    lemma_diag_concat_empty(diag_models(self.errors@));
                }
            },
            '>' => {
                let matched = self.match_char('=');
                if matched {
                    self.add_token(TokenType::GreaterEqual);
                } else {
                    self.add_token(TokenType::Greater);
                }
                proof {
                    lemma_diag_concat_empty(diag_models(self.errors@));
                }
            },
            '/' => {
                let matched = self.match_char('/');
                if matched {
                    let ghost c0 = self.current as int;
                    while self.peek() != '\n' && !self.is_at_end()
                        invariant
                            self.wf(),
                            self.source == old(self).source,
                            self.source@ == src,
                            self.tokens == old(self).tokens,
                            self.errors == old(self).errors,
                            self.start == old(self).start,
                            self.line == old(self).line,
                            c0 <= self.current as int <= src.len(),
                            comment_end(src, c0) == comment_end(src, self.current as int),
                        decreases src.len() - self.current as int,
                    {
                        self.advance();
                    }
                    proof {
                        lemma_tok_concat_empty(tok_models(self.tokens@));
                        lemma_diag_concat_empty(diag_models(self.errors@));
                    }
                } else {
                    self.add_token(TokenType::Slash);
                    proof {
                        lemma_diag_concat_empty(diag_models(self.errors@));
                    }
                }
            },
            ' ' | '\r' | '\t' => {
                proof {
                    lemma_tok_concat_empty(tok_models(self.tokens@));
                    lemma_diag_concat_empty(diag_models(self.errors@));
                }
            },
            '\n' => {
                self.line = self.line + 1;
                proof {
                    lemma_tok_concat_empty(tok_models(self.tokens@));
                    lemma_diag_concat_empty(diag_models(self.errors@));
                }
            },
            '"' => {
                self.string();
            },
            _ => {
                if self.is_digit(c) {
                    self.number();
                    proof {
                        lemma_diag_concat_empty(diag_models(self.errors@));
                    }
                } else if self.is_alpha(c) {
                    self.identifier();
                    proof {
                        lemma_diag_concat_empty(diag_models(self.errors@));
                    }
                } else {
                    let ghost es0 = self.errors@;
                    let d = error(self.line, String::from_str("Unexpected character."));
                    let ghost dm = d@;
                    self.errors.push(d);
                    proof {
                        assert(diag_models(self.errors@) =~= diag_models(es0).push(dm));
                        lemma_diag_push_concat(diag_models(es0), dm);
                        lemma_tok_concat_empty(tok_models(self.tokens@));
                    }
                }
            },
        }
    }

    /// Scans a string literal whose opening quote was just consumed.
    /// Newlines inside the literal advance the line count; when no closing
    /// quote remains, a diagnostic is recorded at the line reached at end
    /// of input and no token is emitted.
    fn string(&mut self)
        requires
            old(self).wf(),
            old(self).start as int + 1 == old(self).current as int,
            old(self).source@[old(self).start as int] == '"',
        ensures
            final(self).wf(),
            final(self).source == old(self).source,
            final(self).start == old(self).start,
            ({
                let st = crate::model::string_step(
                    old(self).source@,
                    old(self).start as int,
                    old(self).line as int,
                );
                &&& final(self).current as int == st.next
                &&& final(self).line as int == st.line
                &&& tok_models(final(self).tokens@) == tok_models(old(self).tokens@) + opt_token_seq(
                    st.token,
                )
                &&& diag_models(final(self).errors@) == diag_models(old(self).errors@) + opt_diag_seq(
                    st.diag,
                )
            }),
    {
        let ghost src = self.source@;
        let ghost c0 = self.current as int;
        let ghost l0 = self.line as int;
        while self.peek() != '"' && !self.is_at_end()
            invariant
                self.wf(),
                self.source == old(self).source,
                self.source@ == src,
                self.tokens == old(self).tokens,
                self.errors == old(self).errors,
                self.start == old(self).start,
                c0 <= self.current as int <= src.len(),
                quote_end(src, c0) == quote_end(src, self.current as int),
                self.line as int == l0 + newlines(src, c0, self.current as int),
            decreases src.len() - self.current as int,
        {
            let c = self.advance();
            if c == '\n' {
                self.line = self.line + 1;
            }
        }
        if self.is_at_end() {
            let ghost es0 = self.errors@;
            let d = error(self.line, String::from_str("Unterminated string."));
            let ghost dm = d@;
            self.errors.push(d);
            proof {
                assert(diag_models(self.errors@) =~= diag_models(es0).push(dm));
                lemma_diag_push_concat(diag_models(es0), dm);
                lemma_tok_concat_empty(tok_models(self.tokens@));
            }
            return ;
        }
        self.advance();
        let text = self.source.as_str().substring_char(self.start + 1, self.current - 1);
        let value = String::from_str(text);
        self.add_token_with_literal(TokenType::String, value.as_str());
        proof {
            lemma_diag_concat_empty(diag_models(self.errors@));
        }
    }

    /// Scans a number literal whose first digit was just consumed: a
    /// maximal digit run, then a fractional part only when a dot is
    /// directly followed by another digit.
    fn number(&mut self)
        requires
            old(self).wf(),
            old(self).start as int + 1 == old(self).current as int,
        ensures
            final(self).wf(),
            final(self).source == old(self).source,
            final(self).errors == old(self).errors,
            final(self).start == old(self).start,
            final(self).line == old(self).line,
            ({
                let st = crate::model::number_step(
                    old(self).source@,
                    old(self).start as int,
                    old(self).line as int,
                );
                &&& final(self).current as int == st.next
                &&& tok_models(final(self).tokens@) == tok_models(old(self).tokens@) + opt_token_seq(
                    st.token,
                )
            }),
    {
        let ghost src = self.source@;
        let ghost c0 = self.current as int;
        while self.is_digit(self.peek())
            invariant
                self.wf(),
                self.source == old(self).source,
                self.source@ == src,
                self.tokens == old(self).tokens,
                self.errors == old(self).errors,
                self.start == old(self).start,
                self.line == old(self).line,
                c0 <= self.current as int <= src.len(),
                digits_end(src, c0) == digits_end(src, self.current as int),
            decreases src.len() - self.current as int,
        {
            self.advance();
        }
        if self.peek() == '.' && self.is_digit(self.peek_next()) {
            self.advance();
            let ghost f0 = self.current as int;
            while self.is_digit(self.peek())
                invariant
                    self.wf(),
                    self.source == old(self).source,
                    self.source@ == src,
                    self.tokens == old(self).tokens,
                    self.errors == old(self).errors,
                    self.start == old(self).start,
                    self.line == old(self).line,
                    f0 <= self.current as int <= src.len(),
                    digits_end(src, f0) == digits_end(src, self.current as int),
                decreases src.len() - self.current as int,
            {
                self.advance();
            }
        }
        let text = String::from_str(
            self.source.as_str().substring_char(self.start, self.current),
        );
        self.add_token_with_literal(TokenType::Number, text.as_str());
    }

    /// Scans an identifier or reserved word whose first character was just
    /// consumed, deciding the kind by exact match against the keyword
    /// table.
    fn identifier(&mut self)
        requires
            old(self).wf(),
            old(self).start as int + 1 == old(self).current as int,
        ensures
            final(self).wf(),
            final(self).source == old(self).source,
            final(self).errors == old(self).errors,
            final(self).start == old(self).start,
            final(self).line == old(self).line,
            ({
                let st = crate::model::identifier_step(
                    old(self).source@,
                    old(self).start as int,
                    old(self).line as int,
                );
                &&& final(self).current as int == st.next
                &&& tok_models(final(self).tokens@) == tok_models(old(self).tokens@) + opt_token_seq(
                    st.token,
                )
            }),
    {
        let ghost src = self.source@;
        let ghost c0 = self.current as int;
        while !self.is_at_end() && self.is_alpha_numeric(self.peek())
            invariant
                self.wf(),
                self.source == old(self).source,
                self.source@ == src,
                self.tokens == old(self).tokens,
                self.errors == old(self).errors,
                self.start == old(self).start,
                self.line == old(self).line,
                c0 <= self.current as int <= src.len(),
                ident_end(src, c0) == ident_end(src, self.current as int),
            decreases src.len() - self.current as int,
        {
            self.advance();
        }
        let text = String::from_str(
            self.source.as_str().substring_char(self.start, self.current),
        );
        let kind = keyword_lookup(&text);
        match kind {
            Some(k) => self.add_token(k),
            None => self.add_token(TokenType::Identifier),
        }
    }
}

/// The reserved word matching `text` exactly, if there is one: the fixed,
/// immutable keyword table, identical for every scanner.
fn keyword_lookup(text: &String) -> (r: Option<TokenType>)
    ensures
        r == keyword_kind(text@),
{
    if *text == "and".to_owned() {
        return Some(TokenType::And);
    }
    if *text == "class".to_owned() {
        return Some(TokenType::Class);
    }
    if *text == "else".to_owned() {
        return Some(TokenType::Else);
    }
    if *text == "false".to_owned() {
        return Some(TokenType::False);
    }
    if *text == "for".to_owned() {
        return Some(TokenType::For);
    }
    if *text == "fun".to_owned() {
        return Some(TokenType::Fun);
    }
    if *text == "if".to_owned() {
        return Some(TokenType::If);
    }
    if *text == "nil".to_owned() {
        return Some(TokenType::Nil);
    }
    if *text == "or".to_owned() {
        return Some(TokenType::Or);
    }
    if *text == "print".to_owned() {
        return Some(TokenType::Print);
    }
    if *text == "return".to_owned() {
        return Some(TokenType::Return);
    }
    if *text == "super".to_owned() {
        return Some(TokenType::Super);
    }
    if *text == "this".to_owned() {
        return Some(TokenType::This);
    }
    if *text == "true".to_owned() {
        return Some(TokenType::True);
    }
    if *text == "var".to_owned() {
        return Some(TokenType::Var);
    }
    if *text == "while".to_owned() {
        return Some(TokenType::While);
    }
    None
}

} // verus!
