//! The token model: the closed set of token kinds and the immutable
//! token record produced by the scanner.

use vstd::prelude::*;
use vstd::string::StringExecFns;

verus! {

/// The closed set of lexical categories, one variant per kind of token.
#[derive(Debug, Clone, Copy, PartialEq, Eq, Structural)]
pub enum TokenType {
    LeftParen,
    RightParen,
    LeftBrace,
    RightBrace,
    Comma,
    Dot,
    Minus,
    Plus,
    Semicolon,
    Slash,
    Star,
    Bang,
    BangEqual,
    Equal,
    EqualEqual,
    Greater,
    GreaterEqual,
    Less,
    LessEqual,
    Identifier,
    String,
    Number,
    And,
    Class,
    Else,
    False,
    Fun,
    For,
    If,
    Nil,
    Or,
    Print,
    Return,
    Super,
    This,
    True,
    Var,
    While,
    Eof,
}

/// The mathematical content of a [`Token`]: its kind, the exact source
/// text it was scanned from, its decoded literal text, and its line.
pub struct TokenModel {
    pub kind: TokenType,
    pub lexeme: Seq<char>,
    pub literal: Seq<char>,
    pub line: int,
}

/// An immutable token record.
///
/// `lexeme` is the exact substring of the source that produced the token.
/// `literal` is the decoded value for literal-carrying kinds: the contents
/// between the quotes for a string, the matched digit text for a number,
/// and empty for every other kind.  `line` is the 1-based line the token
/// was emitted on.
#[derive(Debug, Clone)]
pub struct Token {
    pub token_type: TokenType,
    pub lexeme: String,
    pub literal: String,
    pub line: i32,
}

impl View for Token {
    type V = TokenModel;

    open spec fn view(&self) -> TokenModel {
        TokenModel {
            kind: self.token_type,
            lexeme: self.lexeme@,
            literal: self.literal@,
            line: self.line as int,
        }
    }
}

/// The name of a token kind, as rendered by [`Token::to_string`].
pub open spec fn kind_name(k: TokenType) -> Seq<char> {
    match k {
        TokenType::LeftParen => "LeftParen"@,
        TokenType::RightParen => "RightParen"@,
        TokenType::LeftBrace => "LeftBrace"@,
        TokenType::RightBrace => "RightBrace"@,
        TokenType::Comma => "Comma"@,
        TokenType::Dot => "Dot"@,
        TokenType::Minus => "Minus"@,
        TokenType::Plus => "Plus"@,
        TokenType::Semicolon => "Semicolon"@,
        TokenType::Slash => "Slash"@,
        TokenType::Star => "Star"@,
        TokenType::Bang => "Bang"@,
        TokenType::BangEqual => "BangEqual"@,
        TokenType::Equal => "Equal"@,
        TokenType::EqualEqual => "EqualEqual"@,
        TokenType::Greater => "Greater"@,
        TokenType::GreaterEqual => "GreaterEqual"@,
        TokenType::Less => "Less"@,
        TokenType::LessEqual => "LessEqual"@,
        TokenType::Identifier => "Identifier"@,
        TokenType::String => "String"@,
        TokenType::Number => "Number"@,
        TokenType::And => "And"@,
        TokenType::Class => "Class"@,
        TokenType::Else => "Else"@,
        TokenType::False => "False"@,
        TokenType::Fun => "Fun"@,
        TokenType::For => "For"@,
        TokenType::If => "If"@,
        TokenType::Nil => "Nil"@,
        TokenType::Or => "Or"@,
        TokenType::Print => "Print"@,
        TokenType::Return => "Return"@,
        TokenType::Super => "Super"@,
        TokenType::This => "This"@,
        TokenType::True => "True"@,
        TokenType::Var => "Var"@,
        TokenType::While => "While"@,
        TokenType::Eof => "Eof"@,
    }
}

/// The name of a token kind as a string slice.
pub fn kind_str(k: &TokenType) -> (r: &'static str)
    ensures
        r@ == kind_name(*k),
{
    match k {
        TokenType::LeftParen => "LeftParen",
        TokenType::RightParen => "RightParen",
        TokenType::LeftBrace => "LeftBrace",
        TokenType::RightBrace => "RightBrace",
        TokenType::Comma => "Comma",
        TokenType::Dot => "Dot",
        TokenType::Minus => "Minus",
        TokenType::Plus => "Plus",
        TokenType::Semicolon => "Semicolon",
        TokenType::Slash => "Slash",
        TokenType::Star => "Star",
        TokenType::Bang => "Bang",
        TokenType::BangEqual => "BangEqual",
        TokenType::Equal => "Equal",
        TokenType::EqualEqual => "EqualEqual",
        TokenType::Greater => "Greater",
        TokenType::GreaterEqual => "GreaterEqual",
        TokenType::Less => "Less",
        TokenType::LessEqual => "LessEqual",
        TokenType::Identifier => "Identifier",
        TokenType::String => "String",
        TokenType::Number => "Number",
        TokenType::And => "And",
        TokenType::Class => "Class",
        TokenType::Else => "Else",
        TokenType::False => "False",
        TokenType::Fun => "Fun",
        TokenType::For => "For",
        TokenType::If => "If",
        TokenType::Nil => "Nil",
        TokenType::Or => "Or",
        TokenType::Print => "Print",
        TokenType::Return => "Return",
        TokenType::Super => "Super",
        TokenType::This => "This",
        TokenType::True => "True",
        TokenType::Var => "Var",
        TokenType::While => "While",
        TokenType::Eof => "Eof",
    }
}

impl Token {
    /// Builds a token from its parts; pure data, no failure conditions.
    pub fn new(token_type: TokenType, lexeme: String, literal: String, line: i32) -> (t: Token)
        ensures
            t@ == (TokenModel { kind: token_type, lexeme: lexeme@, literal: literal@, line: line as int }),
    {
        Token { token_type, lexeme, literal, line }
    }

    /// A human-readable rendering: the kind's name, the lexeme, and the
    /// literal, separated by single spaces.
    pub fn to_string(&self) -> (r: String)
        ensures
            r@ == kind_name(self.token_type) + " "@ + self.lexeme@ + " "@ + self.literal@,
    {
        let mut r = String::new();
        r.append(kind_str(&self.token_type));
        r.append(" ");
        r.append(self.lexeme.as_str());
        r.append(" ");
        r.append(self.literal.as_str());
        proof {
            assert(r@ =~= kind_name(self.token_type) + " "@ + self.lexeme@ + " "@ + self.literal@);
        }
        r
    }
}

} // verus!
