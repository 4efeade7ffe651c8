use rox::scan::scan_tokens;
use rox::scanner::Scanner;
use rox::token::Token;
use rox::token::TokenType;

fn kinds_of(tokens: &[Token]) -> Vec<TokenType> {
    tokens.iter().map(|t| t.token_type).collect()
}

#[test]
fn scenario_paren_sum() {
    let (tokens, errors) = scan_tokens("(1+2)".to_string());
    assert_eq!(
        kinds_of(&tokens),
        vec![
            TokenType::LeftParen,
            TokenType::Number,
            TokenType::Plus,
            TokenType::Number,
            TokenType::RightParen,
            TokenType::Eof,
        ]
    );
    assert_eq!(tokens[1].literal, "1");
    assert_eq!(tokens[3].literal, "2");
    assert!(errors.is_empty());
    for t in &tokens {
        assert_eq!(t.line, 1);
    }
}

#[test]
fn scenario_bang_equal_is_one_token() {
    let (tokens, errors) = scan_tokens("!=".to_string());
    assert_eq!(kinds_of(&tokens), vec![TokenType::BangEqual, TokenType::Eof]);
    assert!(errors.is_empty());
}

#[test]
fn scenario_bang_then_equal_are_two_tokens() {
    let (tokens, errors) = scan_tokens("! =".to_string());
    assert_eq!(
        kinds_of(&tokens),
        vec![TokenType::Bang, TokenType::Equal, TokenType::Eof]
    );
    assert!(errors.is_empty());
}

#[test]
fn scenario_comment_then_number() {
    let (tokens, errors) = scan_tokens("// comment\n1".to_string());
    assert_eq!(kinds_of(&tokens), vec![TokenType::Number, TokenType::Eof]);
    assert_eq!(tokens[0].line, 2);
    assert_eq!(tokens[0].lexeme, "1");
    assert!(errors.is_empty());
}

#[test]
fn scenario_unterminated_string() {
    let (tokens, errors) = scan_tokens("\"open".to_string());
    assert_eq!(kinds_of(&tokens), vec![TokenType::Eof]);
    assert_eq!(errors.len(), 1);
    assert_eq!(errors[0].message, "Unterminated string.");
    assert_eq!(errors[0].line, 1);
}

#[test]
fn scenario_var_declaration() {
    let (tokens, errors) = scan_tokens("var x = 10.5;".to_string());
    assert_eq!(
        kinds_of(&tokens),
        vec![
            TokenType::Var,
            TokenType::Identifier,
            TokenType::Equal,
            TokenType::Number,
            TokenType::Semicolon,
            TokenType::Eof,
        ]
    );
    assert_eq!(tokens[1].lexeme, "x");
    assert_eq!(tokens[3].literal, "10.5");
    assert!(errors.is_empty());
}

#[test]
fn scenario_unexpected_character() {
    let (tokens, errors) = scan_tokens("@".to_string());
    assert_eq!(kinds_of(&tokens), vec![TokenType::Eof]);
    assert_eq!(errors.len(), 1);
    assert_eq!(errors[0].message, "Unexpected character.");
    assert_eq!(errors[0].line, 1);
}

#[test]
fn eof_always_last_and_unique() {
    let inputs = ["", "(1+2)", "\"open", "@#$", "var x = 1;\n\"s\n t\"", "// only a comment"];
    for input in inputs {
        let (tokens, _) = scan_tokens(input.to_string());
        assert!(!tokens.is_empty());
        assert_eq!(tokens.last().unwrap().token_type, TokenType::Eof);
        let eof_count = tokens
            .iter()
            .filter(|t| matches!(t.token_type, TokenType::Eof))
            .count();
        assert_eq!(eof_count, 1);
    }
}

#[test]
fn lines_non_decreasing() {
    let input = "var a = 1;\n@\n\"two\nline\"\nb // c\n@";
    let (tokens, errors) = scan_tokens(input.to_string());
    for w in tokens.windows(2) {
        assert!(w[0].line <= w[1].line);
    }
    for w in errors.windows(2) {
        assert!(w[0].line <= w[1].line);
    }
    for t in &tokens {
        assert!(t.line >= 1);
    }
    for e in &errors {
        assert!(e.line >= 1);
    }
}

#[test]
fn string_literal_round_trip() {
    let (tokens, errors) = scan_tokens("\"abc\"".to_string());
    assert_eq!(kinds_of(&tokens), vec![TokenType::String, TokenType::Eof]);
    assert_eq!(tokens[0].literal, "abc");
    assert_eq!(tokens[0].lexeme, "\"abc\"");
    assert!(errors.is_empty());
}

#[test]
fn multiline_string_counts_lines() {
    let (tokens, errors) = scan_tokens("\"a\nb\" x".to_string());
    assert_eq!(
        kinds_of(&tokens),
        vec![TokenType::String, TokenType::Identifier, TokenType::Eof]
    );
    assert_eq!(tokens[0].literal, "a\nb");
    assert_eq!(tokens[0].line, 2);
    assert_eq!(tokens[1].line, 2);
    assert!(errors.is_empty());
}

#[test]
fn unterminated_multiline_string_reports_last_line() {
    let (tokens, errors) = scan_tokens("\"a\nb".to_string());
    assert_eq!(kinds_of(&tokens), vec![TokenType::Eof]);
    assert_eq!(errors.len(), 1);
    assert_eq!(errors[0].message, "Unterminated string.");
    assert_eq!(errors[0].line, 2);
}

#[test]
fn scanning_twice_yields_identical_sequences() {
    let input = "fun f(a, b) { return a <= b; } // tail\n\"s\"\n@ 3.25";
    let mut first = Scanner::new(input.to_string());
    let tokens_a = first.scan_tokens();
    let errors_a = first.take_diagnostics();
    let mut second = Scanner::new(input.to_string());
    let tokens_b = second.scan_tokens();
    let errors_b = second.take_diagnostics();
    assert_eq!(tokens_a.len(), tokens_b.len());
    for (a, b) in tokens_a.iter().zip(tokens_b.iter()) {
        assert_eq!(a.token_type, b.token_type);
        assert_eq!(a.lexeme, b.lexeme);
        assert_eq!(a.literal, b.literal);
        assert_eq!(a.line, b.line);
    }
    assert_eq!(errors_a.len(), errors_b.len());
    for (a, b) in errors_a.iter().zip(errors_b.iter()) {
        assert_eq!(a.line, b.line);
        assert_eq!(a.message, b.message);
    }
}

#[test]
fn all_keywords_are_recognized() {
    let input = "and class else false fun for if nil or print return super this true var while";
    let (tokens, errors) = scan_tokens(input.to_string());
    assert_eq!(
        kinds_of(&tokens),
        vec![
            TokenType::And,
            TokenType::Class,
            TokenType::Else,
            TokenType::False,
            TokenType::Fun,
            TokenType::For,
            TokenType::If,
            TokenType::Nil,
            TokenType::Or,
            TokenType::Print,
            TokenType::Return,
            TokenType::Super,
            TokenType::This,
            TokenType::True,
            TokenType::Var,
            TokenType::While,
            TokenType::Eof,
        ]
    );
    assert!(errors.is_empty());
}

#[test]
fn keyword_prefix_is_an_identifier() {
    let (tokens, errors) = scan_tokens("iff orchid _and and2".to_string());
    assert_eq!(
        kinds_of(&tokens),
        vec![
            TokenType::Identifier,
            TokenType::Identifier,
            TokenType::Identifier,
            TokenType::Identifier,
            TokenType::Eof,
        ]
    );
    assert!(errors.is_empty());
}

#[test]
fn number_with_trailing_dot_leaves_the_dot() {
    let (tokens, errors) = scan_tokens("1.".to_string());
    assert_eq!(
        kinds_of(&tokens),
        vec![TokenType::Number, TokenType::Dot, TokenType::Eof]
    );
    assert_eq!(tokens[0].literal, "1");
    assert!(errors.is_empty());
}

#[test]
fn number_dot_number_splits_after_fraction() {
    let (tokens, errors) = scan_tokens("10.5.3".to_string());
    assert_eq!(
        kinds_of(&tokens),
        vec![TokenType::Number, TokenType::Dot, TokenType::Number, TokenType::Eof]
    );
    assert_eq!(tokens[0].literal, "10.5");
    assert_eq!(tokens[2].literal, "3");
    assert!(errors.is_empty());
}

#[test]
fn all_single_character_tokens() {
    let (tokens, errors) = scan_tokens("(){},.-+;*/".to_string());
    assert_eq!(
        kinds_of(&tokens),
        vec![
            TokenType::LeftParen,
            TokenType::RightParen,
            TokenType::LeftBrace,
            TokenType::RightBrace,
            TokenType::Comma,
            TokenType::Dot,
            TokenType::Minus,
            TokenType::Plus,
            TokenType::Semicolon,
            TokenType::Star,
            TokenType::Slash,
            TokenType::Eof,
        ]
    );
    assert!(errors.is_empty());
}

#[test]
fn all_comparison_operators() {
    let (tokens, errors) = scan_tokens("< <= > >= = == ! !=".to_string());
    assert_eq!(
        kinds_of(&tokens),
        vec![
            TokenType::Less,
            TokenType::LessEqual,
            TokenType::Greater,
            TokenType::GreaterEqual,
            TokenType::Equal,
            TokenType::EqualEqual,
            TokenType::Bang,
            TokenType::BangEqual,
            TokenType::Eof,
        ]
    );
    assert!(errors.is_empty());
}

#[test]
fn double_equal_never_splits() {
    let (tokens, _) = scan_tokens("===".to_string());
    assert_eq!(
        kinds_of(&tokens),
        vec![TokenType::EqualEqual, TokenType::Equal, TokenType::Eof]
    );
}

#[test]
fn empty_input_yields_only_eof() {
    let (tokens, errors) = scan_tokens(String::new());
    assert_eq!(tokens.len(), 1);
    assert_eq!(tokens[0].token_type, TokenType::Eof);
    assert_eq!(tokens[0].line, 1);
    assert!(errors.is_empty());
}

#[test]
fn whitespace_only_input() {
    let (tokens, errors) = scan_tokens(" \t\r\n ".to_string());
    assert_eq!(tokens.len(), 1);
    assert_eq!(tokens[0].token_type, TokenType::Eof);
    assert_eq!(tokens[0].line, 2);
    assert!(errors.is_empty());
}

#[test]
fn comment_without_newline_reaches_end() {
    let (tokens, errors) = scan_tokens("// just a comment".to_string());
    assert_eq!(kinds_of(&tokens), vec![TokenType::Eof]);
    assert!(errors.is_empty());
}

#[test]
fn number_literal_decodes_as_float() {
    let (tokens, _) = scan_tokens("10.5 7".to_string());
    let a: f64 = tokens[0].literal.parse().unwrap();
    let b: f64 = tokens[1].literal.parse().unwrap();
    assert_eq!(a, 10.5);
    assert_eq!(b, 7.0);
}
