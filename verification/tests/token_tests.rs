use rox::error;
use rox::scan::Location;
use rox::token::Token;
use rox::token::TokenType;

#[test]
fn token_new_keeps_its_parts() {
    let t = Token::new(TokenType::Number, "10.5".to_string(), "10.5".to_string(), 3);
    assert_eq!(t.token_type, TokenType::Number);
    assert_eq!(t.lexeme, "10.5");
    assert_eq!(t.literal, "10.5");
    assert_eq!(t.line, 3);
}

#[test]
fn token_to_string_renders_kind_lexeme_literal() {
    let t = Token::new(TokenType::Var, "var".to_string(), String::new(), 1);
    assert_eq!(t.to_string(), "Var var ");
    let s = Token::new(TokenType::String, "\"ab\"".to_string(), "ab".to_string(), 2);
    assert_eq!(s.to_string(), "String \"ab\" ab");
}

#[test]
fn error_builds_the_diagnostic() {
    let d = error(7, "Unexpected character.".to_string());
    assert_eq!(d.line, 7);
    assert_eq!(d.message, "Unexpected character.");
}

#[test]
fn location_is_plain_data() {
    let at = Location { line: 4, column: 2 };
    assert_eq!(at.line, 4);
    assert_eq!(at.column, 2);
    let origin = Location::default();
    assert_eq!(origin, Location { line: 0, column: 0 });
}
