use chip8_toolchain::lexer::Lexer;
use chip8_toolchain::lexer::Token;
use chip8_toolchain::lexer::TokenType;
use chip8_toolchain::lexer::TokenType::{
    Comma, Else, EndOfFile, Equals, EqualsEquals, ErrorToken, ForwardSlash, Identifier, LeftBrace,
    LeftParen, Minus, Not, NotEquals, Number, Plus, RightBrace, RightParen, Semicolon, Var,
};
use chip8_toolchain::utils;

fn kinds(l: &Lexer) -> Vec<TokenType> {
    l.tokens().iter().map(|t| t.clone().token_type).collect()
}

#[test]
pub fn test_is_at_end() {
    let mut l = Lexer::new("test test 123 55");
    assert_eq!(false, l.is_at_end());
    l.lex();
    assert_eq!(true, l.is_at_end());
}

#[test]
pub fn test_lex() {
    let mut l = Lexer::new(
        "( 123 
            55 testident var else asdfg",
    );
    l.lex();
    assert!(utils::vectors_equivalent(
        kinds(&l),
        vec![
            LeftParen,
            Number(123),
            Number(55),
            Identifier(String::from("testident")),
            Var,
            Else,
            Identifier(String::from("asdfg")),
            EndOfFile
        ]
    ));
    assert!(l.line() == 1);

    let mut l = Lexer::new(
        "
        var a = 50; 
        a = a + 20;",
    );
    l.lex();
    assert!(utils::vectors_equivalent(
        kinds(&l),
        vec![
            Var,
            Identifier(String::from("a")),
            Equals,
            Number(50),
            Semicolon,
            Identifier(String::from("a")),
            Equals,
            Identifier(String::from("a")),
            Plus,
            Number(20),
            Semicolon,
            EndOfFile
        ]
    ));

    assert!(l.line() == 2);
}

#[test]
pub fn test_two_characters() {
    let mut l = Lexer::new("8 == 5 != !0;");
    l.lex();
    assert_eq!(
        l.stringify_tokens(),
        String::from("Number(8) EqualsEquals Number(5) NotEquals Not Number(0) Semicolon EndOfFile")
    );
}

#[test]
pub fn test_stringify_tokens() {
    let mut l = Lexer::new("test test 123 55");
    l.lex();
    assert_eq!(
        l.stringify_tokens(),
        String::from("Identifier(\"test\") Identifier(\"test\") Number(123) Number(55) EndOfFile")
    );
}

#[test]
pub fn test_globals() {
    let mut l = Lexer::new("ST test test DT 123 I 55 RAND");
    l.lex();
    assert_eq!(
        l.stringify_tokens(),
        String::from(
            "ST Identifier(\"test\") Identifier(\"test\") DT Number(123) I Number(55) Rand EndOfFile"
        )
    );
}

#[test]
pub fn test_keywords() {
    let mut l = Lexer::new("ST test test DT var while 55 RAND");
    l.lex();
    assert_eq!(
        l.stringify_tokens(),
        String::from(
            "ST Identifier(\"test\") Identifier(\"test\") DT Var While Number(55) Rand EndOfFile"
        )
    );
}

#[test]
pub fn lex_empty_source_is_end_of_file() {
    let mut l = Lexer::new("");
    assert!(l.is_at_end());
    l.lex();
    assert_eq!(l.stringify_tokens(), String::from("EndOfFile"));
    assert_eq!(l.tokens().len(), 1);
    assert_eq!(l.tokens()[0].line(), 0);
}

#[test]
pub fn lex_punctuation() {
    let mut l = Lexer::new("+-/{}();,=");
    l.lex();
    assert!(utils::vectors_equivalent(
        kinds(&l),
        vec![
            Plus,
            Minus,
            ForwardSlash,
            LeftBrace,
            RightBrace,
            LeftParen,
            RightParen,
            Semicolon,
            Comma,
            Equals,
            EndOfFile
        ]
    ));
}

#[test]
pub fn lex_equals_at_end_of_source() {
    let mut l = Lexer::new("a=");
    l.lex();
    assert_eq!(l.stringify_tokens(), String::from("Identifier(\"a\") Equals EndOfFile"));
    let mut l = Lexer::new("!");
    l.lex();
    assert_eq!(l.stringify_tokens(), String::from("Not EndOfFile"));
    let mut l = Lexer::new("!===");
    l.lex();
    assert!(utils::vectors_equivalent(kinds(&l), vec![NotEquals, EqualsEquals, EndOfFile]));
}

#[test]
pub fn lex_unexpected_character_is_error_token() {
    let mut l = Lexer::new("1 @ 2 # $");
    l.lex();
    assert!(utils::vectors_equivalent(
        kinds(&l),
        vec![Number(1), ErrorToken, Number(2), ErrorToken, ErrorToken, EndOfFile]
    ));
}

#[test]
pub fn lex_number_bounds() {
    let mut l = Lexer::new("65535 65536 0007 99999999999999999999999 0");
    l.lex();
    assert!(utils::vectors_equivalent(
        kinds(&l),
        vec![Number(65535), ErrorToken, Number(7), ErrorToken, Number(0), EndOfFile]
    ));
}

#[test]
pub fn lex_number_followed_by_letters() {
    let mut l = Lexer::new("12ab a1b2 _");
    l.lex();
    assert!(utils::vectors_equivalent(
        kinds(&l),
        vec![
            Number(12),
            Identifier(String::from("ab")),
            Identifier(String::from("a1b2")),
            ErrorToken,
            EndOfFile
        ]
    ));
}

#[test]
pub fn lex_reserved_words() {
    let mut l = Lexer::new("true false if else and or var while not fn DT ST I RAND DRAW KEY");
    l.lex();
    assert_eq!(
        l.stringify_tokens(),
        String::from("True False If Else And Or Var While Not Fn DT ST I Rand Draw Key EndOfFile")
    );
    let mut l = Lexer::new("True dt rand Key iff");
    l.lex();
    assert_eq!(
        l.stringify_tokens(),
        String::from(
            "Identifier(\"True\") Identifier(\"dt\") Identifier(\"rand\") Identifier(\"Key\") Identifier(\"iff\") EndOfFile"
        )
    );
}

#[test]
pub fn lex_lines_are_counted_from_zero() {
    let mut l = Lexer::new("a\nb\n\nc");
    l.lex();
    let lines: Vec<u32> = l.tokens().iter().map(|t| t.line()).collect();
    assert_eq!(lines, vec![0, 1, 3, 3]);
    assert_eq!(l.line(), 3);
}

#[test]
pub fn lex_twice_adds_a_second_end_marker() {
    let mut l = Lexer::new("1");
    l.lex();
    l.lex();
    assert_eq!(l.stringify_tokens(), String::from("Number(1) EndOfFile EndOfFile"));
}

#[test]
pub fn lex_unicode_words() {
    let mut l = Lexer::new("\u{e9}t\u{e9} \u{3b1}1");
    l.lex();
    assert!(utils::vectors_equivalent(
        kinds(&l),
        vec![
            Identifier(String::from("\u{e9}t\u{e9}")),
            Identifier(String::from("\u{3b1}1")),
            EndOfFile
        ]
    ));
}

#[test]
pub fn token_accessors() {
    let t = Token::new(Number(7), 3);
    assert_eq!(t.token_type(), Number(7));
    assert_eq!(t.line(), 3);
    assert!(t.token_type() != Number(8));
    assert!(Identifier(String::from("a")) == Identifier(String::from("a")));
    assert!(Identifier(String::from("a")) != Identifier(String::from("b")));
    assert!(Plus != Minus);
    assert!(Plus == Plus);
    assert_eq!(Identifier(String::from("a\"b")).to_string(), "Identifier(\"a\\\"b\")");
    assert_eq!(Number(65535).to_string(), "Number(65535)");
    assert_eq!(Number(0).to_string(), "Number(0)");
    assert_eq!(Number(10).to_string(), "Number(10)");
}

#[test]
pub fn vectors_equivalent_compares_length_and_items() {
    assert!(utils::vectors_equivalent(vec![1, 2, 3], vec![1, 2, 3]));
    assert!(!utils::vectors_equivalent(vec![1, 2, 3], vec![1, 2]));
    assert!(!utils::vectors_equivalent(vec![1, 2, 3], vec![1, 2, 4]));
    assert!(utils::vectors_equivalent(Vec::<u8>::new(), Vec::<u8>::new()));
}
