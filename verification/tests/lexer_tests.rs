use nova_lang::lexer::{tokenize, Token};

#[test]
fn test_lexer() {
    let source = r#"fn main(): i32 {
            let x: i32 = 42;
            let s: string = "hello";
            return x;
        }"#;

    let tokens = tokenize(source);
    assert_eq!(tokens[0], Token::Function);
    assert_eq!(tokens[1], Token::Identifier("main".to_string()));
    assert_eq!(tokens[2], Token::LeftParen);
    assert_eq!(tokens[3], Token::RightParen);
}

#[test]
fn test_lexer_full_statement() {
    let tokens = tokenize("let x: i32 = 42;");
    assert_eq!(
        tokens,
        vec![
            Token::Let,
            Token::Identifier("x".to_string()),
            Token::Colon,
            Token::TypeInt,
            Token::Equals,
            Token::Number(42),
            Token::Semicolon,
        ]
    );
}

#[test]
fn test_lexer_keywords_and_identifiers() {
    let tokens = tokenize("fn fnx if iffy return true false bool string f64 i32 i32x x_1");
    assert_eq!(
        tokens,
        vec![
            Token::Function,
            Token::Identifier("fnx".to_string()),
            Token::If,
            Token::Identifier("iffy".to_string()),
            Token::Return,
            Token::True,
            Token::False,
            Token::TypeBool,
            Token::TypeString,
            Token::TypeFloat,
            Token::TypeInt,
            Token::Identifier("i32x".to_string()),
            Token::Identifier("x_1".to_string()),
        ]
    );
}

#[test]
fn test_lexer_operators_and_punctuation() {
    let tokens = tokenize("( ) { } ; = + - * / : ,");
    assert_eq!(
        tokens,
        vec![
            Token::LeftParen,
            Token::RightParen,
            Token::LeftBrace,
            Token::RightBrace,
            Token::Semicolon,
            Token::Equals,
            Token::Plus,
            Token::Minus,
            Token::Multiply,
            Token::Divide,
            Token::Colon,
            Token::Comma,
        ]
    );
}

#[test]
fn test_lexer_string_literal_and_number_after_word() {
    let tokens = tokenize("s\"ab c\"123abc");
    assert_eq!(
        tokens,
        vec![
            Token::Identifier("s".to_string()),
            Token::StringLiteral,
            Token::Number(123),
            Token::Identifier("abc".to_string()),
        ]
    );
}

#[test]
fn test_lexer_error_tokens() {
    // An unrecognized character, a carriage return (not whitespace to
    // the lexical rules), and an unterminated string each yield Error.
    assert_eq!(tokenize("@"), vec![Token::Error]);
    assert_eq!(tokenize("\r"), vec![Token::Error]);
    assert_eq!(tokenize("\"abc"), vec![Token::Error, Token::Identifier("abc".to_string())]);
}

#[test]
fn test_lexer_number_overflow() {
    // Larger than any 64-bit signed value: the run becomes one Error.
    assert_eq!(tokenize("99999999999999999999"), vec![Token::Error]);
    assert_eq!(tokenize("9223372036854775807"), vec![Token::Number(i64::MAX)]);
}

#[test]
fn test_lexer_empty_and_whitespace_only() {
    assert_eq!(tokenize(""), Vec::<Token>::new());
    assert_eq!(tokenize("  \t\n"), Vec::<Token>::new());
}
