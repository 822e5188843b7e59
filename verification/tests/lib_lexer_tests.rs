use monkey_interpreter::{Lexer, TokenType};

#[test]
fn lib_basic_test() {
    let src = "=+(){},;".to_string();

    let expected = vec![
        (TokenType::Assign, "="),
        (TokenType::Plus, "+"),
        (TokenType::LParen, "("),
        (TokenType::RParen, ")"),
        (TokenType::LBrace, "{"),
        (TokenType::RBrace, "}"),
        (TokenType::Comma, ","),
        (TokenType::Semicolon, ";"),
        (TokenType::Eof, ""),
    ];

    let mut lexer = Lexer::new(src);

    for expected in expected {
        let token = lexer.next_token().unwrap();

        assert_eq!(expected.0, token.typ);
        assert_eq!(expected.1, token.literal);
    }
}

#[test]
fn lib_complex_test() {
    let src = r#"
let five = 5;
let ten = 10;

let add = fn(x, y) {
    x + y;
};

let result = add(five, ten);
        "#
    .to_string();

    let expected = vec![
        (TokenType::Let, "let"),
        (TokenType::Ident, "five"),
        (TokenType::Assign, "="),
        (TokenType::Int, "5"),
        (TokenType::Semicolon, ";"),
        (TokenType::Let, "let"),
        (TokenType::Ident, "ten"),
        (TokenType::Assign, "="),
        (TokenType::Int, "10"),
        (TokenType::Semicolon, ";"),
        (TokenType::Let, "let"),
        (TokenType::Ident, "add"),
        (TokenType::Assign, "="),
        (TokenType::Function, "fn"),
        (TokenType::LParen, "("),
        (TokenType::Ident, "x"),
        (TokenType::Comma, ","),
        (TokenType::Ident, "y"),
        (TokenType::RParen, ")"),
        (TokenType::LBrace, "{"),
        (TokenType::Ident, "x"),
        (TokenType::Plus, "+"),
        (TokenType::Ident, "y"),
        (TokenType::Semicolon, ";"),
        (TokenType::RBrace, "}"),
        (TokenType::Semicolon, ";"),
        (TokenType::Let, "let"),
        (TokenType::Ident, "result"),
        (TokenType::Assign, "="),
        (TokenType::Ident, "add"),
        (TokenType::LParen, "("),
        (TokenType::Ident, "five"),
        (TokenType::Comma, ","),
        (TokenType::Ident, "ten"),
        (TokenType::RParen, ")"),
        (TokenType::Semicolon, ";"),
        (TokenType::Eof, ""),
    ];

    let mut lexer = Lexer::new(src);

    for expected in expected {
        let token = lexer.next_token().unwrap();

        assert_eq!(
            expected.0, token.typ,
            "Expected type {:?}, got {:?}. Token: {:?}",
            expected.0, token.typ, token
        );
        assert_eq!(
            expected.1, token.literal,
            "Expected literal {}, got {}. Token: {:?}",
            expected.1, token.literal, token
        );
    }
}
