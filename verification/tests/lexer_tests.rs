use monkey_interpreter::lexer::token::{Token, TokenType};
use monkey_interpreter::lexer::Lexer;

#[test]
fn lexer_basic_test() {
    let src = "=+(){}[],;".to_string();

    let expected = vec![
        (TokenType::Assign, "="),
        (TokenType::Plus, "+"),
        (TokenType::LParen, "("),
        (TokenType::RParen, ")"),
        (TokenType::LBrace, "{"),
        (TokenType::RBrace, "}"),
        (TokenType::LBracket, "["),
        (TokenType::RBracket, "]"),
        (TokenType::Comma, ","),
        (TokenType::Semicolon, ";"),
        (TokenType::Eof, ""),
    ];

    let mut lexer = Lexer::new(src);

    for expected in expected {
        let token = lexer.next_token();

        assert_eq!(expected.0, token.typ);
        assert_eq!(expected.1, token.literal);
    }
}

#[test]
fn lexer_complex_test() {
    let src = r#"
            let five = 5;
            let ten = 10;

            let add = fn(x, y) {
                x + y;
            };

            let result = add(five, ten);
            !-/*5;
            5 < 10 > 5;

            if (5 < 10) {
                return true;
            } else {
                return false;
            }

            10 == 10;
            10 != 9;
            "foobar"
            "foo bar";
        "#
        .to_string();

    let expected = vec![
        Token::new_let(),
        Token::new_identifier("five"),
        Token::new_assign(),
        Token::new_int("5"),
        Token::new_semicolon(),
        Token::new_let(),
        Token::new_identifier("ten"),
        Token::new_assign(),
        Token::new_int("10"),
        Token::new_semicolon(),
        Token::new_let(),
        Token::new_identifier("add"),
        Token::new_assign(),
        Token::new_function(),
        Token::new_l_paren(),
        Token::new_identifier("x"),
        Token::new_comma(),
        Token::new_identifier("y"),
        Token::new_r_paren(),
        Token::new_l_brace(),
        Token::new_identifier("x"),
        Token::new_plus(),
        Token::new_identifier("y"),
        Token::new_semicolon(),
        Token::new_r_brace(),
        Token::new_semicolon(),
        Token::new_let(),
        Token::new_identifier("result"),
        Token::new_assign(),
        Token::new_identifier("add"),
        Token::new_l_paren(),
        Token::new_identifier("five"),
        Token::new_comma(),
        Token::new_identifier("ten"),
        Token::new_r_paren(),
        Token::new_semicolon(),
        Token::new_exclam(),
        Token::new_dash(),
        Token::new_f_slash(),
        Token::new_star(),
        Token::new_int("5"),
        Token::new_semicolon(),
        Token::new_int("5"),
        Token::new_l_t(),
        Token::new_int("10"),
        Token::new_g_t(),
        Token::new_int("5"),
        Token::new_semicolon(),
        // if statements:
        Token::new_if(),
        Token::new_l_paren(),
        Token::new_int("5"),
        Token::new_l_t(),
        Token::new_int("10"),
        Token::new_r_paren(),
        Token::new_l_brace(),
        Token::new_return(),
        Token::new_true(),
        Token::new_semicolon(),
        Token::new_r_brace(),
        Token::new_else(),
        Token::new_l_brace(),
        Token::new_return(),
        Token::new_false(),
        Token::new_semicolon(),
        Token::new_r_brace(),
        // 2-char tokens
        Token::new_int("10"),
        Token::new_eq(),
        Token::new_int("10"),
        Token::new_semicolon(),
        Token::new_int("10"),
        Token::new_n_eq(),
        Token::new_int("9"),
        Token::new_semicolon(),
        Token::new_string("foobar"),
        Token::new_string("foo bar"),
        Token::new_semicolon(),
        Token::new_eof(),
    ];

    let mut lexer = Lexer::new(src);

    for expected in expected {
        let token = lexer.next_token();
        assert_eq!(expected, token, "Expected {expected:?}, got {token:?}")
    }
}
