use monkey_interpreter::lexer::token::Token;
use monkey_interpreter::lexer::Lexer;
use monkey_interpreter::parser::ast::{Expression, Statement};
use monkey_interpreter::parser::Parser;

fn do_test(program: String, expected: Vec<Statement>) {
    let l = Lexer::new(program);
    let mut parser = Parser::new(l);

    let parsed = parser.parse_program().unwrap();

    assert_eq!(
        parsed.statements.len(),
        expected.len(),
        "Expected {} statements, got {}",
        expected.len(),
        parsed.statements.len()
    );
    for i in 0..expected.len() {
        assert_eq!(parsed.statements[i], expected[i]);
    }
}

#[test]
fn parser_basic_test() {
    let program = r#"
            let x = 5;
            let y = 10;
            let foobar = 838383;
        "#
    .to_string();

    let expected = vec![
        Statement::construct_let_statement("x".to_string(), 5),
        Statement::construct_let_statement("y".to_string(), 10),
        Statement::construct_let_statement("foobar".to_string(), 838383),
    ];

    do_test(program, expected)
}

#[test]
fn return_test() {
    let program = r#"
            return 5;
            return asdf;
            return 10;
        "#
    .to_string();

    let expected = vec![
        Statement::construct_return_statement(Expression::construct_integer_expression(5)),
        Statement::construct_return_statement(Expression::construct_identifier_expression("asdf")),
        Statement::construct_return_statement(Expression::construct_integer_expression(10)),
    ];

    do_test(program, expected);
}

#[test]
fn test_identifier_expression() {
    let program = r#"
            foobar;
        "#
    .to_string();

    let expected = vec![Statement::construct_expression_statement(
        Token::new_identifier("foobar"),
        Expression::construct_identifier_expression("foobar"),
    )];

    do_test(program, expected);
}

#[test]
fn test_prefix_expression() {
    let program = r#"
            !5;
            -15;
        "#
    .to_string();

    let expected = vec![
        Statement::construct_expression_statement(
            Token::new_exclam(),
            Expression::construct_prefix_expression(
                "!",
                Expression::construct_integer_expression(5),
            ),
        ),
        Statement::construct_expression_statement(
            Token::new_dash(),
            Expression::construct_prefix_expression(
                "-",
                Expression::construct_integer_expression(15),
            ),
        ),
    ];

    do_test(program, expected);
}

#[test]
fn test_infix_expression() {
    let program = r#"
            5 + 20;
            5 - 20;
            5 * 20;
            5 / 20;
            5 > 20;
            5 < 20;
            5 == 20;
            5 != 20;
        "#
    .to_string();

    let expected = vec![
        Statement::construct_expression_statement(
            Token::new_int_i(5),
            Expression::construct_infix_expression(
                "+",
                Expression::construct_integer_expression(5),
                Expression::construct_integer_expression(20),
            ),
        ),
        Statement::construct_expression_statement(
            Token::new_int_i(5),
            Expression::construct_infix_expression(
                "-",
                Expression::construct_integer_expression(5),
                Expression::construct_integer_expression(20),
            ),
        ),
        Statement::construct_expression_statement(
            Token::new_int_i(5),
            Expression::construct_infix_expression(
                "*",
                Expression::construct_integer_expression(5),
                Expression::construct_integer_expression(20),
            ),
        ),
        Statement::construct_expression_statement(
            Token::new_int_i(5),
            Expression::construct_infix_expression(
                "/",
                Expression::construct_integer_expression(5),
                Expression::construct_integer_expression(20),
            ),
        ),
        Statement::construct_expression_statement(
            Token::new_int_i(5),
            Expression::construct_infix_expression(
                ">",
                Expression::construct_integer_expression(5),
                Expression::construct_integer_expression(20),
            ),
        ),
        Statement::construct_expression_statement(
            Token::new_int_i(5),
            Expression::construct_infix_expression(
                "<",
                Expression::construct_integer_expression(5),
                Expression::construct_integer_expression(20),
            ),
        ),
        Statement::construct_expression_statement(
            Token::new_int_i(5),
            Expression::construct_infix_expression(
                "==",
                Expression::construct_integer_expression(5),
                Expression::construct_integer_expression(20),
            ),
        ),
        Statement::construct_expression_statement(
            Token::new_int_i(5),
            Expression::construct_infix_expression(
                "!=",
                Expression::construct_integer_expression(5),
                Expression::construct_integer_expression(20),
            ),
        ),
    ];

    do_test(program, expected);
}

#[test]
fn test_integer_literal_expression() {
    let program = r#"
            5;
        "#
    .to_string();

    let expected = vec![Statement::construct_expression_statement(
        Token::new_int("5"),
        Expression::construct_integer_expression(5),
    )];

    do_test(program, expected);
}

#[test]
fn test_grouped_expression() {
    let program = r#"
            1 + (2 + 3) + 4;
            (5 + 5) * 2
            2 / (5 + 5);
            -(5 + 5);
            !(true == true)
        "#
    .to_string();

    let expected = vec![
        "((1 + (2 + 3)) + 4)",
        "((5 + 5) * 2)",
        "(2 / (5 + 5))",
        "(-(5 + 5))",
        "(!(true == true))",
    ];

    let l = Lexer::new(program);
    let mut parser = Parser::new(l);

    let parsed = parser.parse_program().unwrap();
    for p in &parsed.statements {
        println!("{}", p.dbg())
    }

    assert_eq!(
        parsed.statements.len(),
        expected.len(),
        "Expected {} statements, got {}",
        expected.len(),
        parsed.statements.len()
    );
    for i in 0..expected.len() {
        assert_eq!(parsed.statements[i].dbg(), expected[i]);
    }
}

#[test]
fn test_precidence() {
    let program = r#"
            a + add(b * c) + d;
            add(a, b, 1, 2 * 3, 4 + 5, add(6, 7 * 8))
            add(a + b + c * d / f + g)
        "#
    .to_string();

    let expected = vec![
        "((a + add((b * c))) + d)",
        "add(a, b, 1, (2 * 3), (4 + 5), add(6, (7 * 8)))",
        "add((((a + b) + ((c * d) / f)) + g))",
    ];

    let l = Lexer::new(program);
    let mut parser = Parser::new(l);

    let parsed = parser.parse_program().unwrap();

    assert_eq!(
        parsed.statements.len(),
        expected.len(),
        "Expected {} statements, got {}",
        expected.len(),
        parsed.statements.len()
    );
    for i in 0..expected.len() {
        assert_eq!(parsed.statements[i].dbg(), expected[i]);
    }
}
