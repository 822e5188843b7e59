use monkey_interpreter::compiler::Compiler;
use monkey_interpreter::lexer::token::{Token, TokenType};
use monkey_interpreter::lexer::Lexer;
use monkey_interpreter::parser::ast::{Expression, Statement};
use monkey_interpreter::parser::Parser;
use monkey_interpreter::types::Object;
use monkey_interpreter::vm::VM;

#[test]
fn empty_program_compiles_to_empty_bytecode() {
    let lexer = Lexer::new("   ".to_string());
    let mut parser = Parser::new(lexer);
    let program = parser.parse_program().unwrap();
    assert!(program.statements.is_empty());

    let mut compiler = Compiler::new();
    let bytecode = compiler.compile_program(&program).unwrap();
    assert!(bytecode.bytes.is_empty());
    assert!(bytecode.constants.is_empty());

    let mut vm = VM::new(bytecode);
    vm.run().unwrap();
    assert!(vm.stack_top().is_err());
    assert_eq!(vm.stack_pointer(), 0);
}

#[test]
fn jptrue_jumps_on_truthy_condition() {
    // True; JPTrue 5; Null; True — the jump skips the Null.
    let bytecode = monkey_interpreter::types::ByteCode {
        bytes: vec![6, 16, 0, 5, 14, 6],
        constants: Vec::new(),
    };
    let mut vm = VM::new(bytecode);
    vm.run().unwrap();
    assert_eq!(vm.stack_top().unwrap(), Object::Boolean(true));
    assert_eq!(vm.stack_pointer(), 1);
}

#[test]
fn jptrue_falls_through_on_falsy_condition() {
    // False; JPTrue 5; Null — the jump is not taken and Null is pushed.
    let bytecode = monkey_interpreter::types::ByteCode {
        bytes: vec![7, 16, 0, 5, 14],
        constants: Vec::new(),
    };
    let mut vm = VM::new(bytecode);
    vm.run().unwrap();
    assert_eq!(vm.stack_top().unwrap(), Object::Null);
}

#[test]
fn dbg_renders_conditionals() {
    let lexer = Lexer::new("if (a) { b } else { c }".to_string());
    let mut parser = Parser::new(lexer);
    let program = parser.parse_program().unwrap();
    assert_eq!(program.statements.len(), 1);
    assert_eq!(program.statements[0].dbg(), "if a {\n\tb\n }\nelse {\n\tc\n }");
}

#[test]
fn dbg_renders_let_and_return() {
    let s = Statement::construct_let_statement("x".to_string(), -7);
    assert_eq!(s.dbg(), "let x = -7");

    let r = Statement::construct_return_statement(Expression::construct_identifier_expression(
        "y",
    ));
    assert_eq!(r.dbg(), "return y");
}

#[test]
fn dbg_renders_functions_and_arrays() {
    let body = Statement::construct_block_statement(vec![
        Statement::construct_expression_statement(
            Token::new_identifier("x"),
            Expression::construct_identifier_expression("x"),
        ),
    ]);
    let f = Expression::Function {
        token: Token::new_function(),
        params: vec![Expression::construct_identifier_expression("x")],
        body: Box::new(body),
    };
    assert_eq!(f.dbg(), "fn(x) {\n\tx\n }");

    let arr = Expression::Array {
        token: Token::new_l_bracket(),
        elements: vec![
            Expression::construct_integer_expression(1),
            Expression::construct_integer_expression(2),
        ],
    };
    assert_eq!(arr.dbg(), "[1,2]");
}

#[test]
fn constructors_build_expected_shapes() {
    let b = Expression::construct_boolean_expression(true);
    match &b {
        Expression::Boolean { token, value } => {
            assert_eq!(token.typ, TokenType::True);
            assert!(*value);
        }
        other => panic!("expected a boolean expression, got {other:?}"),
    }

    let s = Expression::construct_string_expression("hi");
    match &s {
        Expression::String { value, .. } => assert_eq!(value, "hi"),
        other => panic!("expected a string expression, got {other:?}"),
    }

    let cond = Expression::construct_if_expression(
        Expression::construct_boolean_expression(false),
        Statement::construct_block_statement(Vec::new()),
        None,
    );
    match &cond {
        Expression::If { alternative, .. } => assert!(alternative.is_none()),
        other => panic!("expected a conditional, got {other:?}"),
    }

    let t = Token::new_int_i(-42);
    assert_eq!(t.typ, TokenType::Int);
    assert_eq!(t.literal, "-42");
}
