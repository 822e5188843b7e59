use monkey_interpreter::helpers::{combine_bytes, get_lower_byte, get_upper_byte, split_u16};
use monkey_interpreter::interpreter::{Environment, HashKey, Interpreter, Object};
use monkey_interpreter::lexer::token::Token;
use monkey_interpreter::lexer::Lexer;
use monkey_interpreter::parser::ast::{Expression, Statement};
use monkey_interpreter::parser::Program;
use monkey_interpreter::numfmt::{isize_to_string, parse_isize, usize_to_string};
use monkey_interpreter::parser::Parser;
use monkey_interpreter::symbol_table::{SymbolScope, Symbol, SymbolTable};
use monkey_interpreter::types::{Arg, OpCode};

#[test]
fn binary_helpers_split_and_combine() {
    assert_eq!(get_upper_byte(0xabcd), 0xab);
    assert_eq!(get_lower_byte(0xabcd), 0xcd);
    assert_eq!(split_u16(0x1234), (0x12, 0x34));
    assert_eq!(combine_bytes(0x12, 0x34), 0x1234);
    assert_eq!(combine_bytes(split_u16(0xfffe).0, split_u16(0xfffe).1), 0xfffe);
}

#[test]
fn opcode_tags_round_trip() {
    for byte in 0..=19u8 {
        let op = OpCode::from_byte(byte).expect("every tag below twenty names an opcode");
        assert_eq!(op.to_byte(), byte);
    }
    assert!(OpCode::from_byte(20).is_err());
    assert!(OpCode::from_byte(255).is_err());
}

#[test]
fn opcode_arg_widths() {
    assert_eq!(OpCode::Constant.get_arg_widths(), vec![2]);
    assert_eq!(OpCode::SetGlobal.get_arg_widths(), vec![2]);
    assert_eq!(OpCode::JP.get_arg_widths(), vec![2]);
    assert!(OpCode::Add.get_arg_widths().is_empty());
    assert!(OpCode::Pop.get_arg_widths().is_empty());
}

#[test]
fn arg_sizes() {
    assert_eq!(Arg::U8(1).get_size(), 8);
    assert_eq!(Arg::U16(1).get_size(), 16);
}

#[test]
fn symbol_table_assigns_monotonic_slots() {
    let mut table = SymbolTable::new();
    assert_eq!(table.define("a"), 0);
    assert_eq!(table.define("b"), 1);
    assert_eq!(table.resolve("a"), Some(0));
    assert_eq!(table.resolve("b"), Some(1));
    assert_eq!(table.resolve("c"), None);
}

#[test]
fn symbol_table_redefinition_wins_resolution() {
    let mut table = SymbolTable::new();
    assert_eq!(table.define("a"), 0);
    assert_eq!(table.define("a"), 1);
    assert_eq!(table.resolve("a"), Some(1));
}

#[test]
fn symbol_new_carries_fields() {
    let scope = SymbolScope("Global".to_string());
    let symbol = Symbol::new("x", &scope, 3);
    assert_eq!(symbol.name, "x");
    assert_eq!(symbol.idx, 3);
}

#[test]
fn decimal_rendering() {
    assert_eq!(usize_to_string(0), "0");
    assert_eq!(usize_to_string(215), "215");
    assert_eq!(isize_to_string(-5), "-5");
    assert_eq!(isize_to_string(838383), "838383");
    assert_eq!(isize_to_string(isize::MIN), isize::MIN.to_string());
}

#[test]
fn decimal_parsing() {
    assert_eq!(parse_isize("0"), Some(0));
    assert_eq!(parse_isize("838383"), Some(838383));
    assert_eq!(parse_isize(""), None);
    assert_eq!(parse_isize("12a"), None);
    assert_eq!(parse_isize("99999999999999999999999999"), None);
}

#[test]
fn hash_key_for_plain_values() {
    assert_eq!(
        HashKey::get_hash_key(&Object::Integer(7)).unwrap(),
        HashKey { typ: "int".to_string(), value: 7 }
    );
    assert_eq!(
        HashKey::get_hash_key(&Object::Boolean(true)).unwrap(),
        HashKey { typ: "bool".to_string(), value: 1 }
    );
    let k1 = HashKey::get_hash_key(&Object::String("abc".to_string())).unwrap();
    let k2 = HashKey::get_hash_key(&Object::String("abc".to_string())).unwrap();
    assert_eq!(k1, k2);
    assert_eq!(k1.typ, "str");
    assert!(HashKey::get_hash_key(&Object::Null).is_err());
}

fn eval_source(src: &str) -> Result<Object, monkey_interpreter::interpreter::EvalError> {
    let lexer = Lexer::new(src.to_string());
    let mut parser = Parser::new(lexer);
    let program = parser.parse_program().expect("program should parse");
    let mut interpreter = Interpreter::new(Environment::new(None));
    interpreter.evaluate_program(&program)
}

#[test]
fn interpreter_arithmetic() {
    assert_eq!(eval_source("10 + 2 + 3 + 200").unwrap(), Object::Integer(215));
    assert_eq!(eval_source("2 * 3 + 4").unwrap(), Object::Integer(10));
}

#[test]
fn interpreter_unary() {
    assert_eq!(eval_source("!0").unwrap(), Object::Boolean(true));
    assert_eq!(eval_source("!5").unwrap(), Object::Boolean(false));
    assert_eq!(eval_source("-5").unwrap(), Object::Integer(-5));
}

#[test]
fn interpreter_bindings_and_conditionals() {
    assert_eq!(eval_source("let x = 5; x").unwrap(), Object::Integer(5));
    assert_eq!(eval_source("if (false) { 1 }").unwrap(), Object::Null);
    assert_eq!(eval_source("if (true) { 1 } else { 2 }").unwrap(), Object::Integer(1));
    assert_eq!(eval_source("if (false) { 1 } else { 2 }").unwrap(), Object::Integer(2));
}

#[test]
fn interpreter_early_return() {
    assert_eq!(eval_source("return 5; 9").unwrap(), Object::Integer(5));
}

#[test]
fn interpreter_builtin_len() {
    // Calls the native `len` on a string literal; built by hand since the
    // parser has no prefix rule for string tokens.
    let call = Expression::Call {
        token: Token::new_l_paren(),
        function: Box::new(Expression::construct_identifier_expression("len")),
        arguements: vec![Expression::construct_string_expression("hello")],
    };
    let program = Program {
        statements: vec![Statement::construct_expression_statement(
            Token::new_identifier("len"),
            call,
        )],
    };
    let mut interpreter = Interpreter::new(Environment::new(None));
    assert_eq!(interpreter.evaluate_program(&program).unwrap(), Object::Integer(5));

    let bad_call = Expression::Call {
        token: Token::new_l_paren(),
        function: Box::new(Expression::construct_identifier_expression("len")),
        arguements: vec![Expression::construct_integer_expression(5)],
    };
    let program = Program {
        statements: vec![Statement::construct_expression_statement(
            Token::new_identifier("len"),
            bad_call,
        )],
    };
    let mut interpreter = Interpreter::new(Environment::new(None));
    assert!(interpreter.evaluate_program(&program).is_err());
}

#[test]
fn interpreter_unknown_variable_fails() {
    assert!(eval_source("nope").is_err());
}

#[test]
fn interpreter_unwrap_return_peels_nesting() {
    let wrapped = Object::Return(Box::new(Object::Return(Box::new(Object::Integer(3)))));
    assert_eq!(wrapped.unwrap_return(), Object::Integer(3));
    assert_eq!(Object::Null.unwrap_return(), Object::Null);
}

/// An expression statement calling the named native function on the given
/// argument expressions, built by hand since the parser has no prefix
/// rules for string or array tokens.
fn builtin_call(name: &str, arguements: Vec<Expression>) -> Program {
    let call = Expression::Call {
        token: Token::new_l_paren(),
        function: Box::new(Expression::construct_identifier_expression(name)),
        arguements,
    };
    Program {
        statements: vec![Statement::construct_expression_statement(
            Token::new_identifier(name),
            call,
        )],
    }
}

fn int_array(values: &[isize]) -> Expression {
    Expression::Array {
        token: Token::new_l_bracket(),
        elements: values.iter().map(|v| Expression::construct_integer_expression(*v)).collect(),
    }
}

fn eval_program(program: &Program) -> Result<Object, monkey_interpreter::interpreter::EvalError> {
    let mut interpreter = Interpreter::new(Environment::new(None));
    interpreter.evaluate_program(program)
}

#[test]
fn interpreter_builtin_array_reads() {
    let first = eval_program(&builtin_call("first", vec![int_array(&[7, 8, 9])])).unwrap();
    assert_eq!(first, Object::Integer(7));
    let last = eval_program(&builtin_call("last", vec![int_array(&[7, 8, 9])])).unwrap();
    assert_eq!(last, Object::Integer(9));

    assert_eq!(eval_program(&builtin_call("first", vec![int_array(&[])])).unwrap(), Object::Null);
    assert_eq!(eval_program(&builtin_call("last", vec![int_array(&[])])).unwrap(), Object::Null);
    assert!(eval_program(&builtin_call("first", vec![
        Expression::construct_integer_expression(1),
    ]))
    .is_err());
}

#[test]
fn interpreter_builtin_rest_and_push() {
    let rest = eval_program(&builtin_call("rest", vec![int_array(&[7, 8, 9])])).unwrap();
    assert_eq!(rest, Object::Array(vec![Object::Integer(8), Object::Integer(9)]));
    assert_eq!(eval_program(&builtin_call("rest", vec![int_array(&[])])).unwrap(), Object::Null);

    let pushed = eval_program(&builtin_call(
        "push",
        vec![int_array(&[1, 2]), Expression::construct_integer_expression(3)],
    ))
    .unwrap();
    assert_eq!(
        pushed,
        Object::Array(vec![Object::Integer(1), Object::Integer(2), Object::Integer(3)])
    );
    assert!(eval_program(&builtin_call("push", vec![int_array(&[1])])).is_err());
}

#[test]
fn interpreter_builtin_len_on_arrays() {
    assert_eq!(
        eval_program(&builtin_call("len", vec![int_array(&[5, 6, 7])])).unwrap(),
        Object::Integer(3)
    );
}

#[test]
fn hash_key_for_negative_integer_truncates() {
    assert_eq!(
        HashKey::get_hash_key(&Object::Integer(-1)).unwrap(),
        HashKey { typ: "int".to_string(), value: usize::MAX }
    );
    assert_eq!(
        HashKey::get_hash_key(&Object::Integer(-1)).unwrap(),
        HashKey { typ: "int".to_string(), value: (-1isize) as usize }
    );
}
