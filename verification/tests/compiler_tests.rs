use monkey_interpreter::compiler::{disassemble, make, unmake, Compiler};
use monkey_interpreter::lexer::token::Token;
use monkey_interpreter::lexer::Lexer;
use monkey_interpreter::parser::ast::{Expression, Statement};
use monkey_interpreter::parser::{Parser, Program};
use monkey_interpreter::types::{Arg, CompileError, OpCode};

#[test]
fn test_make_constant() -> Result<(), CompileError> {
    assert_eq!(
        make(OpCode::Constant, &vec![Arg::U16(0xfffe)])?,
        vec![OpCode::Constant.to_byte(), 0xff, 0xfe]
    );

    Ok(())
}

#[test]
fn test_unmake_constant() -> Result<(), CompileError> {
    assert_eq!(unmake(&vec![0, 0xab, 0xcd], 0)?, (OpCode::Constant, vec![Arg::U16(0xabcd)], 3));
    Ok(())
}

#[test]
fn test_make_no_args() -> Result<(), CompileError> {
    assert_eq!(make(OpCode::Add, &Vec::new())?, vec![OpCode::Add.to_byte()]);
    assert_eq!(make(OpCode::Pop, &Vec::new())?, vec![1]);
    Ok(())
}

#[test]
fn test_make_rejects_wrong_arity() {
    assert!(make(OpCode::Constant, &Vec::new()).is_err());
    assert!(make(OpCode::Add, &vec![Arg::U16(1)]).is_err());
}

#[test]
fn test_make_rejects_wrong_width() {
    assert!(make(OpCode::Constant, &vec![Arg::U8(7)]).is_err());
}

#[test]
fn test_unmake_rejects_unknown_opcode() {
    assert!(unmake(&vec![200], 0).is_err());
}

#[test]
fn test_unmake_rejects_truncated_instruction() {
    // A Constant instruction needs two operand bytes.
    assert!(unmake(&vec![0, 0xab], 0).is_err());
    assert!(unmake(&vec![0], 0).is_err());
}

#[test]
fn test_unmake_rejects_offset_past_end() {
    assert!(unmake(&vec![1], 1).is_err());
}

#[test]
fn test_unmake_at_offset() -> Result<(), CompileError> {
    // A Pop followed by a Constant: decoding at offset 1 sees the Constant.
    assert_eq!(unmake(&vec![1, 0, 0x01, 0x02, 1], 1)?, (
        OpCode::Constant,
        vec![Arg::U16(0x0102)],
        3,
    ));
    Ok(())
}

fn compile_source(src: &str) -> Result<monkey_interpreter::types::ByteCode, CompileError> {
    let lexer = Lexer::new(src.to_string());
    let mut parser = Parser::new(lexer);
    let program = parser.parse_program().expect("program should parse");
    let mut compiler = Compiler::new();
    compiler.compile_program(&program)
}

#[test]
fn test_compile_arithmetic_layout() {
    let bytecode = compile_source("10 + 2").unwrap();
    // Constant 0, Constant 1, Add; the program-final Pop is stripped.
    assert_eq!(bytecode.bytes, vec![0, 0, 0, 0, 0, 1, 2]);
    assert_eq!(bytecode.constants.len(), 2);
}

#[test]
fn test_compile_let_uses_slot_zero() {
    let bytecode = compile_source("let x = 5; x").unwrap();
    // Constant 0, SetGlobal 0, GetGlobal 0; the program-final Pop is stripped.
    assert_eq!(bytecode.bytes, vec![0, 0, 0, 18, 0, 0, 19, 0, 0]);
}

#[test]
fn test_compile_second_let_uses_slot_one() {
    let bytecode = compile_source("let x = 5; let y = 6; y").unwrap();
    assert_eq!(
        bytecode.bytes,
        vec![0, 0, 0, 18, 0, 0, 0, 0, 1, 18, 0, 1, 19, 0, 1]
    );
}

#[test]
fn test_compile_unresolved_symbol_fails_with_name() {
    let err = compile_source("foobar").unwrap_err();
    assert_eq!(err.0, "Cannot resolve symbol: foobar");
}

#[test]
fn test_compile_conditional_back_patch() {
    let bytecode = compile_source("if (true) { 10 } else { 20 }; 3333").unwrap();
    // True; JPFalse 10; Constant 0; JP 13; Constant 1; Pop; Constant 2;
    // the program-final Pop is stripped.
    assert_eq!(
        bytecode.bytes,
        vec![6, 17, 0, 10, 0, 0, 0, 15, 0, 13, 0, 0, 1, 1, 0, 0, 2]
    );
}

#[test]
fn test_compile_rejects_unsupported_construct() {
    // A return statement is not lowered to bytecode.
    let program = Program {
        statements: vec![Statement::construct_return_statement(
            Expression::construct_integer_expression(5),
        )],
    };
    let mut compiler = Compiler::new();
    assert!(compiler.compile_program(&program).is_err());
}

#[test]
fn test_compile_rejects_string_literal() {
    let program = Program {
        statements: vec![Statement::construct_expression_statement(
            Token::new_string("hello"),
            Expression::construct_string_expression("hello"),
        )],
    };
    let mut compiler = Compiler::new();
    assert!(compiler.compile_program(&program).is_err());
}

#[test]
fn test_reset_clears_buffer_and_pool() {
    let lexer = Lexer::new("1 + 2".to_string());
    let mut parser = Parser::new(lexer);
    let program = parser.parse_program().unwrap();
    let mut compiler = Compiler::new();
    compiler.compile_program(&program).unwrap();
    compiler.reset();
    let bytecode = compiler.get_byte_code();
    assert!(bytecode.bytes.is_empty());
    assert!(bytecode.constants.is_empty());
}

#[test]
fn test_compile_keeps_final_value_observable() {
    // A program ending in a let leaves no trailing Pop to strip.
    let bytecode = compile_source("let x = 5;").unwrap();
    assert_eq!(bytecode.bytes, vec![0, 0, 0, 18, 0, 0]);
}

#[test]
fn test_disassemble_lists_instructions() {
    let bytecode = compile_source("let x = 5; x").unwrap();
    let listing = disassemble(&bytecode.bytes).unwrap();
    assert_eq!(
        listing,
        vec![
            (OpCode::Constant, vec![Arg::U16(0)]),
            (OpCode::SetGlobal, vec![Arg::U16(0)]),
            (OpCode::GetGlobal, vec![Arg::U16(0)]),
        ]
    );
}

#[test]
fn test_disassemble_rejects_torn_stream() {
    // A Constant instruction cut short fails the whole listing.
    assert!(disassemble(&vec![1, 0, 0]).is_err());
    assert!(disassemble(&vec![250]).is_err());
    assert_eq!(disassemble(&Vec::new()).unwrap(), Vec::new());
}

#[test]
fn test_self_reference_in_let_fails_with_name() {
    // The value expression is compiled before the name is defined.
    let err = compile_source("let x = x;").unwrap_err();
    assert_eq!(err.0, "Cannot resolve symbol: x");
}
