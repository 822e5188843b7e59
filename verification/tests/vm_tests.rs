use monkey_interpreter::compiler::Compiler;
use monkey_interpreter::lexer::Lexer;
use monkey_interpreter::parser::Parser;
use monkey_interpreter::types::{ByteCode, Object};
use monkey_interpreter::vm::{STACK_SIZE, VM};

#[test]
fn vm_basic_test() {
    let test_case = "10 + 2 + 3 + 200";

    let lexer = Lexer::new(test_case.to_string());
    let mut parser = Parser::new(lexer);
    let program = parser.parse_program().unwrap();
    let mut compiler = Compiler::new();

    compiler.compile_program(&program).unwrap();
    let bytecode = compiler.get_byte_code();
    println!("bytecode: {:#?}", bytecode);

    let mut vm = VM::new(bytecode);

    vm.run().unwrap();

    println!("stack: {:#?}", vm.stack_top())
}

/// Compiles `src`, runs it, and returns the program's result — the top of
/// the stack — together with the stack pointer.
fn run_for_value(src: &str) -> (Object, usize) {
    let lexer = Lexer::new(src.to_string());
    let mut parser = Parser::new(lexer);
    let program = parser.parse_program().expect("program should parse");
    let mut compiler = Compiler::new();
    let bytecode = compiler.compile_program(&program).expect("program should compile");
    let mut vm = VM::new(bytecode);
    vm.run().expect("program should run");
    (vm.stack_top().expect("a value should be left on the stack"), vm.stack_pointer())
}

#[test]
fn arithmetic_determinism() {
    let (top, sp) = run_for_value("10 + 2 + 3 + 200");
    assert_eq!(top, Object::Integer(215));
    assert_eq!(sp, 1);
}

#[test]
fn arithmetic_operators() {
    assert_eq!(run_for_value("7 - 2").0, Object::Integer(5));
    assert_eq!(run_for_value("6 * 7").0, Object::Integer(42));
    assert_eq!(run_for_value("17 / 5").0, Object::Integer(3));
    assert_eq!(run_for_value("2 * 3 + 4").0, Object::Integer(10));
}

#[test]
fn comparison_operators() {
    assert_eq!(run_for_value("1 < 2").0, Object::Boolean(true));
    assert_eq!(run_for_value("1 > 2").0, Object::Boolean(false));
    assert_eq!(run_for_value("2 == 2").0, Object::Boolean(true));
    assert_eq!(run_for_value("2 != 2").0, Object::Boolean(false));
    assert_eq!(run_for_value("true == true").0, Object::Boolean(true));
    assert_eq!(run_for_value("true != false").0, Object::Boolean(true));
}

#[test]
fn jump_back_patch_no_alternative() {
    let (top, _) = run_for_value("if (false) { 1 }");
    assert_eq!(top, Object::Null);
}

#[test]
fn jump_back_patch_consequence() {
    let (top, _) = run_for_value("if (true) { 1 } else { 2 }");
    assert_eq!(top, Object::Integer(1));
}

#[test]
fn jump_back_patch_alternative() {
    let (top, _) = run_for_value("if (false) { 1 } else { 2 }");
    assert_eq!(top, Object::Integer(2));
}

#[test]
fn global_binding_roundtrip() {
    let (top, _) = run_for_value("let x = 5; x");
    assert_eq!(top, Object::Integer(5));
}

#[test]
fn global_binding_shadowing() {
    let (top, _) = run_for_value("let x = 5; let x = 7; x");
    assert_eq!(top, Object::Integer(7));
}

#[test]
fn unary_semantics() {
    assert_eq!(run_for_value("!0").0, Object::Boolean(true));
    assert_eq!(run_for_value("!5").0, Object::Boolean(false));
    assert_eq!(run_for_value("-5").0, Object::Integer(-5));
    assert_eq!(run_for_value("!true").0, Object::Boolean(false));
    assert_eq!(run_for_value("!false").0, Object::Boolean(true));
}

#[test]
fn unary_on_unsupported_operand_fails() {
    // True; Minus: numeric negation of a boolean is a runtime error.
    let bytecode = ByteCode { bytes: vec![6, 11], constants: Vec::new() };
    let mut vm = VM::new(bytecode);
    assert!(vm.run().is_err());

    // Null; Exclam is fine, but Null; Minus is not.
    let bytecode = ByteCode { bytes: vec![14, 12], constants: Vec::new() };
    let mut vm = VM::new(bytecode);
    assert!(vm.run().is_ok());
}

#[test]
fn stack_overflow_is_reported() {
    let bytecode = ByteCode { bytes: Vec::new(), constants: Vec::new() };
    let mut vm = VM::new(bytecode);
    for i in 0..STACK_SIZE {
        assert_eq!(vm.stack_pointer(), i);
        vm.push_stack(Object::Integer(i as isize)).expect("within capacity");
    }
    assert!(vm.push_stack(Object::Integer(99)).is_err());
    assert_eq!(vm.stack_pointer(), STACK_SIZE);
}

#[test]
fn stack_underflow_is_reported() {
    let bytecode = ByteCode { bytes: Vec::new(), constants: Vec::new() };
    let mut vm = VM::new(bytecode);
    assert!(vm.pop_stack().is_err());
    assert!(vm.stack_top().is_err());
}

#[test]
fn overflowing_push_during_run_halts_with_error() {
    // Eleven `True` opcodes overflow the ten-slot stack.
    let bytecode = ByteCode { bytes: vec![6; STACK_SIZE + 1], constants: Vec::new() };
    let mut vm = VM::new(bytecode);
    assert!(vm.run().is_err());
}

#[test]
fn popping_empty_stack_during_run_halts_with_error() {
    let bytecode = ByteCode { bytes: vec![1], constants: Vec::new() };
    let mut vm = VM::new(bytecode);
    assert!(vm.run().is_err());
}

#[test]
fn unknown_opcode_fails_the_run() {
    let bytecode = ByteCode { bytes: vec![250], constants: Vec::new() };
    let mut vm = VM::new(bytecode);
    assert!(vm.run().is_err());
}

#[test]
fn constant_index_out_of_bounds_fails_the_run() {
    let bytecode = ByteCode { bytes: vec![0, 0, 5], constants: vec![Object::Integer(1)] };
    let mut vm = VM::new(bytecode);
    assert!(vm.run().is_err());
}

#[test]
fn division_by_zero_fails_the_run() {
    let lexer = Lexer::new("1 / 0".to_string());
    let mut parser = Parser::new(lexer);
    let program = parser.parse_program().unwrap();
    let mut compiler = Compiler::new();
    compiler.compile_program(&program).unwrap();
    let mut vm = VM::new(compiler.get_byte_code());
    assert!(vm.run().is_err());
}

#[test]
fn cross_type_ordering_fails_the_run() {
    // Integer 1; True; GT: ordering across unrelated types is rejected.
    let bytecode = ByteCode { bytes: vec![0, 0, 0, 6, 10], constants: vec![Object::Integer(1)] };
    let mut vm = VM::new(bytecode);
    assert!(vm.run().is_err());
}

#[test]
fn cross_type_equality_is_false() {
    let bytecode = ByteCode { bytes: vec![0, 0, 0, 6, 8], constants: vec![Object::Integer(1)] };
    let mut vm = VM::new(bytecode);
    vm.run().unwrap();
    assert_eq!(vm.stack_top().unwrap(), Object::Boolean(false));
}
