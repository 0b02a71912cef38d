use morango::bytecode::context::Context;
use morango::bytecode::instruction::{Instruction, ParseError};
use morango::bytecode::{AssemblyError, ByteCode};
use morango::config::OpCodes;
use morango::interpret;
use morango::interpreter::interpreter::{Interpreter, RuntimeError};
use morango::text::{
    decimal_string, hex2_string, parse_value_str, split_lines, split_words, IntErrorKind,
};

fn assemble_err(code: &str) -> String {
    ByteCode::do_transpile(code).unwrap_err().to_string()
}

fn listing(code: &str) -> String {
    ByteCode::do_transpile(code).unwrap().to_string()
}

#[test]
fn same_variable_resolves_to_same_address() {
    let code = "WRITE_VAR x\nWRITE_VAR y\nREAD_VAR x\nWRITE_VAR x\nREAD_VAR y\nWRITE_VAR z";
    assert_eq!(
        listing(code),
        "0x02 0x00 0x02 0x01 0x03 0x00 0x02 0x00 0x03 0x01 0x02 0x02"
    );
    assert_eq!(ByteCode::do_transpile(code).unwrap().get_data_size(), 3);
}

#[test]
fn assembling_twice_gives_the_same_program() {
    let code = "LOAD_VAL 3\nWRITE_VAR a\n&top\nREAD_VAR a\nDUP\nGOTO &top";
    assert_eq!(ByteCode::do_transpile(code), ByteCode::do_transpile(code));
}

#[test]
fn running_twice_gives_the_same_result() {
    let program = ByteCode::do_transpile("LOAD_VAL 6\nLOAD_VAL 7\nMULTIPLY\nRETURN_VALUE").unwrap();
    let mut first = Interpreter::new(program.clone());
    let mut second = Interpreter::new(program);
    assert_eq!(first.interpret(), Ok(Some(42)));
    assert_eq!(second.interpret(), Ok(Some(42)));
    assert_eq!(first.interpret(), Ok(Some(42)));
}

#[test]
fn goto_jumps_to_the_instruction_after_its_label() {
    assert_eq!(listing("ADD\nPOP\n&here\nDUP\nGOTO &here"), "0x04 0x0C 0x0B 0x0A 0x02");
}

#[test]
fn goto_to_a_later_label_is_undeclared() {
    assert_eq!(
        assemble_err("GOTO &later\n&later\nADD"),
        "Transpilation error at line 1: undeclared label `&later`"
    );
}

#[test]
fn arity_errors_report_the_count_seen() {
    assert_eq!(
        assemble_err("READ_VAR"),
        "Transpilation error at line 1: expected 1 argument, got 0"
    );
    assert_eq!(
        assemble_err("LOAD_VAL 1 2 3"),
        "Transpilation error at line 1: expected 1 argument, got 3"
    );
    assert_eq!(
        assemble_err("POP a b"),
        "Transpilation error at line 1: expected 0 arguments, got 2"
    );
}

#[test]
fn blank_lines_only_is_an_empty_program() {
    assert_eq!(
        interpret("\n\n   \n").map_err(|e| e.to_string()),
        Err("Empty program".to_string())
    );
    assert_eq!(
        interpret("&only_a_label\n").map_err(|e| e.to_string()),
        Err("Empty program".to_string())
    );
}

#[test]
fn blank_lines_still_count_for_line_numbers() {
    assert_eq!(
        assemble_err("ADD\n\n  \nREAD_VAR q"),
        "Transpilation error at line 4: undeclared variable q"
    );
}

#[test]
fn arithmetic_wraps_around() {
    assert_eq!(interpret("LOAD_VAL 65535\nLOAD_VAL 1\nADD\nRETURN_VALUE"), Ok(Some(0)));
    assert_eq!(interpret("LOAD_VAL 256\nLOAD_VAL 257\nMULTIPLY\nRETURN_VALUE"), Ok(Some(256)));
}

#[test]
fn comparisons_put_the_top_value_on_the_left() {
    assert_eq!(interpret("LOAD_VAL 1\nLOAD_VAL 2\nTEST_GT\nRETURN_VALUE"), Ok(Some(1)));
    assert_eq!(interpret("LOAD_VAL 1\nLOAD_VAL 2\nTEST_LT\nRETURN_VALUE"), Ok(Some(0)));
    assert_eq!(interpret("LOAD_VAL 2\nLOAD_VAL 2\nTEST_EQ\nRETURN_VALUE"), Ok(Some(1)));
}

#[test]
fn goto_on_zero_falls_through() {
    assert_eq!(
        interpret("LOAD_VAL 0\n&l\nLOAD_VAL 0\nGOTO &l\nLOAD_VAL 9\nRETURN_VALUE"),
        Ok(Some(9))
    );
}

#[test]
fn number_literals() {
    assert_eq!(listing("LOAD_VAL +7"), "0x01 0x07");
    assert_eq!(listing("LOAD_VAL 65535"), "0x01 0xffff");
    assert_eq!(
        assemble_err("LOAD_VAL 65536"),
        "Transpilation error at line 1: Error on line 1: number too large to fit in target type"
    );
    assert_eq!(
        assemble_err("ADD\nLOAD_VAL -1"),
        "Transpilation error at line 2: Error on line 2: invalid digit found in string"
    );
}

#[test]
fn name_syntax_comes_from_the_patterns() {
    assert!(Context::is_variable("_a1"));
    assert!(Context::is_variable("x"));
    assert!(!Context::is_variable("1a"));
    assert!(!Context::is_variable(".x"));
    assert!(Context::is_label("&top"));
    assert!(Context::is_label("&1"));
    assert!(!Context::is_label("top"));
    assert!(!Context::is_label("&"));
    assert_eq!(
        assemble_err("GOTO top"),
        "Transpilation error at line 1: invalid label name `top`"
    );
}

#[test]
fn resolve_follows_the_given_name_check() {
    let mut ctx = Context::new();
    let words = vec!["WRITE_VAR".to_string(), "x".to_string()];
    assert_eq!(
        Instruction::resolve(&mut ctx, words.clone(), false),
        Err(ParseError::InvalidVariableName("x".to_string()))
    );
    assert_eq!(ctx.data_size(), 0);
    let r = Instruction::resolve(&mut ctx, words, true).unwrap();
    assert_eq!(r.to_string(), "0x02 0x00");
    assert_eq!(ctx.data_size(), 1);
    assert_eq!(ctx.instruction_count(), 1);
    let label = vec!["&x".to_string()];
    assert_eq!(
        Instruction::resolve(&mut ctx, label.clone(), false),
        Err(ParseError::UnknownInstruction("&x".to_string()))
    );
    assert_eq!(
        Instruction::resolve(&mut ctx, label.clone(), true),
        Ok(Instruction { opcode: None, args: None })
    );
    assert_eq!(ctx.get_label("&x"), 1);
    assert_eq!(
        Instruction::resolve(&mut ctx, label, true),
        Err(ParseError::DuplicatedLabel("&x".to_string()))
    );
}

#[test]
fn context_tables() {
    let mut ctx = Context::new();
    assert!(!ctx.has_var("a"));
    assert_eq!(ctx.add_var("a"), 0);
    assert_eq!(ctx.add_var("b"), 1);
    assert_eq!(ctx.get_var("b"), Some(1));
    assert_eq!(ctx.get_var("c"), None);
    assert!(ctx.has_var("a"));
    ctx.add_label("&l", 4);
    assert!(ctx.has_label("&l"));
    assert_eq!(ctx.get_label("&l"), 4);
    ctx.set_args(vec!["p".to_string(), "q".to_string()]);
    assert_eq!(ctx.args_len(), 2);
    assert_eq!(ctx.get_arg(1), Some(&"q".to_string()));
    assert_eq!(ctx.get_arg(2), None);
    assert_eq!(ctx.data_size(), 2);
}

#[test]
fn run_stops_after_the_steps_given() {
    let program = ByteCode::do_transpile("&l\nLOAD_VAL 1\nGOTO &l").unwrap();
    let interpreter = Interpreter::new(program);
    assert_eq!(interpreter.run(5), Err(RuntimeError::OutOfSteps { ip: 1 }));
    assert_eq!(
        RuntimeError::OutOfSteps { ip: 1 }.to_string(),
        "Runtime error: step limit reached, ip = 0x01"
    );
}

#[test]
fn runtime_error_texts() {
    assert_eq!(
        RuntimeError::InvalidAddress { ip: 0x1f, address: 0x1ab }.to_string(),
        "Runtime error: unable to process current instruction, ip = 0x1f: invalid variable address 0x1ab"
    );
    assert_eq!(
        RuntimeError::EmptyOpcode.to_string(),
        "Invalid instruction: empty opcode"
    );
    assert_eq!(
        RuntimeError::WrongArgCount { op: OpCodes::GOTO, got: 3 }.to_string(),
        "Invalid GOTO instruction: expected 1 argument, got 3"
    );
}

#[test]
fn transpile_refuses_empty_text() {
    assert_eq!(ByteCode::transpile(""), Err(AssemblyError::EmptyFile));
    assert_eq!(ByteCode::transpile("\n"), Err(AssemblyError::EmptyProgram));
}

#[test]
fn assembly_error_texts() {
    assert_eq!(
        assemble_err("ADD\nTEST_EQ\n&a\n&a"),
        "Transpilation error at line 4: duplicated label: &a"
    );
    assert_eq!(assemble_err("JUMP"), "Transpilation error at line 1: unknown instruction: JUMP");
}

#[test]
fn text_helpers() {
    assert_eq!(split_words("  a\tbb  c \u{3000}d"), vec!["a", "bb", "c", "d"]);
    assert_eq!(split_words(" \n "), Vec::<String>::new());
    assert_eq!(split_lines("a\n\nb\n"), vec!["a", "", "b"]);
    assert_eq!(split_lines("x"), vec!["x"]);
    assert_eq!(parse_value_str("0042"), Ok(42));
    assert_eq!(parse_value_str(""), Err(IntErrorKind::Empty));
    assert_eq!(parse_value_str("+"), Err(IntErrorKind::InvalidDigit));
    assert_eq!(parse_value_str("99999x"), Err(IntErrorKind::PosOverflow));
    assert_eq!(decimal_string(1207), "1207");
    assert_eq!(hex2_string(10), "0a");
    assert_eq!(hex2_string(700), "2bc");
}

#[test]
fn opcode_encoding() {
    assert_eq!(OpCodes::LOAD.code(), 0x01);
    assert_eq!(OpCodes::GOTO.code(), 0x0A);
    assert_eq!(OpCodes::POP.code(), 0x0C);
    assert_eq!(OpCodes::GOTO.arity(), 1);
    assert_eq!(OpCodes::DUP.arity(), 0);
}
