use morango::bytecode::instruction::Instruction;
use morango::config::{OpCodes, Value};
use morango::interpreter::interpreter::InterpreterState;

#[test]
fn test_interpret_load() {
    let value_to_load: Value = 0x1;
    let mut ctx = InterpreterState::new(0);
    let load_instr = Instruction {
        opcode: Some(OpCodes::LOAD),
        args: Some(vec![value_to_load]),
    };

    let result = load_instr.visit_load(&mut ctx);

    assert!(result.is_ok());
    let on_stack = ctx.pop_value();
    assert!(on_stack.is_ok());
    assert_eq!(on_stack.ok().unwrap(), value_to_load);
    assert_eq!(ctx.ip, 0x1);
}

#[test]
fn test_interpret_bad_load_empty_args() {
    let mut ctx = InterpreterState::new(0);
    let load_instr = Instruction {
        opcode: Some(OpCodes::LOAD),
        args: None,
    };

    let result = load_instr.visit_load(&mut ctx);
    assert_eq!(
        result.map_err(|e| e.to_string()),
        Err("Invalid LOAD instruction: empty args".to_string())
    );
}

#[test]
fn test_interpret_bad_load_excessive_args() {
    let mut ctx = InterpreterState::new(0);
    let load_instr = Instruction {
        opcode: Some(OpCodes::LOAD),
        args: Some(vec![0x1, 0x1]),
    };

    let result = load_instr.visit_load(&mut ctx);
    assert_eq!(
        result.map_err(|e| e.to_string()),
        Err("Invalid LOAD instruction: expected 1 argument, got 2".to_string())
    );
}

#[test]
fn test_interpret_wrt() {
    let value_to_load: Value = 0x2;
    let mut ctx = InterpreterState::new(1);
    ctx.push_value(value_to_load);

    let wrt_instr = Instruction {
        opcode: Some(OpCodes::WRT),
        args: Some(vec![0x0]),
    };

    let result = wrt_instr.visit_wrt(&mut ctx);
    assert!(result.is_ok());
    assert_eq!(ctx.vars.len(), 1);
    assert_eq!(ctx.vars[0], value_to_load);
    assert_eq!(ctx.ip, 0x1);
}

#[test]
fn test_interpret_bad_wrt_empty_args() {
    let mut ctx = InterpreterState::new(0);
    let wrt_instr = Instruction {
        opcode: Some(OpCodes::WRT),
        args: None,
    };

    let result = wrt_instr.visit_wrt(&mut ctx);
    assert_eq!(
        result.map_err(|e| e.to_string()),
        Err("Invalid WRT instruction: empty args".to_string())
    );
}

#[test]
fn test_interpret_bad_wrt_excessive_args() {
    let mut ctx = InterpreterState::new(0);
    let wrt_instr = Instruction {
        opcode: Some(OpCodes::WRT),
        args: Some(vec![0x1, 0x1]),
    };

    let result = wrt_instr.visit_wrt(&mut ctx);
    assert_eq!(
        result.map_err(|e| e.to_string()),
        Err("Invalid WRT instruction: expected 1 argument, got 2".to_string())
    );
}

#[test]
fn test_interpret_bad_wrt_empty_stack() {
    let mut ctx = InterpreterState::new(0);
    let wrt_instr = Instruction {
        opcode: Some(OpCodes::WRT),
        args: Some(vec![0x2]),
    };

    let result = wrt_instr.visit_wrt(&mut ctx);
    assert_eq!(
        result.map_err(|e| e.to_string()),
        Err("Runtime error: unable to process current instruction, ip = 0x00: no value on stack".to_string())
    );
}

#[test]
fn test_interpret_bad_wrt_empty_data() {
    let value_to_load: Value = 0x2;
    let mut ctx = InterpreterState::new(0);
    ctx.push_value(value_to_load);

    let wrt_instr = Instruction {
        opcode: Some(OpCodes::WRT),
        args: Some(vec![0x0]),
    };

    let result = wrt_instr.visit_wrt(&mut ctx);
    assert_eq!(
        result.map_err(|e| e.to_string()),
        Err(
            "Runtime error: unable to process current instruction, ip = 0x00: invalid variable address 0x00"
                .to_string(),
        )
    );
}

#[test]
fn test_interpret_read() {
    let value_to_load: Value = 0x2;
    let mut ctx = InterpreterState::new(1);
    ctx.vars[0] = value_to_load;

    let read_instr = Instruction {
        opcode: Some(OpCodes::READ),
        args: Some(vec![0x0]),
    };

    let result = read_instr.visit_read(&mut ctx);
    assert!(result.is_ok());
    let on_stack = ctx.pop_value();
    assert!(on_stack.is_ok());
    assert_eq!(on_stack.ok().unwrap(), value_to_load);
    assert_eq!(ctx.ip, 0x1);
}

#[test]
fn test_interpret_bad_read_empty_args() {
    let mut ctx = InterpreterState::new(0);
    let read_instr = Instruction {
        opcode: Some(OpCodes::READ),
        args: None,
    };

    let result = read_instr.visit_read(&mut ctx);
    assert_eq!(
        result.map_err(|e| e.to_string()),
        Err("Invalid READ instruction: empty args".to_string())
    );
}

#[test]
fn test_interpret_bad_read_excessive_args() {
    let mut ctx = InterpreterState::new(0);
    let read_instr = Instruction {
        opcode: Some(OpCodes::READ),
        args: Some(vec![0x1, 0x1]),
    };

    let result = read_instr.visit_read(&mut ctx);
    assert_eq!(
        result.map_err(|e| e.to_string()),
        Err("Invalid READ instruction: expected 1 argument, got 2".to_string())
    );
}

#[test]
fn test_interpret_bad_read_empty_data() {
    let mut ctx = InterpreterState::new(0);

    let read_instr = Instruction {
        opcode: Some(OpCodes::READ),
        args: Some(vec![0x0]),
    };

    let result = read_instr.visit_read(&mut ctx);
    assert_eq!(
        result.map_err(|e| e.to_string()),
        Err(
            "Runtime error: unable to process current instruction, ip = 0x00: invalid variable address 0x00"
                .to_string(),
        )
    );
}

#[test]
fn test_interpret_add() {
    let v1: Value = 0x1;
    let v2: Value = 0x2;
    let mut ctx = InterpreterState::new(0);
    ctx.push_value(v1);
    ctx.push_value(v2);

    let add_instr = Instruction {
        opcode: Some(OpCodes::ADD),
        args: None,
    };

    let result = add_instr.visit_add(&mut ctx);
    assert!(result.is_ok());
    let on_stack = ctx.pop_value();
    assert!(on_stack.is_ok());
    assert_eq!(on_stack.ok().unwrap(), v1 + v2);
    assert_eq!(ctx.ip, 0x1);
}

#[test]
fn test_interpret_bad_add_excessive_args() {
    let mut ctx = InterpreterState::new(0);
    let add_instr = Instruction {
        opcode: Some(OpCodes::ADD),
        args: Some(vec![0x1, 0x1]),
    };

    let result = add_instr.visit_add(&mut ctx);
    assert_eq!(
        result.map_err(|e| e.to_string()),
        Err("Invalid ADD instruction: unexpected args".to_string())
    );
}

#[test]
fn test_interpret_bad_add_empty_stack() {
    let mut ctx = InterpreterState::new(0);
    let add_instr = Instruction {
        opcode: Some(OpCodes::ADD),
        args: None,
    };

    let result = add_instr.visit_add(&mut ctx);
    assert_eq!(
        result.map_err(|e| e.to_string()),
        Err("Runtime error: unable to process current instruction, ip = 0x00: no value on stack".to_string())
    );
}

#[test]
fn test_interpret_mult() {
    let v1: Value = 0x1;
    let v2: Value = 0x2;
    let mut ctx = InterpreterState::new(0);
    ctx.push_value(v1);
    ctx.push_value(v2);

    let mult_instr = Instruction {
        opcode: Some(OpCodes::MULT),
        args: None,
    };

    let result = mult_instr.visit_mult(&mut ctx);
    assert!(result.is_ok());
    let on_stack = ctx.pop_value();
    assert!(on_stack.is_ok());
    assert_eq!(on_stack.ok().unwrap(), v1 * v2);
    assert_eq!(ctx.ip, 0x1);
}

#[test]
fn test_interpret_bad_mult_excessive_args() {
    let mut ctx = InterpreterState::new(0);
    let mult_instr = Instruction {
        opcode: Some(OpCodes::MULT),
        args: Some(vec![0x1, 0x1]),
    };

    let result = mult_instr.visit_mult(&mut ctx);
    assert_eq!(
        result.map_err(|e| e.to_string()),
        Err("Invalid MULT instruction: unexpected args".to_string())
    );
}

#[test]
fn test_interpret_bad_mult_empty_stack() {
    let mut ctx = InterpreterState::new(0);
    let mult_instr = Instruction {
        opcode: Some(OpCodes::MULT),
        args: None,
    };

    let result = mult_instr.visit_mult(&mut ctx);
    assert_eq!(
        result.map_err(|e| e.to_string()),
        Err("Runtime error: unable to process current instruction, ip = 0x00: no value on stack".to_string())
    );
}

#[test]
fn test_interpret_rtn() {
    let mut ctx = InterpreterState::new(0);

    let rtn_instr = Instruction {
        opcode: Some(OpCodes::RTN),
        args: None,
    };

    let result = rtn_instr.visit_rtn(&mut ctx);
    assert!(result.is_ok());
}

#[test]
fn test_interpret_bad_rtn_excessive_args() {
    let mut ctx = InterpreterState::new(0);
    let rtn_instr = Instruction {
        opcode: Some(OpCodes::RTN),
        args: Some(vec![0x1]),
    };

    let result = rtn_instr.visit_rtn(&mut ctx);
    assert_eq!(
        result.map_err(|e| e.to_string()),
        Err("Invalid RTN instruction: unexpected args".to_string())
    );
}

#[test]
fn test_interpret_tegt() {
    let v1: Value = 0x1;
    let v2: Value = 0x2;
    let mut ctx = InterpreterState::new(0);
    ctx.push_value(v1);
    ctx.push_value(v2);

    let tegt_instr = Instruction {
        opcode: Some(OpCodes::TEGT),
        args: None,
    };

    let result = tegt_instr.visit_test_gt(&mut ctx);
    assert!(result.is_ok());
    let on_stack = ctx.pop_value();
    assert!(on_stack.is_ok());
    assert_eq!(on_stack.ok().unwrap(), 0x1);
    assert_eq!(ctx.ip, 0x1);
}

#[test]
fn test_interpret_bad_tegt_excessive_args() {
    let mut ctx = InterpreterState::new(0);
    let tegt_instr = Instruction {
        opcode: Some(OpCodes::TEGT),
        args: Some(vec![0x1, 0x1]),
    };

    let result = tegt_instr.visit_test_gt(&mut ctx);
    assert_eq!(
        result.map_err(|e| e.to_string()),
        Err("Invalid TEGT instruction: unexpected args".to_string())
    );
}

#[test]
fn test_interpret_bad_tegt_empty_stack() {
    let mut ctx = InterpreterState::new(0);
    let tegt_instr = Instruction {
        opcode: Some(OpCodes::TEGT),
        args: None,
    };

    let result = tegt_instr.visit_test_gt(&mut ctx);
    assert_eq!(
        result.map_err(|e| e.to_string()),
        Err("Runtime error: unable to process current instruction, ip = 0x00: no value on stack".to_string())
    );
}

#[test]
fn test_interpret_telt() {
    let v1: Value = 0x1;
    let v2: Value = 0x2;
    let mut ctx = InterpreterState::new(0);
    ctx.push_value(v1);
    ctx.push_value(v2);

    let telt_instr = Instruction {
        opcode: Some(OpCodes::TELT),
        args: None,
    };

    let result = telt_instr.visit_test_lt(&mut ctx);
    assert!(result.is_ok());
    let on_stack = ctx.pop_value();
    assert!(on_stack.is_ok());
    assert_eq!(on_stack.ok().unwrap(), 0x0);
    assert_eq!(ctx.ip, 0x1);
}

#[test]
fn test_interpret_bad_telt_excessive_args() {
    let mut ctx = InterpreterState::new(0);
    let telt_instr = Instruction {
        opcode: Some(OpCodes::TELT),
        args: Some(vec![0x1, 0x1]),
    };

    let result = telt_instr.visit_test_lt(&mut ctx);
    assert_eq!(
        result.map_err(|e| e.to_string()),
        Err("Invalid TELT instruction: unexpected args".to_string())
    );
}

#[test]
fn test_interpret_bad_telt_empty_stack() {
    let mut ctx = InterpreterState::new(0);
    let telt_instr = Instruction {
        opcode: Some(OpCodes::TELT),
        args: None,
    };

    let result = telt_instr.visit_test_lt(&mut ctx);
    assert_eq!(
        result.map_err(|e| e.to_string()),
        Err("Runtime error: unable to process current instruction, ip = 0x00: no value on stack".to_string())
    );
}

#[test]
fn test_interpret_teeq() {
    let v1: Value = 0x1;
    let v2: Value = 0x1;
    let mut ctx = InterpreterState::new(0);
    ctx.push_value(v1);
    ctx.push_value(v2);

    let teeq_instr = Instruction {
        opcode: Some(OpCodes::TEEQ),
        args: None,
    };

    let result = teeq_instr.visit_test_eq(&mut ctx);
    assert!(result.is_ok());
    let on_stack = ctx.pop_value();
    assert!(on_stack.is_ok());
    assert_eq!(on_stack.ok().unwrap(), 0x1);
    assert_eq!(ctx.ip, 0x1);
}

#[test]
fn test_interpret_bad_teeq_excessive_args() {
    let mut ctx = InterpreterState::new(0);
    let teeq_instr = Instruction {
        opcode: Some(OpCodes::TEEQ),
        args: Some(vec![0x1, 0x1]),
    };

    let result = teeq_instr.visit_test_eq(&mut ctx);
    assert_eq!(
        result.map_err(|e| e.to_string()),
        Err("Invalid TEEQ instruction: unexpected args".to_string())
    );
}

#[test]
fn test_interpret_bad_teeq_empty_stack() {
    let mut ctx = InterpreterState::new(0);
    let teeq_instr = Instruction {
        opcode: Some(OpCodes::TEEQ),
        args: None,
    };

    let result = teeq_instr.visit_test_eq(&mut ctx);
    assert_eq!(
        result.map_err(|e| e.to_string()),
        Err("Runtime error: unable to process current instruction, ip = 0x00: no value on stack".to_string())
    );
}

#[test]
fn test_interpret_goto_false() {
    let desired_ip = 0x5;
    let mut ctx = InterpreterState::new(0);
    ctx.push_value(0x0);

    let goto_instr = Instruction {
        opcode: Some(OpCodes::GOTO),
        args: Some(vec![desired_ip]),
    };

    let result = goto_instr.visit_goto(&mut ctx);
    assert!(result.is_ok());
    assert_eq!(ctx.ip, 0x1);
}

#[test]
fn test_interpret_goto_true() {
    let desired_ip = 0x5;
    let mut ctx = InterpreterState::new(0);
    ctx.push_value(0x1);

    let goto_instr = Instruction {
        opcode: Some(OpCodes::GOTO),
        args: Some(vec![desired_ip]),
    };

    let result = goto_instr.visit_goto(&mut ctx);
    assert!(result.is_ok());
    assert_eq!(ctx.ip, desired_ip as usize);
}

#[test]
fn test_interpret_bad_goto_excessive_args() {
    let mut ctx = InterpreterState::new(0);
    let goto_instr = Instruction {
        opcode: Some(OpCodes::GOTO),
        args: Some(vec![0x1, 0x1]),
    };

    let result = goto_instr.visit_goto(&mut ctx);
    assert_eq!(
        result.map_err(|e| e.to_string()),
        Err("Invalid GOTO instruction: expected 1 argument, got 2".to_string())
    );
}

#[test]
fn test_interpret_bad_goto_empty_args() {
    let mut ctx = InterpreterState::new(0);
    let goto_instr = Instruction {
        opcode: Some(OpCodes::GOTO),
        args: None,
    };

    let result = goto_instr.visit_goto(&mut ctx);
    assert_eq!(
        result.map_err(|e| e.to_string()),
        Err("Invalid GOTO instruction: empty args".to_string())
    );
}

#[test]
fn test_interpret_bad_goto_empty_stack() {
    let mut ctx = InterpreterState::new(0);
    let goto_instr = Instruction {
        opcode: Some(OpCodes::GOTO),
        args: Some(vec![0x1]),
    };

    let result = goto_instr.visit_goto(&mut ctx);
    assert_eq!(
        result.map_err(|e| e.to_string()),
        Err("Runtime error: unable to process current instruction, ip = 0x00: no value on stack".to_string())
    );
}

#[test]
fn test_interpret_dup() {
    let v1: Value = 0x1;
    let mut ctx = InterpreterState::new(0);
    ctx.push_value(v1);

    let dup_instr = Instruction {
        opcode: Some(OpCodes::DUP),
        args: None,
    };

    let result = dup_instr.visit_dup(&mut ctx);
    assert!(result.is_ok());
    let on_stack_1 = ctx.pop_value();
    let on_stack_2 = ctx.pop_value();
    assert!(on_stack_1.is_ok());
    assert!(on_stack_2.is_ok());
    assert_eq!(on_stack_1.ok().unwrap(), 0x1);
    assert_eq!(on_stack_2.ok().unwrap(), 0x1);
    assert_eq!(ctx.ip, 0x1);
}

#[test]
fn test_interpret_bad_dup_excessive_args() {
    let mut ctx = InterpreterState::new(0);
    let dup_instr = Instruction {
        opcode: Some(OpCodes::DUP),
        args: Some(vec![0x1, 0x1]),
    };

    let result = dup_instr.visit_dup(&mut ctx);
    assert_eq!(
        result.map_err(|e| e.to_string()),
        Err("Invalid DUP instruction: unexpected args".to_string())
    );
}

#[test]
fn test_interpret_bad_dup_empty_stack() {
    let mut ctx = InterpreterState::new(0);
    let dup_instr = Instruction {
        opcode: Some(OpCodes::DUP),
        args: None,
    };

    let result = dup_instr.visit_dup(&mut ctx);
    assert_eq!(
        result.map_err(|e| e.to_string()),
        Err("Runtime error: unable to process current instruction, ip = 0x00: no value on stack".to_string())
    );
}

#[test]
fn test_interpret_pop() {
    let mut ctx = InterpreterState::new(0);
    ctx.push_value(0x2);

    let pop_instr = Instruction {
        opcode: Some(OpCodes::POP),
        args: None,
    };

    let result = pop_instr.visit_pop(&mut ctx);
    assert!(result.is_ok());
    let on_stack = ctx.pop_value();
    assert_eq!(on_stack.map_err(|e| e.to_string()), Err("Runtime error: unable to process current instruction, ip = 0x01: no value on stack".to_string()));
    assert_eq!(ctx.ip, 0x1);
}

#[test]
fn test_interpret_bad_pop_excessive_args() {
    let mut ctx = InterpreterState::new(0);
    let pop_instr = Instruction {
        opcode: Some(OpCodes::POP),
        args: Some(vec![0x1, 0x1]),
    };

    let result = pop_instr.visit_pop(&mut ctx);
    assert_eq!(
        result.map_err(|e| e.to_string()),
        Err("Invalid POP instruction: unexpected args".to_string())
    );
}

#[test]
fn test_interpret_bad_pop_empty_stack() {
    let mut ctx = InterpreterState::new(0);
    let pop_instr = Instruction {
        opcode: Some(OpCodes::POP),
        args: None,
    };

    let result = pop_instr.visit_pop(&mut ctx);
    assert_eq!(
        result.map_err(|e| e.to_string()),
        Err("Runtime error: unable to process current instruction, ip = 0x00: no value on stack".to_string())
    );
}
