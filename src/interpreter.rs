//! Execution: running a resolved program on a stack machine.
use vstd::prelude::*;

pub mod interpreter;

use crate::bytecode::ByteCode;
use crate::config::Value;
use interpreter::{initial_state, run, Interpreter, RuntimeError};

verus! {

/// Runs `program` from its first instruction.
pub fn interpret(program: ByteCode) -> (r: Result<Option<Value>, RuntimeError>)
    ensures
        r == run(
            program@.instructions,
            initial_state(program@.data_size),
            u64::MAX as nat,
        ),
{
    let mut interpreter = Interpreter::new(program);
    interpreter.interpret()
}

} // verus!
