//! A toy stack-machine language: an assembler from line-oriented source text
//! to resolved bytecode, and an interpreter that runs that bytecode.
use vstd::prelude::*;

pub mod bytecode;
pub mod config;
pub mod interpreter;
pub mod text;

use bytecode::{assemble, AssemblyError, AssemblyFault, ByteCode};
use config::Value;
use interpreter::interpreter::{initial_state, run, RuntimeError};

verus! {

/// Why a source text gave no result: it could not be assembled, or its run failed.
#[derive(Debug, Clone, PartialEq, Eq)]
pub enum InterpretError {
    Assembly(AssemblyError),
    Runtime(RuntimeError),
}

impl InterpretError {
    pub open spec fn spec_message(&self) -> Seq<char> {
        match self {
            InterpretError::Assembly(e) => e@.spec_message(),
            InterpretError::Runtime(e) => e.spec_message(),
        }
    }

    /// The text that describes this error.
    pub fn to_string(&self) -> (r: String)
        ensures
            r@ == self.spec_message(),
    {
        match self {
            InterpretError::Assembly(e) => e.to_string(),
            InterpretError::Runtime(e) => e.to_string(),
        }
    }
}

/// What assembling and then running the source text `src` gives.
pub open spec fn interpreted_as(src: Seq<char>, r: Result<Option<Value>, InterpretError>) -> bool {
    let assembled = if src.len() == 0 {
        Err(AssemblyFault::EmptyFile)
    } else {
        assemble(src)
    };
    match assembled {
        Err(e) => r matches Err(InterpretError::Assembly(x)) && x@ == e,
        Ok(p) => match run(p.instructions, initial_state(p.data_size), u64::MAX as nat) {
            Ok(v) => r == Ok::<Option<Value>, InterpretError>(v),
            Err(e) => r == Err::<Option<Value>, InterpretError>(InterpretError::Runtime(e)),
        },
    }
}

/// Assembles the source text `source` and runs the program.
pub fn interpret(source: &str) -> (r: Result<Option<Value>, InterpretError>)
    ensures
        interpreted_as(source@, r),
{
    let bytecode = match ByteCode::transpile(source) {
        Ok(b) => b,
        Err(e) => return Err(InterpretError::Assembly(e)),
    };
    match interpreter::interpret(bytecode) {
        Ok(v) => Ok(v),
        Err(e) => Err(InterpretError::Runtime(e)),
    }
}

} // verus!
