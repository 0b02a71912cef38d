//! The machine state, the effect of each operation on it, and the run loop.
use vstd::prelude::*;

use crate::bytecode::instruction::{Instr, Instruction};
use crate::bytecode::ByteCode;
use crate::config::{spec_arity, spec_name, OpCodes, Value};
use crate::text::{decimal, hex2};

verus! {

/// Why a run stopped short of a result.
#[derive(Debug, Clone, Copy, PartialEq, Eq, Structural)]
pub enum RuntimeError {
    /// The instruction at the pointer has no operation.
    EmptyOpcode,
    /// An operation that takes one argument came without arguments.
    MissingArgs(OpCodes),
    /// An operation that takes one argument came with `got` of them.
    WrongArgCount { op: OpCodes, got: usize },
    /// An operation that takes no argument came with arguments.
    UnexpectedArgs(OpCodes),
    /// A value was needed from an empty stack.
    StackUnderflow { ip: usize },
    /// A variable address beyond the variable slots.
    InvalidAddress { ip: usize, address: Value },
    /// The run used up the steps it was given.
    OutOfSteps { ip: usize },
}

pub open spec fn unable(ip: usize) -> Seq<char> {
    "Runtime error: unable to process current instruction, ip = 0x"@ + hex2(ip as nat)
}

impl RuntimeError {
    pub open spec fn spec_message(self) -> Seq<char> {
        match self {
            RuntimeError::EmptyOpcode => "Invalid instruction: empty opcode"@,
            RuntimeError::MissingArgs(op) => "Invalid "@ + spec_name(op) + " instruction: empty args"@,
            RuntimeError::WrongArgCount { op, got } => "Invalid "@ + spec_name(op)
                + " instruction: expected 1 argument, got "@ + decimal(got as nat),
            RuntimeError::UnexpectedArgs(op) => "Invalid "@ + spec_name(op)
                + " instruction: unexpected args"@,
            RuntimeError::StackUnderflow { ip } => unable(ip) + ": no value on stack"@,
            RuntimeError::InvalidAddress { ip, address } => unable(ip)
                + ": invalid variable address 0x"@ + hex2(address as nat),
            RuntimeError::OutOfSteps { ip } => "Runtime error: step limit reached, ip = 0x"@ + hex2(
                ip as nat,
            ),
        }
    }

    fn unable_text(ip: usize) -> (r: String)
        ensures
            r@ == unable(ip),
    {
        let mut s = "Runtime error: unable to process current instruction, ip = 0x".to_owned();
        s.append(crate::text::hex2_string(ip).as_str());
        s
    }

    /// The text that describes this error.
    pub fn to_string(&self) -> (r: String)
        ensures
            r@ == self.spec_message(),
    {
        match self {
            RuntimeError::EmptyOpcode => "Invalid instruction: empty opcode".to_owned(),
            RuntimeError::MissingArgs(op) => {
                let mut s = "Invalid ".to_owned();
                s.append(op.name());
                s.append(" instruction: empty args");
                s
            },
            RuntimeError::WrongArgCount { op, got } => {
                let mut s = "Invalid ".to_owned();
                s.append(op.name());
                s.append(" instruction: expected 1 argument, got ");
                s.append(crate::text::decimal_string(*got).as_str());
                s
            },
            RuntimeError::UnexpectedArgs(op) => {
                let mut s = "Invalid ".to_owned();
                s.append(op.name());
                s.append(" instruction: unexpected args");
                s
            },
            RuntimeError::StackUnderflow { ip } => {
                let mut s = Self::unable_text(*ip);
                s.append(": no value on stack");
                s
            },
            RuntimeError::InvalidAddress { ip, address } => {
                let mut s = Self::unable_text(*ip);
                s.append(": invalid variable address 0x");
                s.append(crate::text::hex2_string(*address as usize).as_str());
                s
            },
            RuntimeError::OutOfSteps { ip } => {
                let mut s = "Runtime error: step limit reached, ip = 0x".to_owned();
                s.append(crate::text::hex2_string(*ip).as_str());
                s
            },
        }
    }
}

/// The mathematical content of the machine state.
pub struct MachineState {
    pub stack: Seq<Value>,
    pub vars: Seq<Value>,
    pub ip: nat,
}

/// The state a run starts in: an empty stack, `data_size` zeroed variables,
/// and the pointer at the first instruction.
pub open spec fn initial_state(data_size: nat) -> MachineState {
    MachineState { stack: seq![], vars: Seq::new(data_size, |i: int| 0 as Value), ip: 0 }
}

/// Takes the top value off the stack.
pub open spec fn pop(s: MachineState) -> Result<(Value, MachineState), RuntimeError> {
    if s.stack.len() == 0 {
        Err(RuntimeError::StackUnderflow { ip: s.ip as usize })
    } else {
        Ok((s.stack.last(), MachineState { stack: s.stack.drop_last(), ..s }))
    }
}

pub open spec fn push(s: MachineState, v: Value) -> MachineState {
    MachineState { stack: s.stack.push(v), ..s }
}

pub open spec fn advance(s: MachineState) -> MachineState {
    MachineState { ip: s.ip + 1, ..s }
}

/// What a two-operand operation makes of `v1`, the value that was on top,
/// and `v2`, the one below it.
pub open spec fn combine(op: OpCodes, v1: Value, v2: Value) -> Value {
    match op {
        OpCodes::ADD => ((v1 + v2) % 0x10000) as Value,
        OpCodes::MULT => ((v1 * v2) % 0x10000) as Value,
        OpCodes::TEGT => if v1 > v2 {
            1
        } else {
            0
        },
        OpCodes::TELT => if v1 < v2 {
            1
        } else {
            0
        },
        _ => if v1 == v2 {
            1
        } else {
            0
        },
    }
}

/// Whether `args` has the shape that operation `op` takes, and if not, the error.
pub open spec fn shape_error(op: OpCodes, args: Option<Seq<Value>>) -> Option<RuntimeError> {
    if spec_arity(op) == 1 {
        match args {
            None => Some(RuntimeError::MissingArgs(op)),
            Some(a) => if a.len() != 1 {
                Some(RuntimeError::WrongArgCount { op, got: a.len() as usize })
            } else {
                None
            },
        }
    } else if args is Some {
        Some(RuntimeError::UnexpectedArgs(op))
    } else {
        None
    }
}

/// The effect of operation `op` with arguments of its shape on state `s`.
/// `RTN` leaves the state as it is: the run loop takes the result.
pub open spec fn apply(op: OpCodes, args: Option<Seq<Value>>, s: MachineState) -> Result<
    MachineState,
    RuntimeError,
> {
    let arg = args.unwrap()[0];
    match op {
        OpCodes::LOAD => Ok(advance(push(s, arg))),
        OpCodes::WRT => match pop(s) {
            Err(e) => Err(e),
            Ok((v, s1)) => if arg >= s1.vars.len() {
                Err(RuntimeError::InvalidAddress { ip: s.ip as usize, address: arg })
            } else {
                Ok(advance(MachineState { vars: s1.vars.update(arg as int, v), ..s1 }))
            },
        },
        OpCodes::READ => if arg >= s.vars.len() {
            Err(RuntimeError::InvalidAddress { ip: s.ip as usize, address: arg })
        } else {
            Ok(advance(push(s, s.vars[arg as int])))
        },
        OpCodes::ADD | OpCodes::MULT | OpCodes::TEGT | OpCodes::TELT | OpCodes::TEEQ => match pop(
            s,
        ) {
            Err(e) => Err(e),
            Ok((v1, s1)) => match pop(s1) {
                Err(e) => Err(e),
                Ok((v2, s2)) => Ok(advance(push(s2, combine(op, v1, v2)))),
            },
        },
        OpCodes::GOTO => match pop(s) {
            Err(e) => Err(e),
            Ok((v, s1)) => if v == 0 {
                Ok(advance(s1))
            } else {
                Ok(MachineState { ip: arg as nat, ..s1 })
            },
        },
        OpCodes::DUP => match pop(s) {
            Err(e) => Err(e),
            Ok((v, s1)) => Ok(advance(push(push(s1, v), v))),
        },
        OpCodes::POP => match pop(s) {
            Err(e) => Err(e),
            Ok((_, s1)) => Ok(advance(s1)),
        },
        OpCodes::RTN => Ok(s),
    }
}

/// Checking the shape of `args` for `op`, then applying `op`.
pub open spec fn visit(op: OpCodes, args: Option<Seq<Value>>, s: MachineState) -> Result<
    MachineState,
    RuntimeError,
> {
    match shape_error(op, args) {
        Some(e) => Err(e),
        None => apply(op, args, s),
    }
}

/// Where one step of a run leads.
pub enum Step {
    /// On to this state.
    Next(MachineState),
    /// The run ends, with this result.
    Halt(Option<Value>),
}

/// One step of program `prog` from state `s`.
pub open spec fn step(prog: Seq<Instr>, s: MachineState) -> Result<Step, RuntimeError> {
    if s.ip >= prog.len() {
        Ok(Step::Halt(None))
    } else {
        match prog[s.ip as int].opcode {
            None => Err(RuntimeError::EmptyOpcode),
            Some(op) => match visit(op, prog[s.ip as int].args, s) {
                Err(e) => Err(e),
                Ok(s1) => if op == OpCodes::RTN {
                    match pop(s1) {
                        Err(e) => Err(e),
                        Ok((v, _)) => Ok(Step::Halt(Some(v))),
                    }
                } else {
                    Ok(Step::Next(s1))
                },
            },
        }
    }
}

/// Running program `prog` from state `s` for at most `fuel` steps.
pub open spec fn run(prog: Seq<Instr>, s: MachineState, fuel: nat) -> Result<
    Option<Value>,
    RuntimeError,
>
    decreases fuel,
{
    if fuel == 0 {
        Err(RuntimeError::OutOfSteps { ip: s.ip as usize })
    } else {
        match step(prog, s) {
            Err(e) => Err(e),
            Ok(Step::Halt(r)) => Ok(r),
            Ok(Step::Next(s1)) => run(prog, s1, (fuel - 1) as nat),
        }
    }
}

/// The operand stack, the variable slots and the instruction pointer of a run.
#[derive(Debug, Clone)]
pub struct InterpreterState {
    pub stack: Vec<Value>,
    pub vars: Vec<Value>,
    pub ip: usize,
}

impl View for InterpreterState {
    type V = MachineState;

    open spec fn view(&self) -> MachineState {
        MachineState { stack: self.stack@, vars: self.vars@, ip: self.ip as nat }
    }
}

impl InterpreterState {
    pub fn new(data_size: usize) -> (r: InterpreterState)
        ensures
            r@ == initial_state(data_size as nat),
    {
        let mut vars: Vec<Value> = Vec::new();
        let mut i: usize = 0;
        while i < data_size
            invariant
                i <= data_size,
                vars@ == Seq::new(i as nat, |j: int| 0 as Value),
            decreases data_size - i,
        {
            vars.push(0);
            i = i + 1;
            assert(vars@ =~= Seq::new(i as nat, |j: int| 0 as Value));
        }
        let r = InterpreterState { stack: Vec::new(), vars, ip: 0 };
        assert(r@.stack =~= Seq::<Value>::empty());
        r
    }

    pub fn get_ip(&self) -> (r: usize)
        ensures
            r == self.ip,
    {
        self.ip
    }

    pub fn set_ip(&mut self, ip: Value)
        ensures
            final(self)@ == (MachineState { ip: ip as nat, ..old(self)@ }),
    {
        self.ip = ip as usize;
    }

    /// Moves the pointer to the next instruction.
    pub fn next(&mut self)
        requires
            old(self).ip < usize::MAX,
        ensures
            final(self)@ == advance(old(self)@),
    {
        self.ip = self.ip + 1;
    }

    pub fn pop_value(&mut self) -> (r: Result<Value, RuntimeError>)
        ensures
            match pop(old(self)@) {
                Ok((v, s)) => r == Ok::<Value, RuntimeError>(v) && final(self)@ == s,
                Err(e) => r == Err::<Value, RuntimeError>(e) && final(self)@ == old(self)@,
            },
    {
        match self.stack.pop() {
            Some(v) => Ok(v),
            None => Err(RuntimeError::StackUnderflow { ip: self.ip }),
        }
    }

    pub fn push_value(&mut self, v: Value)
        ensures
            final(self)@ == push(old(self)@, v),
    {
        self.stack.push(v);
    }

    /// Stores `value` in the variable at `address`.
    pub fn add_var(&mut self, address: Value, value: Value) -> (r: Result<(), RuntimeError>)
        ensures
            if address >= old(self)@.vars.len() {
                r == Err::<(), RuntimeError>(
                    RuntimeError::InvalidAddress { ip: old(self).ip, address },
                ) && final(self)@ == old(self)@
            } else {
                r is Ok && final(self)@ == (MachineState {
                    vars: old(self)@.vars.update(address as int, value),
                    ..old(self)@
                })
            },
    {
        if address as usize >= self.vars.len() {
            return Err(RuntimeError::InvalidAddress { ip: self.ip, address });
        }
        self.vars.set(address as usize, value);
        Ok(())
    }

    /// The value of the variable at `address`.
    pub fn read_var(&self, address: Value) -> (r: Result<Value, RuntimeError>)
        ensures
            if address >= self@.vars.len() {
                r == Err::<Value, RuntimeError>(RuntimeError::InvalidAddress { ip: self.ip, address })
            } else {
                r == Ok::<Value, RuntimeError>(self@.vars[address as int])
            },
    {
        if address as usize >= self.vars.len() {
            return Err(RuntimeError::InvalidAddress { ip: self.ip, address });
        }
        Ok(self.vars[address as usize])
    }
}

/// The result of applying an operation agrees with `visit`.
pub open spec fn visited_as(
    spec: Result<MachineState, RuntimeError>,
    r: Result<(), RuntimeError>,
    after: MachineState,
) -> bool {
    match spec {
        Ok(s) => r is Ok && after == s,
        Err(e) => r == Err::<(), RuntimeError>(e),
    }
}

/// What a two-operand operation makes of its operands.
fn combine_values(op: OpCodes, v1: Value, v2: Value) -> (r: Value)
    ensures
        r == combine(op, v1, v2),
{
    match op {
        OpCodes::ADD => v1.wrapping_add(v2),
        OpCodes::MULT => v1.wrapping_mul(v2),
        OpCodes::TEGT => if v1 > v2 {
            1
        } else {
            0
        },
        OpCodes::TELT => if v1 < v2 {
            1
        } else {
            0
        },
        _ => if v1 == v2 {
            1
        } else {
            0
        },
    }
}

impl Instruction {
    /// Checks that the arguments have the shape operation `op` takes.
    fn check_shape(&self, op: OpCodes) -> (r: Result<(), RuntimeError>)
        ensures
            match shape_error(op, self@.args) {
                Some(e) => r == Err::<(), RuntimeError>(e),
                None => r is Ok,
            },
    {
        match &self.args {
            None => if op.arity() == 1 {
                Err(RuntimeError::MissingArgs(op))
            } else {
                Ok(())
            },
            Some(a) => if op.arity() == 1 {
                if a.len() != 1 {
                    Err(RuntimeError::WrongArgCount { op, got: a.len() })
                } else {
                    Ok(())
                }
            } else {
                Err(RuntimeError::UnexpectedArgs(op))
            },
        }
    }

    /// The one argument of an instruction that has one.
    fn single_arg(&self) -> (r: Value)
        requires
            self@.args matches Some(a) && a.len() == 1,
        ensures
            r == self@.args.unwrap()[0],
    {
        match &self.args {
            Some(a) => a[0],
            None => 0,
        }
    }

    fn visit_binary(&self, op: OpCodes, ctx: &mut InterpreterState) -> (r: Result<(), RuntimeError>)
        requires
            op == OpCodes::ADD || op == OpCodes::MULT || op == OpCodes::TEGT || op == OpCodes::TELT
                || op == OpCodes::TEEQ,
            old(ctx).ip < usize::MAX,
        ensures
            visited_as(visit(op, self@.args, old(ctx)@), r, final(ctx)@),
    {
        if let Err(e) = self.check_shape(op) {
            return Err(e);
        }
        let v1 = match ctx.pop_value() {
            Ok(v) => v,
            Err(e) => return Err(e),
        };
        let v2 = match ctx.pop_value() {
            Ok(v) => v,
            Err(e) => return Err(e),
        };
        ctx.push_value(combine_values(op, v1, v2));
        ctx.next();
        Ok(())
    }

    pub fn visit_load(&self, ctx: &mut InterpreterState) -> (r: Result<(), RuntimeError>)
        requires
            old(ctx).ip < usize::MAX,
        ensures
            visited_as(visit(OpCodes::LOAD, self@.args, old(ctx)@), r, final(ctx)@),
    {
        if let Err(e) = self.check_shape(OpCodes::LOAD) {
            return Err(e);
        }
        ctx.push_value(self.single_arg());
        ctx.next();
        Ok(())
    }

    pub fn visit_wrt(&self, ctx: &mut InterpreterState) -> (r: Result<(), RuntimeError>)
        requires
            old(ctx).ip < usize::MAX,
        ensures
            visited_as(visit(OpCodes::WRT, self@.args, old(ctx)@), r, final(ctx)@),
    {
        if let Err(e) = self.check_shape(OpCodes::WRT) {
            return Err(e);
        }
        let value = match ctx.pop_value() {
            Ok(v) => v,
            Err(e) => return Err(e),
        };
        if let Err(e) = ctx.add_var(self.single_arg(), value) {
            return Err(e);
        }
        ctx.next();
        Ok(())
    }

    pub fn visit_read(&self, ctx: &mut InterpreterState) -> (r: Result<(), RuntimeError>)
        requires
            old(ctx).ip < usize::MAX,
        ensures
            visited_as(visit(OpCodes::READ, self@.args, old(ctx)@), r, final(ctx)@),
    {
        if let Err(e) = self.check_shape(OpCodes::READ) {
            return Err(e);
        }
        let value = match ctx.read_var(self.single_arg()) {
            Ok(v) => v,
            Err(e) => return Err(e),
        };
        ctx.push_value(value);
        ctx.next();
        Ok(())
    }

    pub fn visit_add(&self, ctx: &mut InterpreterState) -> (r: Result<(), RuntimeError>)
        requires
            old(ctx).ip < usize::MAX,
        ensures
            visited_as(visit(OpCodes::ADD, self@.args, old(ctx)@), r, final(ctx)@),
    {
        self.visit_binary(OpCodes::ADD, ctx)
    }

    pub fn visit_mult(&self, ctx: &mut InterpreterState) -> (r: Result<(), RuntimeError>)
        requires
            old(ctx).ip < usize::MAX,
        ensures
            visited_as(visit(OpCodes::MULT, self@.args, old(ctx)@), r, final(ctx)@),
    {
        self.visit_binary(OpCodes::MULT, ctx)
    }

    /// Checks the shape of a return; the run loop takes the value.
    pub fn visit_rtn(&self, ctx: &mut InterpreterState) -> (r: Result<(), RuntimeError>)
        ensures
            visited_as(visit(OpCodes::RTN, self@.args, old(ctx)@), r, final(ctx)@),
    {
        self.check_shape(OpCodes::RTN)
    }

    pub fn visit_test_eq(&self, ctx: &mut InterpreterState) -> (r: Result<(), RuntimeError>)
        requires
            old(ctx).ip < usize::MAX,
        ensures
            visited_as(visit(OpCodes::TEEQ, self@.args, old(ctx)@), r, final(ctx)@),
    {
        self.visit_binary(OpCodes::TEEQ, ctx)
    }

    pub fn visit_test_gt(&self, ctx: &mut InterpreterState) -> (r: Result<(), RuntimeError>)
        requires
            old(ctx).ip < usize::MAX,
        ensures
            visited_as(visit(OpCodes::TEGT, self@.args, old(ctx)@), r, final(ctx)@),
    {
        self.visit_binary(OpCodes::TEGT, ctx)
    }

    pub fn visit_test_lt(&self, ctx: &mut InterpreterState) -> (r: Result<(), RuntimeError>)
        requires
            old(ctx).ip < usize::MAX,
        ensures
            visited_as(visit(OpCodes::TELT, self@.args, old(ctx)@), r, final(ctx)@),
    {
        self.visit_binary(OpCodes::TELT, ctx)
    }

    pub fn visit_goto(&self, ctx: &mut InterpreterState) -> (r: Result<(), RuntimeError>)
        requires
            old(ctx).ip < usize::MAX,
        ensures
            visited_as(visit(OpCodes::GOTO, self@.args, old(ctx)@), r, final(ctx)@),
    {
        if let Err(e) = self.check_shape(OpCodes::GOTO) {
            return Err(e);
        }
        let v = match ctx.pop_value() {
            Ok(v) => v,
            Err(e) => return Err(e),
        };
        if v == 0 {
            ctx.next();
        } else {
            ctx.set_ip(self.single_arg());
        }
        Ok(())
    }

    pub fn visit_dup(&self, ctx: &mut InterpreterState) -> (r: Result<(), RuntimeError>)
        requires
            old(ctx).ip < usize::MAX,
        ensures
            visited_as(visit(OpCodes::DUP, self@.args, old(ctx)@), r, final(ctx)@),
    {
        if let Err(e) = self.check_shape(OpCodes::DUP) {
            return Err(e);
        }
        let v = match ctx.pop_value() {
            Ok(v) => v,
            Err(e) => return Err(e),
        };
        ctx.push_value(v);
        ctx.push_value(v);
        ctx.next();
        Ok(())
    }

    pub fn visit_pop(&self, ctx: &mut InterpreterState) -> (r: Result<(), RuntimeError>)
        requires
            old(ctx).ip < usize::MAX,
        ensures
            visited_as(visit(OpCodes::POP, self@.args, old(ctx)@), r, final(ctx)@),
    {
        if let Err(e) = self.check_shape(OpCodes::POP) {
            return Err(e);
        }
        if let Err(e) = ctx.pop_value() {
            return Err(e);
        }
        ctx.next();
        Ok(())
    }
}

/// Runs one resolved program.
#[derive(Debug, Clone)]
pub struct Interpreter {
    bytecode: ByteCode,
}

impl Interpreter {
    /// The program this interpreter runs.
    pub closed spec fn program(&self) -> ByteCode {
        self.bytecode
    }

    pub fn new(bytecode: ByteCode) -> (r: Interpreter)
        ensures
            r.program() == bytecode,
    {
        Interpreter { bytecode }
    }

    /// Runs the program from its first instruction until it returns a value,
    /// runs past its last instruction, or fails. The run is bounded by
    /// `u64::MAX` steps, which no program reaches in practice; a run that
    /// loops forever ends there with `OutOfSteps`.
    pub fn interpret(&mut self) -> (r: Result<Option<Value>, RuntimeError>)
        ensures
            final(self).program() == old(self).program(),
            r == run(
                old(self).program()@.instructions,
                initial_state(old(self).program()@.data_size),
                u64::MAX as nat,
            ),
    {
        self.run(u64::MAX)
    }

    /// Runs the program as `interpret` does, for at most `max_steps` steps.
    pub fn run(&self, max_steps: u64) -> (r: Result<Option<Value>, RuntimeError>)
        ensures
            r == run(
                self.program()@.instructions,
                initial_state(self.program()@.data_size),
                max_steps as nat,
            ),
    {
        let ghost prog = self.bytecode@.instructions;
        let mut state = InterpreterState::new(self.bytecode.get_data_size());
        let mut fuel: u64 = max_steps;
        loop
            invariant
                prog == self.bytecode@.instructions,
                run(prog, state@, fuel as nat) == run(
                    prog,
                    initial_state(self.bytecode@.data_size),
                    max_steps as nat,
                ),
            decreases fuel,
        {
            if fuel == 0 {
                return Err(RuntimeError::OutOfSteps { ip: state.ip });
            }
            let instruction = match self.bytecode.get_instruction(state.ip) {
                Some(i) => i,
                None => return Ok(None),
            };
            let op = match instruction.opcode {
                Some(op) => op,
                None => return Err(RuntimeError::EmptyOpcode),
            };
            let done = match op {
                OpCodes::LOAD => instruction.visit_load(&mut state),
                OpCodes::WRT => instruction.visit_wrt(&mut state),
                OpCodes::READ => instruction.visit_read(&mut state),
                OpCodes::ADD => instruction.visit_add(&mut state),
                OpCodes::MULT => instruction.visit_mult(&mut state),
                OpCodes::TEGT => instruction.visit_test_gt(&mut state),
                OpCodes::TELT => instruction.visit_test_lt(&mut state),
                OpCodes::TEEQ => instruction.visit_test_eq(&mut state),
                OpCodes::GOTO => instruction.visit_goto(&mut state),
                OpCodes::DUP => instruction.visit_dup(&mut state),
                OpCodes::POP => instruction.visit_pop(&mut state),
                OpCodes::RTN => {
                    if let Err(e) = instruction.visit_rtn(&mut state) {
                        return Err(e);
                    }
                    return match state.pop_value() {
                        Ok(v) => Ok(Some(v)),
                        Err(e) => Err(e),
                    };
                },
            };
            if let Err(e) = done {
                return Err(e);
            }
            fuel = fuel - 1;
        }
    }
}

/// Running one program twice gives the same result: every run starts from
/// a fresh state and depends on the program alone.
pub proof fn lemma_execution_deterministic(
    program: ByteCode,
    r1: Result<Option<Value>, RuntimeError>,
    r2: Result<Option<Value>, RuntimeError>,
)
    requires
        r1 == run(program@.instructions, initial_state(program@.data_size), u64::MAX as nat),
        r2 == run(program@.instructions, initial_state(program@.data_size), u64::MAX as nat),
    ensures
        r1 == r2,
{
}

} // verus!
