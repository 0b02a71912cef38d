//! One source line resolved into one instruction.
use vstd::prelude::*;

use super::context::{is_label_name, is_variable_name, Context, SymbolTables};
use crate::config::{spec_arity, spec_code_text, OpCodes, Value, VALUE_MAX};
use crate::text::{decimal, hex2, parse_value, parse_value_str, split_words, views, words, IntErrorKind};

verus! {

/// An operation with its arguments. A line that only declares a label
/// resolves to an instruction with neither.
#[derive(Debug, Clone, PartialEq, Eq)]
pub struct Instruction {
    pub opcode: Option<OpCodes>,
    pub args: Option<Vec<Value>>,
}

/// The mathematical content of an instruction.
pub struct Instr {
    pub opcode: Option<OpCodes>,
    pub args: Option<Seq<Value>>,
}

impl View for Instruction {
    type V = Instr;

    open spec fn view(&self) -> Instr {
        Instr {
            opcode: self.opcode,
            args: match self.args {
                Some(a) => Some(a@),
                None => None,
            },
        }
    }
}

/// Why a line could not be resolved.
#[derive(Debug, Clone, PartialEq, Eq)]
pub enum ParseError {
    EmptyInstruction,
    WrongArgCount { expected: usize, got: usize },
    BadNumber { line: usize, kind: IntErrorKind },
    InvalidVariableName(String),
    UndeclaredVariable(String),
    InvalidLabelName(String),
    UndeclaredLabel(String),
    DuplicatedLabel(String),
    UnknownInstruction(String),
    TooManyVariables,
    TooManyInstructions,
}

/// The mathematical content of a `ParseError`.
pub enum ParseFault {
    EmptyInstruction,
    WrongArgCount { expected: usize, got: usize },
    BadNumber { line: usize, kind: IntErrorKind },
    InvalidVariableName(Seq<char>),
    UndeclaredVariable(Seq<char>),
    InvalidLabelName(Seq<char>),
    UndeclaredLabel(Seq<char>),
    DuplicatedLabel(Seq<char>),
    UnknownInstruction(Seq<char>),
    TooManyVariables,
    TooManyInstructions,
}

impl View for ParseError {
    type V = ParseFault;

    open spec fn view(&self) -> ParseFault {
        match self {
            ParseError::EmptyInstruction => ParseFault::EmptyInstruction,
            ParseError::WrongArgCount { expected, got } => ParseFault::WrongArgCount {
                expected: *expected,
                got: *got,
            },
            ParseError::BadNumber { line, kind } => ParseFault::BadNumber {
                line: *line,
                kind: *kind,
            },
            ParseError::InvalidVariableName(s) => ParseFault::InvalidVariableName(s@),
            ParseError::UndeclaredVariable(s) => ParseFault::UndeclaredVariable(s@),
            ParseError::InvalidLabelName(s) => ParseFault::InvalidLabelName(s@),
            ParseError::UndeclaredLabel(s) => ParseFault::UndeclaredLabel(s@),
            ParseError::DuplicatedLabel(s) => ParseFault::DuplicatedLabel(s@),
            ParseError::UnknownInstruction(s) => ParseFault::UnknownInstruction(s@),
            ParseError::TooManyVariables => ParseFault::TooManyVariables,
            ParseError::TooManyInstructions => ParseFault::TooManyInstructions,
        }
    }
}

impl ParseFault {
    pub open spec fn spec_message(self) -> Seq<char> {
        match self {
            ParseFault::EmptyInstruction => "Empty instruction"@,
            ParseFault::WrongArgCount { expected, got } => "expected "@ + decimal(expected as nat)
                + (if expected == 1 {
                " argument, got "@
            } else {
                " arguments, got "@
            }) + decimal(got as nat),
            ParseFault::BadNumber { line, kind } => "Error on line "@ + decimal(line as nat)
                + ": "@ + kind.spec_message(),
            ParseFault::InvalidVariableName(s) => "invalid variable name "@ + s,
            ParseFault::UndeclaredVariable(s) => "undeclared variable "@ + s,
            ParseFault::InvalidLabelName(s) => "invalid label name `"@ + s + "`"@,
            ParseFault::UndeclaredLabel(s) => "undeclared label `"@ + s + "`"@,
            ParseFault::DuplicatedLabel(s) => "duplicated label: "@ + s,
            ParseFault::UnknownInstruction(s) => "unknown instruction: "@ + s,
            ParseFault::TooManyVariables => "too many variables"@,
            ParseFault::TooManyInstructions => "too many instructions"@,
        }
    }
}

impl ParseError {
    /// The text that describes this error.
    pub fn message(&self) -> (r: String)
        ensures
            r@ == self@.spec_message(),
    {
        match self {
            ParseError::EmptyInstruction => "Empty instruction".to_owned(),
            ParseError::WrongArgCount { expected, got } => {
                let mut s = "expected ".to_owned();
                s.append(crate::text::decimal_string(*expected).as_str());
                if *expected == 1 {
                    s.append(" argument, got ");
                } else {
                    s.append(" arguments, got ");
                }
                s.append(crate::text::decimal_string(*got).as_str());
                s
            },
            ParseError::BadNumber { line, kind } => {
                let mut s = "Error on line ".to_owned();
                s.append(crate::text::decimal_string(*line).as_str());
                s.append(": ");
                s.append(kind.message().as_str());
                s
            },
            ParseError::InvalidVariableName(n) => {
                let mut s = "invalid variable name ".to_owned();
                s.append(n.as_str());
                s
            },
            ParseError::UndeclaredVariable(n) => {
                let mut s = "undeclared variable ".to_owned();
                s.append(n.as_str());
                s
            },
            ParseError::InvalidLabelName(n) => {
                let mut s = "invalid label name `".to_owned();
                s.append(n.as_str());
                s.append("`");
                s
            },
            ParseError::UndeclaredLabel(n) => {
                let mut s = "undeclared label `".to_owned();
                s.append(n.as_str());
                s.append("`");
                s
            },
            ParseError::DuplicatedLabel(n) => {
                let mut s = "duplicated label: ".to_owned();
                s.append(n.as_str());
                s
            },
            ParseError::UnknownInstruction(n) => {
                let mut s = "unknown instruction: ".to_owned();
                s.append(n.as_str());
                s
            },
            ParseError::TooManyVariables => "too many variables".to_owned(),
            ParseError::TooManyInstructions => "too many instructions".to_owned(),
        }
    }
}

/// The arguments of an instruction as written in a listing.
pub open spec fn args_text(a: Seq<Value>) -> Seq<char>
    decreases a.len(),
{
    if a.len() == 0 {
        seq![]
    } else {
        args_text(a.drop_last()) + " 0x"@ + hex2(a.last() as nat)
    }
}

/// An instruction as written in a listing: its encoded operation, then each
/// argument in hexadecimal.
pub open spec fn instr_text(i: Instr) -> Seq<char> {
    spec_code_text(i.opcode->Some_0) + match i.args {
        Some(a) => args_text(a),
        None => seq![],
    }
}

/// The operation a keyword names.
pub open spec fn keyword(t: Seq<char>) -> Option<OpCodes> {
    if t == "LOAD_VAL"@ {
        Some(OpCodes::LOAD)
    } else if t == "WRITE_VAR"@ {
        Some(OpCodes::WRT)
    } else if t == "READ_VAR"@ {
        Some(OpCodes::READ)
    } else if t == "ADD"@ {
        Some(OpCodes::ADD)
    } else if t == "MULTIPLY"@ {
        Some(OpCodes::MULT)
    } else if t == "RETURN_VALUE"@ {
        Some(OpCodes::RTN)
    } else if t == "GOTO"@ {
        Some(OpCodes::GOTO)
    } else if t == "TEST_EQ"@ {
        Some(OpCodes::TEEQ)
    } else if t == "TEST_GT"@ {
        Some(OpCodes::TEGT)
    } else if t == "TEST_LT"@ {
        Some(OpCodes::TELT)
    } else if t == "DUP"@ {
        Some(OpCodes::DUP)
    } else if t == "POP"@ {
        Some(OpCodes::POP)
    } else {
        None
    }
}

fn same(t: &String, k: &str) -> (r: bool)
    ensures
        r == (t@ == k@),
{
    *t == k.to_owned()
}

/// Looks up the operation that keyword `t` names.
pub fn keyword_opcode(t: &String) -> (r: Option<OpCodes>)
    ensures
        r == keyword(t@),
{
    if same(t, "LOAD_VAL") {
        Some(OpCodes::LOAD)
    } else if same(t, "WRITE_VAR") {
        Some(OpCodes::WRT)
    } else if same(t, "READ_VAR") {
        Some(OpCodes::READ)
    } else if same(t, "ADD") {
        Some(OpCodes::ADD)
    } else if same(t, "MULTIPLY") {
        Some(OpCodes::MULT)
    } else if same(t, "RETURN_VALUE") {
        Some(OpCodes::RTN)
    } else if same(t, "GOTO") {
        Some(OpCodes::GOTO)
    } else if same(t, "TEST_EQ") {
        Some(OpCodes::TEEQ)
    } else if same(t, "TEST_GT") {
        Some(OpCodes::TEGT)
    } else if same(t, "TEST_LT") {
        Some(OpCodes::TELT)
    } else if same(t, "DUP") {
        Some(OpCodes::DUP)
    } else if same(t, "POP") {
        Some(OpCodes::POP)
    } else {
        None
    }
}

/// Whether the one name on line `t` that has a syntax to meet meets it: the
/// variable of `WRITE_VAR` and `READ_VAR`, the label of `GOTO`, or the first
/// word when it is no keyword and so must be a label declaration.
pub open spec fn name_check(t: Seq<Seq<char>>) -> bool {
    if t.len() == 0 {
        false
    } else {
        match keyword(t[0]) {
            None => is_label_name(t[0]),
            Some(OpCodes::GOTO) => t.len() == 2 && is_label_name(t[1]),
            Some(OpCodes::WRT) | Some(OpCodes::READ) => t.len() == 2 && is_variable_name(t[1]),
            Some(_) => true,
        }
    }
}

/// Resolving the words `t` of one line against tables `m`, where `name_ok`
/// says whether the line's name has its syntax (see `name_check`): the
/// instruction and the tables after it, or why the line is refused.
pub open spec fn resolve_line(m: SymbolTables, t: Seq<Seq<char>>, name_ok: bool) -> Result<
    (Instr, SymbolTables),
    ParseFault,
> {
    if t.len() == 0 {
        Err(ParseFault::EmptyInstruction)
    } else {
        let n = (t.len() - 1) as nat;
        match keyword(t[0]) {
            None => if !name_ok {
                Err(ParseFault::UnknownInstruction(t[0]))
            } else if m.labels.contains(t[0]) {
                Err(ParseFault::DuplicatedLabel(t[0]))
            } else {
                Ok(
                    (
                        Instr { opcode: None, args: None },
                        SymbolTables {
                            labels: m.labels.push(t[0]),
                            targets: m.targets.push(m.count),
                            ..m
                        },
                    ),
                )
            },
            Some(op) => if n != spec_arity(op) {
                Err(ParseFault::WrongArgCount { expected: spec_arity(op) as usize, got: n as usize })
            } else if m.count == VALUE_MAX {
                Err(ParseFault::TooManyInstructions)
            } else {
                match resolve_operation(m, op, t.drop_first(), name_ok) {
                    Ok((i, after)) => Ok((i, SymbolTables { count: (m.count + 1) as Value, ..after })),
                    Err(e) => Err(e),
                }
            },
        }
    }
}

/// What operation `op` with arguments `args`, of the right number, resolves to
/// against tables `m`, before the instruction is counted.
pub open spec fn resolve_operation(
    m: SymbolTables,
    op: OpCodes,
    args: Seq<Seq<char>>,
    name_ok: bool,
) -> Result<(Instr, SymbolTables), ParseFault> {
    match op {
        OpCodes::LOAD => match parse_value(args[0]) {
            Ok(v) => Ok((Instr { opcode: Some(op), args: Some(seq![v]) }, m)),
            Err(kind) => Err(ParseFault::BadNumber { line: m.line, kind }),
        },
        OpCodes::WRT => if !name_ok {
            Err(ParseFault::InvalidVariableName(args[0]))
        } else {
            match m.address(args[0]) {
                Some(a) => Ok((Instr { opcode: Some(op), args: Some(seq![a]) }, m)),
                None => if m.vars.len() > VALUE_MAX {
                    Err(ParseFault::TooManyVariables)
                } else {
                    Ok(
                        (
                            Instr { opcode: Some(op), args: Some(seq![m.vars.len() as Value]) },
                            SymbolTables { vars: m.vars.push(args[0]), ..m },
                        ),
                    )
                },
            }
        },
        OpCodes::READ => if !name_ok {
            Err(ParseFault::InvalidVariableName(args[0]))
        } else {
            match m.address(args[0]) {
                Some(a) => Ok((Instr { opcode: Some(op), args: Some(seq![a]) }, m)),
                None => Err(ParseFault::UndeclaredVariable(args[0])),
            }
        },
        OpCodes::GOTO => if !name_ok {
            Err(ParseFault::InvalidLabelName(args[0]))
        } else {
            match m.target(args[0]) {
                Some(x) => Ok((Instr { opcode: Some(op), args: Some(seq![x]) }, m)),
                None => Err(ParseFault::UndeclaredLabel(args[0])),
            }
        },
        _ => Ok((Instr { opcode: Some(op), args: None }, m)),
    }
}

/// The result of a resolution agrees with `resolve_line`, and a refused line
/// leaves the tables as they were.
pub open spec fn resolved_as(
    spec: Result<(Instr, SymbolTables), ParseFault>,
    r: Result<Instruction, ParseError>,
    before: SymbolTables,
    after: SymbolTables,
) -> bool {
    match spec {
        Ok((i, m)) => r is Ok && r->Ok_0@ == i && after == m,
        Err(e) => r is Err && r->Err_0@ == e && after == before,
    }
}

impl Instruction {
    /// This instruction as written in a listing.
    pub fn to_string(&self) -> (r: String)
        requires
            self.opcode is Some,
        ensures
            r@ == instr_text(self@),
    {
        let op = match self.opcode {
            Some(op) => op,
            None => OpCodes::LOAD,
        };
        let mut s = op.code_text().to_owned();
        if let Some(a) = &self.args {
            let mut i: usize = 0;
            while i < a.len()
                invariant
                    i <= a.len(),
                    s@ == spec_code_text(op) + args_text(a@.take(i as int)),
                decreases a.len() - i,
            {
                assert(a@.take(i + 1).drop_last() =~= a@.take(i as int));
                s.append(" 0x");
                s.append(crate::text::hex2_string(a[i] as usize).as_str());
                assert(s@ =~= spec_code_text(op) + args_text(a@.take(i + 1)));
                i = i + 1;
            }
            assert(a@.take(a.len() as int) =~= a@);
        } else {
            assert(s@ =~= spec_code_text(op) + Seq::<char>::empty());
        }
        s
    }

    /// Resolves one source line against the tables of the pass.
    pub fn parse(ctx: &mut Context, s: &str) -> (r: Result<Instruction, ParseError>)
        requires
            old(ctx).wf(),
        ensures
            final(ctx).wf(),
            resolved_as(
                resolve_line(old(ctx)@, words(s@), name_check(words(s@))),
                r,
                old(ctx)@,
                final(ctx)@,
            ),
            words(s@).len() > 0 ==> final(ctx).spec_args() == words(s@).drop_first(),
    {
        let words = split_words(s);
        let name_ok = Self::check_name(&words);
        Self::resolve(ctx, words, name_ok)
    }

    /// Tests the one name of line `t` that has a syntax to meet.
    fn check_name(t: &Vec<String>) -> (r: bool)
        ensures
            r == name_check(views(t@)),
    {
        if t.len() == 0 {
            return false;
        }
        match keyword_opcode(&t[0]) {
            None => Context::is_label(t[0].as_str()),
            Some(OpCodes::GOTO) => t.len() == 2 && Context::is_label(t[1].as_str()),
            Some(OpCodes::WRT) | Some(OpCodes::READ) => t.len() == 2 && Context::is_variable(
                t[1].as_str(),
            ),
            Some(_) => true,
        }
    }

    /// Resolves the words of one line, given whether its name has its syntax.
    pub fn resolve(ctx: &mut Context, words: Vec<String>, name_ok: bool) -> (r: Result<
        Instruction,
        ParseError,
    >)
        requires
            old(ctx).wf(),
        ensures
            final(ctx).wf(),
            resolved_as(resolve_line(old(ctx)@, views(words@), name_ok), r, old(ctx)@, final(ctx)@),
            words@.len() > 0 ==> final(ctx).spec_args() == views(words@).drop_first(),
    {
        if words.len() == 0 {
            return Err(ParseError::EmptyInstruction);
        }
        let mut args = words;
        let ghost t = views(args@);
        let first = args.remove(0);
        proof {
            assert(views(args@) =~= t.drop_first());
        }
        ctx.set_args(args);
        let n = ctx.args_len();
        match keyword_opcode(&first) {
            None => Self::declare_label(ctx, first, name_ok),
            Some(op) => {
                let arity = op.arity();
                if n != arity {
                    return Err(ParseError::WrongArgCount { expected: arity, got: n });
                }
                if ctx.instruction_count() == VALUE_MAX {
                    return Err(ParseError::TooManyInstructions);
                }
                let r = match op {
                    OpCodes::LOAD => Self::resolve_load(ctx),
                    OpCodes::WRT => Self::resolve_write(ctx, name_ok),
                    OpCodes::READ => Self::resolve_read(ctx, name_ok),
                    OpCodes::GOTO => Self::resolve_goto(ctx, name_ok),
                    _ => Ok(Instruction { opcode: Some(op), args: None }),
                };
                if r.is_ok() {
                    ctx.count_instruction();
                }
                r
            },
        }
    }

    fn declare_label(ctx: &mut Context, name: String, name_ok: bool) -> (r: Result<
        Instruction,
        ParseError,
    >)
        requires
            old(ctx).wf(),
        ensures
            final(ctx).wf(),
            final(ctx).spec_args() == old(ctx).spec_args(),
            match r {
                Ok(i) => name_ok && !old(ctx)@.labels.contains(name@) && i@ == (Instr {
                    opcode: None,
                    args: None,
                }) && final(ctx)@ == (SymbolTables {
                    labels: old(ctx)@.labels.push(name@),
                    targets: old(ctx)@.targets.push(old(ctx)@.count),
                    ..old(ctx)@
                }),
                Err(e) => final(ctx)@ == old(ctx)@ && if !name_ok {
                    e@ == ParseFault::UnknownInstruction(name@)
                } else {
                    old(ctx)@.labels.contains(name@) && e@ == ParseFault::DuplicatedLabel(name@)
                },
            },
    {
        if !name_ok {
            return Err(ParseError::UnknownInstruction(name));
        }
        if ctx.has_label(name.as_str()) {
            return Err(ParseError::DuplicatedLabel(name));
        }
        let count = ctx.instruction_count();
        ctx.add_label(name.as_str(), count);
        Ok(Instruction { opcode: None, args: None })
    }

    /// An operation with its one argument.
    fn with_arg(op: OpCodes, arg: Value) -> (r: Instruction)
        ensures
            r@ == (Instr { opcode: Some(op), args: Some(seq![arg]) }),
    {
        let args = vec![arg];
        assert(args@ =~= seq![arg]);
        Instruction { opcode: Some(op), args: Some(args) }
    }

    fn resolve_load(ctx: &mut Context) -> (r: Result<Instruction, ParseError>)
        requires
            old(ctx).wf(),
            old(ctx).spec_args().len() == 1,
        ensures
            final(ctx).wf(),
            final(ctx).spec_args() == old(ctx).spec_args(),
            resolved_as(
                resolve_operation(old(ctx)@, OpCodes::LOAD, old(ctx).spec_args(), false),
                r,
                old(ctx)@,
                final(ctx)@,
            ),
    {
        let arg = ctx.get_arg(0);
        match arg {
            Some(a) => match parse_value_str(a.as_str()) {
                Ok(v) => Ok(Self::with_arg(OpCodes::LOAD, v)),
                Err(kind) => Err(ParseError::BadNumber { line: ctx.line(), kind }),
            },
            None => Err(ParseError::EmptyInstruction),
        }
    }

    fn resolve_write(ctx: &mut Context, name_ok: bool) -> (r: Result<Instruction, ParseError>)
        requires
            old(ctx).wf(),
            old(ctx).spec_args().len() == 1,
        ensures
            final(ctx).wf(),
            final(ctx).spec_args() == old(ctx).spec_args(),
            resolved_as(
                resolve_operation(old(ctx)@, OpCodes::WRT, old(ctx).spec_args(), name_ok),
                r,
                old(ctx)@,
                final(ctx)@,
            ),
    {
        let name = match ctx.get_arg(0) {
            Some(a) => a.clone(),
            None => return Err(ParseError::EmptyInstruction),
        };
        if !name_ok {
            return Err(ParseError::InvalidVariableName(name));
        }
        let address = match ctx.get_var(name.as_str()) {
            Some(a) => a,
            None => {
                if ctx.data_size() > VALUE_MAX as usize {
                    return Err(ParseError::TooManyVariables);
                }
                proof {
                    super::context::lemma_find(ctx@.vars, name@);
                }
                ctx.add_var(name.as_str())
            },
        };
        Ok(Self::with_arg(OpCodes::WRT, address))
    }

    fn resolve_read(ctx: &mut Context, name_ok: bool) -> (r: Result<Instruction, ParseError>)
        requires
            old(ctx).wf(),
            old(ctx).spec_args().len() == 1,
        ensures
            final(ctx).wf(),
            final(ctx).spec_args() == old(ctx).spec_args(),
            resolved_as(
                resolve_operation(old(ctx)@, OpCodes::READ, old(ctx).spec_args(), name_ok),
                r,
                old(ctx)@,
                final(ctx)@,
            ),
    {
        let name = match ctx.get_arg(0) {
            Some(a) => a.clone(),
            None => return Err(ParseError::EmptyInstruction),
        };
        if !name_ok {
            return Err(ParseError::InvalidVariableName(name));
        }
        match ctx.get_var(name.as_str()) {
            Some(a) => Ok(Self::with_arg(OpCodes::READ, a)),
            None => Err(ParseError::UndeclaredVariable(name)),
        }
    }

    fn resolve_goto(ctx: &mut Context, name_ok: bool) -> (r: Result<Instruction, ParseError>)
        requires
            old(ctx).wf(),
            old(ctx).spec_args().len() == 1,
        ensures
            final(ctx).wf(),
            final(ctx).spec_args() == old(ctx).spec_args(),
            resolved_as(
                resolve_operation(old(ctx)@, OpCodes::GOTO, old(ctx).spec_args(), name_ok),
                r,
                old(ctx)@,
                final(ctx)@,
            ),
    {
        let name = match ctx.get_arg(0) {
            Some(a) => a.clone(),
            None => return Err(ParseError::EmptyInstruction),
        };
        if !name_ok {
            return Err(ParseError::InvalidLabelName(name));
        }
        proof {
            super::context::lemma_find(ctx@.labels, name@);
        }
        if !ctx.has_label(name.as_str()) {
            return Err(ParseError::UndeclaredLabel(name));
        }
        let target = ctx.get_label(name.as_str());
        Ok(Self::with_arg(OpCodes::GOTO, target))
    }
}

} // verus!
