//! Assembly: from source text to a resolved program.
use vstd::prelude::*;

pub mod context;
pub mod instruction;

use crate::text::{decimal, lines, split_lines, views, words};
use context::{is_label_name, Context, SymbolTables};
use crate::config::{spec_arity, OpCodes, Value, VALUE_MAX};
use crate::interpreter::interpreter::shape_error;
use instruction::{instr_text, keyword, name_check, resolve_line, resolved_as, Instr, Instruction, ParseError, ParseFault};

verus! {

/// Why a source text could not be assembled.
#[derive(Debug, Clone, PartialEq, Eq)]
pub enum AssemblyError {
    /// The source holds no text at all.
    EmptyFile,
    /// The source holds no instruction.
    EmptyProgram,
    /// Line `line` (counted from 1) was refused.
    AtLine { line: usize, error: ParseError },
}

/// The mathematical content of an `AssemblyError`.
pub enum AssemblyFault {
    EmptyFile,
    EmptyProgram,
    AtLine { line: usize, error: ParseFault },
}

impl View for AssemblyError {
    type V = AssemblyFault;

    open spec fn view(&self) -> AssemblyFault {
        match self {
            AssemblyError::EmptyFile => AssemblyFault::EmptyFile,
            AssemblyError::EmptyProgram => AssemblyFault::EmptyProgram,
            AssemblyError::AtLine { line, error } => AssemblyFault::AtLine {
                line: *line,
                error: error@,
            },
        }
    }
}

impl AssemblyFault {
    pub open spec fn spec_message(self) -> Seq<char> {
        match self {
            AssemblyFault::EmptyFile => "Empty file"@,
            AssemblyFault::EmptyProgram => "Empty program"@,
            AssemblyFault::AtLine { line, error } => "Transpilation error at line "@ + decimal(
                line as nat,
            ) + ": "@ + error.spec_message(),
        }
    }
}

impl AssemblyError {
    /// The text that describes this error.
    pub fn to_string(&self) -> (r: String)
        ensures
            r@ == self@.spec_message(),
    {
        match self {
            AssemblyError::EmptyFile => "Empty file".to_owned(),
            AssemblyError::EmptyProgram => "Empty program".to_owned(),
            AssemblyError::AtLine { line, error } => {
                let mut s = "Transpilation error at line ".to_owned();
                s.append(crate::text::decimal_string(*line).as_str());
                s.append(": ");
                s.append(error.message().as_str());
                s
            },
        }
    }
}

/// The mathematical content of a program.
pub struct Program {
    pub instructions: Seq<Instr>,
    pub data_size: nat,
}

/// Assembling the lines `ls` in order: the instructions emitted and the final
/// tables, or the first refusal. Lines without words are passed over; line
/// numbers count every line from 1.
pub open spec fn assemble_lines(ls: Seq<Seq<char>>) -> Result<
    (Seq<Instr>, SymbolTables),
    AssemblyFault,
>
    decreases ls.len(),
{
    if ls.len() == 0 {
        Ok((seq![], SymbolTables::empty()))
    } else {
        match assemble_lines(ls.drop_last()) {
            Err(e) => Err(e),
            Ok((prog, m)) => {
                let t = words(ls.last());
                if t.len() == 0 {
                    Ok((prog, m))
                } else {
                    let line = ls.len() as usize;
                    match resolve_line(SymbolTables { line, ..m }, t, name_check(t)) {
                        Err(e) => Err(AssemblyFault::AtLine { line, error: e }),
                        Ok((i, after)) => Ok(
                            (
                                if i.opcode is Some {
                                    prog.push(i)
                                } else {
                                    prog
                                },
                                after,
                            ),
                        ),
                    }
                }
            },
        }
    }
}

/// Assembling the source text `src`.
pub open spec fn assemble(src: Seq<char>) -> Result<Program, AssemblyFault> {
    match assemble_lines(lines(src)) {
        Err(e) => Err(e),
        Ok((prog, m)) => if prog.len() == 0 {
            Err(AssemblyFault::EmptyProgram)
        } else {
            Ok(Program { instructions: prog, data_size: m.vars.len() })
        },
    }
}

/// A program as written in a listing: its instructions, separated by spaces.
pub open spec fn program_text(p: Seq<Instr>) -> Seq<char>
    decreases p.len(),
{
    if p.len() == 0 {
        seq![]
    } else if p.len() == 1 {
        instr_text(p[0])
    } else {
        program_text(p.drop_last()) + " "@ + instr_text(p.last())
    }
}

pub open spec fn instrs(v: Seq<Instruction>) -> Seq<Instr> {
    v.map_values(|i: Instruction| i@)
}

/// A resolved program: its instructions in order, and how many variable slots
/// it uses.
#[derive(Debug, Clone, PartialEq, Eq)]
pub struct ByteCode {
    instructions: Vec<Instruction>,
    data_size: usize,
}

impl View for ByteCode {
    type V = Program;

    closed spec fn view(&self) -> Program {
        Program { instructions: instrs(self.instructions@), data_size: self.data_size as nat }
    }
}

impl ByteCode {
    /// Assembles a whole source text; a text with nothing in it is refused as
    /// an empty file.
    pub fn transpile(source: &str) -> (r: Result<ByteCode, AssemblyError>)
        ensures
            source@.len() == 0 ==> (r matches Err(e) && e@ == AssemblyFault::EmptyFile),
            source@.len() > 0 ==> assembled_as(assemble(source@), r),
    {
        if source.unicode_len() == 0 {
            return Err(AssemblyError::EmptyFile);
        }
        Self::do_transpile(source)
    }

    /// The instruction at `index`, if there is one.
    pub fn get_instruction(&self, index: usize) -> (r: Option<&Instruction>)
        ensures
            self@.instructions.len() <= usize::MAX,
            match r {
                Some(i) => index < self@.instructions.len() && i@ == self@.instructions[index as int],
                None => index >= self@.instructions.len(),
            },
    {
        if index < self.instructions.len() {
            Some(&self.instructions[index])
        } else {
            None
        }
    }

    /// The number of variable slots the program uses.
    pub fn get_data_size(&self) -> (r: usize)
        ensures
            r == self@.data_size,
    {
        self.data_size
    }

    /// The program as written in a listing.
    pub fn to_string(&self) -> (r: String)
        requires
            forall|j: int| 0 <= j < self@.instructions.len() ==> self@.instructions[j].opcode is Some,
        ensures
            r@ == program_text(self@.instructions),
    {
        let ghost p = self@.instructions;
        let mut s = String::new();
        let mut i: usize = 0;
        while i < self.instructions.len()
            invariant
                i <= self.instructions.len(),
                p == instrs(self.instructions@),
                forall|j: int| 0 <= j < p.len() ==> p[j].opcode is Some,
                s@ == program_text(p.take(i as int)),
            decreases self.instructions.len() - i,
        {
            assert(p.take(i + 1).drop_last() =~= p.take(i as int));
            if i > 0 {
                s.append(" ");
            }
            assert(p[i as int] == self.instructions@[i as int]@);
            let text = self.instructions[i].to_string();
            s.append(text.as_str());
            assert(s@ =~= program_text(p.take(i + 1)));
            i = i + 1;
        }
        assert(p.take(p.len() as int) =~= p);
        s
    }

    /// The number of instructions.
    pub fn len(&self) -> (r: usize)
        ensures
            r == self@.instructions.len(),
    {
        self.instructions.len()
    }

    fn new() -> (r: ByteCode)
        ensures
            r@.instructions == Seq::<Instr>::empty(),
    {
        let r = ByteCode { instructions: Vec::new(), data_size: 0 };
        assert(instrs(r.instructions@) =~= Seq::<Instr>::empty());
        r
    }

    /// Resolves one line and keeps the instruction it yields, if any.
    fn add_instruction(&mut self, ctx: &mut Context, s_instr: &str) -> (r: Result<(), ParseError>)
        requires
            old(ctx).wf(),
        ensures
            final(ctx).wf(),
            final(self).data_size == old(self).data_size,
            match resolve_line(old(ctx)@, words(s_instr@), name_check(words(s_instr@))) {
                Ok((i, m)) => r is Ok && final(ctx)@ == m && final(self)@.instructions == (
                if i.opcode is Some {
                    old(self)@.instructions.push(i)
                } else {
                    old(self)@.instructions
                }),
                Err(e) => r matches Err(x) && x@ == e,
            },
    {
        match Instruction::parse(ctx, s_instr) {
            Ok(instr) => {
                if instr.opcode.is_some() {
                    self.instructions.push(instr);
                    assert(instrs(self.instructions@) =~= instrs(old(self).instructions@).push(
                        instr@,
                    ));
                }
                Ok(())
            },
            Err(e) => Err(e),
        }
    }

    /// Assembles the lines of `source`.
    pub fn do_transpile(source: &str) -> (r: Result<ByteCode, AssemblyError>)
        ensures
            assembled_as(assemble(source@), r),
    {
        let ls = split_lines(source);
        let mut program = ByteCode::new();
        let mut ctx = Context::new();
        let mut index: usize = 0;
        while index < ls.len()
            invariant
                index <= ls.len(),
                views(ls@) == lines(source@),
                ctx.wf(),
                assemble_lines(views(ls@).take(index as int)) == Ok::<
                    (Seq<Instr>, SymbolTables),
                    AssemblyFault,
                >((program@.instructions, ctx@)),
            decreases ls.len() - index,
        {
            let ghost before = views(ls@).take(index as int);
            assert(views(ls@).take(index + 1).drop_last() =~= before);
            assert(views(ls@).take(index + 1).last() == ls@[index as int]@);
            let line = index + 1;
            let blank = crate::text::split_words(ls[index].as_str()).len() == 0;
            if !blank {
                ctx.set_line(line);
                if let Err(e) = program.add_instruction(&mut ctx, ls[index].as_str()) {
                    proof {
                        lemma_assembly_stops(views(ls@), index + 1);
                    }
                    return Err(AssemblyError::AtLine { line, error: e });
                }
            }
            index = index + 1;
        }
        assert(views(ls@).take(ls.len() as int) =~= views(ls@));
        if program.instructions.len() == 0 {
            return Err(AssemblyError::EmptyProgram);
        }
        program.data_size = ctx.data_size();
        Ok(program)
    }
}

/// Once assembly refuses a line, it refuses the whole text for that line.
proof fn lemma_assembly_stops(ls: Seq<Seq<char>>, k: int)
    requires
        0 <= k <= ls.len(),
        assemble_lines(ls.take(k)) is Err,
    ensures
        assemble_lines(ls) == assemble_lines(ls.take(k)),
    decreases ls.len() - k,
{
    if k < ls.len() {
        assert(ls.take(k + 1).drop_last() =~= ls.take(k));
        lemma_assembly_stops(ls, k + 1);
    } else {
        assert(ls.take(k) =~= ls);
    }
}

/// The result of an assembly agrees with the spec.
pub open spec fn assembled_as(spec: Result<Program, AssemblyFault>, r: Result<ByteCode, AssemblyError>) -> bool {
    match spec {
        Ok(p) => r matches Ok(b) && b@ == p,
        Err(e) => r matches Err(x) && x@ == e,
    }
}

/// A variable name resolves to the same address however often it is
/// referenced: a `WRITE_VAR` or `READ_VAR` of a known name emits that name's
/// position in the variable table and leaves the table as it is, and a
/// `WRITE_VAR` of a new name appends it, so that it gets the table's size as
/// its address.
pub proof fn lemma_variable_address(m: SymbolTables, t: Seq<Seq<char>>, name_ok: bool)
    requires
        m.wf(),
        t.len() == 2,
        keyword(t[0]) == Some(OpCodes::WRT) || keyword(t[0]) == Some(OpCodes::READ),
        resolve_line(m, t, name_ok) is Ok,
    ensures
        ({
            let (i, after) = resolve_line(m, t, name_ok)->Ok_0;
            let a = i.args.unwrap()[0];
            &&& i.args == Some(seq![a])
            &&& a < after.vars.len()
            &&& after.vars[a as int] == t[1]
            &&& m.vars.contains(t[1]) ==> after.vars == m.vars && m.vars[a as int] == t[1]
            &&& !m.vars.contains(t[1]) ==> after.vars == m.vars.push(t[1]) && a == m.vars.len()
        }),
{
    context::lemma_find(m.vars, t[1]);
}

/// Across a whole program, every reference to a variable resolves to that
/// variable's one address: the instruction that a `WRITE_VAR x` or
/// `READ_VAR x` line emits carries the position of `x` in the final variable
/// table.
pub proof fn lemma_variable_addresses_stable(ls: Seq<Seq<char>>, k: int)
    requires
        0 <= k < ls.len(),
        assemble_lines(ls) is Ok,
        words(ls[k]).len() == 2,
        keyword(words(ls[k])[0]) == Some(OpCodes::WRT) || keyword(words(ls[k])[0]) == Some(
            OpCodes::READ,
        ),
    ensures
        ({
            let (p, m) = assemble_lines(ls)->Ok_0;
            let n = assemble_lines(ls.take(k))->Ok_0.0.len();
            &&& n < p.len()
            &&& m.address(words(ls[k])[1]) matches Some(a) && p[n as int].args == Some(seq![a])
        }),
{
    let t = words(ls[k]);
    let x = t[1];
    lemma_tables_grow(ls, k + 1);
    lemma_tables_grow(ls, k);
    let pre = ls.take(k + 1);
    assert(pre.drop_last() =~= ls.take(k));
    assert(pre.last() == ls[k]);
    lemma_count_and_wf(ls.take(k));
    lemma_count_and_wf(ls);
    let (p0, m0) = assemble_lines(ls.take(k))->Ok_0;
    let m0_line = SymbolTables { line: pre.len() as usize, ..m0 };
    lemma_variable_address(m0_line, t, name_check(t));
    let (i, m1) = resolve_line(m0_line, t, name_check(t))->Ok_0;
    let (p, m) = assemble_lines(ls)->Ok_0;
    let a = i.args.unwrap()[0];
    assert(m.vars[a as int] == m1.vars[a as int]);
    context::lemma_find(m.vars, x);
    let (p_pre, _) = assemble_lines(pre)->Ok_0;
    assert(i.opcode is Some);
    assert(p_pre == p0.push(i));
    assert(p_pre.is_prefix_of(p));
    assert(p[p0.len() as int] == p_pre[p0.len() as int]);
}

/// Across a whole program, a `GOTO` to a label declared on an earlier line
/// jumps to the index that the first instruction after that declaration takes.
pub proof fn lemma_goto_to_earlier_label(ls: Seq<Seq<char>>, j: int, k: int)
    requires
        0 <= j < k < ls.len(),
        assemble_lines(ls) is Ok,
        words(ls[j]).len() > 0,
        keyword(words(ls[j])[0]) is None,
        words(ls[k]).len() == 2,
        keyword(words(ls[k])[0]) == Some(OpCodes::GOTO),
        words(ls[k])[1] == words(ls[j])[0],
    ensures
        ({
            let p = assemble_lines(ls)->Ok_0.0;
            let n_j = assemble_lines(ls.take(j))->Ok_0.0.len();
            let n_k = assemble_lines(ls.take(k))->Ok_0.0.len();
            &&& n_j <= n_k < p.len()
            &&& p[n_k as int].args == Some(seq![n_j as Value])
        }),
{
    let label = words(ls[j])[0];
    let t = words(ls[k]);
    lemma_tables_grow(ls, j);
    lemma_tables_grow(ls, j + 1);
    lemma_tables_grow(ls, k);
    lemma_tables_grow(ls, k + 1);
    lemma_count_and_wf(ls.take(j));
    lemma_count_and_wf(ls.take(j + 1));
    lemma_count_and_wf(ls.take(k));
    assert(ls.take(j + 1).drop_last() =~= ls.take(j));
    assert(ls.take(j + 1).last() == ls[j]);
    assert(ls.take(k + 1).drop_last() =~= ls.take(k));
    assert(ls.take(k + 1).last() == ls[k]);
    assert(ls.take(k).take(j + 1) =~= ls.take(j + 1));
    lemma_tables_grow(ls.take(k), j + 1);
    let (p_j, m_j) = assemble_lines(ls.take(j))->Ok_0;
    let (p_j1, m_j1) = assemble_lines(ls.take(j + 1))->Ok_0;
    let (p_k, m_k) = assemble_lines(ls.take(k))->Ok_0;
    let (p_k1, _) = assemble_lines(ls.take(k + 1))->Ok_0;
    let (p, _) = assemble_lines(ls)->Ok_0;
    // the declaration appends the label with the count of instructions so far
    assert(m_j1.labels == m_j.labels.push(label));
    assert(m_j1.targets == m_j.targets.push(m_j.count));
    assert(p_j1.is_prefix_of(p_k));
    // the label sits at the same place in the tables the jump is resolved with
    let idx = m_j.labels.len() as int;
    assert(m_k.labels[idx] == label);
    assert(m_k.targets[idx] == m_j.count);
    context::lemma_find(m_k.labels, label);
    assert(m_k.labels.contains(label));
    let m_k_line = SymbolTables { line: (k + 1) as usize, ..m_k };
    lemma_goto_resolution(m_k_line, t);
    assert(p_k1 == p_k.push(Instr { opcode: Some(OpCodes::GOTO), args: Some(seq![m_j.count]) }));
    assert(p_k1.is_prefix_of(p));
    assert(p[p_k.len() as int] == p_k1[p_k.len() as int]);
}

/// A `GOTO` to a label that no earlier line declared makes the whole
/// assembly fail at that line with an undeclared label.
pub proof fn lemma_goto_to_undeclared_label(ls: Seq<Seq<char>>, k: int)
    requires
        0 <= k < ls.len(),
        assemble_lines(ls.take(k)) matches Ok((p, m)) && !m.labels.contains(words(ls[k])[1])
            && m.count < VALUE_MAX,
        words(ls[k]).len() == 2,
        keyword(words(ls[k])[0]) == Some(OpCodes::GOTO),
        is_label_name(words(ls[k])[1]),
    ensures
        assemble_lines(ls) == Err::<(Seq<Instr>, SymbolTables), AssemblyFault>(
            AssemblyFault::AtLine {
                line: (k + 1) as usize,
                error: ParseFault::UndeclaredLabel(words(ls[k])[1]),
            },
        ),
{
    let (p, m) = assemble_lines(ls.take(k))->Ok_0;
    lemma_count_and_wf(ls.take(k));
    assert(ls.take(k + 1).drop_last() =~= ls.take(k));
    assert(ls.take(k + 1).last() == ls[k]);
    let m_line = SymbolTables { line: (k + 1) as usize, ..m };
    lemma_goto_resolution(m_line, words(ls[k]));
    lemma_assembly_stops(ls, k + 1);
}

/// Assembly only ever extends the tables: the variable table, the labels and
/// their targets after the first `k` lines are prefixes of those after all of
/// them, and the instruction count always equals the number of instructions
/// emitted.
pub proof fn lemma_tables_grow(ls: Seq<Seq<char>>, k: int)
    requires
        0 <= k <= ls.len(),
        assemble_lines(ls) is Ok,
    ensures
        assemble_lines(ls.take(k)) is Ok,
        ({
            let (prog_k, tables_k) = assemble_lines(ls.take(k))->Ok_0;
            let (p, m) = assemble_lines(ls)->Ok_0;
            &&& tables_k.vars.is_prefix_of(m.vars)
            &&& tables_k.labels.is_prefix_of(m.labels)
            &&& tables_k.targets.is_prefix_of(m.targets)
            &&& prog_k.is_prefix_of(p)
            &&& m.count == p.len()
        }),
    decreases ls.len() - k,
{
    lemma_count_and_wf(ls);
    if k == ls.len() {
        assert(ls.take(k) =~= ls);
    } else {
        lemma_tables_grow(ls.drop_last(), k);
        assert(ls.drop_last().take(k) =~= ls.take(k));
        lemma_count_and_wf(ls.drop_last());
        let (prog_before, tables_before) = assemble_lines(ls.drop_last())->Ok_0;
        let (p, m) = assemble_lines(ls)->Ok_0;
        assert(tables_before.vars.is_prefix_of(m.vars));
        assert(tables_before.labels.is_prefix_of(m.labels));
        assert(tables_before.targets.is_prefix_of(m.targets));
        assert(prog_before.is_prefix_of(p));
    }
}

/// The tables that assembly builds are well formed, its instruction count is
/// the number of instructions emitted, and every label stands for an index
/// no greater than that number.
pub proof fn lemma_count_and_wf(ls: Seq<Seq<char>>)
    ensures
        assemble_lines(ls) matches Ok((p, m)) ==> {
            &&& m.wf()
            &&& m.count == p.len()
            &&& forall|j: int| 0 <= j < m.targets.len() ==> m.targets[j] <= p.len()
            &&& forall|j: int|
                0 <= j < p.len() && p[j].opcode == Some(OpCodes::GOTO) ==> goto_target_at_most(
                    p[j],
                    j,
                )
            &&& forall|j: int| 0 <= j < p.len() ==> well_shaped(#[trigger] p[j])
        },
    decreases ls.len(),
{
    if ls.len() == 0 {
        assert(SymbolTables::empty().vars.no_duplicates());
    } else {
        lemma_count_and_wf(ls.drop_last());
        if let Ok((p, m)) = assemble_lines(ls.drop_last()) {
            let t = words(ls.last());
            if t.len() > 0 {
                let tables_before = SymbolTables { line: ls.len() as usize, ..m };
                if let Ok((i, after)) = resolve_line(tables_before, t, name_check(t)) {
                    match keyword(t[0]) {
                        None => {
                            lemma_push_no_duplicates(m.labels, t[0]);
                            assert forall|j: int| 0 <= j < after.targets.len() implies after.targets[j] <= p.len() by {
                                if j < m.targets.len() {
                                    assert(after.targets[j] == m.targets[j]);
                                }
                            }
                        },
                        Some(op) => {
                            if op == OpCodes::GOTO {
                                context::lemma_find(m.labels, t[1]);
                            }
                            if op == OpCodes::WRT {
                                context::lemma_find(m.vars, t[1]);
                                if !m.vars.contains(t[1]) {
                                    lemma_push_no_duplicates(m.vars, t[1]);
                                }
                            }
                        },
                    }
                }
            }
        }
    }
}

/// An instruction with an operation and arguments of the shape it takes.
pub open spec fn well_shaped(i: Instr) -> bool {
    i.opcode matches Some(op) && shape_error(op, i.args) is None
}

/// Every instruction of an assembled program has an operation, with
/// arguments of the shape that operation takes.
pub proof fn lemma_assembled_well_shaped(src: Seq<char>)
    requires
        assemble(src) is Ok,
    ensures
        forall|j: int|
            0 <= j < assemble(src)->Ok_0.instructions.len() ==> well_shaped(
                #[trigger] assemble(src)->Ok_0.instructions[j],
            ),
{
    lemma_count_and_wf(lines(src));
}

pub open spec fn goto_target_at_most(i: Instr, bound: int) -> bool {
    i.args matches Some(a) && a.len() == 1 && a[0] <= bound
}

/// Every `GOTO` of an assembled program jumps to an instruction of it: to its
/// own index or an earlier one.
pub proof fn lemma_goto_targets_valid(src: Seq<char>)
    requires
        assemble(src) is Ok,
    ensures
        ({
            let p = assemble(src)->Ok_0.instructions;
            forall|j: int|
                0 <= j < p.len() && p[j].opcode == Some(OpCodes::GOTO) ==> (p[j].args matches Some(
                    a,
                ) && a.len() == 1 && a[0] <= j < p.len())
        }),
{
    lemma_count_and_wf(lines(src));
}

proof fn lemma_push_no_duplicates(s: Seq<Seq<char>>, x: Seq<char>)
    requires
        s.no_duplicates(),
        !s.contains(x),
    ensures
        s.push(x).no_duplicates(),
{
    let v = s.push(x);
    assert forall|i: int, j: int| 0 <= i < v.len() && 0 <= j < v.len() && i != j implies v[i] != v[j] by {
        if i == v.len() - 1 {
            assert(s.contains(v[j]));
        } else if j == v.len() - 1 {
            assert(s.contains(v[i]));
        }
    }
}

/// A `GOTO` resolves exactly when its label was declared on an earlier line,
/// and then to the index the label was declared at; a label declaration
/// records the index the next instruction will take.
pub proof fn lemma_goto_resolution(m: SymbolTables, t: Seq<Seq<char>>)
    requires
        m.wf(),
        m.count < VALUE_MAX,
        t.len() == 2,
        keyword(t[0]) == Some(OpCodes::GOTO),
    ensures
        m.labels.contains(t[1]) ==> resolve_line(m, t, true) == Ok::<
            (Instr, SymbolTables),
            ParseFault,
        >(
            (
                Instr { opcode: Some(OpCodes::GOTO), args: Some(seq![m.target(t[1])->Some_0]) },
                SymbolTables { count: (m.count + 1) as Value, ..m },
            ),
        ),
        m.labels.contains(t[1]) ==> (m.target(t[1]) matches Some(x) && exists|j: int|
            0 <= j < m.labels.len() && m.labels[j] == t[1] && m.targets[j] == x),
        !m.labels.contains(t[1]) ==> resolve_line(m, t, true) == Err::<
            (Instr, SymbolTables),
            ParseFault,
        >(ParseFault::UndeclaredLabel(t[1])),
{
    context::lemma_find(m.labels, t[1]);
}

/// A label declaration records the current instruction count as its target.
pub proof fn lemma_label_declaration(m: SymbolTables, t: Seq<Seq<char>>)
    requires
        m.wf(),
        t.len() > 0,
        keyword(t[0]) is None,
        !m.labels.contains(t[0]),
    ensures
        resolve_line(m, t, true) matches Ok((i, after)) && i.opcode is None && after.target(t[0])
            == Some(m.count),
{
    context::lemma_find_push(m.labels, t[0], t[0]);
    context::lemma_find(m.labels, t[0]);
}

/// Every operation refuses a line whose number of arguments differs from its
/// arity, and reports the number it saw.
pub proof fn lemma_arity_checked(m: SymbolTables, t: Seq<Seq<char>>, name_ok: bool)
    requires
        t.len() > 0,
        keyword(t[0]) matches Some(op) && t.len() - 1 != spec_arity(op),
    ensures
        resolve_line(m, t, name_ok) == Err::<(Instr, SymbolTables), ParseFault>(
            ParseFault::WrongArgCount {
                expected: spec_arity(keyword(t[0])->Some_0) as usize,
                got: (t.len() - 1) as usize,
            },
        ),
{
}

/// Assembling one source text twice gives the same program, or the same error.
pub proof fn lemma_assembly_deterministic(
    src: Seq<char>,
    r1: Result<ByteCode, AssemblyError>,
    r2: Result<ByteCode, AssemblyError>,
)
    requires
        assembled_as(assemble(src), r1),
        assembled_as(assemble(src), r2),
    ensures
        r1 is Ok <==> r2 is Ok,
        r1 is Ok ==> r1->Ok_0@ == r2->Ok_0@,
        r1 is Err ==> r1->Err_0@ == r2->Err_0@,
{
}

} // verus!
