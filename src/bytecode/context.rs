//! The symbol and label tables of one assembly pass.
use vstd::prelude::*;

use crate::config::{Value, VALUE_MAX};
use crate::text::views;

verus! {

/// Whether `pattern` compiles as a regular expression and `text` holds a match of it.
pub uninterp spec fn regex_is_match(pattern: Seq<char>, text: Seq<char>) -> bool;

/// Relies on regex::Regex::new and regex::Regex::is_match: true exactly when
/// `pattern` compiles and some part of `text` matches it.
#[verifier::external_body]
fn regex_matches(pattern: &str, text: &str) -> (r: bool)
    ensures
        r == regex_is_match(pattern@, text@),
{
    match regex::Regex::new(pattern) {
        Ok(re) => re.is_match(text),
        Err(_) => false,
    }
}

/// A variable name: a letter or underscore, at the start of the token.
pub const VARIABLE_PATTERN: &'static str = "^[a-zA-Z_][a-zA-Z0-9_]*";

/// A label: `&` and a letter, digit or underscore, at the start of the token.
pub const LABEL_PATTERN: &'static str = "^&[a-zA-Z_0-9][a-zA-Z0-9_]*";

pub open spec fn is_variable_name(s: Seq<char>) -> bool {
    regex_is_match(VARIABLE_PATTERN@, s)
}

pub open spec fn is_label_name(s: Seq<char>) -> bool {
    regex_is_match(LABEL_PATTERN@, s)
}

/// The first position of `x` in `s`.
pub open spec fn find(s: Seq<Seq<char>>, x: Seq<char>) -> Option<nat>
    decreases s.len(),
{
    if s.len() == 0 {
        None
    } else {
        match find(s.drop_last(), x) {
            Some(i) => Some(i),
            None => if s.last() == x {
                Some((s.len() - 1) as nat)
            } else {
                None
            },
        }
    }
}

pub proof fn lemma_find(s: Seq<Seq<char>>, x: Seq<char>)
    ensures
        find(s, x) matches Some(i) ==> i < s.len() && s[i as int] == x,
        find(s, x) is None <==> !s.contains(x),
        s.no_duplicates() ==> forall|i: int| 0 <= i < s.len() && s[i] == x ==> find(s, x) == Some(i as nat),
    decreases s.len(),
{
    if s.len() > 0 {
        lemma_find(s.drop_last(), x);
        if s.drop_last().contains(x) {
            let j = choose|j: int| 0 <= j < s.drop_last().len() && s.drop_last()[j] == x;
            assert(s[j] == x);
        }
        if s.contains(x) && !s.drop_last().contains(x) {
            let j = choose|j: int| 0 <= j < s.len() && s[j] == x;
            if j < s.len() - 1 {
                assert(s.drop_last()[j] == x);
            }
        }
    }
}

pub proof fn lemma_find_push(s: Seq<Seq<char>>, y: Seq<char>, x: Seq<char>)
    ensures
        find(s.push(y), x) == (if s.contains(x) {
            find(s, x)
        } else if x == y {
            Some(s.len())
        } else {
            None::<nat>
        }),
{
    assert(s.push(y).drop_last() =~= s);
    lemma_find(s, x);
}

/// What one assembly pass knows: the variables by address, the labels with the
/// instruction index each stands for, the number of instructions emitted so
/// far, and the line being read.
pub struct SymbolTables {
    pub vars: Seq<Seq<char>>,
    pub labels: Seq<Seq<char>>,
    pub targets: Seq<Value>,
    pub count: Value,
    pub line: usize,
}

impl SymbolTables {
    pub open spec fn empty() -> SymbolTables {
        SymbolTables { vars: seq![], labels: seq![], targets: seq![], count: 0, line: 0 }
    }

    pub open spec fn wf(self) -> bool {
        &&& self.vars.no_duplicates()
        &&& self.labels.no_duplicates()
        &&& self.labels.len() == self.targets.len()
        &&& self.vars.len() <= VALUE_MAX + 1
    }

    /// The address of variable `name`, if it was written before.
    pub open spec fn address(self, name: Seq<char>) -> Option<Value> {
        match find(self.vars, name) {
            Some(i) => Some(i as Value),
            None => None,
        }
    }

    /// The instruction index that label `name` stands for, if it was declared before.
    pub open spec fn target(self, name: Seq<char>) -> Option<Value> {
        match find(self.labels, name) {
            Some(i) => Some(self.targets[i as int]),
            None => None,
        }
    }
}

/// The tables of one assembly pass, and the words of the line being resolved.
pub struct Context {
    data: Vec<String>,
    labels: Vec<String>,
    targets: Vec<Value>,
    args: Vec<String>,
    pub line_number: usize,
    pub instruction_number: Value,
}

impl View for Context {
    type V = SymbolTables;

    closed spec fn view(&self) -> SymbolTables {
        SymbolTables {
            vars: views(self.data@),
            labels: views(self.labels@),
            targets: self.targets@,
            count: self.instruction_number,
            line: self.line_number,
        }
    }
}

fn position(names: &Vec<String>, name: &str) -> (r: Option<usize>)
    ensures
        match r {
            Some(i) => find(views(names@), name@) == Some(i as nat),
            None => find(views(names@), name@) is None,
        },
{
    let key = name.to_owned();
    let mut i: usize = 0;
    while i < names.len()
        invariant
            i <= names.len(),
            key@ == name@,
            find(views(names@).take(i as int), name@) is None,
        decreases names.len() - i,
    {
        assert(views(names@).take(i + 1).drop_last() =~= views(names@).take(i as int));
        if names[i] == key {
            proof {
                lemma_find(views(names@).take(i + 1), name@);
                lemma_find_prefix(views(names@), name@, i + 1);
            }
            return Some(i);
        }
        i = i + 1;
    }
    assert(views(names@).take(names.len() as int) =~= views(names@));
    None
}

/// A first position found in a prefix is the first position in the whole.
proof fn lemma_find_prefix(s: Seq<Seq<char>>, x: Seq<char>, k: int)
    requires
        0 <= k <= s.len(),
        find(s.take(k), x) is Some,
    ensures
        find(s, x) == find(s.take(k), x),
    decreases s.len() - k,
{
    if k < s.len() {
        assert(s.take(k + 1).drop_last() =~= s.take(k));
        lemma_find_prefix(s, x, k + 1);
    } else {
        assert(s.take(k) =~= s);
    }
}

impl Context {
    pub open spec fn wf(&self) -> bool {
        self@.wf()
    }

    /// The words after the keyword of the line being resolved.
    pub closed spec fn spec_args(&self) -> Seq<Seq<char>> {
        views(self.args@)
    }

    pub fn new() -> (r: Context)
        ensures
            r@ == SymbolTables::empty(),
            r.spec_args() == Seq::<Seq<char>>::empty(),
            r.wf(),
    {
        let r = Context {
            data: Vec::new(),
            labels: Vec::new(),
            targets: Vec::new(),
            args: Vec::new(),
            line_number: 0,
            instruction_number: 0,
        };
        assert(views(r.data@) =~= Seq::<Seq<char>>::empty());
        assert(views(r.labels@) =~= Seq::<Seq<char>>::empty());
        assert(views(r.args@) =~= Seq::<Seq<char>>::empty());
        assert(r.targets@ =~= Seq::<Value>::empty());
        r
    }

    /// Whether `label` has the label syntax.
    pub fn is_label(label: &str) -> (r: bool)
        ensures
            r == is_label_name(label@),
    {
        regex_matches(LABEL_PATTERN, label)
    }

    /// Whether `name` has the variable syntax.
    pub fn is_variable(name: &str) -> (r: bool)
        ensures
            r == is_variable_name(name@),
    {
        regex_matches(VARIABLE_PATTERN, name)
    }

    pub fn has_var(&self, name: &str) -> (r: bool)
        ensures
            r == self@.vars.contains(name@),
    {
        proof {
            lemma_find(self@.vars, name@);
        }
        position(&self.data, name).is_some()
    }

    /// Gives the new variable `name` the next address.
    pub fn add_var(&mut self, name: &str) -> (r: Value)
        requires
            old(self).wf(),
            !old(self)@.vars.contains(name@),
            old(self)@.vars.len() <= VALUE_MAX,
        ensures
            final(self).wf(),
            final(self)@ == (SymbolTables { vars: old(self)@.vars.push(name@), ..old(self)@ }),
            final(self).spec_args() == old(self).spec_args(),
            r == old(self)@.vars.len(),
    {
        let address = self.data.len() as Value;
        let s = name.to_owned();
        proof {
            crate::text::lemma_views_push(self.data@, s);
        }
        self.data.push(s);
        assert(self@.vars.no_duplicates()) by {
            let v = self@.vars;
            assert forall|i: int, j: int| 0 <= i < v.len() && 0 <= j < v.len() && i != j implies v[i] != v[j] by {
                if i == v.len() - 1 {
                    assert(old(self)@.vars.contains(v[j]) || j == i);
                } else if j == v.len() - 1 {
                    assert(old(self)@.vars.contains(v[i]));
                }
            }
        }
        assert(self@ =~= (SymbolTables { vars: old(self)@.vars.push(name@), ..old(self)@ }));
        address
    }

    pub fn has_label(&self, name: &str) -> (r: bool)
        ensures
            r == self@.labels.contains(name@),
    {
        proof {
            lemma_find(self@.labels, name@);
        }
        position(&self.labels, name).is_some()
    }

    /// Records that label `name` stands for instruction index `address`.
    pub fn add_label(&mut self, name: &str, address: Value)
        requires
            old(self).wf(),
            !old(self)@.labels.contains(name@),
        ensures
            final(self).wf(),
            final(self)@ == (SymbolTables {
                labels: old(self)@.labels.push(name@),
                targets: old(self)@.targets.push(address),
                ..old(self)@
            }),
            final(self).spec_args() == old(self).spec_args(),
    {
        let s = name.to_owned();
        proof {
            crate::text::lemma_views_push(self.labels@, s);
        }
        self.labels.push(s);
        self.targets.push(address);
        assert(self@.labels.no_duplicates()) by {
            let v = self@.labels;
            assert forall|i: int, j: int| 0 <= i < v.len() && 0 <= j < v.len() && i != j implies v[i] != v[j] by {
                if i == v.len() - 1 {
                    assert(old(self)@.labels.contains(v[j]) || j == i);
                } else if j == v.len() - 1 {
                    assert(old(self)@.labels.contains(v[i]));
                }
            }
        }
        assert(self@ =~= (SymbolTables {
            labels: old(self)@.labels.push(name@),
            targets: old(self)@.targets.push(address),
            ..old(self)@
        }));
    }

    pub fn get_label(&self, name: &str) -> (r: Value)
        requires
            self.wf(),
            self@.labels.contains(name@),
        ensures
            self@.target(name@) == Some(r),
    {
        proof {
            lemma_find(self@.labels, name@);
        }
        let i = position(&self.labels, name);
        match i {
            Some(i) => self.targets[i],
            None => 0,
        }
    }

    pub fn get_var(&self, name: &str) -> (r: Option<Value>)
        requires
            self.wf(),
        ensures
            r == self@.address(name@),
    {
        proof {
            lemma_find(self@.vars, name@);
        }
        match position(&self.data, name) {
            Some(i) => Some(i as Value),
            None => None,
        }
    }

    pub fn set_args(&mut self, args: Vec<String>)
        ensures
            final(self)@ == old(self)@,
            final(self).spec_args() == views(args@),
    {
        self.args = args;
    }

    pub fn get_arg(&self, index: usize) -> (r: Option<&String>)
        ensures
            match r {
                Some(a) => index < self.spec_args().len() && a@ == self.spec_args()[index as int],
                None => index >= self.spec_args().len(),
            },
    {
        if index < self.args.len() {
            Some(&self.args[index])
        } else {
            None
        }
    }

    pub fn args_len(&self) -> (r: usize)
        ensures
            r == self.spec_args().len(),
    {
        self.args.len()
    }

    /// The number of variables given an address so far.
    pub fn data_size(&self) -> (r: usize)
        ensures
            r == self@.vars.len(),
    {
        self.data.len()
    }

    /// The number of instructions emitted so far.
    pub fn instruction_count(&self) -> (r: Value)
        ensures
            r == self@.count,
    {
        self.instruction_number
    }

    /// Counts one more emitted instruction.
    pub fn count_instruction(&mut self)
        requires
            old(self)@.count < VALUE_MAX,
        ensures
            final(self)@ == (SymbolTables { count: (old(self)@.count + 1) as Value, ..old(self)@ }),
            final(self).spec_args() == old(self).spec_args(),
            final(self).wf() == old(self).wf(),
    {
        self.instruction_number = self.instruction_number + 1;
    }

    /// The line being read.
    pub fn line(&self) -> (r: usize)
        ensures
            r == self@.line,
    {
        self.line_number
    }

    /// Moves to line `line`.
    pub fn set_line(&mut self, line: usize)
        ensures
            final(self)@ == (SymbolTables { line, ..old(self)@ }),
            final(self).spec_args() == old(self).spec_args(),
            final(self).wf() == old(self).wf(),
    {
        self.line_number = line;
    }
}

} // verus!
