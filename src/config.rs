//! The value type and the closed set of operation codes.
use vstd::prelude::*;

verus! {

/// The single value type of the machine: loaded constants, variable contents,
/// variable addresses and jump targets.
pub type Value = u16;

/// The largest value of the machine.
pub const VALUE_MAX: Value = 0xffff;

#[allow(non_camel_case_types)]
#[derive(Debug, PartialEq, Eq, Clone, Copy, Structural)]
pub enum OpCodes {
    LOAD,
    WRT,
    READ,
    ADD,
    MULT,
    RTN,
    TEGT,
    TELT,
    TEEQ,
    GOTO,
    DUP,
    POP,
}

/// The stable numeric encoding of each operation code.
pub open spec fn spec_code(op: OpCodes) -> u8 {
    match op {
        OpCodes::LOAD => 0x01,
        OpCodes::WRT => 0x02,
        OpCodes::READ => 0x03,
        OpCodes::ADD => 0x04,
        OpCodes::MULT => 0x05,
        OpCodes::RTN => 0x06,
        OpCodes::TEGT => 0x07,
        OpCodes::TELT => 0x08,
        OpCodes::TEEQ => 0x09,
        OpCodes::GOTO => 0x0A,
        OpCodes::DUP => 0x0B,
        OpCodes::POP => 0x0C,
    }
}

/// The number of arguments each operation takes.
pub open spec fn spec_arity(op: OpCodes) -> nat {
    match op {
        OpCodes::LOAD | OpCodes::WRT | OpCodes::READ | OpCodes::GOTO => 1,
        _ => 0,
    }
}

/// The encoding of each operation code as written in a listing.
pub open spec fn spec_code_text(op: OpCodes) -> Seq<char> {
    match op {
        OpCodes::LOAD => "0x01"@,
        OpCodes::WRT => "0x02"@,
        OpCodes::READ => "0x03"@,
        OpCodes::ADD => "0x04"@,
        OpCodes::MULT => "0x05"@,
        OpCodes::RTN => "0x06"@,
        OpCodes::TEGT => "0x07"@,
        OpCodes::TELT => "0x08"@,
        OpCodes::TEEQ => "0x09"@,
        OpCodes::GOTO => "0x0A"@,
        OpCodes::DUP => "0x0B"@,
        OpCodes::POP => "0x0C"@,
    }
}

/// The short name of each operation code.
pub open spec fn spec_name(op: OpCodes) -> Seq<char> {
    match op {
        OpCodes::LOAD => "LOAD"@,
        OpCodes::WRT => "WRT"@,
        OpCodes::READ => "READ"@,
        OpCodes::ADD => "ADD"@,
        OpCodes::MULT => "MULT"@,
        OpCodes::RTN => "RTN"@,
        OpCodes::TEGT => "TEGT"@,
        OpCodes::TELT => "TELT"@,
        OpCodes::TEEQ => "TEEQ"@,
        OpCodes::GOTO => "GOTO"@,
        OpCodes::DUP => "DUP"@,
        OpCodes::POP => "POP"@,
    }
}

impl OpCodes {
    /// The encoding of this operation as written in a listing.
    pub fn code_text(&self) -> (r: &'static str)
        ensures
            r@ == spec_code_text(*self),
    {
        match self {
            OpCodes::LOAD => "0x01",
            OpCodes::WRT => "0x02",
            OpCodes::READ => "0x03",
            OpCodes::ADD => "0x04",
            OpCodes::MULT => "0x05",
            OpCodes::RTN => "0x06",
            OpCodes::TEGT => "0x07",
            OpCodes::TELT => "0x08",
            OpCodes::TEEQ => "0x09",
            OpCodes::GOTO => "0x0A",
            OpCodes::DUP => "0x0B",
            OpCodes::POP => "0x0C",
        }
    }

    /// The short name of this operation.
    pub fn name(&self) -> (r: &'static str)
        ensures
            r@ == spec_name(*self),
    {
        match self {
            OpCodes::LOAD => "LOAD",
            OpCodes::WRT => "WRT",
            OpCodes::READ => "READ",
            OpCodes::ADD => "ADD",
            OpCodes::MULT => "MULT",
            OpCodes::RTN => "RTN",
            OpCodes::TEGT => "TEGT",
            OpCodes::TELT => "TELT",
            OpCodes::TEEQ => "TEEQ",
            OpCodes::GOTO => "GOTO",
            OpCodes::DUP => "DUP",
            OpCodes::POP => "POP",
        }
    }

    /// The byte that encodes this operation.
    pub fn code(&self) -> (r: u8)
        ensures
            r == spec_code(*self),
    {
        match self {
            OpCodes::LOAD => 0x01,
            OpCodes::WRT => 0x02,
            OpCodes::READ => 0x03,
            OpCodes::ADD => 0x04,
            OpCodes::MULT => 0x05,
            OpCodes::RTN => 0x06,
            OpCodes::TEGT => 0x07,
            OpCodes::TELT => 0x08,
            OpCodes::TEEQ => 0x09,
            OpCodes::GOTO => 0x0A,
            OpCodes::DUP => 0x0B,
            OpCodes::POP => 0x0C,
        }
    }

    /// The number of arguments this operation takes.
    pub fn arity(&self) -> (r: usize)
        ensures
            r == spec_arity(*self),
    {
        match self {
            OpCodes::LOAD | OpCodes::WRT | OpCodes::READ | OpCodes::GOTO => 1,
            _ => 0,
        }
    }
}

} // verus!
