//! Opcode constants of the bytecode word layout.
//!
//! Every word at or below `MAX_INSTR_INT` is a fixed opcode constant; binding
//! ids minted by the allocator are always strictly greater than that boundary.

use vstd::prelude::*;

verus! {

/// Highest word value reserved for opcodes; allocator-issued ids start above it.
pub const MAX_INSTR_INT: u32 = 0x32;

/// End-of-instruction sentinel.
pub const ENDL: u32 = 0xA;

/// Allocate storage for a binding, initialized to the null value.
pub const ALLOCA: u32 = 0xB;

/// Rebind a destination id to a copy of a source binding's value.
pub const STORE: u32 = 0xC;

/// Delete a binding and release its id.
pub const DEL: u32 = 0xD;

pub const ADD: u32 = 0xE;

pub const SUB: u32 = 0xF;

pub const MUL: u32 = 0x10;

pub const DIV: u32 = 0x11;

pub const MOD: u32 = 0x12;

/// Unconditional jump to a block; the only instruction without a sentinel.
pub const JUMP: u32 = 0x13;

/// Declare a block: a named program-counter location targeted by jumps.
pub const BLOCK: u32 = 0x14;

/// Jump to a block when a boolean binding holds true.
pub const COND_JUMP: u32 = 0x15;

pub const EQ: u32 = 0x16;

pub const GT: u32 = 0x17;

pub const LT: u32 = 0x18;

pub const GTE: u32 = 0x19;

pub const LTE: u32 = 0x1A;

/// Numeric literal: a variable-length run of decimal digit words.
pub const NUM: u32 = 0x1B;

pub const STDOUT: u32 = 0x1C;

pub const STDIN: u32 = 0x1D;

/// Exponentiation; always yields a float.
pub const EXP: u32 = 0x1E;

/// String literal: the operand indexes the interned string side table.
pub const STR: u32 = 0x1F;

/// Template formatting with a variable-length argument list.
pub const FMT: u32 = 0x20;

pub const BEGIN_SCOPE: u32 = 0x21;

pub const END_SCOPE: u32 = 0x22;

pub const NEQ: u32 = 0x23;

/// Convert a string binding to a number.
pub const CAST_NUM: u32 = 0x24;

/// Convert a binding's value to its textual rendering.
pub const CAST_STR: u32 = 0x25;

/// Render a float with a given decimal precision.
pub const FMT_NUM: u32 = 0x26;

/// Entry marker: arms full dispatch; only declarations run before it.
pub const START: u32 = 0x27;

/// Boolean literal declaration.
pub const BOOL: u32 = 0x28;

/// A word of the stream as a reader sees it: either a plain 32-bit word or
/// the interned string that the word's id aliases in the side table.
pub enum ByteType {
    Str(String),
    Num(u32),
}

/// The model of a resolved stream word.
pub enum AbsByte {
    Str(Seq<char>),
    Num(u32),
}

impl View for ByteType {
    type V = AbsByte;

    open spec fn view(&self) -> AbsByte {
        match self {
            ByteType::Str(s) => AbsByte::Str(s@),
            ByteType::Num(n) => AbsByte::Num(*n),
        }
    }
}

impl DeepView for ByteType {
    type V = AbsByte;

    open spec fn deep_view(&self) -> AbsByte {
        self.view()
    }
}

impl ByteType {
    /// True exactly when this is a plain word equal to `other`.
    pub fn eq(&self, other: &u32) -> (r: bool)
        ensures
            r == (self matches ByteType::Num(n) && n == other),
    {
        if let ByteType::Num(this) = self {
            *other == *this
        } else {
            false
        }
    }
}

} // verus!
