//! The interpreter: a two-phase loop over a finished stream. The pre-scan
//! pass records every block declaration's position into the block registry;
//! the execution pass dispatches opcodes, honoring forward and backward
//! jumps through the registry, and mutates only the scope stack, the output
//! buffer, the input queue and its own cursor.
//!
//! Before the entry marker is seen, only declarations take effect; every
//! other instruction is skipped by consuming its operand words. A fault
//! aborts the run with the failing instruction's position and opcode.

use vstd::prelude::*;

verus! {

use std::collections::HashMap;
use vstd::string::StringExecFns;
use crate::opcodes::{
    ByteType, AbsByte, ENDL, ALLOCA, STORE, DEL, ADD, SUB, MUL, DIV, MOD, JUMP, BLOCK, COND_JUMP, EQ, GT,
    LT, GTE, LTE, NUM, STDOUT, STDIN, EXP, STR, FMT, BEGIN_SCOPE, END_SCOPE, NEQ, CAST_NUM,
    CAST_STR, FMT_NUM, START, BOOL,
};
use crate::stream::{ByteCode, StreamModel};
use crate::cursor::ByteCursor;
use crate::scope::{ScopeStack, ScopeError, scope_lookup, scope_remove};
use crate::value::{
    ScalarType, AbsVal, render, eval_add, eval_sub, eval_mul, eval_div, eval_rem, eval_pow,
    val_eq, val_neq, val_lt, val_le, val_gt, val_ge,
};
use crate::floats::{
    single_from_text, single_of_u32, single_cmp, single_to_int, single_mul, single_pow,
    cmp_bits, bits_to_int, mul_bits, pow_bits, ZERO_BITS,
};
use crate::text::{
    nat_text, int_text, digits_value, is_dec_digit, is_decimal_text, u32_to_string, u128_to_string,
    i128_to_string, parse_u32, push_char, Order,
};
use crate::fmt::{fmt_text, dyn_format};

broadcast use vstd::std_specs::hash::group_hash_axioms;

/// The ways a run can fail.
#[derive(PartialEq, Eq, Structural, Clone, Copy, Debug)]
pub enum VmErrorKind {
    /// A read binding is bound in no frame.
    UnknownBinding(u32),
    /// A deleted binding is bound in no frame.
    DeleteUnknown(u32),
    /// A deleted binding's id was already released from the allocator.
    DoubleRelease(u32),
    /// A jump targeted a block id missing from the registry.
    UnknownBlock(u32),
    /// A plain word was needed but the stream ended.
    StreamEnd,
    /// A plain word was needed but the word aliases an interned string.
    ExpectedWord,
    /// An interned string was needed but the word is plain.
    ExpectedText,
    /// An operand held the wrong kind of value for the instruction.
    WrongKind,
    /// The operator does not support this pairing of value kinds.
    IllegalOp,
    /// A numeric literal's text is malformed or out of range.
    MalformedNumber,
    /// The placeholder count does not match the argument count.
    ArityMismatch,
    /// A binding instruction ran with no scope frame on the stack.
    ScopeUnderflow,
    /// A console read ran with no input line left.
    InputExhausted,
    /// The step budget was exhausted before the stream was.
    OutOfSteps,
}

/// A fatal fault: the failing instruction's stream position and opcode,
/// with the cause.
#[derive(Debug)]
pub struct VmError {
    pub pos: usize,
    pub opcode: u32,
    pub kind: VmErrorKind,
}

/// The rendered message of a fault kind.
pub open spec fn kind_text(k: VmErrorKind) -> Seq<char> {
    match k {
        VmErrorKind::UnknownBinding(id) => "Unknown memory "@ + nat_text(id as nat)
            + " referenced."@,
        VmErrorKind::DeleteUnknown(id) => "Tried to delete memory "@ + nat_text(id as nat)
            + " which does not exist."@,
        VmErrorKind::DoubleRelease(id) => "The dynamic id "@ + nat_text(id as nat)
            + " was deleted twice."@,
        VmErrorKind::UnknownBlock(id) => "Jump to unregistered block "@ + nat_text(id as nat)
            + "."@,
        VmErrorKind::StreamEnd => "Read past the end of the stream."@,
        VmErrorKind::ExpectedWord => "Expected a plain word."@,
        VmErrorKind::ExpectedText => "Expected an interned string."@,
        VmErrorKind::WrongKind => "Operand holds the wrong kind of value."@,
        VmErrorKind::IllegalOp => "Illegal operation."@,
        VmErrorKind::MalformedNumber => "Malformed numeric literal."@,
        VmErrorKind::ArityMismatch => "Incorrect number of arguments for format string."@,
        VmErrorKind::ScopeUnderflow => "No scope frame is open."@,
        VmErrorKind::InputExhausted => "No input line is available."@,
        VmErrorKind::OutOfSteps => "The step budget ran out."@,
    }
}

/// The rendered message of a fault: position, opcode and cause.
pub open spec fn error_text(e: VmError) -> Seq<char> {
    "at position "@ + nat_text(e.pos as nat) + ", opcode "@ + nat_text(e.opcode as nat) + ": "@
        + kind_text(e.kind)
}

impl VmErrorKind {
    /// A human-readable description of the cause.
    pub fn message(&self) -> (s: String)
        ensures
            s@ == kind_text(*self),
    {
        match self {
            VmErrorKind::UnknownBinding(id) => {
                let mut s = "Unknown memory ".to_owned();
                s.append(u32_to_string(*id).as_str());
                s.append(" referenced.");
                s
            },
            VmErrorKind::DeleteUnknown(id) => {
                let mut s = "Tried to delete memory ".to_owned();
                s.append(u32_to_string(*id).as_str());
                s.append(" which does not exist.");
                s
            },
            VmErrorKind::DoubleRelease(id) => {
                let mut s = "The dynamic id ".to_owned();
                s.append(u32_to_string(*id).as_str());
                s.append(" was deleted twice.");
                s
            },
            VmErrorKind::UnknownBlock(id) => {
                let mut s = "Jump to unregistered block ".to_owned();
                s.append(u32_to_string(*id).as_str());
                s.append(".");
                s
            },
            VmErrorKind::StreamEnd => "Read past the end of the stream.".to_owned(),
            VmErrorKind::ExpectedWord => "Expected a plain word.".to_owned(),
            VmErrorKind::ExpectedText => "Expected an interned string.".to_owned(),
            VmErrorKind::WrongKind => "Operand holds the wrong kind of value.".to_owned(),
            VmErrorKind::IllegalOp => "Illegal operation.".to_owned(),
            VmErrorKind::MalformedNumber => "Malformed numeric literal.".to_owned(),
            VmErrorKind::ArityMismatch => {
                "Incorrect number of arguments for format string.".to_owned()
            },
            VmErrorKind::ScopeUnderflow => "No scope frame is open.".to_owned(),
            VmErrorKind::InputExhausted => "No input line is available.".to_owned(),
            VmErrorKind::OutOfSteps => "The step budget ran out.".to_owned(),
        }
    }
}

impl VmError {
    /// A human-readable report: position, opcode and cause.
    pub fn message(&self) -> (s: String)
        ensures
            s@ == error_text(*self),
    {
        let mut s = "at position ".to_owned();
        s.append(crate::text::u128_to_string(self.pos as u128).as_str());
        s.append(", opcode ");
        s.append(u32_to_string(self.opcode).as_str());
        s.append(": ");
        s.append(self.kind.message().as_str());
        s
    }
}

/// True when index `i` holds a word that resolves to itself (no string
/// alias) inside the stream.
pub open spec fn plain_at(m: StreamModel, i: int) -> bool {
    0 <= i < m.words.len() && !m.strtab.contains_key(m.words[i])
}

/// True when index `i` holds a word that aliases an interned string.
pub open spec fn text_at(m: StreamModel, i: int) -> bool {
    0 <= i < m.words.len() && m.strtab.contains_key(m.words[i])
}

/// The frames after binding `key` to `v` in the innermost frame.
pub open spec fn frames_set(frames: Seq<Map<u32, AbsVal>>, key: u32, v: AbsVal) -> Seq<
    Map<u32, AbsVal>,
> {
    frames.drop_last().push(frames.last().insert(key, v))
}

/// The value the binding named by the word at index `i` holds.
pub open spec fn operand(m: StreamModel, frames: Seq<Map<u32, AbsVal>>, i: int) -> Option<AbsVal> {
    scope_lookup(frames, m.words[i])
}

/// The run of plain words from `i` up to the first sentinel, with the
/// sentinel's position; `None` when the stream ends or a string word
/// appears before a sentinel.
pub open spec fn scan_run(m: StreamModel, i: int) -> Option<(Seq<u32>, int)>
    decreases m.words.len() - i,
{
    if i < 0 || i >= m.words.len() || !plain_at(m, i) {
        None
    } else if m.words[i] == ENDL {
        Some((Seq::empty(), i))
    } else {
        match scan_run(m, i + 1) {
            Some(p) => Some((seq![m.words[i]] + p.0, p.1)),
            None => None,
        }
    }
}

/// The decimal text of a run of digit words, each word rendered in decimal,
/// in order.
pub open spec fn digits_text(ds: Seq<u32>) -> Seq<char>
    decreases ds.len(),
{
    if ds.len() == 0 {
        Seq::empty()
    } else {
        digits_text(ds.drop_last()) + nat_text(ds.last() as nat)
    }
}

proof fn lemma_nat_text_digits(n: nat)
    ensures
        nat_text(n).len() > 0,
        forall|i: int| 0 <= i < nat_text(n).len() ==> is_dec_digit(#[trigger] nat_text(n)[i]),
    decreases n,
{
    if n >= 10 {
        lemma_nat_text_digits(n / 10);
    }
}

proof fn lemma_digits_text_decimal(ds: Seq<u32>)
    ensures
        digits_text(ds).len() >= ds.len(),
        forall|i: int|
            0 <= i < digits_text(ds).len() ==> is_dec_digit(#[trigger] digits_text(ds)[i]),
    decreases ds.len(),
{
    if ds.len() > 0 {
        lemma_digits_text_decimal(ds.drop_last());
        lemma_nat_text_digits(ds.last() as nat);
    }
}

/// The renderings of the values bound to a run of argument ids, in order;
/// `None` when some id is bound in no frame.
pub open spec fn render_ids(frames: Seq<Map<u32, AbsVal>>, ids: Seq<u32>) -> Option<
    Seq<Seq<char>>,
>
    decreases ids.len(),
{
    if ids.len() == 0 {
        Some(Seq::empty())
    } else {
        match render_ids(frames, ids.drop_last()) {
            Some(pre) => match scope_lookup(frames, ids.last()) {
                Some(v) => Some(pre.push(render(v))),
                None => None,
            },
            None => None,
        }
    }
}

/// The block registry a pre-scan of the stream builds, starting from word
/// `i` with `acc` already recorded: every block declaration maps its id to
/// the position just after the declaring opcode; a later declaration of the
/// same id wins.
pub open spec fn registry_spec(m: StreamModel, i: int, acc: Map<u32, u32>) -> Map<u32, u32>
    decreases m.words.len() - i,
{
    if i < 0 || i >= m.words.len() {
        acc
    } else if plain_at(m, i) && m.words[i] == BLOCK && plain_at(m, i + 1) {
        let nxt = if i + 3 <= m.words.len() {
            i + 3
        } else {
            m.words.len() as int
        };
        registry_spec(m, nxt, acc.insert(m.words[i + 1], (i + 1) as u32))
    } else {
        registry_spec(m, i + 1, acc)
    }
}

/// The block registry of a whole stream.
pub open spec fn block_registry(m: StreamModel) -> Map<u32, u32> {
    registry_spec(m, 0, Map::empty())
}

/// True when the two streams hold the same code: equal words and equal
/// string side tables (the allocator state may differ).
pub open spec fn same_code(a: StreamModel, b: StreamModel) -> bool {
    a.words == b.words && a.strtab == b.strtab
}

/// The index of the first sentinel word at or after `i`, or -1 when the
/// stream ends first.
pub open spec fn find_endl(m: StreamModel, i: int) -> int
    decreases m.words.len() - i,
{
    if i < 0 || i >= m.words.len() {
        -1
    } else if plain_at(m, i) && m.words[i] == ENDL {
        i
    } else {
        find_endl(m, i + 1)
    }
}

/// How many words (operands and sentinel) an instruction occupies after its
/// opcode, for the fixed-arity instructions.
pub open spec fn skip_arity(w: u32) -> int {
    if w == STORE || w == COND_JUMP || w == CAST_NUM || w == CAST_STR {
        3
    } else if w == EQ || w == GT || w == LT || w == GTE || w == LTE || w == NEQ || w == ADD || w
        == SUB || w == MUL || w == DIV || w == MOD || w == EXP || w == FMT_NUM {
        4
    } else if w == DEL || w == BLOCK || w == STDOUT || w == STDIN {
        2
    } else if w == JUMP {
        1
    } else {
        0
    }
}

/// The observable state of a run between dispatch steps: the scope frames,
/// the allocator's registered ids, the cursor position, the armed flag, the
/// console output and remaining input, and whether the run has halted
/// normally or faulted.
#[verifier::ext_equal]
pub struct MachineState {
    pub frames: Seq<Map<u32, AbsVal>>,
    pub registered: Set<u32>,
    pub pos: int,
    pub armed: bool,
    pub out: Seq<char>,
    pub inp: Seq<Seq<char>>,
    pub halted: bool,
    pub fault: bool,
}

/// The machine state a run starts from: the executor's frames, allocator,
/// output and input as they stand, the cursor one before the start,
/// dispatch not yet armed.
pub open spec fn run_start_state(e: Executor) -> MachineState {
    MachineState {
        frames: e.frames(),
        registered: e.stream().registered,
        pos: -1,
        armed: false,
        out: e.out(),
        inp: e.inp(),
        halted: false,
        fault: false,
    }
}

/// The state after a fault: everything frozen, the fault flag set.
pub open spec fn step_fault(s: MachineState) -> MachineState {
    MachineState { fault: true, ..s }
}

/// One armed dispatch of opcode `w` standing at position `s.pos`, against
/// the code of `m` and the block registry `reg`. Mirrors, case by case,
/// what each instruction handler's contract states.
pub open spec fn step_dispatch(
    m: StreamModel,
    reg: Map<u32, u32>,
    s: MachineState,
    w: u32,
) -> MachineState {
    let p = s.pos;
    if w == ENDL {
        s
    } else if w == ALLOCA {
        if p + 2 < m.words.len() && plain_at(m, p + 1) && s.frames.len() > 0 {
            MachineState {
                frames: frames_set(s.frames, m.words[p + 1], AbsVal::Null),
                pos: p + 2,
                ..s
            }
        } else {
            step_fault(s)
        }
    } else if w == BOOL {
        if p + 3 < m.words.len() && plain_at(m, p + 1) && plain_at(m, p + 2) && s.frames.len()
            > 0 {
            MachineState {
                frames: frames_set(s.frames, m.words[p + 1], AbsVal::Bool(m.words[p + 2] != 0)),
                pos: p + 3,
                ..s
            }
        } else {
            step_fault(s)
        }
    } else if w == STORE {
        if p + 3 < m.words.len() && plain_at(m, p + 1) && plain_at(m, p + 2) && operand(
            m,
            s.frames,
            p + 2,
        ) is Some && s.frames.len() > 0 {
            MachineState {
                frames: frames_set(s.frames, m.words[p + 1], operand(m, s.frames, p + 2)->Some_0),
                pos: p + 3,
                ..s
            }
        } else {
            step_fault(s)
        }
    } else if w == DEL {
        if p + 2 < m.words.len() && plain_at(m, p + 1) && scope_remove(
            s.frames,
            m.words[p + 1],
        ) is Some && s.registered.contains(m.words[p + 1]) {
            MachineState {
                frames: scope_remove(s.frames, m.words[p + 1])->Some_0,
                registered: s.registered.remove(m.words[p + 1]),
                pos: p + 2,
                ..s
            }
        } else {
            step_fault(s)
        }
    } else if w == EQ || w == NEQ || w == GT || w == LT || w == GTE || w == LTE {
        if binop_ready(m, s.frames, p) && s.frames.len() > 0 {
            let l = operand(m, s.frames, p + 2)->Some_0;
            let r = operand(m, s.frames, p + 3)->Some_0;
            let b = if w == EQ {
                val_eq(l, r)
            } else if w == NEQ {
                val_neq(l, r)
            } else if w == GT {
                val_gt(l, r)
            } else if w == LT {
                val_lt(l, r)
            } else if w == GTE {
                val_ge(l, r)
            } else {
                val_le(l, r)
            };
            MachineState {
                frames: frames_set(s.frames, m.words[p + 1], AbsVal::Bool(b)),
                pos: p + 4,
                ..s
            }
        } else {
            step_fault(s)
        }
    } else if w == ADD || w == SUB || w == MUL || w == DIV || w == MOD || w == EXP {
        if binop_ready(m, s.frames, p) && s.frames.len() > 0 {
            let l = operand(m, s.frames, p + 2)->Some_0;
            let r = operand(m, s.frames, p + 3)->Some_0;
            let v = if w == ADD {
                eval_add(l, r)
            } else if w == SUB {
                eval_sub(l, r)
            } else if w == MUL {
                eval_mul(l, r)
            } else if w == DIV {
                eval_div(l, r)
            } else if w == MOD {
                eval_rem(l, r)
            } else {
                eval_pow(l, r)
            };
            if v is Some {
                MachineState {
                    frames: frames_set(s.frames, m.words[p + 1], v->Some_0),
                    pos: p + 4,
                    ..s
                }
            } else {
                step_fault(s)
            }
        } else {
            step_fault(s)
        }
    } else if w == NUM {
        if ({
            &&& plain_at(m, p + 1)
            &&& scan_run(m, p + 2) matches Some(t) && t.0.len() > 0
            &&& s.frames.len() > 0
        }) {
            let t = scan_run(m, p + 2)->Some_0;
            MachineState {
                frames: frames_set(
                    s.frames,
                    m.words[p + 1],
                    AbsVal::Float(single_from_text(digits_text(t.0))),
                ),
                pos: t.1,
                ..s
            }
        } else {
            step_fault(s)
        }
    } else if w == STR {
        if p + 3 < m.words.len() && plain_at(m, p + 1) && text_at(m, p + 2) && s.frames.len()
            > 0 {
            MachineState {
                frames: frames_set(
                    s.frames,
                    m.words[p + 1],
                    AbsVal::Str(m.strtab[m.words[p + 2]]),
                ),
                pos: p + 3,
                ..s
            }
        } else {
            step_fault(s)
        }
    } else if w == FMT {
        if ({
            &&& plain_at(m, p + 1)
            &&& plain_at(m, p + 2)
            &&& operand(m, s.frames, p + 2) matches Some(AbsVal::Str(_))
            &&& scan_run(m, p + 3) matches Some(t) && render_ids(s.frames, t.0) matches Some(args)
                && fmt_text(operand(m, s.frames, p + 2)->Some_0->Str_0, args) is Some
            &&& s.frames.len() > 0
        }) {
            let tpl = operand(m, s.frames, p + 2)->Some_0->Str_0;
            let t = scan_run(m, p + 3)->Some_0;
            let args = render_ids(s.frames, t.0)->Some_0;
            MachineState {
                frames: frames_set(
                    s.frames,
                    m.words[p + 1],
                    AbsVal::Str(fmt_text(tpl, args)->Some_0),
                ),
                pos: t.1,
                ..s
            }
        } else {
            step_fault(s)
        }
    } else if w == STDOUT {
        if p + 2 < m.words.len() && plain_at(m, p + 1) && operand(m, s.frames, p + 1) is Some {
            MachineState {
                out: s.out + render(operand(m, s.frames, p + 1)->Some_0),
                pos: p + 2,
                ..s
            }
        } else {
            step_fault(s)
        }
    } else if w == STDIN {
        if p + 2 < m.words.len() && plain_at(m, p + 1) && s.inp.len() > 0 && s.frames.len() > 0 {
            MachineState {
                frames: frames_set(s.frames, m.words[p + 1], AbsVal::Str(s.inp[0])),
                inp: s.inp.skip(1),
                pos: p + 2,
                ..s
            }
        } else {
            step_fault(s)
        }
    } else if w == BEGIN_SCOPE {
        MachineState { frames: s.frames.push(Map::empty()), ..s }
    } else if w == END_SCOPE {
        MachineState {
            frames: if s.frames.len() > 0 {
                s.frames.drop_last()
            } else {
                s.frames
            },
            ..s
        }
    } else if w == BLOCK {
        if p + 2 < m.words.len() {
            MachineState { pos: p + 2, ..s }
        } else {
            step_fault(s)
        }
    } else if w == JUMP {
        if plain_at(m, p + 1) && reg.contains_key(m.words[p + 1]) {
            MachineState { pos: reg[m.words[p + 1]] as int, ..s }
        } else {
            step_fault(s)
        }
    } else if w == COND_JUMP {
        if ({
            &&& plain_at(m, p + 1)
            &&& plain_at(m, p + 2)
            &&& operand(m, s.frames, p + 2) matches Some(AbsVal::Bool(b)) && (if b {
                reg.contains_key(m.words[p + 1])
            } else {
                p + 3 < m.words.len()
            })
        }) {
            let b = operand(m, s.frames, p + 2)->Some_0->Bool_0;
            MachineState {
                pos: if b {
                    reg[m.words[p + 1]] as int
                } else {
                    p + 3
                },
                ..s
            }
        } else {
            step_fault(s)
        }
    } else if w == CAST_NUM {
        if ({
            &&& p + 3 < m.words.len()
            &&& plain_at(m, p + 1)
            &&& plain_at(m, p + 2)
            &&& operand(m, s.frames, p + 2) matches Some(AbsVal::Str(t)) && is_decimal_text(t)
                && digits_value(t) <= u32::MAX
            &&& s.frames.len() > 0
        }) {
            let t = operand(m, s.frames, p + 2)->Some_0->Str_0;
            MachineState {
                frames: frames_set(
                    s.frames,
                    m.words[p + 1],
                    AbsVal::Float(single_of_u32(digits_value(t) as u32)),
                ),
                pos: p + 3,
                ..s
            }
        } else {
            step_fault(s)
        }
    } else if w == CAST_STR {
        if p + 3 < m.words.len() && plain_at(m, p + 1) && plain_at(m, p + 2) && operand(
            m,
            s.frames,
            p + 2,
        ) is Some && s.frames.len() > 0 {
            MachineState {
                frames: frames_set(
                    s.frames,
                    m.words[p + 1],
                    AbsVal::Str(render(operand(m, s.frames, p + 2)->Some_0)),
                ),
                pos: p + 3,
                ..s
            }
        } else {
            step_fault(s)
        }
    } else if w == FMT_NUM {
        if ({
            &&& binop_ready(m, s.frames, p)
            &&& operand(m, s.frames, p + 2) matches Some(AbsVal::Float(_))
            &&& operand(m, s.frames, p + 3) matches Some(AbsVal::Float(_))
            &&& s.frames.len() > 0
        }) {
            let nb = operand(m, s.frames, p + 2)->Some_0->Float_0;
            let pb = operand(m, s.frames, p + 3)->Some_0->Float_0;
            MachineState {
                frames: frames_set(s.frames, m.words[p + 1], AbsVal::Str(fmt_num_text(nb, pb))),
                pos: p + 4,
                ..s
            }
        } else {
            step_fault(s)
        }
    } else {
        s
    }
}

/// One pre-armed skip of the operands of opcode `w` at `s.pos`.
pub open spec fn step_skip(m: StreamModel, s: MachineState, w: u32) -> MachineState {
    if w == FMT {
        let e = find_endl(m, s.pos + 1);
        if e >= 0 {
            MachineState { pos: e, ..s }
        } else {
            step_fault(s)
        }
    } else {
        let a = skip_arity(w);
        if a == 0 {
            s
        } else if s.pos + a < m.words.len() {
            MachineState { pos: s.pos + a, ..s }
        } else {
            step_fault(s)
        }
    }
}

/// One step of the execution pass: read the word after the current
/// position; a halted or faulted state is final; the end of the stream
/// halts; a word aliasing an interned string is ignored; before the entry
/// marker only declarations dispatch and the marker arms, everything else
/// skips its operands; once armed, every opcode dispatches.
pub open spec fn step_state(m: StreamModel, reg: Map<u32, u32>, s: MachineState) -> MachineState {
    if s.halted || s.fault {
        s
    } else if s.pos + 1 == m.words.len() {
        MachineState { halted: true, ..s }
    } else {
        let p = s.pos + 1;
        let w = m.words[p];
        let s1 = MachineState { pos: p, ..s };
        if m.strtab.contains_key(w) {
            s1
        } else if s.armed {
            step_dispatch(m, reg, s1, w)
        } else {
            if w == ALLOCA || w == NUM || w == STR || w == BOOL {
                step_dispatch(m, reg, s1, w)
            } else if w == START {
                MachineState { armed: true, ..s1 }
            } else {
                step_skip(m, s1, w)
            }
        }
    }
}

/// The state after `n` execution steps.
pub open spec fn steps(m: StreamModel, reg: Map<u32, u32>, s: MachineState, n: nat) -> MachineState
    decreases n,
{
    if n == 0 {
        s
    } else {
        step_state(m, reg, steps(m, reg, s, (n - 1) as nat))
    }
}

proof fn lemma_scan_run_code(a: StreamModel, b: StreamModel, i: int)
    requires
        same_code(a, b),
    ensures
        scan_run(a, i) == scan_run(b, i),
    decreases a.words.len() - i,
{
    if 0 <= i < a.words.len() {
        assert(plain_at(a, i) == plain_at(b, i));
        if plain_at(a, i) && a.words[i] != ENDL {
            lemma_scan_run_code(a, b, i + 1);
        }
    }
}

proof fn lemma_find_endl_code(a: StreamModel, b: StreamModel, i: int)
    requires
        same_code(a, b),
    ensures
        find_endl(a, i) == find_endl(b, i),
    decreases a.words.len() - i,
{
    if 0 <= i < a.words.len() {
        assert(plain_at(a, i) == plain_at(b, i));
        if !(plain_at(a, i) && a.words[i] == ENDL) {
            lemma_find_endl_code(a, b, i + 1);
        }
    }
}

/// Readiness of a three-operand instruction (destination, left, right, and
/// a sentinel to consume) at opcode position `p`.
pub open spec fn binop_ready(m: StreamModel, frames: Seq<Map<u32, AbsVal>>, p: int) -> bool {
    &&& p + 4 < m.words.len()
    &&& plain_at(m, p + 1)
    &&& plain_at(m, p + 2)
    &&& plain_at(m, p + 3)
    &&& operand(m, frames, p + 2) is Some
    &&& operand(m, frames, p + 3) is Some
}

/// The executor: block registry, cursor, scope stack, collected console
/// output and queued console input.
pub struct Executor {
    blocks: HashMap<u32, u32>,
    bytecode: ByteCursor,
    stack: ScopeStack,
    output: String,
    input: Vec<String>,
    next_input: usize,
}

impl Executor {
    /// The stream under execution.
    pub closed spec fn stream(&self) -> StreamModel {
        self.bytecode.stream()
    }

    /// The cursor position: the index of the last word read.
    pub closed spec fn pos(&self) -> int {
        self.bytecode.pos()
    }

    /// The scope frames, innermost last.
    pub closed spec fn frames(&self) -> Seq<Map<u32, AbsVal>> {
        self.stack@
    }

    /// The block registry.
    pub closed spec fn registry(&self) -> Map<u32, u32> {
        self.blocks@
    }

    /// The console output collected so far.
    pub closed spec fn out(&self) -> Seq<char> {
        self.output@
    }

    /// The input lines not yet consumed.
    pub closed spec fn inp(&self) -> Seq<Seq<char>> {
        self.input.deep_view().skip(self.next_input as int)
    }

    /// Well-formedness: the cursor is sound and every registry entry points
    /// inside the stream.
    pub closed spec fn wf(&self) -> bool {
        &&& self.bytecode.wf()
        &&& self.next_input <= self.input@.len()
        &&& forall|b: u32|
            self.blocks@.contains_key(b) ==> self.blocks@[b] < self.stream().words.len()
    }

    /// A fresh executor over a finished stream: empty registry, one empty
    /// global frame, no output, no input.
    pub fn new(bytecode: Box<ByteCode>) -> (r: Executor)
        requires
            bytecode.wf(),
            bytecode@.words.len() <= i32::MAX,
        ensures
            r.wf(),
            r.stream() == bytecode@,
            r.pos() == -1,
            r.frames() =~= seq![Map::<u32, AbsVal>::empty()],
            r.registry() == Map::<u32, u32>::empty(),
            r.out() == Seq::<char>::empty(),
            r.inp() == Seq::<Seq<char>>::empty(),
    {
        let r = Executor {
            blocks: HashMap::new(),
            bytecode: ByteCursor::new(bytecode),
            stack: ScopeStack::new(),
            output: String::new(),
            input: Vec::new(),
            next_input: 0,
        };
        proof {
            assert(r.inp() =~= Seq::<Seq<char>>::empty());
        }
        r
    }

    /// Queues one console line, stripping at most one trailing newline and
    /// then at most one trailing carriage return; lines are consumed in
    /// order.
    pub fn feed_line(&mut self, line: String)
        requires
            old(self).wf(),
        ensures
            final(self).wf(),
            final(self).inp() =~= old(self).inp().push(crate::text::strip_line(line@)),
            final(self).stream() == old(self).stream(),
            final(self).pos() == old(self).pos(),
            final(self).frames() == old(self).frames(),
            final(self).registry() == old(self).registry(),
            final(self).out() == old(self).out(),
    {
        self.input.push(crate::text::strip_line_end(line.as_str()));
    }

    /// The console output collected so far.
    pub fn output(&self) -> (r: &String)
        ensures
            r@ == self.out(),
    {
        &self.output
    }

    /// The recorded position of a block, when the registry holds it.
    pub fn block_position(&self, block: u32) -> (r: Option<u32>)
        ensures
            match r {
                Some(p) => self.registry().contains_key(block) && p == self.registry()[block],
                None => !self.registry().contains_key(block),
            },
    {
        match self.blocks.get(&block) {
            Some(p) => Some(*p),
            None => None,
        }
    }

    /// Phase one: scans the whole stream and rebuilds the block registry
    /// from nothing; a pure function of the stream's words and side table.
    pub fn prescan(&mut self)
        requires
            old(self).wf(),
        ensures
            final(self).wf(),
            final(self).registry() == block_registry(old(self).stream()),
            final(self).stream() == old(self).stream(),
            final(self).pos() == -1,
            final(self).frames() == old(self).frames(),
            final(self).out() == old(self).out(),
            final(self).inp() == old(self).inp(),
    {
        self.blocks = HashMap::new();
        let len = self.bytecode.len();
        let mut p: usize = 0;
        proof {
            assert(self.blocks@ =~= Map::<u32, u32>::empty());
        }
        while p < len
            invariant
                self.wf(),
                self.stack@ == old(self).stack@,
                self.output == old(self).output,
                self.input == old(self).input,
                self.next_input == old(self).next_input,
                len == self.stream().words.len(),
                self.stream() == old(self).stream(),
                0 <= p,
                block_registry(old(self).stream()) == registry_spec(
                    self.stream(),
                    p as int,
                    self.blocks@,
                ),
            decreases len - p,
        {
            let w = self.bytecode.at(p);
            let mut stepped = false;
            if let ByteType::Num(v) = w {
                if v == BLOCK && p + 1 < len {
                    if let ByteType::Num(id) = self.bytecode.at(p + 1) {
                        proof {
                            self.bytecode.lemma_len_bound();
                        }
                        self.blocks.insert(id, (p + 1) as u32);
                        if len - p >= 3 {
                            p = p + 3;
                        } else {
                            p = len;
                        }
                        stepped = true;
                    }
                }
            }
            if !stepped {
                p = p + 1;
            }
        }
        self.bytecode.rewind();
    }

    fn _next(&mut self) -> (r: Result<u32, VmErrorKind>)
        requires
            old(self).wf(),
        ensures
            final(self).wf(),
            final(self).stream() == old(self).stream(),
            final(self).frames() == old(self).frames(),
            final(self).registry() == old(self).registry(),
            final(self).out() == old(self).out(),
            final(self).inp() == old(self).inp(),
            if old(self).pos() + 1 == old(self).stream().words.len() {
                r == Result::<u32, VmErrorKind>::Err(VmErrorKind::StreamEnd) && final(self).pos()
                    == -1
            } else if plain_at(old(self).stream(), old(self).pos() + 1) {
                r == Result::<u32, VmErrorKind>::Ok(
                    old(self).stream().words[old(self).pos() + 1],
                ) && final(self).pos() == old(self).pos() + 1
            } else {
                r == Result::<u32, VmErrorKind>::Err(VmErrorKind::ExpectedWord)
                    && final(self).pos() == old(self).pos() + 1
            },
    {
        proof {
            old(self).bytecode.lemma_len_bound();
        }
        let r = self.bytecode._next();
        match r {
            Ok(b) => {
                let ghost bv = b@;
                match b {
                    ByteType::Num(w) => Ok(w),
                    ByteType::Str(_) => Err(VmErrorKind::ExpectedWord),
                }
            },
            Err(()) => Err(VmErrorKind::StreamEnd),
        }
    }

    fn _next_str(&mut self) -> (r: Result<String, VmErrorKind>)
        requires
            old(self).wf(),
        ensures
            final(self).wf(),
            final(self).stream() == old(self).stream(),
            final(self).frames() == old(self).frames(),
            final(self).registry() == old(self).registry(),
            final(self).out() == old(self).out(),
            final(self).inp() == old(self).inp(),
            if old(self).pos() + 1 == old(self).stream().words.len() {
                r matches Err(k) && k == VmErrorKind::StreamEnd && final(self).pos() == -1
            } else if text_at(old(self).stream(), old(self).pos() + 1) {
                r matches Ok(s) && s@ == old(self).stream().strtab[old(self).stream().words[old(self).pos() + 1]]
                    && final(self).pos() == old(self).pos() + 1
            } else {
                r matches Err(k) && k == VmErrorKind::ExpectedText
                    && final(self).pos() == old(self).pos() + 1
            },
    {
        proof {
            old(self).bytecode.lemma_len_bound();
        }
        let r = self.bytecode._next();
        match r {
            Ok(b) => {
                let ghost bv = b@;
                match b {
                    ByteType::Str(s) => Ok(s),
                    ByteType::Num(_) => Err(VmErrorKind::ExpectedText),
                }
            },
            Err(()) => Err(VmErrorKind::StreamEnd),
        }
    }

    fn skip_word(&mut self) -> (r: Result<(), VmErrorKind>)
        requires
            old(self).wf(),
        ensures
            final(self).wf(),
            final(self).stream() == old(self).stream(),
            final(self).frames() == old(self).frames(),
            final(self).registry() == old(self).registry(),
            final(self).out() == old(self).out(),
            final(self).inp() == old(self).inp(),
            if old(self).pos() + 1 == old(self).stream().words.len() {
                r is Err && final(self).pos() == -1
            } else {
                r is Ok && final(self).pos() == old(self).pos() + 1
            },
    {
        match self.bytecode._next() {
            Ok(_) => Ok(()),
            Err(()) => Err(VmErrorKind::StreamEnd),
        }
    }

    fn lookup_val(&self, id: u32) -> (r: Result<ScalarType, VmErrorKind>)
        ensures
            match r {
                Ok(v) => scope_lookup(self.frames(), id) == Some(v@),
                Err(k) => {
                    &&& k == VmErrorKind::UnknownBinding(id)
                    &&& scope_lookup(self.frames(), id) is None
                },
            },
    {
        match self.stack.get(id) {
            Ok(v) => Ok(v),
            Err(ScopeError::Unknown(_)) => Err(VmErrorKind::UnknownBinding(id)),
            Err(ScopeError::NotBound(_)) => Err(VmErrorKind::UnknownBinding(id)),
        }
    }

    fn set_val(&mut self, id: u32, v: ScalarType) -> (r: Result<(), VmErrorKind>)
        requires
            old(self).wf(),
        ensures
            final(self).wf(),
            final(self).stream() == old(self).stream(),
            final(self).pos() == old(self).pos(),
            final(self).registry() == old(self).registry(),
            final(self).out() == old(self).out(),
            final(self).inp() == old(self).inp(),
            r is Ok <==> old(self).frames().len() > 0,
            r is Ok ==> final(self).frames() =~= frames_set(old(self).frames(), id, v@),
            r is Err ==> final(self).frames() == old(self).frames() && r == Result::<
                (),
                VmErrorKind,
            >::Err(VmErrorKind::ScopeUnderflow),
    {
        if self.stack.depth() == 0 {
            return Err(VmErrorKind::ScopeUnderflow);
        }
        self.stack.set(id, v);
        Ok(())
    }

    fn read_op3(&mut self) -> (r: Result<(u32, ScalarType, ScalarType), VmErrorKind>)
        requires
            old(self).wf(),
        ensures
            final(self).wf(),
            final(self).stream() == old(self).stream(),
            final(self).frames() == old(self).frames(),
            final(self).registry() == old(self).registry(),
            final(self).out() == old(self).out(),
            final(self).inp() == old(self).inp(),
            r is Ok <==> binop_ready(old(self).stream(), old(self).frames(), old(self).pos()),
            r matches Ok((cid, l, rr)) ==> {
                &&& cid == old(self).stream().words[old(self).pos() + 1]
                &&& Some(l@) == operand(old(self).stream(), old(self).frames(), old(self).pos() + 2)
                &&& Some(rr@) == operand(
                    old(self).stream(),
                    old(self).frames(),
                    old(self).pos() + 3,
                )
                &&& final(self).pos() == old(self).pos() + 4
            },
    {
        let cid = match self._next() {
            Ok(w) => w,
            Err(k) => {
                return Err(k);
            },
        };
        let lid = match self._next() {
            Ok(w) => w,
            Err(k) => {
                return Err(k);
            },
        };
        let lhs = match self.lookup_val(lid) {
            Ok(v) => v,
            Err(k) => {
                return Err(k);
            },
        };
        let rid = match self._next() {
            Ok(w) => w,
            Err(k) => {
                return Err(k);
            },
        };
        let rhs = match self.lookup_val(rid) {
            Ok(v) => v,
            Err(k) => {
                return Err(k);
            },
        };
        match self.skip_word() {
            Ok(()) => {},
            Err(k) => {
                return Err(k);
            },
        }
        Ok((cid, lhs, rhs))
    }

    fn _eq(&mut self) -> (r: Result<(), VmErrorKind>)
        requires
            old(self).wf(),
        ensures
            final(self).wf(),
            final(self).stream() == old(self).stream(),
            final(self).registry() == old(self).registry(),
            final(self).out() == old(self).out(),
            final(self).inp() == old(self).inp(),
            r is Ok <==> binop_ready(old(self).stream(), old(self).frames(), old(self).pos())
                && old(self).frames().len() > 0,
            r is Ok ==> final(self).frames() == frames_set(
                old(self).frames(),
                old(self).stream().words[old(self).pos() + 1],
                AbsVal::Bool(
                    val_eq(
                        operand(old(self).stream(), old(self).frames(), old(self).pos() + 2)->Some_0,
                        operand(old(self).stream(), old(self).frames(), old(self).pos() + 3)->Some_0,
                    ),
                ),
            ) && final(self).pos() == old(self).pos() + 4,
            r is Err ==> final(self).frames() == old(self).frames(),
    {
        let (cid, lhs, rhs) = match self.read_op3() {
            Ok(t) => t,
            Err(k) => {
                return Err(k);
            },
        };
        let v = lhs.eq_value(&rhs);
        self.set_val(cid, ScalarType::Bool(v))
    }

    fn _neq(&mut self) -> (r: Result<(), VmErrorKind>)
        requires
            old(self).wf(),
        ensures
            final(self).wf(),
            final(self).stream() == old(self).stream(),
            final(self).registry() == old(self).registry(),
            final(self).out() == old(self).out(),
            final(self).inp() == old(self).inp(),
            r is Ok <==> binop_ready(old(self).stream(), old(self).frames(), old(self).pos())
                && old(self).frames().len() > 0,
            r is Ok ==> final(self).frames() == frames_set(
                old(self).frames(),
                old(self).stream().words[old(self).pos() + 1],
                AbsVal::Bool(
                    val_neq(
                        operand(old(self).stream(), old(self).frames(), old(self).pos() + 2)->Some_0,
                        operand(old(self).stream(), old(self).frames(), old(self).pos() + 3)->Some_0,
                    ),
                ),
            ) && final(self).pos() == old(self).pos() + 4,
            r is Err ==> final(self).frames() == old(self).frames(),
    {
        let (cid, lhs, rhs) = match self.read_op3() {
            Ok(t) => t,
            Err(k) => {
                return Err(k);
            },
        };
        let v = lhs.ne_value(&rhs);
        self.set_val(cid, ScalarType::Bool(v))
    }

    fn _gt(&mut self) -> (r: Result<(), VmErrorKind>)
        requires
            old(self).wf(),
        ensures
            final(self).wf(),
            final(self).stream() == old(self).stream(),
            final(self).registry() == old(self).registry(),
            final(self).out() == old(self).out(),
            final(self).inp() == old(self).inp(),
            r is Ok <==> binop_ready(old(self).stream(), old(self).frames(), old(self).pos())
                && old(self).frames().len() > 0,
            r is Ok ==> final(self).frames() == frames_set(
                old(self).frames(),
                old(self).stream().words[old(self).pos() + 1],
                AbsVal::Bool(
                    val_gt(
                        operand(old(self).stream(), old(self).frames(), old(self).pos() + 2)->Some_0,
                        operand(old(self).stream(), old(self).frames(), old(self).pos() + 3)->Some_0,
                    ),
                ),
            ) && final(self).pos() == old(self).pos() + 4,
            r is Err ==> final(self).frames() == old(self).frames(),
    {
        let (cid, lhs, rhs) = match self.read_op3() {
            Ok(t) => t,
            Err(k) => {
                return Err(k);
            },
        };
        let v = lhs.gt(&rhs);
        self.set_val(cid, ScalarType::Bool(v))
    }

    fn _lt(&mut self) -> (r: Result<(), VmErrorKind>)
        requires
            old(self).wf(),
        ensures
            final(self).wf(),
            final(self).stream() == old(self).stream(),
            final(self).registry() == old(self).registry(),
            final(self).out() == old(self).out(),
            final(self).inp() == old(self).inp(),
            r is Ok <==> binop_ready(old(self).stream(), old(self).frames(), old(self).pos())
                && old(self).frames().len() > 0,
            r is Ok ==> final(self).frames() == frames_set(
                old(self).frames(),
                old(self).stream().words[old(self).pos() + 1],
                AbsVal::Bool(
                    val_lt(
                        operand(old(self).stream(), old(self).frames(), old(self).pos() + 2)->Some_0,
                        operand(old(self).stream(), old(self).frames(), old(self).pos() + 3)->Some_0,
                    ),
                ),
            ) && final(self).pos() == old(self).pos() + 4,
            r is Err ==> final(self).frames() == old(self).frames(),
    {
        let (cid, lhs, rhs) = match self.read_op3() {
            Ok(t) => t,
            Err(k) => {
                return Err(k);
            },
        };
        let v = lhs.lt(&rhs);
        self.set_val(cid, ScalarType::Bool(v))
    }

    fn _gte(&mut self) -> (r: Result<(), VmErrorKind>)
        requires
            old(self).wf(),
        ensures
            final(self).wf(),
            final(self).stream() == old(self).stream(),
            final(self).registry() == old(self).registry(),
            final(self).out() == old(self).out(),
            final(self).inp() == old(self).inp(),
            r is Ok <==> binop_ready(old(self).stream(), old(self).frames(), old(self).pos())
                && old(self).frames().len() > 0,
            r is Ok ==> final(self).frames() == frames_set(
                old(self).frames(),
                old(self).stream().words[old(self).pos() + 1],
                AbsVal::Bool(
                    val_ge(
                        operand(old(self).stream(), old(self).frames(), old(self).pos() + 2)->Some_0,
                        operand(old(self).stream(), old(self).frames(), old(self).pos() + 3)->Some_0,
                    ),
                ),
            ) && final(self).pos() == old(self).pos() + 4,
            r is Err ==> final(self).frames() == old(self).frames(),
    {
        let (cid, lhs, rhs) = match self.read_op3() {
            Ok(t) => t,
            Err(k) => {
                return Err(k);
            },
        };
        let v = lhs.ge(&rhs);
        self.set_val(cid, ScalarType::Bool(v))
    }

    fn _lte(&mut self) -> (r: Result<(), VmErrorKind>)
        requires
            old(self).wf(),
        ensures
            final(self).wf(),
            final(self).stream() == old(self).stream(),
            final(self).registry() == old(self).registry(),
            final(self).out() == old(self).out(),
            final(self).inp() == old(self).inp(),
            r is Ok <==> binop_ready(old(self).stream(), old(self).frames(), old(self).pos())
                && old(self).frames().len() > 0,
            r is Ok ==> final(self).frames() == frames_set(
                old(self).frames(),
                old(self).stream().words[old(self).pos() + 1],
                AbsVal::Bool(
                    val_le(
                        operand(old(self).stream(), old(self).frames(), old(self).pos() + 2)->Some_0,
                        operand(old(self).stream(), old(self).frames(), old(self).pos() + 3)->Some_0,
                    ),
                ),
            ) && final(self).pos() == old(self).pos() + 4,
            r is Err ==> final(self).frames() == old(self).frames(),
    {
        let (cid, lhs, rhs) = match self.read_op3() {
            Ok(t) => t,
            Err(k) => {
                return Err(k);
            },
        };
        let v = lhs.le(&rhs);
        self.set_val(cid, ScalarType::Bool(v))
    }

    fn _add(&mut self) -> (r: Result<(), VmErrorKind>)
        requires
            old(self).wf(),
        ensures
            final(self).wf(),
            final(self).stream() == old(self).stream(),
            final(self).registry() == old(self).registry(),
            final(self).out() == old(self).out(),
            final(self).inp() == old(self).inp(),
            r is Ok <==> binop_ready(old(self).stream(), old(self).frames(), old(self).pos())
                && old(self).frames().len() > 0 && eval_add(
                operand(old(self).stream(), old(self).frames(), old(self).pos() + 2)->Some_0,
                operand(old(self).stream(), old(self).frames(), old(self).pos() + 3)->Some_0,
            ) is Some,
            r is Ok ==> final(self).frames() == frames_set(
                old(self).frames(),
                old(self).stream().words[old(self).pos() + 1],
                eval_add(
                    operand(old(self).stream(), old(self).frames(), old(self).pos() + 2)->Some_0,
                    operand(old(self).stream(), old(self).frames(), old(self).pos() + 3)->Some_0,
                )->Some_0,
            ) && final(self).pos() == old(self).pos() + 4,
            r is Err ==> final(self).frames() == old(self).frames(),
    {
        let (cid, lhs, rhs) = match self.read_op3() {
            Ok(t) => t,
            Err(k) => {
                return Err(k);
            },
        };
        match lhs.add(&rhs) {
            Some(v) => self.set_val(cid, v),
            None => Err(VmErrorKind::IllegalOp),
        }
    }

    fn _sub(&mut self) -> (r: Result<(), VmErrorKind>)
        requires
            old(self).wf(),
        ensures
            final(self).wf(),
            final(self).stream() == old(self).stream(),
            final(self).registry() == old(self).registry(),
            final(self).out() == old(self).out(),
            final(self).inp() == old(self).inp(),
            r is Ok <==> binop_ready(old(self).stream(), old(self).frames(), old(self).pos())
                && old(self).frames().len() > 0 && eval_sub(
                operand(old(self).stream(), old(self).frames(), old(self).pos() + 2)->Some_0,
                operand(old(self).stream(), old(self).frames(), old(self).pos() + 3)->Some_0,
            ) is Some,
            r is Ok ==> final(self).frames() == frames_set(
                old(self).frames(),
                old(self).stream().words[old(self).pos() + 1],
                eval_sub(
                    operand(old(self).stream(), old(self).frames(), old(self).pos() + 2)->Some_0,
                    operand(old(self).stream(), old(self).frames(), old(self).pos() + 3)->Some_0,
                )->Some_0,
            ) && final(self).pos() == old(self).pos() + 4,
            r is Err ==> final(self).frames() == old(self).frames(),
    {
        let (cid, lhs, rhs) = match self.read_op3() {
            Ok(t) => t,
            Err(k) => {
                return Err(k);
            },
        };
        match lhs.sub(&rhs) {
            Some(v) => self.set_val(cid, v),
            None => Err(VmErrorKind::IllegalOp),
        }
    }

    fn _mul(&mut self) -> (r: Result<(), VmErrorKind>)
        requires
            old(self).wf(),
        ensures
            final(self).wf(),
            final(self).stream() == old(self).stream(),
            final(self).registry() == old(self).registry(),
            final(self).out() == old(self).out(),
            final(self).inp() == old(self).inp(),
            r is Ok <==> binop_ready(old(self).stream(), old(self).frames(), old(self).pos())
                && old(self).frames().len() > 0 && eval_mul(
                operand(old(self).stream(), old(self).frames(), old(self).pos() + 2)->Some_0,
                operand(old(self).stream(), old(self).frames(), old(self).pos() + 3)->Some_0,
            ) is Some,
            r is Ok ==> final(self).frames() == frames_set(
                old(self).frames(),
                old(self).stream().words[old(self).pos() + 1],
                eval_mul(
                    operand(old(self).stream(), old(self).frames(), old(self).pos() + 2)->Some_0,
                    operand(old(self).stream(), old(self).frames(), old(self).pos() + 3)->Some_0,
                )->Some_0,
            ) && final(self).pos() == old(self).pos() + 4,
            r is Err ==> final(self).frames() == old(self).frames(),
    {
        let (cid, lhs, rhs) = match self.read_op3() {
            Ok(t) => t,
            Err(k) => {
                return Err(k);
            },
        };
        match lhs.mul(&rhs) {
            Some(v) => self.set_val(cid, v),
            None => Err(VmErrorKind::IllegalOp),
        }
    }

    fn _div(&mut self) -> (r: Result<(), VmErrorKind>)
        requires
            old(self).wf(),
        ensures
            final(self).wf(),
            final(self).stream() == old(self).stream(),
            final(self).registry() == old(self).registry(),
            final(self).out() == old(self).out(),
            final(self).inp() == old(self).inp(),
            r is Ok <==> binop_ready(old(self).stream(), old(self).frames(), old(self).pos())
                && old(self).frames().len() > 0 && eval_div(
                operand(old(self).stream(), old(self).frames(), old(self).pos() + 2)->Some_0,
                operand(old(self).stream(), old(self).frames(), old(self).pos() + 3)->Some_0,
            ) is Some,
            r is Ok ==> final(self).frames() == frames_set(
                old(self).frames(),
                old(self).stream().words[old(self).pos() + 1],
                eval_div(
                    operand(old(self).stream(), old(self).frames(), old(self).pos() + 2)->Some_0,
                    operand(old(self).stream(), old(self).frames(), old(self).pos() + 3)->Some_0,
                )->Some_0,
            ) && final(self).pos() == old(self).pos() + 4,
            r is Err ==> final(self).frames() == old(self).frames(),
    {
        let (cid, lhs, rhs) = match self.read_op3() {
            Ok(t) => t,
            Err(k) => {
                return Err(k);
            },
        };
        match lhs.div(&rhs) {
            Some(v) => self.set_val(cid, v),
            None => Err(VmErrorKind::IllegalOp),
        }
    }

    fn _mod(&mut self) -> (r: Result<(), VmErrorKind>)
        requires
            old(self).wf(),
        ensures
            final(self).wf(),
            final(self).stream() == old(self).stream(),
            final(self).registry() == old(self).registry(),
            final(self).out() == old(self).out(),
            final(self).inp() == old(self).inp(),
            r is Ok <==> binop_ready(old(self).stream(), old(self).frames(), old(self).pos())
                && old(self).frames().len() > 0 && eval_rem(
                operand(old(self).stream(), old(self).frames(), old(self).pos() + 2)->Some_0,
                operand(old(self).stream(), old(self).frames(), old(self).pos() + 3)->Some_0,
            ) is Some,
            r is Ok ==> final(self).frames() == frames_set(
                old(self).frames(),
                old(self).stream().words[old(self).pos() + 1],
                eval_rem(
                    operand(old(self).stream(), old(self).frames(), old(self).pos() + 2)->Some_0,
                    operand(old(self).stream(), old(self).frames(), old(self).pos() + 3)->Some_0,
                )->Some_0,
            ) && final(self).pos() == old(self).pos() + 4,
            r is Err ==> final(self).frames() == old(self).frames(),
    {
        let (cid, lhs, rhs) = match self.read_op3() {
            Ok(t) => t,
            Err(k) => {
                return Err(k);
            },
        };
        match lhs.rem(&rhs) {
            Some(v) => self.set_val(cid, v),
            None => Err(VmErrorKind::IllegalOp),
        }
    }

    fn _exp(&mut self) -> (r: Result<(), VmErrorKind>)
        requires
            old(self).wf(),
        ensures
            final(self).wf(),
            final(self).stream() == old(self).stream(),
            final(self).registry() == old(self).registry(),
            final(self).out() == old(self).out(),
            final(self).inp() == old(self).inp(),
            r is Ok <==> binop_ready(old(self).stream(), old(self).frames(), old(self).pos())
                && old(self).frames().len() > 0 && eval_pow(
                operand(old(self).stream(), old(self).frames(), old(self).pos() + 2)->Some_0,
                operand(old(self).stream(), old(self).frames(), old(self).pos() + 3)->Some_0,
            ) is Some,
            r is Ok ==> final(self).frames() == frames_set(
                old(self).frames(),
                old(self).stream().words[old(self).pos() + 1],
                eval_pow(
                    operand(old(self).stream(), old(self).frames(), old(self).pos() + 2)->Some_0,
                    operand(old(self).stream(), old(self).frames(), old(self).pos() + 3)->Some_0,
                )->Some_0,
            ) && final(self).pos() == old(self).pos() + 4,
            r is Err ==> final(self).frames() == old(self).frames(),
    {
        let (cid, lhs, rhs) = match self.read_op3() {
            Ok(t) => t,
            Err(k) => {
                return Err(k);
            },
        };
        match lhs.pow(&rhs) {
            Some(v) => self.set_val(cid, v),
            None => Err(VmErrorKind::IllegalOp),
        }
    }

    fn _alloca(&mut self) -> (r: Result<(), VmErrorKind>)
        requires
            old(self).wf(),
        ensures
            final(self).wf(),
            final(self).stream() == old(self).stream(),
            final(self).registry() == old(self).registry(),
            final(self).out() == old(self).out(),
            final(self).inp() == old(self).inp(),
            r is Ok <==> old(self).pos() + 2 < old(self).stream().words.len() && plain_at(
                old(self).stream(),
                old(self).pos() + 1,
            ) && old(self).frames().len() > 0,
            r is Ok ==> final(self).frames() == frames_set(
                old(self).frames(),
                old(self).stream().words[old(self).pos() + 1],
                AbsVal::Null,
            ) && final(self).pos() == old(self).pos() + 2,
            r is Err ==> final(self).frames() == old(self).frames(),
    {
        let cid = match self._next() {
            Ok(w) => w,
            Err(k) => {
                return Err(k);
            },
        };
        match self.skip_word() {
            Ok(()) => {},
            Err(k) => {
                return Err(k);
            },
        }
        self.set_val(cid, ScalarType::Null)
    }

    fn _bool(&mut self) -> (r: Result<(), VmErrorKind>)
        requires
            old(self).wf(),
        ensures
            final(self).wf(),
            final(self).stream() == old(self).stream(),
            final(self).registry() == old(self).registry(),
            final(self).out() == old(self).out(),
            final(self).inp() == old(self).inp(),
            r is Ok <==> old(self).pos() + 3 < old(self).stream().words.len() && plain_at(
                old(self).stream(),
                old(self).pos() + 1,
            ) && plain_at(old(self).stream(), old(self).pos() + 2) && old(self).frames().len() > 0,
            r is Ok ==> final(self).frames() == frames_set(
                old(self).frames(),
                old(self).stream().words[old(self).pos() + 1],
                AbsVal::Bool(old(self).stream().words[old(self).pos() + 2] != 0),
            ) && final(self).pos() == old(self).pos() + 3,
            r is Err ==> final(self).frames() == old(self).frames(),
    {
        let cid = match self._next() {
            Ok(w) => w,
            Err(k) => {
                return Err(k);
            },
        };
        let bw = match self._next() {
            Ok(w) => w,
            Err(k) => {
                return Err(k);
            },
        };
        match self.skip_word() {
            Ok(()) => {},
            Err(k) => {
                return Err(k);
            },
        }
        self.set_val(cid, ScalarType::Bool(bw != 0))
    }

    fn _store(&mut self) -> (r: Result<(), VmErrorKind>)
        requires
            old(self).wf(),
        ensures
            final(self).wf(),
            final(self).stream() == old(self).stream(),
            final(self).registry() == old(self).registry(),
            final(self).out() == old(self).out(),
            final(self).inp() == old(self).inp(),
            r is Ok <==> old(self).pos() + 3 < old(self).stream().words.len() && plain_at(
                old(self).stream(),
                old(self).pos() + 1,
            ) && plain_at(old(self).stream(), old(self).pos() + 2) && operand(
                old(self).stream(),
                old(self).frames(),
                old(self).pos() + 2,
            ) is Some && old(self).frames().len() > 0,
            r is Ok ==> final(self).frames() == frames_set(
                old(self).frames(),
                old(self).stream().words[old(self).pos() + 1],
                operand(old(self).stream(), old(self).frames(), old(self).pos() + 2)->Some_0,
            ) && final(self).pos() == old(self).pos() + 3,
            r is Err ==> final(self).frames() == old(self).frames(),
    {
        let id = match self._next() {
            Ok(w) => w,
            Err(k) => {
                return Err(k);
            },
        };
        let vid = match self._next() {
            Ok(w) => w,
            Err(k) => {
                return Err(k);
            },
        };
        let val = match self.lookup_val(vid) {
            Ok(v) => v,
            Err(k) => {
                return Err(k);
            },
        };
        match self.skip_word() {
            Ok(()) => {},
            Err(k) => {
                return Err(k);
            },
        }
        self.set_val(id, val)
    }

    fn _del(&mut self) -> (r: Result<(), VmErrorKind>)
        requires
            old(self).wf(),
        ensures
            final(self).wf(),
            same_code(old(self).stream(), final(self).stream()),
            final(self).stream().counter == old(self).stream().counter,
            final(self).registry() == old(self).registry(),
            final(self).out() == old(self).out(),
            final(self).inp() == old(self).inp(),
            r is Ok <==> old(self).pos() + 2 < old(self).stream().words.len() && plain_at(
                old(self).stream(),
                old(self).pos() + 1,
            ) && scope_remove(old(self).frames(), old(self).stream().words[old(self).pos() + 1])
                is Some && old(self).stream().registered.contains(
                old(self).stream().words[old(self).pos() + 1],
            ),
            r is Ok ==> {
                let id = old(self).stream().words[old(self).pos() + 1];
                &&& final(self).frames() == scope_remove(old(self).frames(), id)->Some_0
                &&& final(self).stream().registered == old(self).stream().registered.remove(id)
                &&& final(self).pos() == old(self).pos() + 2
            },
            r is Err ==> final(self).stream().registered == old(self).stream().registered && (
            final(self).frames() == old(self).frames() || (r matches Err(k) && k
                == VmErrorKind::DoubleRelease(old(self).stream().words[old(self).pos() + 1])
                && final(self).frames() == scope_remove(
                old(self).frames(),
                old(self).stream().words[old(self).pos() + 1],
            )->Some_0)),
    {
        let id = match self._next() {
            Ok(w) => w,
            Err(k) => {
                return Err(k);
            },
        };
        match self.skip_word() {
            Ok(()) => {},
            Err(k) => {
                return Err(k);
            },
        }
        match self.stack.remove(id) {
            Ok(()) => {},
            Err(_) => {
                return Err(VmErrorKind::DeleteUnknown(id));
            },
        }
        match self.bytecode.release_id(id) {
            Ok(()) => Ok(()),
            Err(_) => Err(VmErrorKind::DoubleRelease(id)),
        }
    }

    fn _jump(&mut self) -> (r: Result<(), VmErrorKind>)
        requires
            old(self).wf(),
        ensures
            final(self).wf(),
            final(self).stream() == old(self).stream(),
            final(self).registry() == old(self).registry(),
            final(self).frames() == old(self).frames(),
            final(self).out() == old(self).out(),
            final(self).inp() == old(self).inp(),
            r is Ok <==> plain_at(old(self).stream(), old(self).pos() + 1) && old(
                self,
            ).registry().contains_key(old(self).stream().words[old(self).pos() + 1]),
            r is Ok ==> final(self).pos() == old(self).registry()[old(self).stream().words[
                old(self).pos() + 1
            ]],
    {
        let block = match self._next() {
            Ok(w) => w,
            Err(k) => {
                return Err(k);
            },
        };
        match self.block_position(block) {
            Some(t) => {
                self.bytecode.jump(t);
                Ok(())
            },
            None => Err(VmErrorKind::UnknownBlock(block)),
        }
    }

    fn _cond_jump(&mut self) -> (r: Result<(), VmErrorKind>)
        requires
            old(self).wf(),
        ensures
            final(self).wf(),
            final(self).stream() == old(self).stream(),
            final(self).registry() == old(self).registry(),
            final(self).frames() == old(self).frames(),
            final(self).out() == old(self).out(),
            final(self).inp() == old(self).inp(),
            r is Ok <==> ({
                &&& plain_at(old(self).stream(), old(self).pos() + 1)
                &&& plain_at(old(self).stream(), old(self).pos() + 2)
                &&& operand(old(self).stream(), old(self).frames(), old(self).pos() + 2) matches Some(
                    AbsVal::Bool(b),
                ) && (if b {
                    old(self).registry().contains_key(
                        old(self).stream().words[old(self).pos() + 1],
                    )
                } else {
                    old(self).pos() + 3 < old(self).stream().words.len()
                })
            }),
            r is Ok ==> final(self).pos() == {
                let b = operand(
                    old(self).stream(),
                    old(self).frames(),
                    old(self).pos() + 2,
                )->Some_0->Bool_0;
                if b {
                    old(self).registry()[old(self).stream().words[old(self).pos() + 1]] as int
                } else {
                    old(self).pos() + 3
                }
            },
    {
        let block = match self._next() {
            Ok(w) => w,
            Err(k) => {
                return Err(k);
            },
        };
        let cid = match self._next() {
            Ok(w) => w,
            Err(k) => {
                return Err(k);
            },
        };
        let cond = match self.lookup_val(cid) {
            Ok(v) => v,
            Err(k) => {
                return Err(k);
            },
        };
        match cond {
            ScalarType::Bool(true) => {
                match self.block_position(block) {
                    Some(t) => {
                        self.bytecode.jump(t);
                        Ok(())
                    },
                    None => Err(VmErrorKind::UnknownBlock(block)),
                }
            },
            ScalarType::Bool(false) => {
                match self.skip_word() {
                    Ok(()) => Ok(()),
                    Err(k) => Err(k),
                }
            },
            _ => Err(VmErrorKind::WrongKind),
        }
    }

    fn _stdout(&mut self) -> (r: Result<(), VmErrorKind>)
        requires
            old(self).wf(),
        ensures
            final(self).wf(),
            final(self).stream() == old(self).stream(),
            final(self).registry() == old(self).registry(),
            final(self).frames() == old(self).frames(),
            final(self).inp() == old(self).inp(),
            r is Ok <==> old(self).pos() + 2 < old(self).stream().words.len() && plain_at(
                old(self).stream(),
                old(self).pos() + 1,
            ) && operand(old(self).stream(), old(self).frames(), old(self).pos() + 1) is Some,
            r is Ok ==> final(self).out() == old(self).out() + render(
                operand(old(self).stream(), old(self).frames(), old(self).pos() + 1)->Some_0,
            ) && final(self).pos() == old(self).pos() + 2,
            r is Err ==> final(self).out() == old(self).out(),
    {
        let id = match self._next() {
            Ok(w) => w,
            Err(k) => {
                return Err(k);
            },
        };
        let v = match self.lookup_val(id) {
            Ok(v) => v,
            Err(k) => {
                return Err(k);
            },
        };
        match self.skip_word() {
            Ok(()) => {},
            Err(k) => {
                return Err(k);
            },
        }
        let t = v.render_text();
        self.output.append(t.as_str());
        Ok(())
    }

    fn _stdin(&mut self) -> (r: Result<(), VmErrorKind>)
        requires
            old(self).wf(),
        ensures
            final(self).wf(),
            final(self).stream() == old(self).stream(),
            final(self).registry() == old(self).registry(),
            final(self).out() == old(self).out(),
            r is Ok <==> old(self).pos() + 2 < old(self).stream().words.len() && plain_at(
                old(self).stream(),
                old(self).pos() + 1,
            ) && old(self).inp().len() > 0 && old(self).frames().len() > 0,
            r is Ok ==> {
                &&& final(self).frames() == frames_set(
                    old(self).frames(),
                    old(self).stream().words[old(self).pos() + 1],
                    AbsVal::Str(old(self).inp()[0]),
                )
                &&& final(self).inp() == old(self).inp().skip(1)
                &&& final(self).pos() == old(self).pos() + 2
            },
            r is Err ==> final(self).frames() == old(self).frames() && final(self).inp()
                == old(self).inp(),
    {
        let cid = match self._next() {
            Ok(w) => w,
            Err(k) => {
                return Err(k);
            },
        };
        match self.skip_word() {
            Ok(()) => {},
            Err(k) => {
                return Err(k);
            },
        }
        if self.stack.depth() == 0 {
            return Err(VmErrorKind::ScopeUnderflow);
        }
        if self.next_input >= self.input.len() {
            return Err(VmErrorKind::InputExhausted);
        }
        let line = self.input[self.next_input].clone();
        proof {
            assert(line@ == old(self).inp()[0]);
        }
        self.next_input = self.next_input + 1;
        proof {
            assert(self.inp() =~= old(self).inp().skip(1));
        }
        self.set_val(cid, ScalarType::Str(line))
    }

    fn _num(&mut self) -> (r: Result<(), VmErrorKind>)
        requires
            old(self).wf(),
        ensures
            final(self).wf(),
            final(self).stream() == old(self).stream(),
            final(self).registry() == old(self).registry(),
            final(self).out() == old(self).out(),
            final(self).inp() == old(self).inp(),
            r is Ok <==> ({
                &&& plain_at(old(self).stream(), old(self).pos() + 1)
                &&& scan_run(old(self).stream(), old(self).pos() + 2) matches Some(t) && t.0.len()
                    > 0
                &&& old(self).frames().len() > 0
            }),
            r is Ok ==> {
                let t = scan_run(old(self).stream(), old(self).pos() + 2)->Some_0;
                &&& final(self).frames() == frames_set(
                    old(self).frames(),
                    old(self).stream().words[old(self).pos() + 1],
                    AbsVal::Float(single_from_text(digits_text(t.0))),
                )
                &&& final(self).pos() == t.1
            },
            r is Err ==> final(self).frames() == old(self).frames(),
    {
        let ghost m = old(self).stream();
        let cid = match self._next() {
            Ok(w) => w,
            Err(k) => {
                return Err(k);
            },
        };
        let mut text = String::new();
        let ghost mut ds: Seq<u32> = Seq::empty();
        loop
            invariant_except_break
                self.wf(),
                m == old(self).stream(),
                self.stream() == old(self).stream(),
                self.registry() == old(self).registry(),
                self.frames() == old(self).frames(),
                self.out() == old(self).out(),
                self.inp() == old(self).inp(),
                text@ == digits_text(ds),
                match scan_run(m, self.pos() + 1) {
                    Some(t) => scan_run(m, old(self).pos() + 2) == Some((ds + t.0, t.1)),
                    None => scan_run(m, old(self).pos() + 2) is None,
                },
            ensures
                self.wf(),
                self.stream() == old(self).stream(),
                self.registry() == old(self).registry(),
                self.frames() == old(self).frames(),
                self.out() == old(self).out(),
                self.inp() == old(self).inp(),
                text@ == digits_text(ds),
                scan_run(m, old(self).pos() + 2) == Some((ds, self.pos() as int)),
            decreases m.words.len() - self.pos(),
        {
            let ghost q = self.pos() + 1;
            let w = match self._next() {
                Ok(w) => w,
                Err(k) => {
                    proof {
                        assert(scan_run(m, q) is None);
                    }
                    return Err(k);
                },
            };
            if w == ENDL {
                proof {
                    assert(scan_run(m, q) == Some((Seq::<u32>::empty(), q)));
                    assert(ds + Seq::<u32>::empty() =~= ds);
                }
                break ;
            }
            text.append(u32_to_string(w).as_str());
            proof {
                let ghost ds2 = ds.push(w);
                assert(ds2.drop_last() =~= ds);
                assert(digits_text(ds2) == digits_text(ds) + nat_text(w as nat));
                let sr = scan_run(m, q + 1);
                if sr is Some {
                    let t = sr->Some_0;
                    assert(scan_run(m, q) == Some((seq![m.words[q]] + t.0, t.1)));
                    assert(ds + (seq![m.words[q]] + t.0) =~= ds2 + t.0);
                } else {
                    assert(scan_run(m, q) is None);
                }
                ds = ds2;
            }
        }
        if text.unicode_len() == 0 {
            proof {
                assert(digits_text(ds).len() == 0);
                if ds.len() > 0 {
                    lemma_digits_text_decimal(ds);
                }
            }
            return Err(VmErrorKind::MalformedNumber);
        }
        proof {
            lemma_digits_text_decimal(ds);
            assert(is_decimal_text(text@));
        }
        match crate::floats::parse_bits(text.as_str()) {
            Some(bits) => self.set_val(cid, ScalarType::Float(bits)),
            None => {
                proof {
                    assert(false);
                }
                Err(VmErrorKind::MalformedNumber)
            },
        }
    }

    fn _str(&mut self) -> (r: Result<(), VmErrorKind>)
        requires
            old(self).wf(),
        ensures
            final(self).wf(),
            final(self).stream() == old(self).stream(),
            final(self).registry() == old(self).registry(),
            final(self).out() == old(self).out(),
            final(self).inp() == old(self).inp(),
            r is Ok <==> old(self).pos() + 3 < old(self).stream().words.len() && plain_at(
                old(self).stream(),
                old(self).pos() + 1,
            ) && text_at(old(self).stream(), old(self).pos() + 2) && old(self).frames().len() > 0,
            r is Ok ==> final(self).frames() == frames_set(
                old(self).frames(),
                old(self).stream().words[old(self).pos() + 1],
                AbsVal::Str(
                    old(self).stream().strtab[old(self).stream().words[old(self).pos() + 2]],
                ),
            ) && final(self).pos() == old(self).pos() + 3,
            r is Err ==> final(self).frames() == old(self).frames(),
    {
        let cid = match self._next() {
            Ok(w) => w,
            Err(k) => {
                return Err(k);
            },
        };
        let text = match self._next_str() {
            Ok(s) => s,
            Err(k) => {
                return Err(k);
            },
        };
        match self.skip_word() {
            Ok(()) => {},
            Err(k) => {
                return Err(k);
            },
        }
        self.set_val(cid, ScalarType::Str(text))
    }

    fn _cast_num(&mut self) -> (r: Result<(), VmErrorKind>)
        requires
            old(self).wf(),
        ensures
            final(self).wf(),
            final(self).stream() == old(self).stream(),
            final(self).registry() == old(self).registry(),
            final(self).out() == old(self).out(),
            final(self).inp() == old(self).inp(),
            r is Ok <==> ({
                &&& old(self).pos() + 3 < old(self).stream().words.len()
                &&& plain_at(old(self).stream(), old(self).pos() + 1)
                &&& plain_at(old(self).stream(), old(self).pos() + 2)
                &&& operand(old(self).stream(), old(self).frames(), old(self).pos() + 2) matches Some(
                    AbsVal::Str(t),
                ) && is_decimal_text(t) && digits_value(t) <= u32::MAX
                &&& old(self).frames().len() > 0
            }),
            r is Ok ==> {
                let t = operand(
                    old(self).stream(),
                    old(self).frames(),
                    old(self).pos() + 2,
                )->Some_0->Str_0;
                &&& final(self).frames() == frames_set(
                    old(self).frames(),
                    old(self).stream().words[old(self).pos() + 1],
                    AbsVal::Float(single_of_u32(digits_value(t) as u32)),
                )
                &&& final(self).pos() == old(self).pos() + 3
            },
            r is Err ==> final(self).frames() == old(self).frames(),
    {
        let cid = match self._next() {
            Ok(w) => w,
            Err(k) => {
                return Err(k);
            },
        };
        let id = match self._next() {
            Ok(w) => w,
            Err(k) => {
                return Err(k);
            },
        };
        let v = match self.lookup_val(id) {
            Ok(v) => v,
            Err(k) => {
                return Err(k);
            },
        };
        match self.skip_word() {
            Ok(()) => {},
            Err(k) => {
                return Err(k);
            },
        }
        match v {
            ScalarType::Str(t) => match parse_u32(t.as_str()) {
                Some(n) => self.set_val(cid, ScalarType::Float(crate::floats::u32_to_bits(n))),
                None => Err(VmErrorKind::MalformedNumber),
            },
            _ => Err(VmErrorKind::WrongKind),
        }
    }

    fn _cast_str(&mut self) -> (r: Result<(), VmErrorKind>)
        requires
            old(self).wf(),
        ensures
            final(self).wf(),
            final(self).stream() == old(self).stream(),
            final(self).registry() == old(self).registry(),
            final(self).out() == old(self).out(),
            final(self).inp() == old(self).inp(),
            r is Ok <==> old(self).pos() + 3 < old(self).stream().words.len() && plain_at(
                old(self).stream(),
                old(self).pos() + 1,
            ) && plain_at(old(self).stream(), old(self).pos() + 2) && operand(
                old(self).stream(),
                old(self).frames(),
                old(self).pos() + 2,
            ) is Some && old(self).frames().len() > 0,
            r is Ok ==> final(self).frames() == frames_set(
                old(self).frames(),
                old(self).stream().words[old(self).pos() + 1],
                AbsVal::Str(
                    render(
                        operand(old(self).stream(), old(self).frames(), old(self).pos() + 2)->Some_0,
                    ),
                ),
            ) && final(self).pos() == old(self).pos() + 3,
            r is Err ==> final(self).frames() == old(self).frames(),
    {
        let cid = match self._next() {
            Ok(w) => w,
            Err(k) => {
                return Err(k);
            },
        };
        let id = match self._next() {
            Ok(w) => w,
            Err(k) => {
                return Err(k);
            },
        };
        let v = match self.lookup_val(id) {
            Ok(v) => v,
            Err(k) => {
                return Err(k);
            },
        };
        match self.skip_word() {
            Ok(()) => {},
            Err(k) => {
                return Err(k);
            },
        }
        let t = v.render_text();
        self.set_val(cid, ScalarType::Str(t))
    }

    fn skip_n(&mut self, n: usize) -> (r: Result<(), VmErrorKind>)
        requires
            old(self).wf(),
        ensures
            final(self).wf(),
            final(self).stream() == old(self).stream(),
            final(self).registry() == old(self).registry(),
            final(self).frames() == old(self).frames(),
            final(self).out() == old(self).out(),
            final(self).inp() == old(self).inp(),
            r is Ok <==> n == 0 || old(self).pos() + n < old(self).stream().words.len(),
            r is Ok ==> final(self).pos() == old(self).pos() + n,
    {
        let mut i: usize = 0;
        while i < n
            invariant
                self.wf(),
                self.stream() == old(self).stream(),
                self.registry() == old(self).registry(),
                self.frames() == old(self).frames(),
                self.out() == old(self).out(),
                self.inp() == old(self).inp(),
                0 <= i <= n,
                i > 0 ==> self.pos() == old(self).pos() + i && self.pos() < self.stream().words.len(),
                i == 0 ==> self.pos() == old(self).pos(),
            decreases n - i,
        {
            proof {
                self.bytecode.lemma_len_bound();
            }
            match self.skip_word() {
                Ok(()) => {},
                Err(k) => {
                    return Err(k);
                },
            }
            i = i + 1;
        }
        Ok(())
    }

    fn skip_to_endl(&mut self) -> (r: Result<(), VmErrorKind>)
        requires
            old(self).wf(),
        ensures
            final(self).wf(),
            final(self).stream() == old(self).stream(),
            final(self).registry() == old(self).registry(),
            final(self).frames() == old(self).frames(),
            final(self).out() == old(self).out(),
            final(self).inp() == old(self).inp(),
            r is Ok <==> find_endl(old(self).stream(), old(self).pos() + 1) >= 0,
            r is Ok ==> final(self).pos() == find_endl(old(self).stream(), old(self).pos() + 1),
    {
        let ghost m = old(self).stream();
        loop
            invariant
                self.wf(),
                m == old(self).stream(),
                self.stream() == old(self).stream(),
                self.registry() == old(self).registry(),
                self.frames() == old(self).frames(),
                self.out() == old(self).out(),
                self.inp() == old(self).inp(),
                find_endl(m, old(self).pos() + 1) == find_endl(m, self.pos() + 1),
            decreases self.stream().words.len() - self.pos(),
        {
            proof {
                self.bytecode.lemma_len_bound();
            }
            match self.bytecode._next() {
                Ok(ByteType::Num(w)) => {
                    if w == ENDL {
                        return Ok(());
                    }
                },
                Ok(ByteType::Str(_)) => {},
                Err(()) => {
                    return Err(VmErrorKind::StreamEnd);
                },
            }
        }
    }

    fn skip_operands(&mut self, byt: u32) -> (r: Result<(), VmErrorKind>)
        requires
            old(self).wf(),
        ensures
            final(self).wf(),
            final(self).stream() == old(self).stream(),
            final(self).registry() == old(self).registry(),
            final(self).frames() == old(self).frames(),
            final(self).out() == old(self).out(),
            final(self).inp() == old(self).inp(),
            byt == FMT ==> {
                &&& r is Ok <==> find_endl(old(self).stream(), old(self).pos() + 1) >= 0
                &&& r is Ok ==> final(self).pos() == find_endl(
                    old(self).stream(),
                    old(self).pos() + 1,
                )
            },
            byt != FMT ==> {
                &&& r is Ok <==> skip_arity(byt) == 0 || old(self).pos() + skip_arity(byt) < old(
                    self,
                ).stream().words.len()
                &&& r is Ok ==> final(self).pos() == old(self).pos() + skip_arity(byt)
            },
    {
        if byt == STORE || byt == COND_JUMP || byt == CAST_NUM || byt == CAST_STR {
            self.skip_n(3)
        } else if byt == EQ || byt == GT || byt == LT || byt == GTE || byt == LTE || byt == NEQ
            || byt == ADD || byt == SUB || byt == MUL || byt == DIV || byt == MOD || byt == EXP
            || byt == FMT_NUM {
            self.skip_n(4)
        } else if byt == DEL || byt == BLOCK || byt == STDOUT || byt == STDIN {
            self.skip_n(2)
        } else if byt == JUMP {
            self.skip_n(1)
        } else if byt == FMT {
            self.skip_to_endl()
        } else {
            Ok(())
        }
    }

    /// Runs the program: the pre-scan builds the block registry, then the
    /// execution pass dispatches every instruction, honoring declarations
    /// only until the entry marker arms full dispatch. Each dispatched word
    /// costs one unit of the step budget; a run that would outlast the
    /// budget fails rather than loop forever. A fault reports the failing
    /// instruction's position and opcode.
    ///
    /// On normal completion the final scope frames, allocator, output and
    /// remaining input are exactly those of some halted iteration of the
    /// step function over the initial state; on a fault some iteration of
    /// the step function faults. The stream's words and string table are
    /// never changed by a run.
    #[verifier::rlimit(60)]
    pub fn run(&mut self, fuel: u64) -> (r: Result<(), VmError>)
        requires
            old(self).wf(),
        ensures
            final(self).wf(),
            same_code(old(self).stream(), final(self).stream()),
            final(self).stream().counter == old(self).stream().counter,
            final(self).registry() == block_registry(old(self).stream()),
            match r {
                Ok(()) => exists|n: nat|
                    {
                        let fin = #[trigger] steps(
                            old(self).stream(),
                            block_registry(old(self).stream()),
                            run_start_state(*old(self)),
                            n,
                        );
                        &&& fin.halted
                        &&& fin.frames == final(self).frames()
                        &&& fin.registered == final(self).stream().registered
                        &&& fin.out == final(self).out()
                        &&& fin.inp == final(self).inp()
                    },
                Err(e) => ({
                    ||| e.kind == VmErrorKind::OutOfSteps && ({
                        let fin = steps(
                            old(self).stream(),
                            block_registry(old(self).stream()),
                            run_start_state(*old(self)),
                            fuel as nat,
                        );
                        !fin.halted && !fin.fault
                    })
                    ||| exists|n: nat|
                        {
                            let s = #[trigger] steps(
                                old(self).stream(),
                                block_registry(old(self).stream()),
                                run_start_state(*old(self)),
                                n,
                            );
                            &&& !s.halted && !s.fault
                            &&& step_state(
                                old(self).stream(),
                                block_registry(old(self).stream()),
                                s,
                            ).fault
                            &&& e.pos == s.pos + 1
                            &&& e.opcode == old(self).stream().words[s.pos + 1]
                        }
                }),
            },
    {
        self.prescan();
        let ghost m0 = old(self).stream();
        let ghost reg0 = block_registry(m0);
        let ghost start = run_start_state(*old(self));
        let mut armed = false;
        let mut budget: u64 = fuel;
        let ghost mut st: MachineState = start;
        let ghost mut k: nat = 0;
        loop
            invariant
                self.wf(),
                m0 == old(self).stream(),
                reg0 == block_registry(m0),
                start == run_start_state(*old(self)),
                same_code(m0, self.stream()),
                self.stream().counter == old(self).stream().counter,
                self.registry() == reg0,
                st == steps(m0, reg0, start, k),
                k + budget == fuel,
                !st.halted && !st.fault,
                st.frames == self.frames(),
                st.registered == self.stream().registered,
                st.pos == self.pos(),
                st.armed == armed,
                st.out == self.out(),
                st.inp == self.inp(),
            decreases budget,
        {
            if self.bytecode.finished() {
                proof {
                    let fin = step_state(m0, reg0, st);
                    assert(fin.halted);
                    assert(steps(m0, reg0, start, k + 1) == fin);
                }
                return Ok(());
            }
            proof {
                self.bytecode.lemma_len_bound();
            }
            if budget == 0 {
                let p = self.bytecode.position();
                return Err(
                    VmError { pos: (p + 1) as usize, opcode: 0, kind: VmErrorKind::OutOfSteps },
                );
            }
            budget = budget - 1;
            let ghost pre = st;
            let w = match self.bytecode._next() {
                Ok(b) => b,
                Err(()) => {
                    proof {
                        assert(false);
                    }
                    return Ok(());
                },
            };
            proof {
                self.bytecode.lemma_len_bound();
            }
            let op_pos: usize = self.bytecode.position() as usize;
            let ghost pop = self.pos();
            match w {
                ByteType::Str(_) => {
                    proof {
                        st = step_state(m0, reg0, pre);
                        k = k + 1;
                    }
                },
                ByteType::Num(byt) => {
                    let hr: Result<(), VmErrorKind> = if armed {
                        if byt == ENDL {
                            Ok(())
                        } else if byt == ALLOCA {
                            self._alloca()
                        } else if byt == STORE {
                            self._store()
                        } else if byt == DEL {
                            self._del()
                        } else if byt == EQ {
                            self._eq()
                        } else if byt == GT {
                            self._gt()
                        } else if byt == GTE {
                            self._gte()
                        } else if byt == LT {
                            self._lt()
                        } else if byt == LTE {
                            self._lte()
                        } else if byt == NEQ {
                            self._neq()
                        } else if byt == ADD {
                            self._add()
                        } else if byt == SUB {
                            self._sub()
                        } else if byt == MUL {
                            self._mul()
                        } else if byt == DIV {
                            self._div()
                        } else if byt == MOD {
                            self._mod()
                        } else if byt == EXP {
                            self._exp()
                        } else if byt == NUM {
                            self._num()
                        } else if byt == STR {
                            self._str()
                        } else if byt == BOOL {
                            self._bool()
                        } else if byt == FMT {
                            self._fmt()
                        } else if byt == STDOUT {
                            self._stdout()
                        } else if byt == STDIN {
                            self._stdin()
                        } else if byt == BEGIN_SCOPE {
                            self.stack.new_scope();
                            Ok(())
                        } else if byt == END_SCOPE {
                            self.stack.pop_scope();
                            Ok(())
                        } else if byt == BLOCK {
                            self.skip_n(2)
                        } else if byt == JUMP {
                            self._jump()
                        } else if byt == COND_JUMP {
                            self._cond_jump()
                        } else if byt == CAST_STR {
                            self._cast_str()
                        } else if byt == CAST_NUM {
                            self._cast_num()
                        } else if byt == FMT_NUM {
                            self._fmt_num()
                        } else {
                            Ok(())
                        }
                    } else {
                        if byt == ALLOCA {
                            self._alloca()
                        } else if byt == NUM {
                            self._num()
                        } else if byt == STR {
                            self._str()
                        } else if byt == BOOL {
                            self._bool()
                        } else if byt == START {
                            armed = true;
                            Ok(())
                        } else {
                            self.skip_operands(byt)
                        }
                    };
                    proof {
                        if byt == NUM {
                            lemma_scan_run_code(m0, self.stream(), pop + 2);
                        }
                        if byt == FMT && pre.armed {
                            lemma_scan_run_code(m0, self.stream(), pop + 3);
                        }
                        if byt == FMT && !pre.armed {
                            lemma_find_endl_code(m0, self.stream(), pop + 1);
                        }
                    }
                    match hr {
                        Ok(()) => {
                            proof {
                                st = step_state(m0, reg0, pre);
                                k = k + 1;
                            }
                        },
                        Err(kk) => {
                            proof {
                                assert(steps(m0, reg0, start, k) == pre);
                                assert((step_state(m0, reg0, pre)).fault);
                                assert(op_pos as int == pre.pos + 1);
                                assert(byt == m0.words[pre.pos + 1]);
                            }
                            return Err(VmError { pos: op_pos, opcode: byt, kind: kk });
                        },
                    }
                },
            }
        }
    }

    fn _fmt_num(&mut self) -> (r: Result<(), VmErrorKind>)
        requires
            old(self).wf(),
        ensures
            final(self).wf(),
            final(self).stream() == old(self).stream(),
            final(self).registry() == old(self).registry(),
            final(self).out() == old(self).out(),
            final(self).inp() == old(self).inp(),
            r is Ok <==> ({
                &&& binop_ready(old(self).stream(), old(self).frames(), old(self).pos())
                &&& operand(old(self).stream(), old(self).frames(), old(self).pos() + 2) matches Some(
                    AbsVal::Float(_),
                )
                &&& operand(old(self).stream(), old(self).frames(), old(self).pos() + 3) matches Some(
                    AbsVal::Float(_),
                )
                &&& old(self).frames().len() > 0
            }),
            r is Ok ==> final(self).frames() == frames_set(
                old(self).frames(),
                old(self).stream().words[old(self).pos() + 1],
                AbsVal::Str(
                    fmt_num_text(
                        operand(
                            old(self).stream(),
                            old(self).frames(),
                            old(self).pos() + 2,
                        )->Some_0->Float_0,
                        operand(
                            old(self).stream(),
                            old(self).frames(),
                            old(self).pos() + 3,
                        )->Some_0->Float_0,
                    ),
                ),
            ) && final(self).pos() == old(self).pos() + 4,
            r is Err ==> final(self).frames() == old(self).frames(),
    {
        let (cid, nv, pv) = match self.read_op3() {
            Ok(t) => t,
            Err(k) => {
                return Err(k);
            },
        };
        let nb = match nv {
            ScalarType::Float(b) => b,
            _ => {
                return Err(VmErrorKind::WrongKind);
            },
        };
        let pb = match pv {
            ScalarType::Float(b) => b,
            _ => {
                return Err(VmErrorKind::WrongKind);
            },
        };
        let text: String = if cmp_bits(pb, ZERO_BITS) == Some(Order::Equal) {
            let t = bits_to_int(nb, false);
            let cl: i128 = if t.0 > 0x7FFF_FFFFi128 {
                0x7FFF_FFFFi128
            } else if t.0 < -0x8000_0000i128 {
                -0x8000_0000i128
            } else {
                t.0
            };
            i128_to_string(cl)
        } else {
            let t = bits_to_int(pb, false);
            let k: usize = if t.0 < 0 {
                0
            } else if t.0 > usize::MAX as i128 {
                usize::MAX
            } else {
                t.0 as usize
            };
            render_fixed(nb, k)
        };
        self.set_val(cid, ScalarType::Str(text))
    }

    fn _fmt(&mut self) -> (r: Result<(), VmErrorKind>)
        requires
            old(self).wf(),
        ensures
            final(self).wf(),
            final(self).stream() == old(self).stream(),
            final(self).registry() == old(self).registry(),
            final(self).out() == old(self).out(),
            final(self).inp() == old(self).inp(),
            r is Ok <==> ({
                &&& plain_at(old(self).stream(), old(self).pos() + 1)
                &&& plain_at(old(self).stream(), old(self).pos() + 2)
                &&& operand(old(self).stream(), old(self).frames(), old(self).pos() + 2) matches Some(
                    AbsVal::Str(_),
                )
                &&& scan_run(old(self).stream(), old(self).pos() + 3) matches Some(t)
                    && render_ids(old(self).frames(), t.0) matches Some(args) && fmt_text(
                    operand(
                        old(self).stream(),
                        old(self).frames(),
                        old(self).pos() + 2,
                    )->Some_0->Str_0,
                    args,
                ) is Some
                &&& old(self).frames().len() > 0
            }),
            r is Ok ==> {
                let t = scan_run(old(self).stream(), old(self).pos() + 3)->Some_0;
                let args = render_ids(old(self).frames(), t.0)->Some_0;
                let tpl = operand(
                    old(self).stream(),
                    old(self).frames(),
                    old(self).pos() + 2,
                )->Some_0->Str_0;
                &&& final(self).frames() == frames_set(
                    old(self).frames(),
                    old(self).stream().words[old(self).pos() + 1],
                    AbsVal::Str(fmt_text(tpl, args)->Some_0),
                )
                &&& final(self).pos() == t.1
            },
            r is Err ==> final(self).frames() == old(self).frames(),
    {
        let ghost m = old(self).stream();
        let cid = match self._next() {
            Ok(w) => w,
            Err(k) => {
                return Err(k);
            },
        };
        let sid = match self._next() {
            Ok(w) => w,
            Err(k) => {
                return Err(k);
            },
        };
        let tv = match self.lookup_val(sid) {
            Ok(v) => v,
            Err(k) => {
                return Err(k);
            },
        };
        let tpl = match tv {
            ScalarType::Str(s) => s,
            _ => {
                return Err(VmErrorKind::WrongKind);
            },
        };
        let mut args: Vec<String> = Vec::new();
        let ghost mut ids: Seq<u32> = Seq::empty();
        loop
            invariant_except_break
                self.wf(),
                m == old(self).stream(),
                self.stream() == old(self).stream(),
                self.registry() == old(self).registry(),
                self.frames() == old(self).frames(),
                self.out() == old(self).out(),
                self.inp() == old(self).inp(),
                render_ids(old(self).frames(), ids) == Some(args.deep_view()),
                match scan_run(m, self.pos() + 1) {
                    Some(t) => scan_run(m, old(self).pos() + 3) == Some((ids + t.0, t.1)),
                    None => scan_run(m, old(self).pos() + 3) is None,
                },
            ensures
                self.wf(),
                m == old(self).stream(),
                self.stream() == old(self).stream(),
                self.registry() == old(self).registry(),
                self.frames() == old(self).frames(),
                self.out() == old(self).out(),
                self.inp() == old(self).inp(),
                render_ids(old(self).frames(), ids) == Some(args.deep_view()),
                scan_run(m, old(self).pos() + 3) == Some((ids, self.pos() as int)),
            decreases m.words.len() - self.pos(),
        {
            let ghost q = self.pos() + 1;
            let w = match self._next() {
                Ok(w) => w,
                Err(k) => {
                    proof {
                        assert(scan_run(m, q) is None);
                    }
                    return Err(k);
                },
            };
            if w == ENDL {
                proof {
                    assert(scan_run(m, q) == Some((Seq::<u32>::empty(), q)));
                    assert(ids + Seq::<u32>::empty() =~= ids);
                }
                break ;
            }
            let v = match self.lookup_val(w) {
                Ok(v) => v,
                Err(k) => {
                    proof {
                        let sr = scan_run(m, q + 1);
                        if sr is Some {
                            let t = sr->Some_0;
                            assert(scan_run(m, q) == Some((seq![m.words[q]] + t.0, t.1)));
                            let total = ids + (seq![m.words[q]] + t.0);
                            assert(total[ids.len() as int] == w);
                            lemma_render_ids_all(old(self).frames(), total);
                        } else {
                            assert(scan_run(m, q) is None);
                        }
                    }
                    return Err(k);
                },
            };
            let ghost vv = v@;
            let rendered = v.render_text();
            args.push(rendered);
            proof {
                let ghost ids2 = ids.push(w);
                assert(ids2.drop_last() =~= ids);
                assert(render_ids(old(self).frames(), ids2) == Some(args.deep_view())) by {
                    assert(args.deep_view() =~= args.deep_view().drop_last().push(render(vv)));
                }
                let sr = scan_run(m, q + 1);
                if sr is Some {
                    let t = sr->Some_0;
                    assert(scan_run(m, q) == Some((seq![m.words[q]] + t.0, t.1)));
                    assert(ids + (seq![m.words[q]] + t.0) =~= ids2 + t.0);
                } else {
                    assert(scan_run(m, q) is None);
                }
                ids = ids2;
            }
        }
        match dyn_format(tpl.as_str(), &args) {
            Some(out) => self.set_val(cid, ScalarType::Str(out)),
            None => Err(VmErrorKind::ArityMismatch),
        }
    }
}

proof fn lemma_render_ids_all(frames: Seq<Map<u32, AbsVal>>, ids: Seq<u32>)
    ensures
        render_ids(frames, ids) is Some ==> forall|i: int|
            0 <= i < ids.len() ==> scope_lookup(frames, #[trigger] ids[i]) is Some,
    decreases ids.len(),
{
    if ids.len() > 0 {
        lemma_render_ids_all(frames, ids.drop_last());
        if render_ids(frames, ids) is Some {
            assert forall|i: int| 0 <= i < ids.len() implies scope_lookup(
                frames,
                #[trigger] ids[i],
            ) is Some by {
                if i < ids.len() - 1 {
                    assert(ids.drop_last()[i] == ids[i]);
                }
            }
        }
    }
}

/// The clamp of a 128-bit integer into the signed 32-bit range.
pub open spec fn clamp_i32(v: i128) -> int {
    if v > i32::MAX {
        i32::MAX as int
    } else if v < i32::MIN {
        i32::MIN as int
    } else {
        v as int
    }
}

/// The clamp of a 128-bit integer into the precision range.
pub open spec fn clamp_prec(v: i128) -> nat {
    if v < 0 {
        0
    } else if v > usize::MAX {
        usize::MAX as nat
    } else {
        v as nat
    }
}

/// A run of zero digits.
pub open spec fn zeros(n: nat) -> Seq<char>
    decreases n,
{
    if n == 0 {
        Seq::empty()
    } else {
        zeros((n - 1) as nat).push('0')
    }
}

/// A float rendered with a fixed number of decimal places: the value is
/// scaled by the corresponding power of ten, rounded to the nearest integer,
/// and printed with the decimal point inserted; zero places print the
/// rounded integer alone.
pub open spec fn fixed_text(nb: u32, k: nat) -> Seq<char> {
    let scaled = single_mul(nb, single_pow(crate::floats::TEN_BITS, k));
    let c = single_to_int(scaled, true);
    if k == 0 {
        int_text(c.0 as int)
    } else {
        let mag: nat = if c.0 >= 0 {
            c.0 as nat
        } else {
            (-(c.0 as int)) as nat
        };
        let raw = nat_text(mag);
        let digs: Seq<char> = if raw.len() > k {
            raw
        } else {
            zeros((k + 1 - raw.len()) as nat) + raw
        };
        let dotted = digs.take(digs.len() - k) + seq!['.'] + digs.skip(digs.len() - k);
        if c.0 < 0 {
            seq!['-'] + dotted
        } else {
            dotted
        }
    }
}

/// The text the numeric-format instruction produces: precision zero
/// truncates toward zero to an integer's textual form; any other precision
/// renders with that many decimal places.
pub open spec fn fmt_num_text(nb: u32, pb: u32) -> Seq<char> {
    if single_cmp(pb, ZERO_BITS) == 1 {
        int_text(clamp_i32(single_to_int(nb, false).0))
    } else {
        fixed_text(nb, clamp_prec(single_to_int(pb, false).0))
    }
}

fn zeros_string(n: usize) -> (s: String)
    ensures
        s@ == zeros(n as nat),
{
    let mut s = String::new();
    let mut i: usize = 0;
    while i < n
        invariant
            0 <= i <= n,
            s@ == zeros(i as nat),
        decreases n - i,
    {
        push_char(&mut s, '0');
        i = i + 1;
    }
    s
}

proof fn lemma_zeros_len(n: nat)
    ensures
        zeros(n).len() == n,
    decreases n,
{
    if n > 0 {
        lemma_zeros_len((n - 1) as nat);
    }
}

fn render_fixed(nb: u32, k: usize) -> (r: String)
    ensures
        r@ == fixed_text(nb, k as nat),
{
    let scaled = mul_bits(nb, pow_bits(crate::floats::TEN_BITS, k as u128));
    let c = bits_to_int(scaled, true);
    if k == 0 {
        return i128_to_string(c.0);
    }
    let neg = c.0 < 0;
    let mag: u128 = if c.0 >= 0 {
        c.0 as u128
    } else {
        ((-(c.0 + 1)) as u128) + 1
    };
    let raw = u128_to_string(mag);
    let ghost rawv = raw@;
    let rl = raw.unicode_len();
    proof {
        lemma_nat_text_digits(mag as nat);
    }
    let digs: String = if rl > k {
        raw
    } else {
        proof {
            lemma_zeros_len((k - rl + 1) as nat);
        }
        let mut z = zeros_string(k - rl + 1);
        z.append(raw.as_str());
        z
    };
    let ghost spec_digs: Seq<char> = if rawv.len() > k {
        rawv
    } else {
        zeros((k + 1 - rawv.len()) as nat) + rawv
    };
    proof {
        assert(digs@ =~= spec_digs);
        assert(digs@.len() > k);
    }
    let dl = digs.unicode_len();
    let front = digs.as_str().substring_char(0, dl - k);
    let back = digs.as_str().substring_char(dl - k, dl);
    let mut out = if neg {
        "-".to_owned()
    } else {
        String::new()
    };
    out.append(front);
    push_char(&mut out, '.');
    out.append(back);
    proof {
        let digsv = spec_digs;
        let dotted = digsv.take(digsv.len() - k as int) + seq!['.'] + digsv.skip(
            digsv.len() - k as int,
        );
        assert(front@ =~= digsv.take(digsv.len() - k as int));
        assert(back@ =~= digsv.skip(digsv.len() - k as int));
        if neg {
            reveal_strlit("-");
            assert(out@ =~= seq!['-'] + dotted);
        } else {
            assert(out@ =~= dotted);
        }
        assert(out@ =~= fixed_text(nb, k as nat));
    }
    out
}

} // verus!
