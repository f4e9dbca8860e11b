//! The bytecode builder: one emission operation per instruction kind. Each
//! operation takes either an explicit destination id (rebind an existing
//! binding) or none (allocate a fresh id), and returns the id actually used,
//! so callers can chain results without tracking allocation separately.

use vstd::prelude::*;

verus! {

use crate::opcodes::{
    ByteType, AbsByte, ENDL, ALLOCA, STORE, DEL, ADD, SUB, MUL, DIV, MOD, JUMP, BLOCK, COND_JUMP,
    EQ, GT, LT, GTE, LTE, NUM, STDOUT, STDIN, EXP, STR, FMT, BEGIN_SCOPE, END_SCOPE, NEQ,
    CAST_NUM, CAST_STR, FMT_NUM, START, BOOL, MAX_INSTR_INT,
};
use crate::idalloc::{IDManager, IdError, mintable, next_free};
use crate::stream::{ByteCode, StreamModel, append_model, extend_model};

/// True when `new_m` is `old_m` with `ws` appended and nothing else changed.
pub open spec fn appended(old_m: StreamModel, new_m: StreamModel, ws: Seq<u32>) -> bool {
    &&& new_m.words == old_m.words + ws
    &&& new_m.strtab == old_m.strtab
}

/// How a destination id relates the old and new stream models: an explicit
/// id leaves the allocator alone; a fresh one is minted and registered.
pub open spec fn dest_ok(
    old_m: StreamModel,
    new_m: StreamModel,
    want: Option<u32>,
    cid: u32,
) -> bool {
    match want {
        Some(c) => {
            &&& cid == c
            &&& new_m.registered == old_m.registered
            &&& new_m.counter == old_m.counter
        },
        None => {
            &&& mintable(old_m.registered, old_m.counter)
            &&& cid == next_free(old_m.registered, old_m.counter)
            &&& new_m.registered == old_m.registered.insert(cid)
            &&& new_m.counter == cid
        },
    }
}

/// The emission API around an exclusively owned stream.
pub struct BytecodeBuilder {
    pub src: Box<ByteCode>,
}

proof fn lemma_extend_nums(m: StreamModel, ws: Seq<u32>)
    ensures
        extend_model(m, ws.map_values(|w: u32| AbsByte::Num(w))) == Some(
            StreamModel {
                words: m.words + ws,
                strtab: m.strtab,
                registered: m.registered,
                counter: m.counter,
            },
        ),
    decreases ws.len(),
{
    let items = ws.map_values(|w: u32| AbsByte::Num(w));
    if ws.len() == 0 {
        assert(m.words + ws =~= m.words);
        assert(extend_model(m, items) == Some(
            StreamModel {
                words: m.words + ws,
                strtab: m.strtab,
                registered: m.registered,
                counter: m.counter,
            },
        )) by {
            assert(StreamModel {
                words: m.words + ws,
                strtab: m.strtab,
                registered: m.registered,
                counter: m.counter,
            } =~= m);
        }
    } else {
        let m2 = StreamModel {
            words: m.words.push(ws[0]),
            strtab: m.strtab,
            registered: m.registered,
            counter: m.counter,
        };
        assert(append_model(m, items[0]) == Some(m2));
        lemma_extend_nums(m2, ws.skip(1));
        assert(items.skip(1) =~= ws.skip(1).map_values(|w: u32| AbsByte::Num(w)));
        assert(m2.words + ws.skip(1) =~= m.words + ws);
    }
}

impl BytecodeBuilder {
    /// Well-formedness of the underlying stream.
    pub open spec fn wf(&self) -> bool {
        self.src.wf()
    }

    /// A fresh builder around an empty stream and a fresh allocator.
    pub fn new() -> (r: BytecodeBuilder)
        ensures
            r.wf(),
            r.src@.words == Seq::<u32>::empty(),
            r.src@.strtab == Map::<u32, Seq<char>>::empty(),
            r.src@.registered == Set::<u32>::empty(),
            r.src@.counter == MAX_INSTR_INT,
    {
        let id_manager = IDManager::new();
        BytecodeBuilder { src: Box::new(ByteCode::new(id_manager)) }
    }

    fn conv_vec_bt_num(vector: Vec<u32>) -> (r: Vec<ByteType>)
        ensures
            r.deep_view() == vector@.map_values(|w: u32| AbsByte::Num(w)),
    {
        let mut new_vec: Vec<ByteType> = Vec::new();
        let n = vector.len();
        let mut i: usize = 0;
        while i < n
            invariant
                n == vector@.len(),
                0 <= i <= n,
                new_vec@.len() == i,
                forall|j: int| 0 <= j < i ==> new_vec@[j] == ByteType::Num(vector@[j]),
            decreases n - i,
        {
            new_vec.push(ByteType::Num(vector[i]));
            i = i + 1;
        }
        proof {
            let dv = new_vec.deep_view();
            let mv = vector@.map_values(|w: u32| AbsByte::Num(w));
            assert forall|j: int| 0 <= j < dv.len() implies dv[j] == mv[j] by {
                assert(new_vec@[j] == ByteType::Num(vector@[j]));
            }
            assert(dv =~= mv);
        }
        new_vec
    }

    fn emit_words(&mut self, ws: Vec<u32>)
        requires
            old(self).wf(),
        ensures
            final(self).wf(),
            appended(old(self).src@, final(self).src@, ws@),
            final(self).src@.registered == old(self).src@.registered,
            final(self).src@.counter == old(self).src@.counter,
    {
        let ghost w = ws@;
        let items = Self::conv_vec_bt_num(ws);
        proof {
            lemma_extend_nums(self.src@, w);
        }
        match self.src.extend(items) {
            Ok(()) => {},
            Err(_) => {
                proof {
                    assert(false);
                }
            },
        }
    }

    fn resolve_dest(&mut self, want: Option<u32>) -> (r: Result<u32, IdError>)
        requires
            old(self).wf(),
        ensures
            final(self).wf(),
            final(self).src@.words == old(self).src@.words,
            final(self).src@.strtab == old(self).src@.strtab,
            match r {
                Ok(cid) => dest_ok(old(self).src@, final(self).src@, want, cid),
                Err(e) => {
                    &&& e == IdError::Exhausted
                    &&& want is None
                    &&& final(self).src@ == old(self).src@
                    &&& !mintable(old(self).src@.registered, old(self).src@.counter)
                },
            },
    {
        match want {
            Some(c) => Ok(c),
            None => self.src.mint_id(),
        }
    }

    fn write_binary(&mut self, op: u32, lhs: u32, rhs: u32, _cid: Option<u32>) -> (r: Result<
        u32,
        IdError,
    >)
        requires
            old(self).wf(),
        ensures
            final(self).wf(),
            match r {
                Ok(cid) => {
                    &&& dest_ok(old(self).src@, final(self).src@, _cid, cid)
                    &&& appended(
                        old(self).src@,
                        final(self).src@,
                        seq![op, cid, lhs, rhs, ENDL],
                    )
                },
                Err(e) => {
                    &&& e == IdError::Exhausted
                    &&& _cid is None
                    &&& final(self).src@ == old(self).src@
                    &&& !mintable(old(self).src@.registered, old(self).src@.counter)
                },
            },
    {
        let cid = match self.resolve_dest(_cid) {
            Ok(cid) => cid,
            Err(e) => {
                return Err(e);
            },
        };
        let mut ws: Vec<u32> = Vec::new();
        ws.push(op);
        ws.push(cid);
        ws.push(lhs);
        ws.push(rhs);
        ws.push(ENDL);
        proof {
            assert(ws@ =~= seq![op, cid, lhs, rhs, ENDL]);
        }
        self.emit_words(ws);
        Ok(cid)
    }

    /// Emits an equality comparison; returns the destination id.
    pub fn write_eq(&mut self, lhs: u32, rhs: u32, _cid: Option<u32>) -> (r: Result<u32, IdError>)
        requires
            old(self).wf(),
        ensures
            final(self).wf(),
            match r {
                Ok(cid) => {
                    &&& dest_ok(old(self).src@, final(self).src@, _cid, cid)
                    &&& appended(
                        old(self).src@,
                        final(self).src@,
                        seq![EQ, cid, lhs, rhs, ENDL],
                    )
                },
                Err(e) => e == IdError::Exhausted && _cid is None && final(self).src@ == old(
                    self,
                ).src@ && !mintable(old(self).src@.registered, old(self).src@.counter),
            },
    {
        self.write_binary(EQ, lhs, rhs, _cid)
    }

    /// Emits a strictly-above comparison; returns the destination id.
    pub fn write_gt(&mut self, lhs: u32, rhs: u32, _cid: Option<u32>) -> (r: Result<u32, IdError>)
        requires
            old(self).wf(),
        ensures
            final(self).wf(),
            match r {
                Ok(cid) => {
                    &&& dest_ok(old(self).src@, final(self).src@, _cid, cid)
                    &&& appended(
                        old(self).src@,
                        final(self).src@,
                        seq![GT, cid, lhs, rhs, ENDL],
                    )
                },
                Err(e) => e == IdError::Exhausted && _cid is None && final(self).src@ == old(
                    self,
                ).src@ && !mintable(old(self).src@.registered, old(self).src@.counter),
            },
    {
        self.write_binary(GT, lhs, rhs, _cid)
    }

    /// Emits a strictly-below comparison; returns the destination id.
    pub fn write_lt(&mut self, lhs: u32, rhs: u32, _cid: Option<u32>) -> (r: Result<u32, IdError>)
        requires
            old(self).wf(),
        ensures
            final(self).wf(),
            match r {
                Ok(cid) => {
                    &&& dest_ok(old(self).src@, final(self).src@, _cid, cid)
                    &&& appended(
                        old(self).src@,
                        final(self).src@,
                        seq![LT, cid, lhs, rhs, ENDL],
                    )
                },
                Err(e) => e == IdError::Exhausted && _cid is None && final(self).src@ == old(
                    self,
                ).src@ && !mintable(old(self).src@.registered, old(self).src@.counter),
            },
    {
        self.write_binary(LT, lhs, rhs, _cid)
    }

    /// Emits an at-least comparison; returns the destination id.
    pub fn write_gte(&mut self, lhs: u32, rhs: u32, _cid: Option<u32>) -> (r: Result<u32, IdError>)
        requires
            old(self).wf(),
        ensures
            final(self).wf(),
            match r {
                Ok(cid) => {
                    &&& dest_ok(old(self).src@, final(self).src@, _cid, cid)
                    &&& appended(
                        old(self).src@,
                        final(self).src@,
                        seq![GTE, cid, lhs, rhs, ENDL],
                    )
                },
                Err(e) => e == IdError::Exhausted && _cid is None && final(self).src@ == old(
                    self,
                ).src@ && !mintable(old(self).src@.registered, old(self).src@.counter),
            },
    {
        self.write_binary(GTE, lhs, rhs, _cid)
    }

    /// Emits an at-most comparison; returns the destination id.
    pub fn write_lte(&mut self, lhs: u32, rhs: u32, _cid: Option<u32>) -> (r: Result<u32, IdError>)
        requires
            old(self).wf(),
        ensures
            final(self).wf(),
            match r {
                Ok(cid) => {
                    &&& dest_ok(old(self).src@, final(self).src@, _cid, cid)
                    &&& appended(
                        old(self).src@,
                        final(self).src@,
                        seq![LTE, cid, lhs, rhs, ENDL],
                    )
                },
                Err(e) => e == IdError::Exhausted && _cid is None && final(self).src@ == old(
                    self,
                ).src@ && !mintable(old(self).src@.registered, old(self).src@.counter),
            },
    {
        self.write_binary(LTE, lhs, rhs, _cid)
    }

    /// Emits an inequality comparison; returns the destination id.
    pub fn write_neq(&mut self, lhs: u32, rhs: u32, _cid: Option<u32>) -> (r: Result<u32, IdError>)
        requires
            old(self).wf(),
        ensures
            final(self).wf(),
            match r {
                Ok(cid) => {
                    &&& dest_ok(old(self).src@, final(self).src@, _cid, cid)
                    &&& appended(
                        old(self).src@,
                        final(self).src@,
                        seq![NEQ, cid, lhs, rhs, ENDL],
                    )
                },
                Err(e) => e == IdError::Exhausted && _cid is None && final(self).src@ == old(
                    self,
                ).src@ && !mintable(old(self).src@.registered, old(self).src@.counter),
            },
    {
        self.write_binary(NEQ, lhs, rhs, _cid)
    }

    /// Emits an addition; returns the destination id.
    pub fn write_add(&mut self, lhs: u32, rhs: u32, _cid: Option<u32>) -> (r: Result<u32, IdError>)
        requires
            old(self).wf(),
        ensures
            final(self).wf(),
            match r {
                Ok(cid) => {
                    &&& dest_ok(old(self).src@, final(self).src@, _cid, cid)
                    &&& appended(
                        old(self).src@,
                        final(self).src@,
                        seq![ADD, cid, lhs, rhs, ENDL],
                    )
                },
                Err(e) => e == IdError::Exhausted && _cid is None && final(self).src@ == old(
                    self,
                ).src@ && !mintable(old(self).src@.registered, old(self).src@.counter),
            },
    {
        self.write_binary(ADD, lhs, rhs, _cid)
    }

    /// Emits a subtraction; returns the destination id.
    pub fn write_sub(&mut self, lhs: u32, rhs: u32, _cid: Option<u32>) -> (r: Result<u32, IdError>)
        requires
            old(self).wf(),
        ensures
            final(self).wf(),
            match r {
                Ok(cid) => {
                    &&& dest_ok(old(self).src@, final(self).src@, _cid, cid)
                    &&& appended(
                        old(self).src@,
                        final(self).src@,
                        seq![SUB, cid, lhs, rhs, ENDL],
                    )
                },
                Err(e) => e == IdError::Exhausted && _cid is None && final(self).src@ == old(
                    self,
                ).src@ && !mintable(old(self).src@.registered, old(self).src@.counter),
            },
    {
        self.write_binary(SUB, lhs, rhs, _cid)
    }

    /// Emits a multiplication; returns the destination id.
    pub fn write_mul(&mut self, lhs: u32, rhs: u32, _cid: Option<u32>) -> (r: Result<u32, IdError>)
        requires
            old(self).wf(),
        ensures
            final(self).wf(),
            match r {
                Ok(cid) => {
                    &&& dest_ok(old(self).src@, final(self).src@, _cid, cid)
                    &&& appended(
                        old(self).src@,
                        final(self).src@,
                        seq![MUL, cid, lhs, rhs, ENDL],
                    )
                },
                Err(e) => e == IdError::Exhausted && _cid is None && final(self).src@ == old(
                    self,
                ).src@ && !mintable(old(self).src@.registered, old(self).src@.counter),
            },
    {
        self.write_binary(MUL, lhs, rhs, _cid)
    }

    /// Emits a division; returns the destination id.
    pub fn write_div(&mut self, lhs: u32, rhs: u32, _cid: Option<u32>) -> (r: Result<u32, IdError>)
        requires
            old(self).wf(),
        ensures
            final(self).wf(),
            match r {
                Ok(cid) => {
                    &&& dest_ok(old(self).src@, final(self).src@, _cid, cid)
                    &&& appended(
                        old(self).src@,
                        final(self).src@,
                        seq![DIV, cid, lhs, rhs, ENDL],
                    )
                },
                Err(e) => e == IdError::Exhausted && _cid is None && final(self).src@ == old(
                    self,
                ).src@ && !mintable(old(self).src@.registered, old(self).src@.counter),
            },
    {
        self.write_binary(DIV, lhs, rhs, _cid)
    }

    /// Emits an exponentiation; returns the destination id.
    pub fn write_exp(&mut self, lhs: u32, rhs: u32, _cid: Option<u32>) -> (r: Result<u32, IdError>)
        requires
            old(self).wf(),
        ensures
            final(self).wf(),
            match r {
                Ok(cid) => {
                    &&& dest_ok(old(self).src@, final(self).src@, _cid, cid)
                    &&& appended(
                        old(self).src@,
                        final(self).src@,
                        seq![EXP, cid, lhs, rhs, ENDL],
                    )
                },
                Err(e) => e == IdError::Exhausted && _cid is None && final(self).src@ == old(
                    self,
                ).src@ && !mintable(old(self).src@.registered, old(self).src@.counter),
            },
    {
        self.write_binary(EXP, lhs, rhs, _cid)
    }

    /// Emits a remainder; returns the destination id.
    pub fn write_mod(&mut self, lhs: u32, rhs: u32, _cid: Option<u32>) -> (r: Result<u32, IdError>)
        requires
            old(self).wf(),
        ensures
            final(self).wf(),
            match r {
                Ok(cid) => {
                    &&& dest_ok(old(self).src@, final(self).src@, _cid, cid)
                    &&& appended(
                        old(self).src@,
                        final(self).src@,
                        seq![MOD, cid, lhs, rhs, ENDL],
                    )
                },
                Err(e) => e == IdError::Exhausted && _cid is None && final(self).src@ == old(
                    self,
                ).src@ && !mintable(old(self).src@.registered, old(self).src@.counter),
            },
    {
        self.write_binary(MOD, lhs, rhs, _cid)
    }

    /// Emits an allocation declaration; returns the destination id.
    pub fn write_alloca(&mut self, _cid: Option<u32>) -> (r: Result<u32, IdError>)
        requires
            old(self).wf(),
        ensures
            final(self).wf(),
            match r {
                Ok(cid) => {
                    &&& dest_ok(old(self).src@, final(self).src@, _cid, cid)
                    &&& appended(old(self).src@, final(self).src@, seq![ALLOCA, cid, ENDL])
                },
                Err(e) => e == IdError::Exhausted && _cid is None && final(self).src@ == old(
                    self,
                ).src@ && !mintable(old(self).src@.registered, old(self).src@.counter),
            },
    {
        let cid = match self.resolve_dest(_cid) {
            Ok(cid) => cid,
            Err(e) => {
                return Err(e);
            },
        };
        let mut ws: Vec<u32> = Vec::new();
        ws.push(ALLOCA);
        ws.push(cid);
        ws.push(ENDL);
        proof {
            assert(ws@ =~= seq![ALLOCA, cid, ENDL]);
        }
        self.emit_words(ws);
        Ok(cid)
    }

    /// Emits a rebind of an existing destination to a source binding's
    /// value; returns the destination id.
    pub fn write_store(&mut self, id: u32, value: u32) -> (r: u32)
        requires
            old(self).wf(),
        ensures
            final(self).wf(),
            r == id,
            appended(old(self).src@, final(self).src@, seq![STORE, id, value, ENDL]),
            final(self).src@.registered == old(self).src@.registered,
            final(self).src@.counter == old(self).src@.counter,
    {
        let mut ws: Vec<u32> = Vec::new();
        ws.push(STORE);
        ws.push(id);
        ws.push(value);
        ws.push(ENDL);
        proof {
            assert(ws@ =~= seq![STORE, id, value, ENDL]);
        }
        self.emit_words(ws);
        id
    }

    /// Emits a delete; the id itself is released back to the allocator by
    /// the interpreter when the instruction runs. Returns the id.
    pub fn write_del(&mut self, id: u32) -> (r: u32)
        requires
            old(self).wf(),
        ensures
            final(self).wf(),
            r == id,
            appended(old(self).src@, final(self).src@, seq![DEL, id, ENDL]),
            final(self).src@.registered == old(self).src@.registered,
            final(self).src@.counter == old(self).src@.counter,
    {
        let mut ws: Vec<u32> = Vec::new();
        ws.push(DEL);
        ws.push(id);
        ws.push(ENDL);
        proof {
            assert(ws@ =~= seq![DEL, id, ENDL]);
        }
        self.emit_words(ws);
        id
    }

    /// Emits an unconditional jump to a block; the only instruction without
    /// a sentinel. Returns the block id.
    pub fn write_jump(&mut self, block: u32) -> (r: u32)
        requires
            old(self).wf(),
        ensures
            final(self).wf(),
            r == block,
            appended(old(self).src@, final(self).src@, seq![JUMP, block]),
            final(self).src@.registered == old(self).src@.registered,
            final(self).src@.counter == old(self).src@.counter,
    {
        let mut ws: Vec<u32> = Vec::new();
        ws.push(JUMP);
        ws.push(block);
        proof {
            assert(ws@ =~= seq![JUMP, block]);
        }
        self.emit_words(ws);
        block
    }

    /// Emits a conditional jump to a block on a boolean binding; returns the
    /// block id.
    pub fn write_cond_jump(&mut self, block: u32, cond: u32) -> (r: u32)
        requires
            old(self).wf(),
        ensures
            final(self).wf(),
            r == block,
            appended(old(self).src@, final(self).src@, seq![COND_JUMP, block, cond, ENDL]),
            final(self).src@.registered == old(self).src@.registered,
            final(self).src@.counter == old(self).src@.counter,
    {
        let mut ws: Vec<u32> = Vec::new();
        ws.push(COND_JUMP);
        ws.push(block);
        ws.push(cond);
        ws.push(ENDL);
        proof {
            assert(ws@ =~= seq![COND_JUMP, block, cond, ENDL]);
        }
        self.emit_words(ws);
        block
    }

    /// Emits a block declaration; returns the block id.
    pub fn write_block(&mut self, _cid: Option<u32>) -> (r: Result<u32, IdError>)
        requires
            old(self).wf(),
        ensures
            final(self).wf(),
            match r {
                Ok(cid) => {
                    &&& dest_ok(old(self).src@, final(self).src@, _cid, cid)
                    &&& appended(old(self).src@, final(self).src@, seq![BLOCK, cid, ENDL])
                },
                Err(e) => e == IdError::Exhausted && _cid is None && final(self).src@ == old(
                    self,
                ).src@ && !mintable(old(self).src@.registered, old(self).src@.counter),
            },
    {
        let cid = match self.resolve_dest(_cid) {
            Ok(cid) => cid,
            Err(e) => {
                return Err(e);
            },
        };
        let mut ws: Vec<u32> = Vec::new();
        ws.push(BLOCK);
        ws.push(cid);
        ws.push(ENDL);
        proof {
            assert(ws@ =~= seq![BLOCK, cid, ENDL]);
        }
        self.emit_words(ws);
        Ok(cid)
    }

    /// Emits a scope entry.
    pub fn write_begin_scope(&mut self)
        requires
            old(self).wf(),
        ensures
            final(self).wf(),
            appended(old(self).src@, final(self).src@, seq![BEGIN_SCOPE, ENDL]),
            final(self).src@.registered == old(self).src@.registered,
            final(self).src@.counter == old(self).src@.counter,
    {
        let mut ws: Vec<u32> = Vec::new();
        ws.push(BEGIN_SCOPE);
        ws.push(ENDL);
        proof {
            assert(ws@ =~= seq![BEGIN_SCOPE, ENDL]);
        }
        self.emit_words(ws);
    }

    /// Emits a scope exit.
    pub fn write_end_scope(&mut self)
        requires
            old(self).wf(),
        ensures
            final(self).wf(),
            appended(old(self).src@, final(self).src@, seq![END_SCOPE, ENDL]),
            final(self).src@.registered == old(self).src@.registered,
            final(self).src@.counter == old(self).src@.counter,
    {
        let mut ws: Vec<u32> = Vec::new();
        ws.push(END_SCOPE);
        ws.push(ENDL);
        proof {
            assert(ws@ =~= seq![END_SCOPE, ENDL]);
        }
        self.emit_words(ws);
    }

    /// Emits the entry marker that arms full dispatch.
    pub fn write_start(&mut self)
        requires
            old(self).wf(),
        ensures
            final(self).wf(),
            appended(old(self).src@, final(self).src@, seq![START, ENDL]),
            final(self).src@.registered == old(self).src@.registered,
            final(self).src@.counter == old(self).src@.counter,
    {
        let mut ws: Vec<u32> = Vec::new();
        ws.push(START);
        ws.push(ENDL);
        proof {
            assert(ws@ =~= seq![START, ENDL]);
        }
        self.emit_words(ws);
    }

    /// Emits a numeric literal as its run of decimal digit words; returns
    /// the destination id.
    pub fn write_num(&mut self, _num: u32, _cid: Option<u32>) -> (r: Result<u32, IdError>)
        requires
            old(self).wf(),
        ensures
            final(self).wf(),
            match r {
                Ok(cid) => {
                    &&& dest_ok(old(self).src@, final(self).src@, _cid, cid)
                    &&& appended(
                        old(self).src@,
                        final(self).src@,
                        seq![NUM, cid] + u32_digits(_num) + seq![ENDL],
                    )
                },
                Err(e) => e == IdError::Exhausted && _cid is None && final(self).src@ == old(
                    self,
                ).src@ && !mintable(old(self).src@.registered, old(self).src@.counter),
            },
    {
        let cid = match self.resolve_dest(_cid) {
            Ok(cid) => cid,
            Err(e) => {
                return Err(e);
            },
        };
        let mut ws: Vec<u32> = Vec::new();
        ws.push(NUM);
        ws.push(cid);
        push_digit_words(&mut ws, _num);
        ws.push(ENDL);
        proof {
            assert(ws@ =~= seq![NUM, cid] + u32_digits(_num) + seq![ENDL]);
        }
        self.emit_words(ws);
        Ok(cid)
    }

    /// Emits a string-to-number conversion; returns the destination id.
    pub fn write_cast_num(&mut self, id: u32, _cid: Option<u32>) -> (r: Result<u32, IdError>)
        requires
            old(self).wf(),
        ensures
            final(self).wf(),
            match r {
                Ok(cid) => {
                    &&& dest_ok(old(self).src@, final(self).src@, _cid, cid)
                    &&& appended(
                        old(self).src@,
                        final(self).src@,
                        seq![CAST_NUM, cid, id, ENDL],
                    )
                },
                Err(e) => e == IdError::Exhausted && _cid is None && final(self).src@ == old(
                    self,
                ).src@ && !mintable(old(self).src@.registered, old(self).src@.counter),
            },
    {
        let cid = match self.resolve_dest(_cid) {
            Ok(cid) => cid,
            Err(e) => {
                return Err(e);
            },
        };
        let mut ws: Vec<u32> = Vec::new();
        ws.push(CAST_NUM);
        ws.push(cid);
        ws.push(id);
        ws.push(ENDL);
        proof {
            assert(ws@ =~= seq![CAST_NUM, cid, id, ENDL]);
        }
        self.emit_words(ws);
        Ok(cid)
    }

    /// Emits a value-to-string conversion; returns the destination id.
    pub fn write_cast_str(&mut self, id: u32, _cid: Option<u32>) -> (r: Result<u32, IdError>)
        requires
            old(self).wf(),
        ensures
            final(self).wf(),
            match r {
                Ok(cid) => {
                    &&& dest_ok(old(self).src@, final(self).src@, _cid, cid)
                    &&& appended(
                        old(self).src@,
                        final(self).src@,
                        seq![CAST_STR, cid, id, ENDL],
                    )
                },
                Err(e) => e == IdError::Exhausted && _cid is None && final(self).src@ == old(
                    self,
                ).src@ && !mintable(old(self).src@.registered, old(self).src@.counter),
            },
    {
        let cid = match self.resolve_dest(_cid) {
            Ok(cid) => cid,
            Err(e) => {
                return Err(e);
            },
        };
        let mut ws: Vec<u32> = Vec::new();
        ws.push(CAST_STR);
        ws.push(cid);
        ws.push(id);
        ws.push(ENDL);
        proof {
            assert(ws@ =~= seq![CAST_STR, cid, id, ENDL]);
        }
        self.emit_words(ws);
        Ok(cid)
    }

    /// Emits a string literal: the text is interned under a fresh id and
    /// that id stands as the operand word. Returns the destination id.
    pub fn write_str(&mut self, string: String, _cid: Option<u32>) -> (r: Result<u32, IdError>)
        requires
            old(self).wf(),
        ensures
            final(self).wf(),
            match r {
                Ok(cid) => exists|m1: StreamModel|
                    {
                        &&& #[trigger] dest_ok(old(self).src@, m1, _cid, cid)
                        &&& m1.words == old(self).src@.words
                        &&& m1.strtab == old(self).src@.strtab
                        &&& extend_model(
                            m1,
                            seq![
                                AbsByte::Num(STR),
                                AbsByte::Num(cid),
                                AbsByte::Str(string@),
                                AbsByte::Num(ENDL),
                            ],
                        ) == Some(final(self).src@)
                    },
                Err(e) => e == IdError::Exhausted && !mintable(
                    final(self).src@.registered,
                    final(self).src@.counter,
                ),
            },
    {
        let ghost t = string@;
        let cid = match self.resolve_dest(_cid) {
            Ok(cid) => cid,
            Err(e) => {
                return Err(e);
            },
        };
        let ghost m1 = self.src@;
        let mut items: Vec<ByteType> = Vec::new();
        items.push(ByteType::Num(STR));
        items.push(ByteType::Num(cid));
        items.push(ByteType::Str(string));
        items.push(ByteType::Num(ENDL));
        proof {
            assert(items.deep_view() =~= seq![
                AbsByte::Num(STR),
                AbsByte::Num(cid),
                AbsByte::Str(t),
                AbsByte::Num(ENDL),
            ]);
        }
        match self.src.extend(items) {
            Ok(()) => Ok(cid),
            Err(e) => Err(e),
        }
    }

    /// Emits a template-format instruction over a template string binding
    /// and a list of argument bindings; returns the destination id.
    pub fn write_fmt(&mut self, string: u32, items: Vec<u32>, _cid: Option<u32>) -> (r: Result<
        u32,
        IdError,
    >)
        requires
            old(self).wf(),
        ensures
            final(self).wf(),
            match r {
                Ok(cid) => {
                    &&& dest_ok(old(self).src@, final(self).src@, _cid, cid)
                    &&& appended(
                        old(self).src@,
                        final(self).src@,
                        seq![FMT, cid, string] + items@ + seq![ENDL],
                    )
                },
                Err(e) => e == IdError::Exhausted && _cid is None && final(self).src@ == old(
                    self,
                ).src@ && !mintable(old(self).src@.registered, old(self).src@.counter),
            },
    {
        let cid = match self.resolve_dest(_cid) {
            Ok(cid) => cid,
            Err(e) => {
                return Err(e);
            },
        };
        let mut ws: Vec<u32> = Vec::new();
        ws.push(FMT);
        ws.push(cid);
        ws.push(string);
        let n = items.len();
        let mut i: usize = 0;
        while i < n
            invariant
                n == items@.len(),
                0 <= i <= n,
                ws@ =~= seq![FMT, cid, string] + items@.take(i as int),
            decreases n - i,
        {
            ws.push(items[i]);
            i = i + 1;
            proof {
                assert(ws@ =~= seq![FMT, cid, string] + items@.take(i as int));
            }
        }
        ws.push(ENDL);
        proof {
            assert(items@.take(n as int) =~= items@);
            assert(ws@ =~= seq![FMT, cid, string] + items@ + seq![ENDL]);
        }
        self.emit_words(ws);
        Ok(cid)
    }

    /// Emits a numeric-format instruction: render a float binding with a
    /// given decimal precision binding; returns the destination id.
    pub fn write_fmt_num(&mut self, num: u32, precision: u32, _cid: Option<u32>) -> (r: Result<
        u32,
        IdError,
    >)
        requires
            old(self).wf(),
        ensures
            final(self).wf(),
            match r {
                Ok(cid) => {
                    &&& dest_ok(old(self).src@, final(self).src@, _cid, cid)
                    &&& appended(
                        old(self).src@,
                        final(self).src@,
                        seq![FMT_NUM, cid, num, precision, ENDL],
                    )
                },
                Err(e) => e == IdError::Exhausted && _cid is None && final(self).src@ == old(
                    self,
                ).src@ && !mintable(old(self).src@.registered, old(self).src@.counter),
            },
    {
        self.write_binary(FMT_NUM, num, precision, _cid)
    }

    /// Emits a console-output instruction for a binding.
    pub fn write_stdout(&mut self, out: u32)
        requires
            old(self).wf(),
        ensures
            final(self).wf(),
            appended(old(self).src@, final(self).src@, seq![STDOUT, out, ENDL]),
            final(self).src@.registered == old(self).src@.registered,
            final(self).src@.counter == old(self).src@.counter,
    {
        let mut ws: Vec<u32> = Vec::new();
        ws.push(STDOUT);
        ws.push(out);
        ws.push(ENDL);
        proof {
            assert(ws@ =~= seq![STDOUT, out, ENDL]);
        }
        self.emit_words(ws);
    }

    /// Emits a console-input instruction; returns the destination id.
    pub fn write_stdin(&mut self, _cid: Option<u32>) -> (r: Result<u32, IdError>)
        requires
            old(self).wf(),
        ensures
            final(self).wf(),
            match r {
                Ok(cid) => {
                    &&& dest_ok(old(self).src@, final(self).src@, _cid, cid)
                    &&& appended(old(self).src@, final(self).src@, seq![STDIN, cid, ENDL])
                },
                Err(e) => e == IdError::Exhausted && _cid is None && final(self).src@ == old(
                    self,
                ).src@ && !mintable(old(self).src@.registered, old(self).src@.counter),
            },
    {
        let cid = match self.resolve_dest(_cid) {
            Ok(cid) => cid,
            Err(e) => {
                return Err(e);
            },
        };
        let mut ws: Vec<u32> = Vec::new();
        ws.push(STDIN);
        ws.push(cid);
        ws.push(ENDL);
        proof {
            assert(ws@ =~= seq![STDIN, cid, ENDL]);
        }
        self.emit_words(ws);
        Ok(cid)
    }

    /// Emits a boolean literal declaration; returns the destination id.
    pub fn write_bool(&mut self, value: bool, _cid: Option<u32>) -> (r: Result<u32, IdError>)
        requires
            old(self).wf(),
        ensures
            final(self).wf(),
            match r {
                Ok(cid) => {
                    &&& dest_ok(old(self).src@, final(self).src@, _cid, cid)
                    &&& appended(
                        old(self).src@,
                        final(self).src@,
                        seq![BOOL, cid, if value { 1u32 } else { 0u32 }, ENDL],
                    )
                },
                Err(e) => e == IdError::Exhausted && _cid is None && final(self).src@ == old(
                    self,
                ).src@ && !mintable(old(self).src@.registered, old(self).src@.counter),
            },
    {
        let cid = match self.resolve_dest(_cid) {
            Ok(cid) => cid,
            Err(e) => {
                return Err(e);
            },
        };
        let mut ws: Vec<u32> = Vec::new();
        ws.push(BOOL);
        ws.push(cid);
        ws.push(if value { 1u32 } else { 0u32 });
        ws.push(ENDL);
        proof {
            assert(ws@ =~= seq![BOOL, cid, if value { 1u32 } else { 0u32 }, ENDL]);
        }
        self.emit_words(ws);
        Ok(cid)
    }
}

/// The run of decimal digit words encoding a numeric literal.
pub open spec fn u32_digits(n: u32) -> Seq<u32>
    decreases n,
{
    if n < 10 {
        seq![n]
    } else {
        u32_digits(n / 10).push(n % 10)
    }
}

fn push_digit_words(ws: &mut Vec<u32>, n: u32)
    ensures
        final(ws)@ == old(ws)@ + u32_digits(n),
    decreases n,
{
    if n >= 10 {
        push_digit_words(ws, n / 10);
    }
    ws.push(n % 10);
    proof {
        if n < 10 {
            assert(old(ws)@ + u32_digits(n) =~= old(ws)@.push(n));
        } else {
            assert(old(ws)@ + u32_digits(n) =~= (old(ws)@ + u32_digits(n / 10)).push(n % 10));
        }
    }
}

} // verus!
