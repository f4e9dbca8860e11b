//! The bytecode stream: an append-only, randomly patchable sequence of
//! 32-bit words, with a side table that maps interned ids to string
//! literals. A string literal is never stored inline: appending one mints a
//! fresh id, records the text under that id, and pushes the id as a word.
//! Reading a word resolves it through the side table first.

use vstd::prelude::*;

verus! {

use std::collections::HashMap;
use crate::opcodes::{ByteType, AbsByte, MAX_INSTR_INT};
use crate::idalloc::{IDManager, IdError, mintable, next_free};

broadcast use vstd::std_specs::hash::group_hash_axioms;

/// The model of a stream: its words, its string side table, and the state
/// of the id allocator it owns.
pub struct StreamModel {
    pub words: Seq<u32>,
    pub strtab: Map<u32, Seq<char>>,
    pub registered: Set<u32>,
    pub counter: u32,
}

/// The resolution a reader applies to a word: an id recorded in the side
/// table reads as its interned string, any other word as itself.
pub open spec fn resolve(m: StreamModel, w: u32) -> AbsByte {
    if m.strtab.contains_key(w) {
        AbsByte::Str(m.strtab[w])
    } else {
        AbsByte::Num(w)
    }
}

/// The effect of appending one item: a plain word is pushed as it is; a
/// string is interned under a freshly minted id and the id is pushed.
/// `None` when the id space is exhausted.
pub open spec fn append_model(m: StreamModel, item: AbsByte) -> Option<StreamModel> {
    match item {
        AbsByte::Num(w) => Some(
            StreamModel {
                words: m.words.push(w),
                strtab: m.strtab,
                registered: m.registered,
                counter: m.counter,
            },
        ),
        AbsByte::Str(s) => if mintable(m.registered, m.counter) {
            let id = next_free(m.registered, m.counter);
            Some(
                StreamModel {
                    words: m.words.push(id),
                    strtab: m.strtab.insert(id, s),
                    registered: m.registered.insert(id),
                    counter: id,
                },
            )
        } else {
            None
        },
    }
}

/// The effect of appending a list of items in order.
pub open spec fn extend_model(m: StreamModel, items: Seq<AbsByte>) -> Option<StreamModel>
    decreases items.len(),
{
    if items.len() == 0 {
        Some(m)
    } else {
        match append_model(m, items[0]) {
            Some(m2) => extend_model(m2, items.skip(1)),
            None => None,
        }
    }
}

/// The bytecode stream with its interned string table and the id allocator
/// that serves both string interning and binding allocation.
pub struct ByteCode {
    bytecode: Vec<u32>,
    strings: HashMap<u32, String>,
    ids: IDManager,
}

impl View for ByteCode {
    type V = StreamModel;

    closed spec fn view(&self) -> StreamModel {
        StreamModel {
            words: self.bytecode@,
            strtab: self.strings@.map_values(|s: String| s@),
            registered: self.ids.registered(),
            counter: self.ids.counter(),
        }
    }
}

impl ByteCode {
    /// Well-formedness: every interned id lies above the opcode range, and
    /// the allocator's counter never sits below that range, so minted ids
    /// can never collide with opcode words.
    pub open spec fn wf(&self) -> bool {
        &&& self@.counter >= MAX_INSTR_INT
        &&& forall|k: u32| self@.strtab.contains_key(k) ==> k > MAX_INSTR_INT
    }

    /// An empty stream around the given allocator.
    pub fn new(ids: IDManager) -> (r: ByteCode)
        requires
            ids.counter() >= MAX_INSTR_INT,
        ensures
            r.wf(),
            r@.words == Seq::<u32>::empty(),
            r@.strtab == Map::<u32, Seq<char>>::empty(),
            r@.registered == ids.registered(),
            r@.counter == ids.counter(),
    {
        let r = ByteCode { bytecode: Vec::new(), strings: HashMap::new(), ids };
        proof {
            assert(r@.strtab =~= Map::<u32, Seq<char>>::empty());
        }
        r
    }

    /// The number of words in the stream.
    pub fn len(&self) -> (r: usize)
        ensures
            r == self@.words.len(),
    {
        self.bytecode.len()
    }

    /// Mints a fresh binding id from the stream's allocator.
    pub fn mint_id(&mut self) -> (r: Result<u32, IdError>)
        requires
            old(self).wf(),
        ensures
            final(self).wf(),
            final(self)@.words == old(self)@.words,
            final(self)@.strtab == old(self)@.strtab,
            match r {
                Ok(id) => {
                    &&& mintable(old(self)@.registered, old(self)@.counter)
                    &&& id == next_free(old(self)@.registered, old(self)@.counter)
                    &&& id > MAX_INSTR_INT
                    &&& !old(self)@.registered.contains(id)
                    &&& final(self)@.registered == old(self)@.registered.insert(id)
                    &&& final(self)@.counter == id
                },
                Err(e) => {
                    &&& e == IdError::Exhausted
                    &&& !mintable(old(self)@.registered, old(self)@.counter)
                    &&& final(self)@ == old(self)@
                },
            },
    {
        let r = self.ids.current_id();
        proof {
            assert forall|k: u32| self@.strtab.contains_key(k) implies k > MAX_INSTR_INT by {
                assert(old(self)@.strtab.contains_key(k));
            }
        }
        r
    }

    /// Releases a binding id back to the stream's allocator.
    pub fn release_id(&mut self, id: u32) -> (r: Result<(), IdError>)
        requires
            old(self).wf(),
        ensures
            final(self).wf(),
            final(self)@.words == old(self)@.words,
            final(self)@.strtab == old(self)@.strtab,
            final(self)@.counter == old(self)@.counter,
            match r {
                Ok(()) => {
                    &&& old(self)@.registered.contains(id)
                    &&& final(self)@.registered == old(self)@.registered.remove(id)
                },
                Err(e) => {
                    &&& e == IdError::DoubleRelease(id)
                    &&& !old(self)@.registered.contains(id)
                    &&& final(self)@ == old(self)@
                },
            },
    {
        let r = self.ids.remove_id(id);
        proof {
            assert forall|k: u32| self@.strtab.contains_key(k) implies k > MAX_INSTR_INT by {
                assert(old(self)@.strtab.contains_key(k));
            }
        }
        r
    }

    /// Appends one item: a plain word directly, a string through interning.
    pub fn append(&mut self, item: ByteType) -> (r: Result<(), IdError>)
        requires
            old(self).wf(),
        ensures
            final(self).wf(),
            match r {
                Ok(()) => append_model(old(self)@, item@) == Some(final(self)@),
                Err(e) => {
                    &&& e == IdError::Exhausted
                    &&& append_model(old(self)@, item@) is None
                    &&& final(self)@ == old(self)@
                    &&& !mintable(old(self)@.registered, old(self)@.counter)
                },
            },
    {
        match item {
            ByteType::Str(text) => {
                let ghost t = text@;
                let cid = match self.ids.current_id() {
                    Ok(cid) => cid,
                    Err(e) => {
                        return Err(e);
                    },
                };
                self.strings.insert(cid, text);
                self.bytecode.push(cid);
                proof {
                    assert(self@.strtab =~= old(self)@.strtab.insert(cid, t));
                }
                Ok(())
            },
            ByteType::Num(w) => {
                self.bytecode.push(w);
                Ok(())
            },
        }
    }

    /// Appends a list of items in order; on failure the items before the
    /// failing one remain appended.
    pub fn extend(&mut self, items: Vec<ByteType>) -> (r: Result<(), IdError>)
        requires
            old(self).wf(),
        ensures
            final(self).wf(),
            match r {
                Ok(()) => extend_model(old(self)@, items.deep_view()) == Some(final(self)@),
                Err(e) => {
                    &&& e == IdError::Exhausted
                    &&& extend_model(old(self)@, items.deep_view()) is None
                    &&& !mintable(final(self)@.registered, final(self)@.counter)
                },
            },
    {
        let ghost idv = items.deep_view();
        let mut it = items;
        while it.len() > 0
            invariant
                self.wf(),
                idv == items.deep_view(),
                extend_model(old(self)@, idv) == extend_model(self@, it.deep_view()),
            decreases it.len(),
        {
            let ghost pre_it = it.deep_view();
            let ghost pre = self@;
            let item = it.remove(0);
            proof {
                assert(it.deep_view() =~= pre_it.skip(1));
                assert(item@ == pre_it[0]);
            }
            match self.append(item) {
                Ok(()) => {
                    proof {
                        assert(extend_model(pre, pre_it) == extend_model(self@, it.deep_view()));
                    }
                },
                Err(e) => {
                    proof {
                        assert(pre_it.len() > 0);
                        assert(extend_model(pre, pre_it) is None);
                    }
                    return Err(e);
                },
            }
        }
        proof {
            assert(it.deep_view() =~= Seq::<AbsByte>::empty());
        }
        Ok(())
    }

    /// Overwrites the word at an index in place, for forward-reference
    /// patching before execution begins.
    pub fn set(&mut self, index: usize, item: u32)
        requires
            old(self).wf(),
            index < old(self)@.words.len(),
        ensures
            final(self).wf(),
            final(self)@.words == old(self)@.words.update(index as int, item),
            final(self)@.strtab == old(self)@.strtab,
            final(self)@.registered == old(self)@.registered,
            final(self)@.counter == old(self)@.counter,
    {
        self.bytecode.set(index, item);
        proof {
            assert forall|k: u32| self@.strtab.contains_key(k) implies k > MAX_INSTR_INT by {
                assert(old(self)@.strtab.contains_key(k));
            }
        }
    }

    /// Reads the word at an index, resolved through the string side table.
    pub fn at(&self, index: usize) -> (r: ByteType)
        requires
            self.wf(),
            index < self@.words.len(),
        ensures
            r@ == resolve(self@, self@.words[index as int]),
    {
        let cur = self.bytecode[index];
        match self.strings.get(&cur) {
            Some(text) => ByteType::Str(text.clone()),
            None => ByteType::Num(cur),
        }
    }
}

} // verus!
