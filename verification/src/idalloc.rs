//! The id allocator: mints monotonically increasing binding identifiers above
//! the reserved opcode range, with an explicit register/release lifecycle.
//! Minting registers the returned id in the same step, so an id can never be
//! handed out twice while it is still bound.

use vstd::prelude::*;

verus! {

use std::collections::HashSet;
use crate::opcodes::MAX_INSTR_INT;
use crate::text::{u32_to_string, nat_text};
use vstd::string::StringExecFns;

broadcast use vstd::std_specs::hash::group_hash_axioms;

/// A recoverable fault of the allocator.
#[derive(PartialEq, Eq, Structural, Clone, Copy, Debug)]
pub enum IdError {
    /// The id was registered while already registered.
    DoubleRegister(u32),
    /// The id was released while not registered.
    DoubleRelease(u32),
    /// Every id above the counter is already registered.
    Exhausted,
}

/// The rendered message of an allocator fault.
pub open spec fn id_error_text(e: IdError) -> Seq<char> {
    match e {
        IdError::DoubleRegister(id) => "The dynamic id "@ + nat_text(id as nat)
            + " was instantiated twice."@,
        IdError::DoubleRelease(id) => "The dynamic id "@ + nat_text(id as nat)
            + " was deleted twice."@,
        IdError::Exhausted => "The id space is exhausted."@,
    }
}

impl IdError {
    /// A human-readable description of the fault.
    pub fn message(&self) -> (s: String)
        ensures
            s@ == id_error_text(*self),
    {
        match self {
            IdError::DoubleRegister(id) => {
                let mut s = "The dynamic id ".to_owned();
                s.append(u32_to_string(*id).as_str());
                s.append(" was instantiated twice.");
                s
            },
            IdError::DoubleRelease(id) => {
                let mut s = "The dynamic id ".to_owned();
                s.append(u32_to_string(*id).as_str());
                s.append(" was deleted twice.");
                s
            },
            IdError::Exhausted => "The id space is exhausted.".to_owned(),
        }
    }
}

/// True when some id above `counter` is still unregistered.
pub open spec fn mintable(registered: Set<u32>, counter: u32) -> bool {
    exists|j: u32| j > counter && !registered.contains(j)
}

/// The smallest unregistered id above `counter` (zero when there is none).
pub open spec fn next_free(registered: Set<u32>, counter: u32) -> u32
    decreases u32::MAX - counter,
{
    if counter == u32::MAX {
        0
    } else if !registered.contains((counter + 1) as u32) {
        (counter + 1) as u32
    } else {
        next_free(registered, (counter + 1) as u32)
    }
}

proof fn lemma_mintable_step(registered: Set<u32>, counter: u32)
    requires
        counter < u32::MAX,
        registered.contains((counter + 1) as u32),
    ensures
        mintable(registered, counter) == mintable(registered, (counter + 1) as u32),
{
    if mintable(registered, counter) {
        let j = choose|j: u32| j > counter && !registered.contains(j);
        assert(j > counter + 1);
        assert(mintable(registered, (counter + 1) as u32));
    }
    if mintable(registered, (counter + 1) as u32) {
        let j = choose|j: u32| j > counter + 1 && !registered.contains(j);
        assert(j > counter && !registered.contains(j));
    }
}

/// Mints binding ids and tracks which ids are currently registered.
pub struct IDManager {
    current: u32,
    existing: HashSet<u32>,
}

impl IDManager {
    /// The set of currently registered ids.
    pub closed spec fn registered(&self) -> Set<u32> {
        self.existing@
    }

    /// The counter below which no new id is minted.
    pub closed spec fn counter(&self) -> u32 {
        self.current
    }

    /// A fresh allocator: counter at the opcode boundary, nothing registered.
    pub fn new() -> (r: IDManager)
        ensures
            r.counter() == MAX_INSTR_INT,
            r.registered() == Set::<u32>::empty(),
    {
        IDManager { current: MAX_INSTR_INT, existing: HashSet::new() }
    }

    /// Mints a fresh id: the smallest unregistered value above the counter,
    /// registered in the same step. Fails only when every value above the
    /// counter is already registered.
    pub fn current_id(&mut self) -> (r: Result<u32, IdError>)
        ensures
            match r {
                Ok(id) => {
                    &&& mintable(old(self).registered(), old(self).counter())
                    &&& id == next_free(old(self).registered(), old(self).counter())
                    &&& id > old(self).counter()
                    &&& !old(self).registered().contains(id)
                    &&& final(self).registered() == old(self).registered().insert(id)
                    &&& final(self).counter() == id
                },
                Err(e) => {
                    &&& e == IdError::Exhausted
                    &&& *final(self) == *old(self)
                    &&& !mintable(old(self).registered(), old(self).counter())
                },
            },
    {
        let mut c: u32 = self.current;
        loop
            invariant
                *self == *old(self),
                c >= old(self).counter(),
                mintable(old(self).registered(), old(self).counter()) == mintable(
                    old(self).registered(),
                    c,
                ),
                next_free(old(self).registered(), old(self).counter()) == next_free(
                    old(self).registered(),
                    c,
                ),
            decreases u32::MAX - c,
        {
            if c == u32::MAX {
                proof {
                    assert(!mintable(old(self).registered(), c));
                }
                return Err(IdError::Exhausted);
            }
            c = c + 1;
            if !self.existing.contains(&c) {
                self.existing.insert(c);
                self.current = c;
                proof {
                    assert(mintable(old(self).registered(), (c - 1) as u32));
                }
                return Ok(c);
            }
            proof {
                lemma_mintable_step(old(self).registered(), (c - 1) as u32);
            }
        }
    }

    /// Registers an id; fails when it is already registered.
    pub fn add_id(&mut self, id: u32) -> (r: Result<(), IdError>)
        ensures
            match r {
                Ok(()) => {
                    &&& !old(self).registered().contains(id)
                    &&& final(self).registered() == old(self).registered().insert(id)
                    &&& final(self).counter() == old(self).counter()
                },
                Err(e) => {
                    &&& e == IdError::DoubleRegister(id)
                    &&& old(self).registered().contains(id)
                    &&& *final(self) == *old(self)
                },
            },
    {
        if self.existing.contains(&id) {
            return Err(IdError::DoubleRegister(id));
        }
        self.existing.insert(id);
        Ok(())
    }

    /// Releases an id; fails when it is not currently registered.
    pub fn remove_id(&mut self, id: u32) -> (r: Result<(), IdError>)
        ensures
            match r {
                Ok(()) => {
                    &&& old(self).registered().contains(id)
                    &&& final(self).registered() == old(self).registered().remove(id)
                    &&& final(self).counter() == old(self).counter()
                },
                Err(e) => {
                    &&& e == IdError::DoubleRelease(id)
                    &&& !old(self).registered().contains(id)
                    &&& *final(self) == *old(self)
                },
            },
    {
        if !self.existing.contains(&id) {
            return Err(IdError::DoubleRelease(id));
        }
        self.existing.remove(&id);
        Ok(())
    }
}

} // verus!
