//! The scoped variable stack: nested frames mapping binding id to scalar
//! value. Lookup and removal search frames innermost first, so an inner
//! declaration shadows an outer one of the same id for its frame's lifetime.

use vstd::prelude::*;

verus! {

use std::collections::HashMap;
use crate::value::{ScalarType, AbsVal};
use crate::text::{u32_to_string, nat_text};
use vstd::string::StringExecFns;

broadcast use vstd::std_specs::hash::group_hash_axioms;

/// A recoverable fault of the scope stack.
#[derive(PartialEq, Eq, Structural, Clone, Copy, Debug)]
pub enum ScopeError {
    /// The looked-up id is bound in no frame.
    Unknown(u32),
    /// The removed id is bound in no frame.
    NotBound(u32),
}

/// The rendered message of a scope fault.
pub open spec fn scope_error_text(e: ScopeError) -> Seq<char> {
    match e {
        ScopeError::Unknown(id) => "Unknown memory "@ + nat_text(id as nat) + " referenced."@,
        ScopeError::NotBound(id) => "Tried to delete memory "@ + nat_text(id as nat)
            + " which does not exist."@,
    }
}

impl ScopeError {
    /// A human-readable description of the fault.
    pub fn message(&self) -> (s: String)
        ensures
            s@ == scope_error_text(*self),
    {
        match self {
            ScopeError::Unknown(id) => {
                let mut s = "Unknown memory ".to_owned();
                s.append(u32_to_string(*id).as_str());
                s.append(" referenced.");
                s
            },
            ScopeError::NotBound(id) => {
                let mut s = "Tried to delete memory ".to_owned();
                s.append(u32_to_string(*id).as_str());
                s.append(" which does not exist.");
                s
            },
        }
    }
}

/// The value bound to an id, found in the innermost frame that binds it.
pub open spec fn scope_lookup(frames: Seq<Map<u32, AbsVal>>, key: u32) -> Option<AbsVal>
    decreases frames.len(),
{
    if frames.len() == 0 {
        None
    } else if frames.last().contains_key(key) {
        Some(frames.last()[key])
    } else {
        scope_lookup(frames.drop_last(), key)
    }
}

/// The frames after removing an id from the innermost frame that binds it;
/// `None` when no frame binds it.
pub open spec fn scope_remove(frames: Seq<Map<u32, AbsVal>>, key: u32) -> Option<
    Seq<Map<u32, AbsVal>>,
>
    decreases frames.len(),
{
    if frames.len() == 0 {
        None
    } else if frames.last().contains_key(key) {
        Some(frames.drop_last().push(frames.last().remove(key)))
    } else {
        match scope_remove(frames.drop_last(), key) {
            Some(rest) => Some(rest.push(frames.last())),
            None => None,
        }
    }
}

/// An ordered stack of frames; the last frame is the innermost one.
pub struct ScopeStack {
    stack: Vec<HashMap<u32, ScalarType>>,
}

impl View for ScopeStack {
    type V = Seq<Map<u32, AbsVal>>;

    closed spec fn view(&self) -> Seq<Map<u32, AbsVal>> {
        self.stack@.map_values(
            |m: HashMap<u32, ScalarType>| m@.map_values(|v: ScalarType| v@),
        )
    }
}

impl ScopeStack {
    /// A stack holding the single global frame, empty.
    pub fn new() -> (r: ScopeStack)
        ensures
            r@ =~= seq![Map::<u32, AbsVal>::empty()],
    {
        let mut stack: Vec<HashMap<u32, ScalarType>> = Vec::new();
        stack.push(HashMap::new());
        let r = ScopeStack { stack };
        proof {
            assert(r@[0] =~= Map::<u32, AbsVal>::empty());
        }
        r
    }

    /// The number of frames.
    pub fn depth(&self) -> (r: usize)
        ensures
            r == self@.len(),
    {
        self.stack.len()
    }

    /// Pushes a fresh, empty innermost frame.
    pub fn new_scope(&mut self)
        ensures
            final(self)@ =~= old(self)@.push(Map::<u32, AbsVal>::empty()),
    {
        self.stack.push(HashMap::new());
        proof {
            assert(self@.last() =~= Map::<u32, AbsVal>::empty());
            assert(self@ =~= old(self)@.push(self@.last()));
        }
    }

    /// Pops the innermost frame, destroying its bindings; without a frame
    /// this does nothing.
    pub fn pop_scope(&mut self)
        ensures
            final(self)@ == if old(self)@.len() > 0 {
                old(self)@.drop_last()
            } else {
                old(self)@
            },
    {
        let popped = self.stack.pop();
        proof {
            if old(self)@.len() > 0 {
                assert(self@ =~= old(self)@.drop_last());
            } else {
                assert(self@ =~= old(self)@);
            }
        }
    }

    fn bind(&mut self, key: u32, val: ScalarType)
        requires
            old(self)@.len() > 0,
        ensures
            final(self)@ =~= old(self)@.drop_last().push(old(self)@.last().insert(key, val@)),
    {
        let mut top = match self.stack.pop() {
            Some(t) => t,
            None => {
                proof {
                    assert(false);
                }
                HashMap::new()
            },
        };
        let ghost v = val@;
        top.insert(key, val);
        self.stack.push(top);
        proof {
            assert(self@.last() =~= old(self)@.last().insert(key, v));
            assert(self@ =~= old(self)@.drop_last().push(self@.last()));
        }
    }

    /// Declares a binding in the innermost frame, initialized to null.
    pub fn alloca(&mut self, key: u32)
        requires
            old(self)@.len() > 0,
        ensures
            final(self)@ =~= old(self)@.drop_last().push(
                old(self)@.last().insert(key, AbsVal::Null),
            ),
    {
        self.bind(key, ScalarType::Null);
    }

    /// Binds an id in the innermost frame to a value, declaring or
    /// replacing it there.
    pub fn set(&mut self, key: u32, val: ScalarType)
        requires
            old(self)@.len() > 0,
        ensures
            final(self)@ =~= old(self)@.drop_last().push(old(self)@.last().insert(key, val@)),
    {
        self.bind(key, val);
    }

    /// Reads the value bound to an id, searching frames innermost first;
    /// fails exactly when no frame binds the id.
    pub fn get(&self, key: u32) -> (r: Result<ScalarType, ScopeError>)
        ensures
            match r {
                Ok(v) => scope_lookup(self@, key) == Some(v@),
                Err(e) => {
                    &&& e == ScopeError::Unknown(key)
                    &&& scope_lookup(self@, key) is None
                },
            },
    {
        let n = self.stack.len();
        proof {
            assert(self@.take(n as int) =~= self@);
        }
        let mut i: usize = n;
        while i > 0
            invariant
                n == self@.len(),
                0 <= i <= n,
                scope_lookup(self@, key) == scope_lookup(self@.take(i as int), key),
            decreases i,
        {
            i = i - 1;
            proof {
                assert(self@.take(i + 1).last() == self@[i as int]);
                assert(self@.take(i + 1).drop_last() =~= self@.take(i as int));
            }
            match self.stack[i].get(&key) {
                Some(v) => {
                    proof {
                        assert(self@[i as int].contains_key(key));
                        assert(self@[i as int][key] == v@);
                    }
                    return Ok(v.duplicate());
                },
                None => {
                    proof {
                        assert(!self@[i as int].contains_key(key));
                    }
                },
            }
        }
        proof {
            assert(self@.take(0) =~= Seq::<Map<u32, AbsVal>>::empty());
        }
        Err(ScopeError::Unknown(key))
    }

    fn remove_rec(stack: &mut Vec<HashMap<u32, ScalarType>>, key: u32) -> (r: Result<
        (),
        ScopeError,
    >)
        ensures
            match r {
                Ok(()) => scope_remove(frames_view(*old(stack)), key) == Some(
                    frames_view(*final(stack)),
                ),
                Err(e) => {
                    &&& e == ScopeError::NotBound(key)
                    &&& scope_remove(frames_view(*old(stack)), key) is None
                    &&& frames_view(*final(stack)) == frames_view(*old(stack))
                },
            },
        decreases old(stack)@.len(),
    {
        let mut top = match stack.pop() {
            Some(t) => t,
            None => {
                proof {
                    assert(frames_view(*stack) =~= frames_view(*old(stack)));
                }
                return Err(ScopeError::NotBound(key));
            },
        };
        proof {
            assert(frames_view(*stack) =~= frames_view(*old(stack)).drop_last());
            assert(frames_view(*old(stack)).last() =~= top@.map_values(|v: ScalarType| v@));
        }
        if top.contains_key(&key) {
            top.remove(&key);
            stack.push(top);
            proof {
                assert(frames_view(*stack).last() =~= frames_view(*old(stack)).last().remove(key));
                assert(frames_view(*stack) =~= frames_view(*old(stack)).drop_last().push(
                    frames_view(*stack).last(),
                ));
            }
            Ok(())
        } else {
            let r = Self::remove_rec(stack, key);
            let ghost mid = frames_view(*stack);
            stack.push(top);
            proof {
                assert(frames_view(*stack) =~= mid.push(frames_view(*old(stack)).last()));
            }
            r
        }
    }

    /// Removes the binding of an id from the innermost frame that holds it;
    /// fails exactly when no frame binds the id.
    pub fn remove(&mut self, key: u32) -> (r: Result<(), ScopeError>)
        ensures
            match r {
                Ok(()) => scope_remove(old(self)@, key) == Some(final(self)@),
                Err(e) => {
                    &&& e == ScopeError::NotBound(key)
                    &&& scope_remove(old(self)@, key) is None
                    &&& final(self)@ == old(self)@
                },
            },
    {
        Self::remove_rec(&mut self.stack, key)
    }
}

/// The model of a raw frame vector, innermost last.
pub open spec fn frames_view(stack: Vec<HashMap<u32, ScalarType>>) -> Seq<Map<u32, AbsVal>> {
    stack@.map_values(|m: HashMap<u32, ScalarType>| m@.map_values(|v: ScalarType| v@))
}

} // verus!
