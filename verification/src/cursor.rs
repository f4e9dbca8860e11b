//! A rewindable, seekable cursor over a finished bytecode stream. The
//! position starts one step before the first word; advancing returns the
//! next resolved word and fails once the end is reached.

use vstd::prelude::*;

verus! {

use crate::opcodes::ByteType;
use crate::stream::{ByteCode, StreamModel, resolve};
use crate::idalloc::IdError;

/// A cursor over an exclusively owned stream.
pub struct ByteCursor {
    src: Box<ByteCode>,
    cursor: i32,
}

impl ByteCursor {
    /// The stream under the cursor.
    pub closed spec fn stream(&self) -> StreamModel {
        self.src@
    }

    /// The index of the last word read; one before the start is -1.
    pub closed spec fn pos(&self) -> int {
        self.cursor as int
    }

    /// Well-formedness: the stream is well formed, fits the cursor's range,
    /// and the position stays between one-before-start and the last word.
    pub closed spec fn wf(&self) -> bool {
        &&& self.src.wf()
        &&& self.stream().words.len() <= i32::MAX
        &&& -1 <= self.pos()
        &&& self.pos() < self.stream().words.len() || self.pos() == -1
    }

    /// What well-formedness guarantees: the stream fits the signed range
    /// and the position sits between one-before-start and the last word.
    pub proof fn lemma_len_bound(&self)
        requires
            self.wf(),
        ensures
            self.stream().words.len() <= i32::MAX,
            -1 <= self.pos(),
            self.pos() < self.stream().words.len() || self.pos() == -1,
    {
    }

    /// A cursor at the start of the given stream.
    pub fn new(src: Box<ByteCode>) -> (r: ByteCursor)
        requires
            src.wf(),
            src@.words.len() <= i32::MAX,
        ensures
            r.wf(),
            r.stream() == src@,
            r.pos() == -1,
    {
        ByteCursor { src, cursor: -1 }
    }

    /// The index of the last word read.
    pub fn position(&self) -> (r: i32)
        ensures
            r == self.pos(),
    {
        self.cursor
    }

    /// The number of words in the stream.
    pub fn len(&self) -> (r: usize)
        ensures
            r == self.stream().words.len(),
    {
        self.src.len()
    }

    /// True when every word has been read.
    pub fn finished(&self) -> (r: bool)
        requires
            self.wf(),
        ensures
            r == (self.pos() + 1 == self.stream().words.len()),
    {
        self.cursor + 1 == self.src.len() as i32
    }

    /// Moves back to one before the start.
    pub fn rewind(&mut self)
        requires
            old(self).wf(),
        ensures
            final(self).wf(),
            final(self).stream() == old(self).stream(),
            final(self).pos() == -1,
    {
        self.cursor = -1;
    }

    /// Advances one word and returns it resolved, or fails at the end of
    /// the stream and rewinds to one before the start.
    pub fn _next(&mut self) -> (r: Result<ByteType, ()>)
        requires
            old(self).wf(),
        ensures
            final(self).wf(),
            final(self).stream() == old(self).stream(),
            if old(self).pos() + 1 == old(self).stream().words.len() {
                r is Err && final(self).pos() == -1
            } else {
                &&& final(self).pos() == old(self).pos() + 1
                &&& r matches Ok(b) && b@ == resolve(
                    old(self).stream(),
                    old(self).stream().words[old(self).pos() + 1],
                )
            },
    {
        if self.finished() {
            self.cursor = -1;
            return Err(());
        }
        self.cursor = self.cursor + 1;
        Ok(self.src.at(self.cursor as usize))
    }

    /// Seeks to an absolute index and returns the resolved word there.
    pub fn at(&mut self, index: usize) -> (r: ByteType)
        requires
            old(self).wf(),
            index < old(self).stream().words.len(),
        ensures
            final(self).wf(),
            final(self).stream() == old(self).stream(),
            final(self).pos() == index,
            r@ == resolve(old(self).stream(), old(self).stream().words[index as int]),
    {
        self.cursor = index as i32;
        self.src.at(index)
    }

    /// Seeks to an absolute index and overwrites the word there, for
    /// forward-reference patching before execution begins.
    pub fn set(&mut self, index: usize, item: u32)
        requires
            old(self).wf(),
            index < old(self).stream().words.len(),
        ensures
            final(self).wf(),
            final(self).stream().words == old(self).stream().words.update(index as int, item),
            final(self).stream().strtab == old(self).stream().strtab,
            final(self).stream().registered == old(self).stream().registered,
            final(self).stream().counter == old(self).stream().counter,
            final(self).pos() == index,
    {
        self.cursor = index as i32;
        self.src.set(index, item);
    }

    /// Steps back one position and returns the resolved word there.
    pub fn prev(&mut self) -> (r: ByteType)
        requires
            old(self).wf(),
            1 <= old(self).pos(),
        ensures
            final(self).wf(),
            final(self).stream() == old(self).stream(),
            final(self).pos() == old(self).pos() - 1,
            r@ == resolve(old(self).stream(), old(self).stream().words[old(self).pos() - 1]),
    {
        self.cursor = self.cursor - 1;
        self.src.at(self.cursor as usize)
    }

    /// Seeks to an absolute index without reading.
    pub fn jump(&mut self, ind: u32)
        requires
            old(self).wf(),
            ind < old(self).stream().words.len(),
        ensures
            final(self).wf(),
            final(self).stream() == old(self).stream(),
            final(self).pos() == ind,
    {
        self.cursor = ind as i32;
    }

    /// The resolved word at the current position.
    pub fn current(&self) -> (r: ByteType)
        requires
            self.wf(),
            0 <= self.pos() < self.stream().words.len(),
        ensures
            r@ == resolve(self.stream(), self.stream().words[self.pos()]),
    {
        self.src.at(self.cursor as usize)
    }

    /// Releases a binding id back to the stream's allocator.
    pub fn release_id(&mut self, id: u32) -> (r: Result<(), IdError>)
        requires
            old(self).wf(),
        ensures
            final(self).wf(),
            final(self).pos() == old(self).pos(),
            final(self).stream().words == old(self).stream().words,
            final(self).stream().strtab == old(self).stream().strtab,
            final(self).stream().counter == old(self).stream().counter,
            match r {
                Ok(()) => {
                    &&& old(self).stream().registered.contains(id)
                    &&& final(self).stream().registered == old(self).stream().registered.remove(
                        id,
                    )
                },
                Err(e) => {
                    &&& e == IdError::DoubleRelease(id)
                    &&& !old(self).stream().registered.contains(id)
                    &&& final(self).stream() == old(self).stream()
                },
            },
    {
        self.src.release_id(id)
    }
}

} // verus!
