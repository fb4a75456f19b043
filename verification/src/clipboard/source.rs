//! Content that is read at offsets.

use crate::clipboard::hresult::HResult;
use vstd::prelude::*;

verus! {

/// Content of a known length that is read at offsets. A read may give fewer bytes than were
/// asked for, and gives none only at the end.
pub trait ReadAtSource {
    /// The length of the content.
    spec fn length(&self) -> u64;

    /// Whether a read at `offset` may turn the destination from `before` into `after` and give
    /// `result`.
    spec fn answers(
        &self,
        offset: u64,
        before: Seq<u8>,
        after: Seq<u8>,
        result: Result<usize, HResult>,
    ) -> bool;

    fn len(&self) -> (length: u64)
        ensures
            length == self.length(),
    ;

    fn read_at(&self, offset: u64, destination: &mut [u8]) -> (result: Result<usize, HResult>)
        ensures
            final(destination)@.len() == old(destination)@.len(),
            self.answers(offset, old(destination)@, final(destination)@, result),
    ;
}

/// The bytes that a read of `wanted` bytes at `offset` finds.
pub open spec fn found(content: Seq<u8>, offset: int, wanted: int) -> Seq<u8> {
    if offset >= content.len() {
        Seq::empty()
    } else if content.len() - offset < wanted {
        content.skip(offset)
    } else {
        content.subrange(offset, offset + wanted)
    }
}

/// Content that is held in memory.
#[derive(Debug)]
pub struct MemorySource {
    pub bytes: Vec<u8>,
}

impl MemorySource {
    pub fn new(bytes: Vec<u8>) -> (source: Self)
        ensures
            source.bytes@ == bytes@,
    {
        MemorySource { bytes }
    }
}

impl ReadAtSource for MemorySource {
    open spec fn length(&self) -> u64 {
        self.bytes@.len() as u64
    }

    open spec fn answers(
        &self,
        offset: u64,
        before: Seq<u8>,
        after: Seq<u8>,
        result: Result<usize, HResult>,
    ) -> bool {
        let found = found(self.bytes@, offset as int, before.len() as int);
        &&& result == Ok::<usize, HResult>(found.len() as usize)
        &&& after == found + before.skip(found.len() as int)
    }

    fn len(&self) -> (length: u64) {
        self.bytes.len() as u64
    }

    fn read_at(&self, offset: u64, destination: &mut [u8]) -> (result: Result<usize, HResult>) {
        let ghost before = destination@;
        if offset >= self.bytes.len() as u64 {
            assert(destination@ =~= Seq::<u8>::empty() + before.skip(0));
            return Ok(0);
        }
        let start: usize = offset as usize;
        let available: usize = self.bytes.len() - start;
        let copied: usize = if available < destination.len() {
            available
        } else {
            destination.len()
        };
        let mut index: usize = 0;
        while index < copied
            invariant
                index <= copied,
                start + copied <= self.bytes@.len(),
                copied <= before.len(),
                destination@ =~= self.bytes@.subrange(start as int, start + index) + before.skip(
                    index as int,
                ),
            decreases copied - index,
        {
            assert(start + index < self.bytes.len());
            destination[index] = self.bytes[start + index];
            index += 1;
        }
        assert(found(self.bytes@, offset as int, before.len() as int) =~= self.bytes@.subrange(
            start as int,
            start + copied,
        ));
        Ok(copied)
    }
}

} // verus!
