//! A read-only stream with a position over content that is read at offsets.

use crate::clipboard::hresult::{
    HResult, E_NOTIMPL, E_POINTER, E_UNEXPECTED, STG_E_ACCESSDENIED, STG_E_INVALIDFUNCTION,
    STG_E_INVALIDPOINTER, S_FALSE, S_OK,
};
use crate::clipboard::probe::{CallContext, ProbeState};
use crate::clipboard::source;
use crate::clipboard::source::{MemorySource, ReadAtSource};
use crate::text;
use vstd::prelude::*;

verus! {

/// Displacements count from the start.
pub const STREAM_SEEK_SET: u32 = 0;

/// Displacements count from the position.
pub const STREAM_SEEK_CUR: u32 = 1;

/// Displacements count from the end.
pub const STREAM_SEEK_END: u32 = 2;

/// Statistics with the name.
pub const STATFLAG_DEFAULT: u32 = 0;

/// Statistics without the name.
pub const STATFLAG_NONAME: u32 = 1;

/// Statistics without opening the object.
pub const STATFLAG_NOOPEN: u32 = 2;

/// The type number of a stream.
pub const STGTY_STREAM: u32 = 2;

/// The mode of an object that can be read only.
pub const STGM_READ: u32 = 0;

/// A stream: the name of its content and a position in it.
#[derive(Debug)]
pub struct VirtualStream {
    pub name: String,
    pub position: u64,
}

/// What a stream says of itself. The name has a closing zero.
#[derive(Debug)]
pub struct StreamStat {
    pub kind: u32,
    pub size: u64,
    pub mode: u32,
    pub name: Option<Vec<u16>>,
}

/// Whether reading on until the destination is full, the source has no more or a read fails may
/// turn the destination from `before` into `after` and give `outcome`. The first `done` bytes
/// are already there.
pub open spec fn gathers<S: ReadAtSource>(
    source: S,
    position: u64,
    done: nat,
    before: Seq<u8>,
    after: Seq<u8>,
    outcome: Result<usize, HResult>,
) -> bool
    decreases before.len() - done,
{
    if done >= before.len() {
        after == before && outcome == Ok::<usize, HResult>(done as usize)
    } else if position + done > u64::MAX {
        after == before && outcome == Err::<usize, HResult>(STG_E_INVALIDFUNCTION)
    } else {
        exists|chunk: Seq<u8>, got: Result<usize, HResult>|
            {
                let next = before.take(done as int) + chunk;
                &&& chunk.len() == before.len() - done
                &&& #[trigger] source.answers(
                    (position + done) as u64,
                    before.skip(done as int),
                    chunk,
                    got,
                )
                &&& match got {
                    Err(code) => after == next && outcome == Err::<usize, HResult>(code),
                    Ok(count) => if count > before.len() - done {
                        after == next && outcome == Err::<usize, HResult>(E_UNEXPECTED)
                    } else if count == 0 {
                        after == next && outcome == Ok::<usize, HResult>(done as usize)
                    } else {
                        next.len() - (done + count) < before.len() - done && gathers(
                            source,
                            position,
                            done + count as nat,
                            next,
                            after,
                            outcome,
                        )
                    },
                }
            }
    }
}

/// Position and result of a read that gathered `outcome` at a position.
pub open spec fn settled(position: u64, outcome: Result<usize, HResult>) -> (
    u64,
    Result<usize, HResult>,
) {
    match outcome {
        Err(code) => (position, Err(code)),
        Ok(count) => if position + count > u64::MAX {
            (position, Err(STG_E_INVALIDFUNCTION))
        } else {
            ((position + count) as u64, Ok(count))
        },
    }
}

/// A read whose source answers elsewhere, in steps: how much is wanted at a position, and how much
/// of it is there.
#[derive(Clone, Copy, Debug, PartialEq, Eq, Structural)]
pub struct GatheredRead {
    pub position: u64,
    pub wanted: usize,
    pub done: usize,
}

/// What is next in a read whose source answers elsewhere.
#[derive(Clone, Copy, Debug, PartialEq, Eq)]
pub enum GatherStep {
    /// Ask the source for so many bytes at an offset; they go behind those that are there.
    Ask { offset: u64, length: usize },
    /// All that is to be had is there, or the read failed.
    Settle { outcome: Result<usize, HResult> },
}

impl GatheredRead {
    /// Whether no more is there than is wanted.
    pub open spec fn wf(self) -> bool {
        self.done <= self.wanted
    }

    /// What is next.
    pub open spec fn step(self) -> GatherStep {
        if self.done >= self.wanted {
            GatherStep::Settle { outcome: Ok(self.done) }
        } else if self.position + self.done > u64::MAX {
            GatherStep::Settle { outcome: Err(STG_E_INVALIDFUNCTION) }
        } else {
            GatherStep::Ask {
                offset: (self.position + self.done) as u64,
                length: (self.wanted - self.done) as usize,
            }
        }
    }

    /// What is next once the source has answered.
    pub open spec fn after(self, got: Result<usize, HResult>) -> (GatheredRead, GatherStep) {
        match got {
            Err(code) => (self, GatherStep::Settle { outcome: Err(code) }),
            Ok(count) => if count > self.wanted - self.done {
                (self, GatherStep::Settle { outcome: Err(E_UNEXPECTED) })
            } else if count == 0 {
                (self, GatherStep::Settle { outcome: Ok(self.done) })
            } else {
                let further = GatheredRead { done: (self.done + count) as usize, ..self };
                (further, further.step())
            },
        }
    }

    fn next(&self) -> (step: GatherStep)
        ensures
            step == self.step(),
    {
        if self.done >= self.wanted {
            return GatherStep::Settle { outcome: Ok(self.done) };
        }
        match self.position.checked_add(self.done as u64) {
            None => GatherStep::Settle { outcome: Err(STG_E_INVALIDFUNCTION) },
            Some(offset) => GatherStep::Ask { offset, length: self.wanted - self.done },
        }
    }

    /// Takes what the source has answered: so many bytes, or a failure.
    pub fn took(&mut self, got: Result<usize, HResult>) -> (step: GatherStep)
        requires
            old(self).wf(),
        ensures
            final(self).wf(),
            (*final(self), step) == old(self).after(got),
    {
        match got {
            Err(code) => GatherStep::Settle { outcome: Err(code) },
            Ok(count) => {
                if count > self.wanted - self.done {
                    return GatherStep::Settle { outcome: Err(E_UNEXPECTED) };
                }
                if count == 0 {
                    return GatherStep::Settle { outcome: Ok(self.done) };
                }
                self.done += count;
                self.next()
            },
        }
    }
}

/// The position that a displacement leads to.
pub open spec fn sought(position: u64, length: u64, displacement: i64, origin: u32) -> Option<
    u64,
> {
    let base: int = if origin == STREAM_SEEK_CUR {
        position as int
    } else if origin == STREAM_SEEK_END {
        length as int
    } else {
        0
    };
    if origin > STREAM_SEEK_END || base + displacement < 0 || base + displacement > u64::MAX {
        None
    } else {
        Some((base + displacement) as u64)
    }
}

impl VirtualStream {
    pub fn create(name: String, position: u64) -> (stream: Self)
        ensures
            stream.name@ == name@,
            stream.position == position,
    {
        VirtualStream { name, position }
    }

    /// Reads at the position until the destination is full or the source has no more, and moves
    /// the position behind what was read.
    pub fn read_impl<S: ReadAtSource>(&mut self, source: &S, destination: &mut [u8]) -> (result:
        Result<usize, HResult>)
        ensures
            final(self).name == old(self).name,
            final(destination)@.len() == old(destination)@.len(),
            exists|outcome: Result<usize, HResult>|
                #[trigger] gathers(
                    *source,
                    old(self).position,
                    0,
                    old(destination)@,
                    final(destination)@,
                    outcome,
                ) && (final(self).position, result) == settled(old(self).position, outcome),
    {
        let requested: usize = destination.len();
        let ghost before = destination@;
        let mut read: usize = 0;
        while read < requested
            invariant_except_break
                before == old(destination)@,
                requested == before.len(),
                destination@.len() == before.len(),
                read <= requested,
                self.position == old(self).position,
                self.name == old(self).name,
                forall|after: Seq<u8>, outcome: Result<usize, HResult>|
                    gathers(
                        *source,
                        old(self).position,
                        read as nat,
                        destination@,
                        after,
                        outcome,
                    ) ==> #[trigger] gathers(
                        *source,
                        old(self).position,
                        0,
                        before,
                        after,
                        outcome,
                    ),
            ensures
                before == old(destination)@,
                self.position == old(self).position,
                self.name == old(self).name,
                destination@.len() == before.len(),
                gathers(
                    *source,
                    old(self).position,
                    0,
                    before,
                    destination@,
                    Ok::<usize, HResult>(read),
                ),
            decreases requested - read,
        {
            let offset: u64 = match self.position.checked_add(read as u64) {
                Some(offset) => offset,
                None => {
                    proof {
                        assert(gathers(
                            *source,
                            self.position,
                            0,
                            before,
                            destination@,
                            Err::<usize, HResult>(STG_E_INVALIDFUNCTION),
                        ));
                    }
                    return Err(STG_E_INVALIDFUNCTION);
                },
            };
            let ghost middle = destination@;
            let (_head, tail) = destination.split_at_mut(read);
            assert(tail@ =~= middle.skip(read as int));
            let got = source.read_at(offset, tail);
            let ghost chunk = tail@;
            let ghost next = destination@;
            assert(next.skip(read as int) =~= chunk);
            assert(middle.take(read as int) + chunk =~= next);
            assert(source.answers(offset, middle.skip(read as int), chunk, got));
            match got {
                Err(code) => {
                    proof {
                        assert(gathers(
                            *source,
                            self.position,
                            read as nat,
                            middle,
                            next,
                            Err::<usize, HResult>(code),
                        ));
                        assert(gathers(*source, self.position, 0, before, next, Err::<usize, HResult>(code)));
                    }
                    return Err(code);
                },
                Ok(count) => {
                    if count > requested - read {
                        proof {
                            assert(gathers(
                                *source,
                                self.position,
                                read as nat,
                                middle,
                                next,
                                Err::<usize, HResult>(E_UNEXPECTED),
                            ));
                            assert(gathers(*source, self.position, 0, before, next, Err::<usize, HResult>(E_UNEXPECTED)));
                        }
                        return Err(E_UNEXPECTED);
                    }
                    if count == 0 {
                        proof {
                            assert(gathers(
                                *source,
                                self.position,
                                read as nat,
                                middle,
                                next,
                                Ok::<usize, HResult>(read),
                            ));
                            assert(gathers(*source, self.position, 0, before, next, Ok::<usize, HResult>(read)));
                        }
                        break;
                    }
                    proof {
                        assert forall|after: Seq<u8>, outcome: Result<usize, HResult>|
                            gathers(
                                *source,
                                old(self).position,
                                (read + count) as nat,
                                next,
                                after,
                                outcome,
                            ) implies #[trigger] gathers(
                            *source,
                            old(self).position,
                            0,
                            before,
                            after,
                            outcome,
                        ) by {
                            assert(gathers(
                                *source,
                                old(self).position,
                                read as nat,
                                middle,
                                after,
                                outcome,
                            ));
                        }
                    }
                    read += count;
                },
            }
        }
        self.settle(Ok(read))
    }

    /// Starts a read whose source answers elsewhere.
    pub fn start_read(&self, wanted: usize) -> (started: (GatheredRead, GatherStep))
        ensures
            started.0 == (GatheredRead { position: self.position, wanted, done: 0 }),
            started.0.wf(),
            started.1 == started.0.step(),
    {
        let read = GatheredRead { position: self.position, wanted, done: 0 };
        let step = read.next();
        (read, step)
    }

    /// Ends a read: moves the position behind what was read.
    pub fn settle(&mut self, outcome: Result<usize, HResult>) -> (result: Result<usize, HResult>)
        ensures
            final(self).name == old(self).name,
            (final(self).position, result) == settled(old(self).position, outcome),
    {
        match outcome {
            Err(code) => Err(code),
            Ok(count) => match self.position.checked_add(count as u64) {
                None => Err(STG_E_INVALIDFUNCTION),
                Some(position) => {
                    self.position = position;
                    Ok(count)
                },
            },
        }
    }

    /// The answer to a read: a result code and the number of bytes. A short read is answered with
    /// `S_FALSE`.
    pub fn answer(result: Result<usize, HResult>, requested: usize) -> (answer: (HResult, usize))
        ensures
            answer == (match result {
                Err(code) => (code, 0usize),
                Ok(count) => if count == requested {
                    (S_OK, count)
                } else {
                    (S_FALSE, count)
                },
            }),
    {
        match result {
            Err(code) => (code, 0),
            Ok(count) => if count == requested {
                (S_OK, count)
            } else {
                (S_FALSE, count)
            },
        }
    }

    /// Whether a read has somewhere to put what it reads.
    pub fn check_destination(requested: u32, present: bool) -> (result: Result<(), HResult>)
        ensures
            result == if requested != 0 && !present {
                Err::<(), HResult>(STG_E_INVALIDPOINTER)
            } else {
                Ok(())
            },
    {
        if requested != 0 && !present {
            return Err(STG_E_INVALIDPOINTER);
        }
        Ok(())
    }

    /// A read as the shell asks for it: counted by the probe, answered with a result code and the
    /// number of bytes. A short read is answered with `S_FALSE`.
    pub fn read<S: ReadAtSource>(
        &mut self,
        source: &S,
        destination: &mut [u8],
        probe: &mut ProbeState,
        context: &CallContext,
    ) -> (answer: (HResult, usize, Option<String>))
        requires
            old(probe)@.consistent(),
        ensures
            final(self).name == old(self).name,
            final(destination)@.len() == old(destination)@.len(),
            final(probe)@.consistent(),
            final(probe)@ == old(probe)@.after_read(
                context,
                old(self).position,
                old(destination)@.len() as usize,
            ),
            answer.2 is Some <==> old(probe)@.verbose,
            answer.2 matches Some(line) ==> line@ == final(probe)@.events.last(),
            exists|outcome: Result<usize, HResult>|
                #[trigger] gathers(
                    *source,
                    old(self).position,
                    0,
                    old(destination)@,
                    final(destination)@,
                    outcome,
                ) && ({
                    let (position, result) = settled(old(self).position, outcome);
                    &&& final(self).position == position
                    &&& (answer.0, answer.1) == (match result {
                        Err(code) => (code, 0usize),
                        Ok(count) => if count == old(destination)@.len() {
                            (S_OK, count)
                        } else {
                            (S_FALSE, count)
                        },
                    })
                }),
    {
        let requested: usize = destination.len();
        let shown = probe.note_read(context, self.position, requested);
        let result = self.read_impl(source, destination);
        let (code, count) = VirtualStream::answer(result, requested);
        (code, count, shown)
    }

    /// Moves the position; positions past the end are allowed, negative ones are not.
    pub fn seek_impl(&mut self, length: u64, displacement: i64, origin: u32) -> (result: Result<
        u64,
        HResult,
    >)
        ensures
            final(self).name == old(self).name,
            match sought(old(self).position, length, displacement, origin) {
                Some(position) => final(self).position == position && result == Ok::<u64, HResult>(
                    position,
                ),
                None => final(self).position == old(self).position && result == Err::<
                    u64,
                    HResult,
                >(STG_E_INVALIDFUNCTION),
            },
    {
        let base: i128 = if origin == STREAM_SEEK_SET {
            0
        } else if origin == STREAM_SEEK_CUR {
            self.position as i128
        } else if origin == STREAM_SEEK_END {
            length as i128
        } else {
            return Err(STG_E_INVALIDFUNCTION);
        };
        let next: i128 = base + displacement as i128;
        if next < 0 || next > u64::MAX as i128 {
            return Err(STG_E_INVALIDFUNCTION);
        }
        self.position = next as u64;
        Ok(self.position)
    }

    /// The name as UTF-16 code units with a closing zero.
    pub fn wide_name(&self) -> (units: Vec<u16>)
        ensures
            units@ == text::utf16(self.name@).push(0),
    {
        let mut units = text::encode_utf16(self.name.as_str());
        units.push(0);
        units
    }

    /// What the stream says of itself.
    pub fn stat(&self, length: u64, present: bool, flag: u32) -> (result: Result<
        StreamStat,
        HResult,
    >)
        ensures
            match result {
                Err(code) => code == if !present {
                    E_POINTER
                } else {
                    STG_E_INVALIDFUNCTION
                } && (!present || flag > STATFLAG_NOOPEN),
                Ok(stat) => {
                    &&& present && flag <= STATFLAG_NOOPEN
                    &&& stat.kind == STGTY_STREAM && stat.size == length && stat.mode == STGM_READ
                    &&& match stat.name {
                        Some(units) => flag != STATFLAG_NONAME && units@ == text::utf16(
                            self.name@,
                        ).push(0),
                        None => flag == STATFLAG_NONAME,
                    }
                },
            },
    {
        if !present {
            return Err(E_POINTER);
        }
        if flag != STATFLAG_DEFAULT && flag != STATFLAG_NONAME && flag != STATFLAG_NOOPEN {
            return Err(STG_E_INVALIDFUNCTION);
        }
        let name = if flag != STATFLAG_NONAME {
            Some(self.wide_name())
        } else {
            None
        };
        Ok(StreamStat { kind: STGTY_STREAM, size: length, mode: STGM_READ, name })
    }

    /// A stream over the same content at the same position, which moves on its own.
    pub fn duplicate(&self) -> (copy: Self)
        ensures
            copy.name@ == self.name@,
            copy.position == self.position,
    {
        VirtualStream { name: self.name.clone(), position: self.position }
    }

    /// The answer to a write: code and number of written bytes.
    pub fn refuse_write() -> (answer: (HResult, u32))
        ensures
            answer == (STG_E_ACCESSDENIED, 0u32),
    {
        (STG_E_ACCESSDENIED, 0)
    }

    /// The answer to a copy into another stream: code, read bytes and written bytes.
    pub fn refuse_copy() -> (answer: (HResult, u64, u64))
        ensures
            answer == (E_NOTIMPL, 0u64, 0u64),
    {
        (E_NOTIMPL, 0, 0)
    }
}

/// A read of content in memory gives exactly the bytes at the position, as many as were asked
/// for or as there are, leaves the rest of the destination alone, and moves the position behind
/// them.
pub proof fn lemma_memory_read_is_exact(
    memory: MemorySource,
    position: u64,
    before: Seq<u8>,
    after: Seq<u8>,
    outcome: Result<usize, HResult>,
)
    requires
        before.len() <= usize::MAX,
        gathers(memory, position, 0, before, after, outcome),
    ensures
        ({
            let found = source::found(memory.bytes@, position as int, before.len() as int);
            &&& outcome == Ok::<usize, HResult>(found.len() as usize)
            &&& found.len() <= before.len()
            &&& after == found + before.skip(found.len() as int)
            &&& position <= memory.bytes@.len() ==> settled(position, outcome) == (
                (position + found.len()) as u64,
                outcome,
            )
        }),
{
    reveal_with_fuel(gathers, 3);
    let found = source::found(memory.bytes@, position as int, before.len() as int);
    assert(memory.bytes.len() <= usize::MAX);
    assert(before.skip(0) =~= before);
    assert(before.take(0) =~= Seq::<u8>::empty());
    if before.len() > 0 {
        let next = found + before.skip(found.len() as int);
        assert(before.take(0) + next =~= next);
        if found.len() > 0 {
            assert(gathers(memory, position, found.len(), next, after, outcome));
            if found.len() < before.len() {
                let rest = next.skip(found.len() as int);
                assert(Seq::<u8>::empty() + rest.skip(0) =~= rest);
                assert(next.take(found.len() as int) + rest =~= next);
            }
        } else {
            assert(next =~= before);
        }
    } else {
        assert(found =~= Seq::<u8>::empty());
        assert(after =~= found + before.skip(0));
    }
}

/// Seeking to a position that a seek gave leads back there.
pub proof fn lemma_seek_set_returns(position: u64, length: u64, displacement: i64, origin: u32)
    ensures
        match sought(position, length, displacement, origin) {
            Some(place) => place <= i64::MAX ==> forall|other: u64| #[trigger]
                sought(other, length, place as i64, STREAM_SEEK_SET) == Some(place),
            None => true,
        },
{
}

/// A read in steps ends where a read of the same source at one go may end: each answer that the
/// source may give takes both one step further.
pub proof fn lemma_steps_gather<S: ReadAtSource>(
    source: S,
    read: GatheredRead,
    before: Seq<u8>,
    chunk: Seq<u8>,
    got: Result<usize, HResult>,
    after: Seq<u8>,
    outcome: Result<usize, HResult>,
)
    requires
        read.wf(),
        before.len() == read.wanted,
        read.step() matches GatherStep::Ask { offset, .. } && source.answers(
            offset,
            before.skip(read.done as int),
            chunk,
            got,
        ),
        chunk.len() == before.len() - read.done,
        match read.after(got) {
            (_, GatherStep::Settle { outcome: settled }) => outcome == settled && after
                == before.take(read.done as int) + chunk,
            (further, GatherStep::Ask { .. }) => gathers(
                source,
                read.position,
                further.done as nat,
                before.take(read.done as int) + chunk,
                after,
                outcome,
            ),
        },
    ensures
        gathers(source, read.position, read.done as nat, before, after, outcome),
{
    let next = before.take(read.done as int) + chunk;
    assert(source.answers(
        (read.position + read.done) as u64,
        before.skip(read.done as int),
        chunk,
        got,
    ));
    if let (further, GatherStep::Settle { .. }) = read.after(got) {
        if further.done != read.done {
            assert(gathers(source, read.position, further.done as nat, next, after, outcome));
        }
    }
}

/// The numbers under which callers ask a stream: three origins to seek from, three ways to ask for what
/// it is, and that it is a stream which can be read.
pub proof fn lemma_numbers_of_streams()
    ensures
        STREAM_SEEK_SET == 0 && STREAM_SEEK_CUR == 1 && STREAM_SEEK_END == 2,
        STATFLAG_DEFAULT == 0 && STATFLAG_NONAME == 1 && STATFLAG_NOOPEN == 2,
        STGTY_STREAM == 2 && STGM_READ == 0,
{
}

} // verus!
