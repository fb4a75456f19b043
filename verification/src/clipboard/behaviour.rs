//! What the shell gets from a virtual file: its bytes, its position, its formats and its record, and
//! what is kept of what was served.

use super::coverage;
use super::coverage::CoverageView;
use super::data_object;
use super::data_object::VirtualFileDescriptor;
use super::format_enum::{FormatEnumerator, FormatEtc, NextFormats};
use super::hresult;
use super::hresult::HResult;
use super::probe;
use super::probe::{CallContext, ProbeState, ProbeView};
use super::source;
use super::source::MemorySource;
use super::stream;
use super::stream::{GatherStep, GatheredRead, StreamStat, VirtualStream};
use super::transfer;
use super::transfer::{GeneratedRead, GeneratedSource, TransferControl};
use super::virtual_object;
use super::virtual_object::{ClipboardFormats, FileRecord, Medium, VirtualFileDataObject};
use crate::bytes;
use crate::text;
use vstd::prelude::*;

verus! {

/// The number of bytes that a read of so many finds in a content.
pub open spec fn within(length: int, position: int, wanted: int) -> int {
    if position >= length {
        0
    } else if length - position < wanted {
        length - position
    } else {
        wanted
    }
}

/// A read of a content in memory puts the bytes at the position into the destination, one for one,
/// as many as there are; the rest of the destination stays. The position moves by so many. The answer
/// is success where the destination was filled, and tells a short read from a failed one.
pub proof fn lemma_reads_are_exact(
    reader: &mut VirtualStream,
    memory: &MemorySource,
    destination: &mut [u8],
    state: &mut ProbeState,
    context: &CallContext,
    answer: (HResult, usize, Option<String>),
)
    requires
        call_ensures(
            VirtualStream::read::<MemorySource>,
            (reader, memory, destination, state, context),
            answer,
        ),
        old(destination)@.len() <= usize::MAX,
        old(reader).position <= memory.bytes@.len() <= u64::MAX,
    ensures
        ({
            let start = old(reader).position as int;
            let count = within(memory.bytes@.len() as int, start, old(destination)@.len() as int);
            &&& answer.1 == count
            &&& answer.0 == if count == old(destination)@.len() {
                0u32
            } else {
                1u32
            }
            &&& final(reader).position == start + count
            &&& final(destination)@.len() == old(destination)@.len()
            &&& forall|k: int| 0 <= k < count ==> #[trigger] final(destination)@[k] == memory.bytes@[start
                + k]
            &&& forall|k: int|
                count <= k < old(destination)@.len() ==> #[trigger] final(destination)@[k] == old(
                    destination,
                )@[k]
        }),
{
    let before = old(destination)@;
    let after = final(destination)@;
    let start = old(reader).position;
    let outcome = choose|outcome: Result<usize, HResult>|
        #[trigger] stream::gathers(*memory, start, 0, before, after, outcome) && ({
            let (position, result) = stream::settled(start, outcome);
            &&& final(reader).position == position
            &&& (answer.0, answer.1) == (match result {
                Err(code) => (code, 0usize),
                Ok(count) => if count == before.len() {
                    (hresult::S_OK, count)
                } else {
                    (hresult::S_FALSE, count)
                },
            })
        });
    stream::lemma_memory_read_is_exact(*memory, start, before, after, outcome);
    let found = source::found(memory.bytes@, start as int, before.len() as int);
    assert(found.len() == within(memory.bytes@.len() as int, start as int, before.len() as int));
    assert forall|k: int| 0 <= k < found.len() implies #[trigger] after[k] == memory.bytes@[start
        + k] by {
        assert(after[k] == found[k]);
    }
    assert forall|k: int| found.len() <= k < before.len() implies #[trigger] after[k] == before[k] by {
        assert(after[k] == before.skip(found.len() as int)[k - found.len()]);
    }
}

/// A seek goes from the start, from the position at hand or from the end, and may go beyond the end;
/// nowhere else, and not before the start.
pub proof fn lemma_seeks(
    reader: &mut VirtualStream,
    length: u64,
    displacement: i64,
    origin: u32,
    result: Result<u64, HResult>,
)
    requires
        call_ensures(VirtualStream::seek_impl, (reader, length, displacement, origin), result),
    ensures
        ({
            let target = displacement + (if origin == 0 {
                0
            } else if origin == 1 {
                old(reader).position as int
            } else {
                length as int
            });
            if origin <= 2 && 0 <= target <= 0xffff_ffff_ffff_ffff {
                result == Ok::<u64, HResult>(target as u64) && final(reader).position == target
            } else {
                result == Err::<u64, HResult>(0x8003_0001u32) && final(reader).position == old(
                    reader,
                ).position
            }
        }),
{
}

/// A read whose source answers elsewhere asks for all that is missing, behind what is there, until
/// all is there, nothing more comes, or a failure does.
pub proof fn lemma_reads_in_steps(read: GatheredRead, got: Result<usize, HResult>)
    requires
        read.wf(),
        read.position + read.wanted <= u64::MAX,
    ensures
        read.done < read.wanted ==> read.step() == (GatherStep::Ask {
            offset: (read.position + read.done) as u64,
            length: (read.wanted - read.done) as usize,
        }),
        read.done == read.wanted ==> read.step() == (GatherStep::Settle { outcome: Ok(read.wanted) }),
        ({
            let (further, step) = read.after(got);
            &&& further.position == read.position && further.wanted == read.wanted
            &&& got matches Err(code) ==> step == (GatherStep::Settle { outcome: Err(code) })
            &&& got matches Ok(count) ==> {
                &&& count == 0 ==> step == (GatherStep::Settle { outcome: Ok(read.done) })
                &&& 0 < count < read.wanted - read.done ==> further.done == read.done + count && step == (
                GatherStep::Ask {
                    offset: (read.position + read.done + count) as u64,
                    length: (read.wanted - read.done - count) as usize,
                })
                &&& 0 < count == read.wanted - read.done ==> step == (GatherStep::Settle {
                    outcome: Ok(read.wanted),
                })
                &&& count > read.wanted - read.done ==> step == (GatherStep::Settle {
                    outcome: Err(0x8000_ffffu32),
                })
            }
        }),
{
}

/// A read that ends moves the position by what it read; a failure leaves it where it was.
pub proof fn lemma_positions_move(
    reader: &mut VirtualStream,
    outcome: Result<usize, HResult>,
    result: Result<usize, HResult>,
)
    requires
        call_ensures(VirtualStream::settle, (reader, outcome), result),
    ensures
        outcome is Err ==> result == outcome && final(reader).position == old(reader).position,
        outcome matches Ok(count) ==> old(reader).position + count <= u64::MAX ==> result == outcome
            && final(reader).position == old(reader).position + count,
{
}

/// A read is answered with success where it is complete, with `S_FALSE` where it is short, and with
/// its failure else.
pub proof fn lemma_read_answers(
    result: Result<usize, HResult>,
    requested: usize,
    answer: (HResult, usize),
)
    requires
        call_ensures(VirtualStream::answer, (result, requested), answer),
    ensures
        result matches Err(code) ==> answer == (code, 0usize),
        result matches Ok(count) ==> answer.1 == count && (count == requested ==> answer.0 == 0) && (count
            != requested ==> answer.0 == 1),
{
}

/// A stream says that it can be read, how long it is and, unless that is not wanted, its name.
pub proof fn lemma_streams_tell(
    reader: &VirtualStream,
    length: u64,
    present: bool,
    flag: u32,
    result: Result<StreamStat, HResult>,
)
    requires
        call_ensures(VirtualStream::stat, (reader, length, present, flag), result),
    ensures
        result is Ok <==> present && flag <= 2,
        !present ==> result == Err::<StreamStat, HResult>(0x8000_4003u32),
        result matches Ok(told) ==> {
            &&& told.size == length
            &&& told.kind == 2 && told.mode == 0
            &&& told.name is None <==> flag == 1
            &&& told.name matches Some(units) ==> units@.drop_last() == text::utf16(reader.name@)
                && units@.last() == 0
        },
{
    if let Ok(told) = result {
        if let Some(units) = told.name {
            assert(units@.drop_last() =~= text::utf16(reader.name@));
        }
    }
}

/// A read needs somewhere to put what it reads, unless nothing is wanted.
pub proof fn lemma_destinations(requested: u32, present: bool, result: Result<(), HResult>)
    requires
        call_ensures(VirtualStream::check_destination, (requested, present), result),
    ensures
        result is Ok <==> present || requested == 0,
        result matches Err(code) ==> code == 0x8003_0009,
{
}

/// What an owner asks of a transfer: it pauses and resumes as often as wanted, and is cancelled once
/// and for good. What was served stays counted.
pub proof fn lemma_owners_control(control: TransferControl)
    ensures
        !(control.state is Cancelled) ==> control.paused().state is Paused && control.resumed().state is Running,
        control.state is Cancelled ==> control.paused().state is Cancelled && control.resumed().state is Cancelled,
        control.cancelled().state is Cancelled,
        control.paused().bytes == control.bytes && control.paused().chunks == control.chunks,
        control.resumed().bytes == control.bytes && control.resumed().chunks == control.chunks,
        control.cancelled().bytes == control.bytes && control.cancelled().chunks == control.chunks,
        TransferControl::fresh().state is Running,
        TransferControl::fresh().bytes == 0 && TransferControl::fresh().chunks == 0,
{
}

/// A reader waits while a transfer is paused, gives up where it is cancelled, and else reads: at once
/// where chunks have no delay, else once it passed.
pub proof fn lemma_readers_wait(control: TransferControl, delay: u64)
    ensures
        control.state is Paused ==> control.waiting(delay, false) is Park,
        control.state is Cancelled ==> control.waiting(delay, false) is Cancelled,
        control.state is Running && delay == 0 ==> control.waiting(delay, false) is Proceed,
        control.state is Running && delay > 0 ==> control.waiting(delay, false) is Sleep,
        control.waiting(delay, true) is Proceed,
{
}

/// A read of generated content that goes ahead gives as many bytes as are wanted, are left and fit
/// into a chunk; each byte depends on its offset alone, and each chunk is counted.
pub proof fn lemma_generated_reads(
    generator: &GeneratedSource,
    control: &mut TransferControl,
    offset: u64,
    destination: &mut [u8],
    timed_out: bool,
    step: GeneratedRead,
)
    requires
        call_ensures(
            GeneratedSource::read_at,
            (generator, control, offset, destination, timed_out),
            step,
        ),
        offset < generator.length,
        old(destination)@.len() > 0,
    ensures
        ({
            let wanted = old(destination)@.len() as int;
            let left = generator.length - offset;
            let runs = timed_out || (old(control).state is Running && generator.delay == 0);
            &&& runs ==> {
                &&& step matches GeneratedRead::Done { count }
                &&& count <= wanted && count <= left && count <= generator.max_chunk
                &&& count == wanted || count == left || count == generator.max_chunk
                &&& forall|k: int|
                    0 <= k < count ==> #[trigger] final(destination)@[k] as int == ((offset + k) % 256 * 31
                        + 165) % 256
                &&& forall|k: int|
                    count <= k < wanted ==> #[trigger] final(destination)@[k] == old(destination)@[k]
                &&& final(control).bytes == (old(control).bytes + count) % 0x1_0000_0000_0000_0000
                &&& final(control).chunks == (old(control).chunks + 1) % 0x1_0000_0000_0000_0000
                &&& final(control).state == old(control).state
            }
            &&& !runs ==> {
                &&& *final(control) == *old(control)
                &&& final(destination)@ == old(destination)@
                &&& old(control).state is Cancelled ==> step == (GeneratedRead::Fail {
                    code: 0x8007_04c7u32,
                })
                &&& !(old(control).state is Cancelled) ==> step is Wait
            }
        }),
{
    if step is Done {
        let count = step->count as int;
        let before = old(destination)@;
        let after = final(destination)@;
        assert forall|k: int| 0 <= k < count implies #[trigger] after[k] as int == ((offset + k) % 256 * 31
            + 165) % 256 by {
            assert(after[k] == transfer::generated(offset, count as nat)[k]);
            assert((offset + k) % 256 == ((offset + k) as u64) % 256);
        }
        assert forall|k: int| count <= k < before.len() implies #[trigger] after[k] == before[k] by {
            assert(after[k] == before.skip(count)[k - count]);
        }
    }
}

/// Behind the end of generated content, and into no room, nothing is read and nothing counted.
pub proof fn lemma_generated_content_ends(
    generator: &GeneratedSource,
    control: &mut TransferControl,
    offset: u64,
    destination: &mut [u8],
    timed_out: bool,
    step: GeneratedRead,
)
    requires
        call_ensures(
            GeneratedSource::read_at,
            (generator, control, offset, destination, timed_out),
            step,
        ),
        offset >= generator.length || old(destination)@.len() == 0,
    ensures
        step == (GeneratedRead::Done { count: 0 }),
        *final(control) == *old(control),
        final(destination)@ == old(destination)@,
{
}

/// Generated content has a length, and chunks that hold something.
pub proof fn lemma_generators(
    length: u64,
    max_chunk: usize,
    delay: u64,
    result: Result<GeneratedSource, HResult>,
)
    requires
        call_ensures(GeneratedSource::new, (length, max_chunk, delay), result),
    ensures
        result is Ok <==> length > 0 && max_chunk > 0,
        result matches Ok(generator) ==> generator.length == length && generator.max_chunk == max_chunk
            && generator.delay == delay,
        result matches Err(code) ==> code == 0x8007_0057,
{
}

/// A request is answered where it asks for one of the four formats for no particular device, in the
/// content aspect, with the index and on the medium that the format has: the file itself is the
/// first and only one and comes as a stream, all else as memory.
pub proof fn lemma_requests_that_are_answered(formats: ClipboardFormats, etc: FormatEtc)
    requires
        formats.contents != formats.descriptor,
        formats.contents != formats.preferred_effect,
        formats.contents != formats.origin,
    ensures
        formats.verdict(etc) == 0 <==> {
            &&& !etc.for_device
            &&& etc.aspect == 1
            &&& if etc.format == formats.contents {
                etc.index == 0 && etc.media & 4 != 0
            } else {
                (etc.format == formats.descriptor || etc.format == formats.preferred_effect || etc.format
                    == formats.origin) && etc.index == -1 && etc.media & 1 != 0
            }
        },
        etc.for_device ==> formats.verdict(etc) == 0x8004_0065,
        !etc.for_device && etc.aspect != 1 ==> formats.verdict(etc) == 0x8004_006b,
        !etc.for_device && etc.aspect == 1 && etc.format != formats.contents && etc.format
            != formats.descriptor && etc.format != formats.preferred_effect && etc.format != formats.origin
            ==> formats.verdict(etc) == 0x8004_0064,
        formats.verdict(etc) == 0x8004_0068 ==> etc.index != -1 || etc.index != 0,
        formats.verdict(etc) == 0x8004_0069 ==> etc.media & 1 == 0 || etc.media & 4 == 0,
        formats.verdict(etc) == 0 || formats.verdict(etc) == 0x8004_0064 || formats.verdict(etc)
            == 0x8004_0065 || formats.verdict(etc) == 0x8004_0068 || formats.verdict(etc) == 0x8004_0069
            || formats.verdict(etc) == 0x8004_006b,
{
}

/// A report of the shell is taken where it comes in one of the three formats for it, for no
/// particular device, in the content aspect, without an index, and with at least four bytes of
/// memory.
pub proof fn lemma_reports_that_are_taken(
    formats: ClipboardFormats,
    etc: FormatEtc,
    medium: u32,
    memory: Option<usize>,
)
    ensures
        formats.report_verdict(etc, medium, memory) == 0 <==> {
            &&& !etc.for_device
            &&& etc.format == formats.performed_effect || etc.format == formats.logical_performed_effect
                || etc.format == formats.paste_succeeded
            &&& etc.aspect == 1
            &&& etc.index == -1
            &&& etc.media & 1 != 0
            &&& medium == 1
            &&& memory is Some && memory->0 >= 4
        },
        etc.for_device ==> formats.report_verdict(etc, medium, memory) == 0x8004_0065,
        !etc.for_device && etc.format != formats.performed_effect && etc.format
            != formats.logical_performed_effect && etc.format != formats.paste_succeeded
            ==> formats.report_verdict(etc, medium, memory) == 0x8004_0064,
{
}

/// What a virtual file gives: its record, its content as a stream where the content is as long as
/// described, that it is to be copied, or where it comes from.
pub proof fn lemma_data_that_is_given(
    object: &VirtualFileDataObject,
    etc: FormatEtc,
    length: u64,
    result: Result<Medium, HResult>,
)
    requires
        call_ensures(VirtualFileDataObject::get_data, (object, etc, length), result),
        object.formats.contents != object.formats.descriptor,
        object.formats.contents != object.formats.preferred_effect,
        object.formats.contents != object.formats.origin,
        object.formats.descriptor != object.formats.preferred_effect,
        object.formats.descriptor != object.formats.origin,
        object.formats.preferred_effect != object.formats.origin,
        object.formats.verdict(etc) == 0,
        data_object::valid_virtual_name(object.descriptor.file_name@),
    ensures
        etc.format == object.formats.contents ==> if length == object.descriptor.size {
            result is Ok && result->Ok_0 is Stream
        } else {
            result == Err::<Medium, HResult>(0x8000_ffffu32)
        },
        etc.format == object.formats.preferred_effect ==> result is Ok && (result->Ok_0 matches Medium::Bytes {
            bytes,
        } && bytes@ == seq![1u8, 0u8, 0u8, 0u8]),
        etc.format == object.formats.origin ==> result is Ok && (result->Ok_0 matches Medium::Bytes { bytes }
            && bytes@ == object.origin_payload@),
        etc.format == object.formats.descriptor ==> result is Ok && (result->Ok_0 matches Medium::Record {
            record,
        } && record.attributes == object.descriptor.attributes && record.size_high * 0x1_0000_0000
            + record.size_low == object.descriptor.size),
{
}

/// The record of a file holds its attributes, its size in two halves, its times with a flag for each
/// that is known, and its name with zeros behind it.
pub proof fn lemma_records_tell(
    descriptor: &VirtualFileDescriptor,
    result: Result<FileRecord, HResult>,
)
    requires
        call_ensures(virtual_object::file_record, (descriptor,), result),
    ensures
        result is Ok <==> data_object::valid_virtual_name(descriptor.file_name@),
        result matches Err(code) ==> code == 0x8004_0064,
        result matches Ok(record) ==> {
            let units = text::utf16(descriptor.file_name@);
            &&& record.attributes == descriptor.attributes
            &&& record.size_high * 0x1_0000_0000 + record.size_low == descriptor.size
            &&& record.flags == 0x8000_0044 + (if descriptor.creation_time is Some {
                8int
            } else {
                0
            }) + (if descriptor.last_access_time is Some {
                16int
            } else {
                0
            }) + (if descriptor.last_write_time is Some {
                32int
            } else {
                0
            })
            &&& descriptor.creation_time matches Some(time) ==> record.creation_time == time
            &&& descriptor.last_access_time matches Some(time) ==> record.last_access_time == time
            &&& descriptor.last_write_time matches Some(time) ==> record.last_write_time == time
            &&& units.len() < 260
            &&& forall|k: int| 0 <= k < units.len() ==> #[trigger] record.name@[k] == units[k]
            &&& forall|k: int| units.len() <= k < 260 ==> #[trigger] record.name@[k] == 0
        },
{
}

/// A virtual file is made of a description with the length of its content, a name that a file can
/// have, and where it comes from.
pub proof fn lemma_objects_are_made(
    formats: ClipboardFormats,
    descriptor: VirtualFileDescriptor,
    length: u64,
    origin: Vec<u8>,
    result: Result<VirtualFileDataObject, HResult>,
)
    requires
        call_ensures(
            VirtualFileDataObject::create_with_descriptor,
            (formats, descriptor, length, origin),
            result,
        ),
    ensures
        result is Ok <==> descriptor.size == length && origin@.len() > 0 && data_object::valid_virtual_name(
            descriptor.file_name@,
        ),
        descriptor.size != length || origin@.len() == 0 ==> result == Err::<
            VirtualFileDataObject,
            HResult,
        >(0x8007_0057u32),
        result matches Ok(object) ==> object.descriptor == descriptor && object.origin_payload@ == origin@
            && object.formats == formats && !object.in_operation && !object.async_mode,
{
}

/// Formats are listed for getting only: the record, the content, the effect and the origin.
pub proof fn lemma_formats_are_listed(
    object: &VirtualFileDataObject,
    direction: u32,
    result: Result<Vec<FormatEtc>, HResult>,
)
    requires
        call_ensures(VirtualFileDataObject::formats_of, (object, direction), result),
    ensures
        result is Ok <==> direction == 1,
        result matches Ok(listed) ==> {
            &&& listed@.len() == 4
            &&& listed@[0].format == object.formats.descriptor
            &&& listed@[1].format == object.formats.contents
            &&& listed@[2].format == object.formats.preferred_effect
            &&& listed@[3].format == object.formats.origin
        },
{
}

/// An enumerator hands out formats in order, each once: as many as are asked for or are left, and
/// says whether these are as many as were asked for.
pub proof fn lemma_formats_are_handed_out(
    enumerator: &mut FormatEnumerator,
    requested: u32,
    answer: NextFormats,
)
    requires
        old(enumerator).wf(),
        call_ensures(FormatEnumerator::next, (enumerator, requested, true, true), answer),
    ensures
        ({
            let left = old(enumerator).all().len() - old(enumerator).cursor();
            let count = if requested < left {
                requested as int
            } else {
                left
            };
            &&& answer.items@.len() == count
            &&& forall|k: int|
                0 <= k < count ==> #[trigger] answer.items@[k] == old(enumerator).all()[old(
                    enumerator,
                ).cursor() + k]
            &&& answer.code == if left < requested {
                1u32
            } else {
                0u32
            }
            &&& final(enumerator).cursor() == old(enumerator).cursor() + count
            &&& final(enumerator).all() == old(enumerator).all()
        }),
{
}

/// Leaving formats out moves on as far as handing them out would.
pub proof fn lemma_formats_are_left_out(
    enumerator: &mut FormatEnumerator,
    requested: u32,
    result: Result<(), HResult>,
)
    requires
        old(enumerator).wf(),
        call_ensures(FormatEnumerator::skip, (enumerator, requested), result),
    ensures
        ({
            let left = old(enumerator).all().len() - old(enumerator).cursor();
            &&& left >= requested ==> result is Ok && final(enumerator).cursor() == old(enumerator).cursor()
                + requested
            &&& left < requested ==> result == Err::<(), HResult>(1u32) && final(enumerator).cursor()
                == old(enumerator).all().len()
            &&& final(enumerator).all() == old(enumerator).all()
        }),
{
}

/// A caller must take the formats that it asks for, and their number unless it asks for one.
pub proof fn lemma_callers_take_formats(
    enumerator: &mut FormatEnumerator,
    requested: u32,
    takes_items: bool,
    takes_count: bool,
    answer: NextFormats,
)
    requires
        old(enumerator).wf(),
        call_ensures(FormatEnumerator::next, (enumerator, requested, takes_items, takes_count), answer),
    ensures
        answer.code == 0x8000_4003 <==> (requested > 0 && !takes_items) || (requested != 1 && !takes_count),
        answer.code == 0x8000_4003 ==> answer.items@.len() == 0 && final(enumerator).cursor() == old(
            enumerator,
        ).cursor(),
{
}

/// Serving a range adds its bytes to those that were served, and each counts once. A record that
/// has no room for more than 4096 separate stretches, or of a range that goes too far, stops counting
/// and keeps its count.
pub proof fn lemma_served_bytes_are_counted(record: CoverageView, start: u64, length: u64)
    requires
        record.consistent(),
    ensures
        ({
            let after = record.noted(start, length);
            let reached = record.covered.union(
                Set::new(|offset: int| start <= offset < start + length),
            );
            &&& record.saturated || length == 0 ==> after == record
            &&& !record.saturated && length > 0 && start + length <= u64::MAX && coverage::run_starts(
                reached,
            ).len() <= 4096 ==> {
                &&& !after.saturated
                &&& after.covered == reached
                &&& after.unique_bytes == reached.len()
            }
            &&& !record.saturated && length > 0 && (start + length > u64::MAX || coverage::run_starts(
                reached,
            ).len() > 4096) ==> after.saturated && after.unique_bytes == record.unique_bytes
        }),
{
    if !record.saturated && length > 0 && start + length <= u64::MAX {
        let reached = record.covered.union(Set::new(|offset: int| start <= offset < start + length));
        assert(coverage::span(start, (start + length) as u64) =~= Set::new(
            |offset: int| start <= offset < start + length,
        ));
        record.lemma_noted_consistent(start, length);
    }
}

/// A range that starts with a byte that nothing served touches adds one stretch at most, so a record
/// of fewer than 4096 of them goes on counting.
pub proof fn lemma_records_have_room(record: CoverageView, start: u64, length: u64)
    requires
        record.consistent(),
        !record.saturated,
        start + length <= u64::MAX,
        coverage::run_starts(record.covered).len() < 4096,
    ensures
        !record.noted(start, length).saturated,
{
    let served = coverage::span(start, (start + length) as u64);
    let reached = record.covered.union(served);
    let starts = coverage::run_starts(record.covered);
    assert(coverage::run_starts(reached).subset_of(starts.insert(start as int)));
    vstd::set_lib::lemma_len_subset(coverage::run_starts(reached), starts.insert(start as int));
}

/// A history keeps the latest 4096 events, in order, and counts all of them.
pub proof fn lemma_events_are_kept(history: ProbeView, event: Seq<char>)
    requires
        history.consistent(),
    ensures
        ({
            let after = history.retained(event);
            &&& after.events.len() <= 4096
            &&& after.events.last() == event
            &&& after.event_count == (history.event_count + 1) % 0x1_0000_0000_0000_0000
            &&& history.events.len() < 4096 ==> after.events.drop_last() == history.events
                && after.dropped_events == history.dropped_events
            &&& history.events.len() == 4096 ==> after.events.drop_last() == history.events.skip(1)
                && after.dropped_events == (history.dropped_events + 1) % 0x1_0000_0000_0000_0000
            &&& after.read_calls == history.read_calls
        }),
{
    let after = history.retained(event);
    if history.events.len() < 4096 {
        assert(after.events.drop_last() =~= history.events);
    } else {
        assert(after.events.drop_last() =~= history.events.skip(1));
    }
}

/// An event is shown by a probe that shows everything, and by a quiet one where it is one of four.
pub proof fn lemma_events_are_shown(
    state: &mut ProbeState,
    context: &CallContext,
    method: &str,
    detail: &str,
    shown: Option<String>,
)
    requires
        old(state)@.consistent(),
        call_ensures(ProbeState::record, (state, context, method, detail), shown),
    ensures
        shown is Some <==> old(state)@.verbose || method@ == "OleSetClipboard"@ || method@
            == "WM_CLIPBOARDUPDATE"@ || method@ == "IStream::ReadFailed"@ || method@
            == "CapturedClipboardLease::drop"@,
        shown matches Some(line) ==> line@ == final(state)@.events.last(),
        final(state)@.event_count == (old(state)@.event_count + 1) % 0x1_0000_0000_0000_0000,
        final(state)@.read_calls == old(state)@.read_calls,
{
}

/// The apartment of a thread is told as two numbers, each with a sign where it is below zero, or as the
/// code with which the question failed.
pub proof fn lemma_apartments_are_told(kind: i32, qualifier: i32, code: HResult)
    ensures
        probe::apartment_text(Ok((kind, qualifier))) == probe::signed_decimal(kind as int) + seq![':']
            + probe::signed_decimal(qualifier as int),
        kind >= 0 ==> probe::signed_decimal(kind as int) == text::decimal(kind as nat),
        kind < 0 ==> probe::signed_decimal(kind as int) == seq!['-'] + text::decimal((-kind) as nat),
        text::starts(probe::apartment_text(Err(code)), "unknown(0x"@),
        text::ends(
            probe::apartment_text(Err(code)),
            text::hex_text(bytes::be_bytes(code as nat, 4), true) + seq![')'],
        ),
{
    reveal_strlit(":");
    reveal_strlit("-");
    reveal_strlit(")");
    assert(":"@ =~= seq![':']);
    assert("-"@ =~= seq!['-']);
    assert(")"@ =~= seq![')']);
    let digits = text::hex_text(bytes::be_bytes(code as nat, 4), true);
    assert(probe::apartment_text(Err(code)) =~= "unknown(0x"@ + (digits + seq![')']));
    text::lemma_holds(Seq::empty(), "unknown(0x"@, digits + seq![')']);
    text::lemma_holds("unknown(0x"@, digits + seq![')'], Seq::empty());
}

/// The line of an event names the method, the thread, the apartment and the details.
pub proof fn lemma_events_are_told(
    method: Seq<char>,
    thread: u32,
    apartment: Seq<char>,
    detail: Seq<char>,
    offset: u64,
    requested: usize,
)
    ensures
        text::starts(probe::event_line(method, thread, apartment, detail), "COM method="@ + method),
        text::holds(
            probe::event_line(method, thread, apartment, detail),
            " thread="@ + text::decimal(thread as nat) + " apartment="@ + apartment,
        ),
        text::ends(probe::event_line(method, thread, apartment, detail), detail),
        text::starts(probe::read_detail(offset, requested), "offset="@ + text::decimal(offset as nat)),
        text::ends(
            probe::read_detail(offset, requested),
            " requested="@ + text::decimal(requested as nat),
        ),
{
    let line = probe::event_line(method, thread, apartment, detail);
    let first = "COM method="@ + method;
    let middle = " thread="@ + text::decimal(thread as nat) + " apartment="@ + apartment;
    assert(line =~= first + middle + (" "@ + detail));
    assert(line =~= first + (middle + (" "@ + detail)));
    assert(line =~= (first + middle + " "@) + detail);
    text::lemma_holds(first, middle, " "@ + detail);
    text::lemma_holds(Seq::empty(), first, middle + (" "@ + detail));
    text::lemma_holds(first + middle + " "@, detail, Seq::empty());
    let place = "offset="@ + text::decimal(offset as nat);
    let length = " requested="@ + text::decimal(requested as nat);
    assert(probe::read_detail(offset, requested) =~= place + length);
    text::lemma_holds(place, length, Seq::empty());
    text::lemma_holds(Seq::empty(), place, length);
}

/// A system error below 2^16 has the code of its number in the class of system errors; what is a code
/// already stays one.
pub proof fn lemma_system_errors(error: u32)
    ensures
        0 < error < 0x1_0000 ==> hresult::from_win32(error) == 0x8007_0000 + error,
        error == 0 || error >= 0x8000_0000 ==> hresult::from_win32(error) == error,
        error != 0 ==> hresult::from_win32(error) >= 0x8000_0000,
        0 < error < 0x8000_0000 ==> hresult::from_win32(error) / 0x1_0000 == 0x8007
            && hresult::from_win32(error) % 0x1_0000 == error % 0x1_0000,
{
}

} // verus!
