//! Which files on the clipboard are offered, and how an offered file is read: as it was when it was
//! captured, or not at all.

use super::capture;
use super::capture::{CaptureError, CaptureRejection, ClipboardCapture};
use super::offer::{LocalFileOffer, LocalOfferRegistry};
use super::snapshot;
use super::snapshot::{FileInformation, FileSnapshot};
use super::stable::{OpenedFile, StableFileSource, StableFileState, StableStep};
use crate::bytes;
use crate::clipboard::data_object;
use crate::clipboard::hresult::HResult;
use vstd::prelude::*;

verus! {

/// A file is offered where none of its attributes makes it something else than plain content:
/// directories, links, encrypted, sparse, absent, compressed and specially marked files are not. Each
/// is refused for its own reason.
pub proof fn lemma_attributes_that_are_offered(attributes: u32)
    ensures
        snapshot::attribute_refusal(attributes) is None <==> {
            &&& attributes & 0x10 == 0
            &&& attributes & 0x400 == 0
            &&& attributes & 0x4000 == 0
            &&& attributes & 0x200 == 0
            &&& attributes & 0x44_1000 == 0
            &&& attributes & 0x800 == 0
            &&& attributes & 0x1f_8000 == 0
        },
        snapshot::attribute_refusal(attributes) == Some(CaptureRejection::Directory) <==> attributes & 0x10
            != 0,
        snapshot::attribute_refusal(attributes) == Some(CaptureRejection::ReparsePoint) ==> attributes & 0x400
            != 0,
        snapshot::attribute_refusal(attributes) == Some(CaptureRejection::Encrypted) ==> attributes & 0x4000
            != 0,
        snapshot::attribute_refusal(attributes) == Some(CaptureRejection::Sparse) ==> attributes & 0x200 != 0,
        snapshot::attribute_refusal(attributes) == Some(CaptureRejection::OfflinePlaceholder)
            ==> attributes & 0x44_1000 != 0,
        snapshot::attribute_refusal(attributes) == Some(CaptureRejection::Compressed) ==> attributes & 0x800
            != 0,
        snapshot::attribute_refusal(attributes) == Some(CaptureRejection::UnsupportedMetadata)
            ==> attributes & 0x1f_8000 != 0,
        attributes & 0x10 == 0 && attributes & 0x400 != 0 ==> snapshot::attribute_refusal(attributes)
            == Some(CaptureRejection::ReparsePoint),
        attributes & 0x10 == 0 && attributes & 0x400 == 0 && attributes & 0x4000 != 0
            ==> snapshot::attribute_refusal(attributes) == Some(CaptureRejection::Encrypted),
{
}

/// Files that are cut are refused as such; files that are not expressly copied are refused for that.
pub proof fn lemma_effects(effect: u32, result: Result<(), CaptureRejection>)
    requires
        call_ensures(capture::validate_drop_effect, (effect,), result),
    ensures
        (effect / 2) % 2 == 1 <==> result == Err::<(), CaptureRejection>(CaptureRejection::CutOperation),
        (effect / 2) % 2 == 0 && effect % 2 == 0 <==> result == Err::<(), CaptureRejection>(
            CaptureRejection::MissingCopyEffect,
        ),
        (effect / 2) % 2 == 0 && effect % 2 == 1 <==> result is Ok,
{
    capture::lemma_only_copies_are_offered(effect);
    assert((effect & 2 != 0) == ((effect / 2) % 2 == 1)) by (bit_vector);
    assert((effect & 1 == 0) == (effect % 2 == 0)) by (bit_vector);
}

/// The effect is a number of four bytes, the lowest first.
pub proof fn lemma_effects_are_read(memory: &[u8], result: Result<u32, HResult>)
    requires
        call_ensures(capture::read_drop_effect, (memory,), result),
    ensures
        result is Ok <==> memory@.len() >= 4,
        result matches Ok(effect) ==> effect == memory@[0] + 0x100 * memory@[1] + 0x1_0000 * memory@[2]
            + 0x100_0000 * memory@[3],
        result matches Err(code) ==> code == 0x8007_0057,
{
    if memory@.len() >= 4 {
        let four = bytes::slice_of(memory@, 0, 4);
        bytes::lemma_capacity_values();
        bytes::lemma_le_bytes_of_value(four);
        bytes::lemma_four_bytes(bytes::le_value(four));
        assert(four[0] == memory@[0] && four[1] == memory@[1] && four[2] == memory@[2] && four[3]
            == memory@[3]);
    }
}

/// A clipboard with an offer of this application is left alone; one without files is none of its
/// business; files without an effect are refused; the rest is looked into.
pub proof fn lemma_clipboards_are_told_apart(
    origin: Option<&[u8]>,
    has_files: bool,
    has_effect: bool,
    result: Option<ClipboardCapture>,
)
    requires
        call_ensures(capture::classify_formats, (origin, has_files, has_effect), result),
    ensures
        ({
            let own = origin is Some && capture::private_origin(origin->0@);
            &&& own ==> result is Some && result->0 is PrivateOffer
            &&& !own && !has_files ==> result is Some && result->0 is NotFileClipboard
            &&& !own && has_files && !has_effect ==> result is Some && result->0
                == (ClipboardCapture::Rejected { reason: CaptureRejection::MissingCopyEffect })
            &&& !own && has_files && has_effect ==> result is None
        }),
{
}

/// The mark of an offer of this application: its name, a zero, and sixteen bytes of the offer.
pub proof fn lemma_own_offers_are_marked(payload: Seq<u8>)
    ensures
        capture::private_origin(payload) <==> payload.len() == 41 && payload.take(25) == seq![
            67u8, 108u8, 105u8, 112u8, 70u8, 101u8, 114u8, 114u8, 121u8, 46u8, 83u8, 111u8, 117u8, 114u8,
            99u8, 101u8, 79u8, 102u8, 102u8, 101u8, 114u8, 46u8, 118u8, 49u8, 0u8,
        ],
{
    assert(capture::PRIVATE_ORIGIN_PREFIX@ =~= seq![
        67u8, 108u8, 105u8, 112u8, 70u8, 101u8, 114u8, 114u8, 121u8, 46u8, 83u8, 111u8, 117u8, 114u8,
        99u8, 101u8, 79u8, 102u8, 102u8, 101u8, 114u8, 46u8, 118u8, 49u8, 0u8,
    ]);
}

/// One file at a time is captured, with a path of 1 to 32767 code units.
pub proof fn lemma_items_that_are_captured(
    count: u32,
    length: usize,
    result: Result<(), CaptureRejection>,
)
    requires
        call_ensures(capture::check_items, (count, length), result),
    ensures
        result is Ok <==> count == 1 && 1 <= length <= 32_767,
        count != 1 ==> result == Err::<(), CaptureRejection>(CaptureRejection::MultipleItems),
        count == 1 && !(1 <= length <= 32_767) ==> result == Err::<(), CaptureRejection>(
            CaptureRejection::InvalidPath,
        ),
{
}

/// A path is captured where it is absolute, was copied in full and ends where it should.
pub proof fn lemma_paths_that_are_captured(
    buffer: &[u16],
    length: usize,
    copied: usize,
    absolute: bool,
    sequence: u32,
    result: ClipboardCapture,
)
    requires
        length < buffer@.len(),
        call_ensures(capture::candidate, (buffer, length, copied, absolute, sequence), result),
    ensures
        result is Candidate <==> absolute && copied == length && buffer@[length as int] == 0,
        result matches ClipboardCapture::Candidate { path, sequence: told } ==> told == sequence
            && path@.len() == length && forall|k: int|
            0 <= k < length ==> #[trigger] path@[k] == buffer@[k],
        !(result is Candidate) ==> result == (ClipboardCapture::Rejected {
            reason: CaptureRejection::InvalidPath,
        }),
{
}

/// A file is captured where its attributes allow it, it lies on a disk, and it has no streams
/// besides its content; what is kept of it is what the system told.
pub proof fn lemma_files_that_are_captured(
    path: Vec<u16>,
    name: String,
    information: FileInformation,
    on_disk: bool,
    streams: Result<bool, HResult>,
    result: Result<FileSnapshot, CaptureError>,
)
    requires
        call_ensures(FileSnapshot::capture, (path, name, information, on_disk, streams), result),
    ensures
        result is Ok <==> snapshot::attribute_refusal(information.attributes) is None && on_disk && streams
            == Ok::<bool, HResult>(false),
        result matches Ok(kept) ==> {
            &&& kept.path@ == path@
            &&& kept.file_name@ == name@
            &&& kept.size == information.size_high * 0x1_0000_0000 + information.size_low
            &&& kept.attributes == information.attributes
            &&& kept.creation_time == information.creation_time
            &&& kept.last_access_time == information.last_access_time
            &&& kept.last_write_time == information.last_write_time
            &&& kept.identity.volume_serial == information.volume_serial
            &&& kept.identity.file_index == information.index_high * 0x1_0000_0000
                + information.index_low
        },
{
    assert(information.size_high * 0x1_0000_0000 + information.size_low <= u64::MAX);
    assert(information.index_high * 0x1_0000_0000 + information.index_low <= u64::MAX);
}

/// A file is still what it was where its size, its attributes, its place on the disk and the times of
/// its creation and of its last change are what they were; nothing else counts.
pub proof fn lemma_files_that_are_unchanged(kept: FileSnapshot, information: FileInformation)
    ensures
        kept.spec_matches(information) <==> {
            &&& kept.size == information.size_high * 0x1_0000_0000 + information.size_low
            &&& kept.attributes == information.attributes
            &&& kept.identity.volume_serial == information.volume_serial
            &&& kept.identity.file_index == information.index_high * 0x1_0000_0000
                + information.index_low
            &&& kept.creation_time == information.creation_time
            &&& kept.last_write_time == information.last_write_time
        },
{
    assert(information.size_high * 0x1_0000_0000 + information.size_low <= u64::MAX);
    assert(information.index_high * 0x1_0000_0000 + information.index_low <= u64::MAX);
}

/// The unnamed stream is told by its name, `::$DATA` in code units with the lower byte first; any other
/// name is one of another stream. An entry lies within the list with all of its name; the next one
/// starts behind its head, and within the list, too.
pub proof fn lemma_streams_are_found(list: Seq<u8>, cursor: int)
    requires
        0 <= cursor,
    ensures
        ({
            let distance = bytes::le_value(list.subrange(cursor, cursor + 4)) as int;
            let length = bytes::le_value(list.subrange(cursor + 4, cursor + 8)) as int;
            let name = list.subrange(cursor + 24, cursor + 24 + length);
            let unnamed = seq![58u8, 0u8, 58u8, 0u8, 36u8, 0u8, 68u8, 0u8, 65u8, 0u8, 84u8, 0u8, 65u8, 0u8];
            let whole = cursor + 32 <= list.len() && length % 2 == 0 && cursor + 24 + length <= list.len();
            let told = snapshot::named_stream(list, cursor);
            &&& !whole ==> told == Err::<bool, HResult>(0x8007_0057u32)
            &&& whole && name != unnamed ==> told == Ok::<bool, HResult>(true)
            &&& whole && name == unnamed && distance == 0 ==> told == Ok::<bool, HResult>(false)
            &&& whole && name == unnamed && 0 < distance && (distance < 24 || cursor + distance
                > list.len()) ==> told == Err::<bool, HResult>(0x8007_0057u32)
            &&& whole && name == unnamed && 24 <= distance && cursor + distance <= list.len() ==> told
                == snapshot::named_stream(list, cursor + distance)
        }),
{
    assert(snapshot::DEFAULT_STREAM@ =~= seq![
        58u8, 0u8, 58u8, 0u8, 36u8, 0u8, 68u8, 0u8, 65u8, 0u8, 84u8, 0u8, 65u8, 0u8,
    ]);
}

/// A list of streams that is too long to be told has more than the unnamed one; any other failure is
/// told as it is.
pub proof fn lemma_stream_lists(query: Result<&[u8], HResult>, result: Result<bool, HResult>)
    requires
        call_ensures(snapshot::has_named_data_stream, (query,), result),
    ensures
        query matches Err(code) ==> result == if code == 0x8007_00ea || code == 0x8007_007a {
            Ok::<bool, HResult>(true)
        } else {
            Err(code)
        },
        query matches Ok(list) ==> result == snapshot::named_stream(list@, 0),
{
}

/// A path is taken where it is absolute and ends in a name that a file can have.
pub proof fn lemma_paths_that_are_taken(
    absolute: bool,
    name: Option<&str>,
    result: Result<(), CaptureError>,
)
    requires
        call_ensures(FileSnapshot::check_path, (absolute, name), result),
    ensures
        result is Ok <==> absolute && name is Some && data_object::valid_virtual_name(name->0@),
        !absolute ==> result == Err::<(), CaptureError>(
            CaptureError::Rejected { reason: CaptureRejection::InvalidPath },
        ),
        absolute && name is None ==> result == Err::<(), CaptureError>(
            CaptureError::Rejected { reason: CaptureRejection::NonUnicodeName },
        ),
{
}

/// The first read of an offered file opens it where the offer still stands; later ones only look
/// whether it is still what it was. A file that failed fails for good. Each read is counted.
pub proof fn lemma_reads_start(file: &mut StableFileSource, wanted: usize, now: u64, step: StableStep)
    requires
        call_ensures(StableFileSource::start_read, (file, wanted, now), step),
        wanted > 0,
    ensures
        final(file).progress.read_calls == (old(file).progress.read_calls + 1) % 0x1_0000_0000_0000_0000,
        final(file).progress.bytes_read == old(file).progress.bytes_read,
        final(file).snapshot == old(file).snapshot && final(file).expires_at == old(file).expires_at,
        old(file).progress.state is Active ==> step is Verify && final(file).progress.state is Active,
        old(file).progress.state matches StableFileState::Failed { code } ==> step == (StableStep::Fail {
            code,
        }),
        old(file).progress.state is Unstarted ==> if old(file).progress.revoked || now >= old(
            file,
        ).expires_at {
            step == (StableStep::Fail { code: 0x8007_05b4u32 }) && final(file).progress.state is Failed
        } else {
            step is Open && final(file).progress.state is Unstarted
        },
{
}

/// A file that was opened is read where it is still what it was, still may be offered, lies on a disk
/// and has no other streams; else never.
pub proof fn lemma_opened_files(
    file: &mut StableFileSource,
    opened: Result<OpenedFile, HResult>,
    step: StableStep,
)
    requires
        call_ensures(StableFileSource::opened, (file, opened), step),
    ensures
        step is Verify <==> {
            &&& opened is Ok
            &&& snapshot::attribute_refusal(opened->Ok_0.information.attributes) is None
            &&& opened->Ok_0.on_disk
            &&& old(file).snapshot.spec_matches(opened->Ok_0.information)
            &&& opened->Ok_0.streams == Ok::<bool, HResult>(false)
        },
        step is Verify ==> final(file).progress.state is Active,
        !(step is Verify) ==> step is Fail && final(file).progress.state == (StableFileState::Failed {
            code: step->Fail_code,
        }),
        opened matches Err(code) ==> step == (StableStep::Fail { code }),
        final(file).progress.bytes_read == old(file).progress.bytes_read,
{
}

/// What is read of a file that is still what it was: as much as is wanted and is left, and nothing
/// behind its end. A file that changed fails.
pub proof fn lemma_verified_files(
    file: &StableFileSource,
    information: Result<FileInformation, HResult>,
    offset: u64,
    wanted: usize,
    step: StableStep,
)
    requires
        call_ensures(StableFileSource::verified, (file, information, offset, wanted), step),
    ensures
        information matches Err(code) ==> step == (StableStep::Fail { code }),
        information matches Ok(told) ==> if !file.snapshot.spec_matches(told) {
            step == (StableStep::Fail { code: 0x8007_03eeu32 })
        } else if offset >= file.snapshot.size {
            step == (StableStep::Done { count: 0 })
        } else {
            &&& step matches StableStep::Read { length }
            &&& length <= wanted && offset + length <= file.snapshot.size
            &&& length == wanted || offset + length == file.snapshot.size
        },
{
}

/// A read that gave what was asked for is over, unless it reached the end, where the file is looked at
/// once more; one that gave anything else failed. The bytes are counted.
pub proof fn lemma_reads_end(
    file: &mut StableFileSource,
    offset: u64,
    length: usize,
    read: Result<usize, HResult>,
    step: StableStep,
)
    requires
        call_ensures(StableFileSource::read_done, (file, offset, length, read), step),
    ensures
        read matches Err(code) ==> step == (StableStep::Fail { code }) && final(file).progress == old(
            file,
        ).progress,
        read matches Ok(count) ==> {
            &&& final(file).progress.bytes_read == (old(file).progress.bytes_read + count)
                % 0x1_0000_0000_0000_0000
            &&& count != length ==> step == (StableStep::Fail { code: 0x8007_03eeu32 })
            &&& count == length && offset + count < old(file).snapshot.size ==> step == (StableStep::Done {
                count,
            })
            &&& count == length && offset + count >= old(file).snapshot.size ==> step
                == (StableStep::VerifyEnd { length })
        },
        final(file).progress.state == old(file).progress.state,
{
}

/// The end of a file is handed out where the file is still what it was.
pub proof fn lemma_ends_are_verified(
    file: &StableFileSource,
    information: Result<FileInformation, HResult>,
    length: usize,
    step: StableStep,
)
    requires
        call_ensures(StableFileSource::verified_end, (file, information, length), step),
    ensures
        information matches Ok(told) ==> (file.snapshot.spec_matches(told) <==> step == (StableStep::Done {
            count: length,
        })),
        information matches Ok(told) ==> !file.snapshot.spec_matches(told) ==> step == (StableStep::Fail {
            code: 0x8007_03eeu32,
        }),
        information matches Err(code) ==> step == (StableStep::Fail { code }),
{
}

/// An offer stands for a time that is not empty and that ends.
pub proof fn lemma_local_offers(
    kept: FileSnapshot,
    ttl: u64,
    now: u64,
    offer_id: [u8; 16],
    file_id: [u8; 16],
    result: Result<LocalFileOffer, HResult>,
)
    requires
        call_ensures(LocalFileOffer::create, (kept, ttl, now, offer_id, file_id), result),
    ensures
        result is Ok <==> ttl > 0 && now + ttl <= u64::MAX,
        result matches Err(code) ==> code == 0x8007_0057,
        result matches Ok(offer) ==> {
            &&& offer.expires_at == now + ttl && offer.created_at == now
            &&& offer.source.expires_at == now + ttl
            &&& offer.source.snapshot == kept
            &&& offer.source.progress.state is Unstarted && !offer.source.progress.revoked
            &&& offer.source.progress.bytes_read == 0 && offer.source.progress.read_calls == 0
            &&& offer.offer_id == offer_id && offer.file_id == file_id
            &&& capture::private_origin(offer.origin_payload@)
            &&& offer.origin_payload@.skip(25) == offer_id@
        },
{
    if let Ok(offer) = result {
        offer.lemma_origin_is_recognised();
        assert(offer.origin_payload@.skip(25) =~= offer_id@);
    }
}

/// How long an offer stood and still stands add up to its whole time, while it stands.
pub proof fn lemma_times_of_offers(offer: &LocalFileOffer, now: u64, age: u64, remaining: u64)
    requires
        offer.wf(),
        call_ensures(LocalFileOffer::age, (offer, now), age),
        call_ensures(LocalFileOffer::remaining_ttl, (offer, now), remaining),
    ensures
        offer.created_at <= now < offer.expires_at ==> age + remaining == offer.expires_at - offer.created_at
            && age == now - offer.created_at,
        now >= offer.expires_at ==> remaining == 0,
        now < offer.created_at ==> age == 0,
        remaining > 0 <==> now < offer.expires_at,
{
}

/// Publishing an offer takes the place of the one that stood, which is revoked; withdrawing it leaves
/// none.
pub proof fn lemma_one_offer_stands(
    publishing: &mut LocalOfferRegistry,
    offer: LocalFileOffer,
    published: Option<LocalFileOffer>,
    revoking: &mut LocalOfferRegistry,
    revoked: Option<LocalFileOffer>,
)
    requires
        call_ensures(LocalOfferRegistry::publish, (publishing, offer), published),
        call_ensures(LocalOfferRegistry::revoke_current, (revoking,), revoked),
    ensures
        final(publishing).current == Some(offer),
        published is None <==> old(publishing).current is None,
        published matches Some(previous) ==> previous.source.progress.revoked && previous.offer_id == old(
            publishing,
        ).current->0.offer_id && previous.source.progress.state == old(
            publishing,
        ).current->0.source.progress.state,
        final(revoking).current is None,
        revoked is None <==> old(revoking).current is None,
        revoked matches Some(previous) ==> previous.source.progress.revoked && previous.offer_id == old(
            revoking,
        ).current->0.offer_id,
{
}

} // verus!
