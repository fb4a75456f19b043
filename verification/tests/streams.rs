use clipferry::clipboard::data_object::{
    validate_virtual_descriptor_tree, write_file_name, FileTime, VirtualFileDescriptor,
    FILE_ATTRIBUTE_DIRECTORY, FILE_ATTRIBUTE_NORMAL,
};
use clipferry::clipboard::format_enum::{FormatEnumerator, FormatEtc};
use clipferry::clipboard::hresult::{
    HResult, CANCELLED, DV_E_DVASPECT, DV_E_DVTARGETDEVICE, DV_E_FORMATETC, DV_E_LINDEX,
    DV_E_TYMED, E_INVALIDARG, E_NOTIMPL, E_POINTER, E_UNEXPECTED, S_FALSE, S_OK,
    STG_E_ACCESSDENIED, STG_E_INVALIDFUNCTION, STG_E_INVALIDPOINTER,
};
use clipferry::clipboard::probe::{
    apartment_description, is_key_event, CallContext, ProbeState, MAX_RETAINED_EVENTS,
};
use clipferry::clipboard::source::{MemorySource, ReadAtSource};
use clipferry::clipboard::stream::{
    GatherStep, VirtualStream, STATFLAG_DEFAULT, STATFLAG_NONAME, STREAM_SEEK_CUR, STREAM_SEEK_END,
    STREAM_SEEK_SET,
};
use clipferry::clipboard::transfer::{
    generated_byte, ChunkWait, GeneratedRead, GeneratedSource, TransferControl,
    TransferControlState,
};
use clipferry::clipboard::virtual_object::{
    format_etc, format_number, ClipboardFormats, Medium, VirtualFileDataObject, DATADIR_GET,
    FD_ACCESSTIME, FD_BASIC, FD_CREATETIME, FD_WRITESTIME, TYMED_HGLOBAL, TYMED_ISTREAM,
};
use clipferry::clipboard::TEST_FILE_CONTENT;

fn context() -> CallContext {
    CallContext { thread: 1, apartment: "0:0".to_owned() }
}

fn formats() -> ClipboardFormats {
    ClipboardFormats {
        descriptor: 0xc001,
        contents: 0xc002,
        preferred_effect: 0xc003,
        origin: 0xc004,
        performed_effect: 0xc005,
        logical_performed_effect: 0xc006,
        paste_succeeded: 0xc007,
    }
}

fn object() -> VirtualFileDataObject {
    VirtualFileDataObject::create(formats(), "test.txt".to_owned(), 5).unwrap()
}

fn short_read(offset: u64, destination: &mut [u8]) -> Result<usize, HResult> {
    let bytes = b"abcdef";
    let offset = usize::try_from(offset).unwrap();
    if offset >= bytes.len() || destination.is_empty() {
        return Ok(0);
    }
    let copied = (bytes.len() - offset).min(destination.len()).min(2);
    destination[..copied].copy_from_slice(&bytes[offset..offset + copied]);
    Ok(copied)
}

fn failing_read(offset: u64, destination: &mut [u8]) -> Result<usize, HResult> {
    if offset == 0 {
        destination[0] = b'a';
        Ok(1)
    } else {
        Err(CANCELLED)
    }
}

fn read_in_steps(
    stream: &mut VirtualStream,
    destination: &mut [u8],
    read_at: impl Fn(u64, &mut [u8]) -> Result<usize, HResult>,
) -> (HResult, usize) {
    let (mut read, mut step) = stream.start_read(destination.len());
    loop {
        match step {
            GatherStep::Ask { offset, length } => {
                let start = destination.len() - length;
                let got = read_at(offset, &mut destination[start..]);
                step = read.took(got);
            }
            GatherStep::Settle { outcome } => {
                return VirtualStream::answer(stream.settle(outcome), destination.len());
            }
        }
    }
}

fn memory() -> MemorySource {
    MemorySource::new(b"abcdef".to_vec())
}

#[test]
fn content_is_deferred_until_stream_read() {
    let object = object();
    let source = MemorySource::new(b"hello".to_vec());
    let mut probe = ProbeState::new();
    let descriptor = format_etc(formats().descriptor, -1, TYMED_HGLOBAL);
    assert!(matches!(object.get_data(descriptor, source.len()), Ok(Medium::Record { .. })));
    assert_eq!(probe.read_calls(), 0);

    let contents = format_etc(formats().contents, 0, TYMED_ISTREAM);
    assert!(matches!(object.get_data(contents, source.len()), Ok(Medium::Stream)));
    assert_eq!(probe.read_calls(), 0);
    let mut stream = VirtualStream::create("test.txt".to_owned(), 0);
    let mut bytes = [0_u8; 5];
    assert_eq!(stream.read(&source, &mut bytes, &mut probe, &context()).0, S_OK);
    assert_eq!(&bytes, b"hello");
    assert_eq!(probe.read_calls(), 1);
}

#[test]
fn query_get_data_checks_index_and_medium() {
    let valid = format_etc(formats().contents, 0, TYMED_ISTREAM);
    assert_eq!(formats().validate(valid), S_OK);

    let invalid_index = format_etc(formats().contents, 1, TYMED_ISTREAM);
    assert_eq!(formats().validate(invalid_index), DV_E_LINDEX);

    let invalid_device = FormatEtc { for_device: true, ..valid };
    assert_eq!(formats().validate(invalid_device), DV_E_DVTARGETDEVICE);

    let invalid_aspect = FormatEtc { aspect: 0, ..valid };
    assert_eq!(formats().validate(invalid_aspect), DV_E_DVASPECT);

    let invalid_medium = format_etc(formats().contents, 0, TYMED_HGLOBAL);
    assert_eq!(formats().validate(invalid_medium), DV_E_TYMED);

    let unknown_format = format_etc(1, -1, TYMED_HGLOBAL);
    assert_eq!(formats().validate(unknown_format), DV_E_FORMATETC);
}

#[test]
fn file_descriptor_hglobal_has_the_expected_name_size_and_flags() {
    let format = format_etc(formats().descriptor, -1, TYMED_HGLOBAL);
    let Ok(Medium::Record { record }) = object().get_data(format, 5) else {
        panic!("no record");
    };
    assert_ne!(record.flags & 0x4, 0);
    assert_ne!(record.flags & 0x40, 0);
    assert_ne!(record.flags & 0x8000_0000, 0);
    assert_eq!(record.size_high, 0);
    assert_eq!(record.size_low, 5);
    let name_length = record.name.iter().position(|character| *character == 0).unwrap();
    assert_eq!(String::from_utf16(&record.name[..name_length]).unwrap(), "test.txt");
}

#[test]
fn captured_descriptor_preserves_times_and_private_offer_identity() {
    let time = |low_date_time, high_date_time| FileTime { low_date_time, high_date_time };
    let object = VirtualFileDataObject::create_with_descriptor(
        formats(),
        VirtualFileDescriptor {
            file_name: "captured.bin".to_owned(),
            size: 8,
            attributes: FILE_ATTRIBUTE_NORMAL,
            creation_time: Some(time(11, 12)),
            last_access_time: Some(time(21, 22)),
            last_write_time: Some(time(31, 32)),
        },
        8,
        b"private-offer-123".to_vec(),
    )
    .unwrap();
    let Ok(Medium::Record { record }) =
        object.get_data(format_etc(formats().descriptor, -1, TYMED_HGLOBAL), 8)
    else {
        panic!("no record");
    };
    assert_eq!(record.flags, FD_BASIC | FD_CREATETIME | FD_ACCESSTIME | FD_WRITESTIME);
    assert_eq!(record.creation_time, time(11, 12));
    assert_eq!(record.last_access_time, time(21, 22));
    assert_eq!(record.last_write_time, time(31, 32));
    let Ok(Medium::Bytes { bytes }) =
        object.get_data(format_etc(formats().origin, -1, TYMED_HGLOBAL), 8)
    else {
        panic!("no origin");
    };
    assert_eq!(bytes, b"private-offer-123");
}

#[test]
fn preferred_drop_effect_hglobal_requests_a_copy() {
    let Ok(Medium::Bytes { bytes }) =
        object().get_data(format_etc(formats().preferred_effect, -1, TYMED_HGLOBAL), 5)
    else {
        panic!("no effect");
    };
    assert_eq!(bytes, 1_u32.to_le_bytes());
}

#[test]
fn shell_feedback_set_data_accepts_hglobal_without_taking_unrequested_ownership() {
    let format = format_etc(formats().performed_effect, -1, TYMED_HGLOBAL);
    assert_eq!(formats().check_report(format, TYMED_HGLOBAL, Some(4)), S_OK);
    assert!(formats().is_feedback(formats().paste_succeeded));
    assert!(!formats().is_feedback(formats().contents));
}

#[test]
fn rejected_set_data_leaves_release_true_medium_owned_by_the_caller() {
    let format = format_etc(1, -1, TYMED_HGLOBAL);
    assert_eq!(formats().check_report(format, TYMED_HGLOBAL, Some(4)), DV_E_FORMATETC);
}

#[test]
fn async_capability_tracks_operation_lifecycle() {
    let mut object = object();
    assert!(!object.async_mode);
    object.set_async_mode(true);
    assert!(object.async_mode);
    assert!(!object.in_operation);
    object.start_operation();
    assert!(object.in_operation);
    object.end_operation();
    assert!(!object.in_operation);
}

#[test]
fn independently_opened_streams_have_independent_positions() {
    let source = MemorySource::new(b"hello".to_vec());
    let mut probe = ProbeState::quiet();
    let mut first_stream = VirtualStream::create("test.txt".to_owned(), 0);
    let mut second_stream = VirtualStream::create("test.txt".to_owned(), 0);
    let mut first = [0_u8; 5];
    let mut second = [0_u8; 5];
    let (code, read, _) = first_stream.read(&source, &mut first[..2], &mut probe, &context());
    assert_eq!((code, read), (S_OK, 2));
    let (code, read, _) = second_stream.read(&source, &mut second, &mut probe, &context());
    assert_eq!((code, read), (S_OK, 5));
    let (code, read, _) = first_stream.read(&source, &mut first[2..], &mut probe, &context());
    assert_eq!((code, read), (S_OK, 3));
    assert_eq!(&first, b"hello");
    assert_eq!(&second, b"hello");
}

#[test]
fn file_names_reject_paths_controls_trailing_dots_and_truncation() {
    let mut destination = [0_u16; 260];
    assert!(write_file_name(&mut destination, "valid name.txt").is_ok());
    for invalid in [
        "",
        "..\\escape.txt",
        "nested/file.txt",
        "bad.",
        "bad ",
        "bad\n",
        "name:stream.bin",
        "wild*.bin",
        "question?.bin",
        "CON",
        "nul.txt",
        "Com1.log",
        "LPT9",
    ] {
        assert!(write_file_name(&mut destination, invalid).is_err(), "{invalid:?}");
    }
    assert!(write_file_name(&mut destination, &"x".repeat(260)).is_err());
}

#[test]
fn names_are_written_with_a_closing_zero() {
    let mut destination = [0xFFFF_u16; 260];
    assert!(write_file_name(&mut destination, "a🚢").is_ok());
    assert_eq!(&destination[..4], &[0x61, 0xd83d, 0xdea2, 0]);
    assert!(write_file_name(&mut destination, &"x".repeat(259)).is_ok());
    assert_eq!(destination[259], 0);
    assert_eq!(write_file_name(&mut destination, "CON"), Err(DV_E_FORMATETC));
}

#[test]
fn trees_have_safe_paths_and_sizes_that_add_up() {
    let entry = |name: &str, size, attributes| VirtualFileDescriptor {
        attributes,
        ..VirtualFileDescriptor::basic(name.to_owned(), size)
    };
    let tree = |entries: &[VirtualFileDescriptor]| validate_virtual_descriptor_tree(entries);
    assert!(tree(&[
        entry("folder", 0, FILE_ATTRIBUTE_DIRECTORY),
        entry("folder\\a.txt", 7, FILE_ATTRIBUTE_NORMAL)
    ])
    .is_ok());
    for name in ["folder\\..\\a.txt", "\\a.txt", "folder\\", "folder\\CON", "a/b"] {
        assert_eq!(tree(&[entry(name, 0, FILE_ATTRIBUTE_NORMAL)]), Err(DV_E_FORMATETC), "{name}");
    }
    assert_eq!(
        tree(&[
            entry("a", u64::MAX, FILE_ATTRIBUTE_NORMAL),
            entry("b", 1, FILE_ATTRIBUTE_NORMAL)
        ]),
        Err(DV_E_FORMATETC)
    );
    assert!(entry("folder", 0, FILE_ATTRIBUTE_DIRECTORY).is_directory());
}

#[test]
fn standard_format_enumerator_supports_clone_and_reset() {
    let mut enumerator = FormatEnumerator::create(object().formats_of(DATADIR_GET).unwrap());
    assert_eq!(enumerator.next(1, true, true).items.len(), 1);
    let mut clone = enumerator.duplicate();
    let from_original = enumerator.next(1, true, true);
    let from_clone = clone.next(1, true, true);
    assert_eq!((from_original.code, from_clone.code), (S_OK, S_OK));
    assert_eq!(from_original.items[0].format, from_clone.items[0].format);
    enumerator.reset();
    let all = enumerator.next(5, true, true);
    assert_eq!(all.code, S_FALSE);
    assert_eq!(all.items.len(), 4);
    assert_eq!(object().formats_of(2).unwrap_err(), E_NOTIMPL);
}

fn three_formats() -> FormatEnumerator {
    FormatEnumerator::create([10, 11, 12].map(|format| format_etc(format, -1, 1)).to_vec())
}

#[test]
fn next_enforces_com_pointer_rules_and_partial_fetch() {
    let mut enumerator = three_formats();
    assert_eq!(enumerator.next(2, true, false).code, E_POINTER);
    let two = enumerator.next(2, true, true);
    assert_eq!(two.code, S_OK);
    assert_eq!([two.items[0].format, two.items[1].format], [10, 11]);
    let rest = enumerator.next(2, true, true);
    assert_eq!(rest.code, S_FALSE);
    assert_eq!(rest.items.len(), 1);
    assert_eq!(rest.items[0].format, 12);
}

#[test]
fn clone_preserves_cursor_but_advances_independently() {
    let mut enumerator = three_formats();
    assert_eq!(enumerator.next(1, true, false).code, S_OK);
    let mut clone = enumerator.duplicate();
    assert_eq!(enumerator.next(1, true, false).items[0].format, 11);
    assert_eq!(clone.next(1, true, false).items[0].format, 11);
    enumerator.skip(1).unwrap();
    assert_eq!(clone.next(1, true, false).items[0].format, 12);
}

#[test]
fn skip_past_the_end_returns_s_false_and_leaves_the_cursor_at_end() {
    let mut enumerator = three_formats();
    assert_eq!(enumerator.skip(4), Err(S_FALSE));
    let end = enumerator.next(1, true, true);
    assert_eq!(end.code, S_FALSE);
    assert_eq!(end.items.len(), 0);
    enumerator.reset();
    assert_eq!(enumerator.next(1, true, false).items[0].format, 10);
}

#[test]
fn read_seek_stat_and_eof_follow_istream_contract() {
    let source = memory();
    let mut probe = ProbeState::new();
    let mut stream = VirtualStream::create("test.txt".to_owned(), 0);
    let mut buffer = [0_u8; 4];
    let (first, read, _) = stream.read(&source, &mut buffer, &mut probe, &context());
    assert_eq!(first, S_OK);
    assert_eq!(read, 4);
    assert_eq!(&buffer, b"abcd");

    assert_eq!(stream.seek_impl(6, -2, STREAM_SEEK_CUR), Ok(2));
    assert_eq!(stream.seek_impl(6, -1, STREAM_SEEK_END), Ok(5));

    let (short, read, _) = stream.read(&source, &mut buffer, &mut probe, &context());
    assert_eq!(short, S_FALSE);
    assert_eq!(read, 1);
    assert_eq!(buffer[0], b'f');

    let stat = stream.stat(source.len(), true, STATFLAG_NONAME).unwrap();
    assert_eq!(stat.size, 6);
    assert!(stat.name.is_none());
    assert_eq!(probe.read_calls(), 2);
}

#[test]
fn clones_have_independent_positions() {
    let source = memory();
    let mut probe = ProbeState::quiet();
    let mut stream = VirtualStream::create("test.txt".to_owned(), 0);
    stream.seek_impl(6, 3, STREAM_SEEK_SET).unwrap();
    let mut clone = stream.duplicate();
    stream.seek_impl(6, 1, STREAM_SEEK_SET).unwrap();
    let mut original_byte = [0_u8; 1];
    let mut clone_byte = [0_u8; 1];
    assert_eq!(stream.read(&source, &mut original_byte, &mut probe, &context()).0, S_OK);
    assert_eq!(clone.read(&source, &mut clone_byte, &mut probe, &context()).0, S_OK);
    assert_eq!(original_byte, *b"b");
    assert_eq!(clone_byte, *b"d");
}

#[test]
fn invalid_pointers_and_writes_are_rejected() {
    assert_eq!(VirtualStream::check_destination(1, false), Err(STG_E_INVALIDPOINTER));
    assert!(VirtualStream::check_destination(0, false).is_ok());
    let mut stream = VirtualStream::create("test.txt".to_owned(), 0);
    let mut probe = ProbeState::quiet();
    let (code, read, _) = stream.read(&memory(), &mut [], &mut probe, &context());
    assert_eq!((code, read), (S_OK, 0));
    assert_eq!(VirtualStream::refuse_write(), (STG_E_ACCESSDENIED, 0));
}

#[test]
fn stat_allocates_a_cotaskmem_name_when_requested() {
    let stream = VirtualStream::create("test.txt".to_owned(), 0);
    let stat = stream.stat(6, true, STATFLAG_DEFAULT).unwrap();
    let mut name = stat.name.unwrap();
    assert_eq!(name.pop(), Some(0));
    assert_eq!(String::from_utf16(&name).unwrap(), "test.txt");
    assert_eq!(stream.stat(6, false, STATFLAG_DEFAULT).unwrap_err(), E_POINTER);
    assert_eq!(stream.stat(6, true, 9).unwrap_err(), STG_E_INVALIDFUNCTION);
}

#[test]
fn a_single_com_read_aggregates_network_style_short_reads() {
    let mut stream = VirtualStream::create("short-read.txt".to_owned(), 0);
    let mut bytes = [0_u8; 6];
    let (code, read) = read_in_steps(&mut stream, &mut bytes, short_read);
    assert_eq!(code, S_OK);
    assert_eq!(read, 6);
    assert_eq!(&bytes, b"abcdef");
    assert_eq!(stream.position, 6);
}

#[test]
fn a_failure_after_some_bytes_fails_the_read() {
    let mut stream = VirtualStream::create("failing.txt".to_owned(), 0);
    let mut bytes = [0_u8; 4];
    assert_eq!(read_in_steps(&mut stream, &mut bytes, failing_read), (CANCELLED, 0));
    assert_eq!(stream.position, 0);
    let greedy = |_: u64, buffer: &mut [u8]| Ok(buffer.len() + 1);
    assert_eq!(read_in_steps(&mut stream, &mut bytes, greedy), (E_UNEXPECTED, 0));
    let mut far = VirtualStream::create("far.txt".to_owned(), u64::MAX);
    let one = |_: u64, _: &mut [u8]| Ok(1);
    assert_eq!(read_in_steps(&mut far, &mut bytes, one), (STG_E_INVALIDFUNCTION, 0));
}

#[test]
fn seek_rejects_negative_positions_but_allows_positions_past_eof() {
    let mut stream = VirtualStream::create("test.txt".to_owned(), 0);
    assert_eq!(stream.seek_impl(6, -1, STREAM_SEEK_SET), Err(STG_E_INVALIDFUNCTION));
    assert_eq!(stream.seek_impl(6, 64, STREAM_SEEK_SET), Ok(64));
    let mut probe = ProbeState::quiet();
    let mut byte = [0_u8; 1];
    let (code, read, _) = stream.read(&memory(), &mut byte, &mut probe, &context());
    assert_eq!(code, S_FALSE);
    assert_eq!(read, 0);
}

#[test]
fn unsupported_copy_to_initializes_output_counts() {
    assert_eq!(VirtualStream::refuse_copy(), (E_NOTIMPL, 0, 0));
}

#[test]
fn memory_source_supports_bounded_offset_reads() {
    let source = memory();
    let mut destination = [0_u8; 3];
    assert_eq!(source.read_at(2, &mut destination).unwrap(), 3);
    assert_eq!(&destination, b"cde");
    assert_eq!(source.read_at(6, &mut destination).unwrap(), 0);
    assert_eq!(source.read_at(u64::MAX, &mut destination).unwrap(), 0);
    assert_eq!(TEST_FILE_CONTENT.as_bytes(), b"ClipFerry virtual file stream test.\r\n");
}

#[test]
fn generated_source_is_deterministic_across_offsets_and_chunk_bounds() {
    let mut control = TransferControl::new();
    let source = GeneratedSource::new(10, 3, 0).unwrap();
    let mut bytes = [0_u8; 5];
    assert_eq!(
        source.read_at(&mut control, 2, &mut bytes, false),
        GeneratedRead::Done { count: 3 }
    );
    assert_eq!(bytes[..3], [generated_byte(2), generated_byte(3), generated_byte(4)]);
    assert_eq!(
        source.read_at(&mut control, 9, &mut bytes, false),
        GeneratedRead::Done { count: 1 }
    );
    assert_eq!(bytes[0], generated_byte(9));
    assert_eq!(
        source.read_at(&mut control, 10, &mut bytes, false),
        GeneratedRead::Done { count: 0 }
    );
    assert_eq!(control.bytes_served(), 4);
    assert_eq!(control.chunk_calls(), 2);
}

#[test]
fn paused_reads_resume_without_losing_content() {
    let mut control = TransferControl::new();
    let source = GeneratedSource::new(8, 8, 0).unwrap();
    control.pause();
    let mut bytes = [0_u8; 8];
    assert_eq!(
        source.read_at(&mut control, 0, &mut bytes, false),
        GeneratedRead::Wait { wait: ChunkWait::Park }
    );
    assert_eq!(control.resume(), TransferControlState::Running);
    assert_eq!(
        source.read_at(&mut control, 0, &mut bytes, false),
        GeneratedRead::Done { count: 8 }
    );
    assert_eq!(bytes[0], generated_byte(0));
    assert_eq!(bytes[7], generated_byte(7));
}

#[test]
fn cancellation_is_terminal_idempotent_and_wakes_a_paused_read() {
    let mut control = TransferControl::new();
    let source = GeneratedSource::new(8, 8, 0).unwrap();
    control.pause();
    let mut bytes = [0_u8; 8];
    assert!(matches!(
        source.read_at(&mut control, 0, &mut bytes, false),
        GeneratedRead::Wait { .. }
    ));
    assert_eq!(control.cancel(), TransferControlState::Cancelled);
    assert_eq!(
        source.read_at(&mut control, 0, &mut bytes, false),
        GeneratedRead::Fail { code: CANCELLED }
    );
    assert_eq!(control.cancel(), TransferControlState::Cancelled);
    assert_eq!(control.resume(), TransferControlState::Cancelled);
    assert_eq!(control.pause(), TransferControlState::Cancelled);
    assert_eq!(control.state().label(), "cancelled");
}

#[test]
fn cancellation_interrupts_chunk_throttling() {
    let mut control = TransferControl::new();
    let source = GeneratedSource::new(8, 8, 5_000_000_000).unwrap();
    let mut bytes = [0_u8; 8];
    assert_eq!(
        source.read_at(&mut control, 0, &mut bytes, false),
        GeneratedRead::Wait { wait: ChunkWait::Sleep }
    );
    control.cancel();
    assert_eq!(
        source.read_at(&mut control, 0, &mut bytes, false),
        GeneratedRead::Fail { code: CANCELLED }
    );
    assert_eq!(GeneratedSource::new(0, 8, 0).unwrap_err(), E_INVALIDARG);
    assert_eq!(GeneratedSource::new(8, 0, 0).unwrap_err(), E_INVALIDARG);
}

#[test]
fn event_history_is_bounded_without_losing_total_counts() {
    let mut probe = ProbeState::new();
    let total = MAX_RETAINED_EVENTS + 3;
    for index in 0..total {
        probe.retain(format!("event {index}"));
    }
    assert_eq!(probe.events().len(), MAX_RETAINED_EVENTS);
    assert_eq!(probe.event_count(), total as u64);
    assert_eq!(probe.dropped_events(), 3);
    assert_eq!(probe.events().first().unwrap(), "event 3");
}

#[test]
fn quiet_probes_show_only_key_events() {
    let mut quiet = ProbeState::quiet();
    let mut loud = ProbeState::new();
    assert!(is_key_event("OleSetClipboard") && !is_key_event("IStream::Read"));
    assert!(quiet.record(&context(), "IStream::Stat", "x").is_none());
    assert!(quiet.record(&context(), "OleSetClipboard", "x").is_some());
    let line = loud.record(&context(), "IStream::Stat", "size=6").unwrap();
    assert!(line.contains("IStream::Stat") && line.contains("size=6"));
    assert_eq!(loud.events(), [line]);
    assert!(loud.note_read(&context(), 7, 9).is_some());
    assert!(quiet.note_read(&context(), 7, 9).is_none());
    assert_eq!((loud.read_calls(), quiet.read_calls()), (1, 1));
    assert_eq!(apartment_description(Ok((1, -2))), "1:-2");
    assert_eq!(apartment_description(Err(E_UNEXPECTED)), "unknown(0x8000FFFF)");
    assert_eq!(format_number(0xc001), Ok(0xc001));
    assert_eq!(format_number(0x1_0000), Err(DV_E_FORMATETC));
}

#[test]
fn an_object_without_an_offer_names_the_application() {
    let object = object();
    assert_eq!(object.origin_payload, b"ClipFerry\0");
    assert_eq!(object.descriptor.file_name, "test.txt");
    assert_eq!(object.descriptor.size, 5);
    assert!(matches!(
        VirtualFileDataObject::create(formats(), "a/b".to_owned(), 5),
        Err(DV_E_FORMATETC)
    ));
}
