use clipferry::clipboard::data_object::{FileTime, FILE_ATTRIBUTE_DIRECTORY};
use clipferry::clipboard::hresult::{
    HResult, DV_E_FORMATETC, E_INVALIDARG, E_UNEXPECTED, FILE_INVALID, INSUFFICIENT_BUFFER,
    MORE_DATA, NOT_SUPPORTED, TIMEOUT,
};
use clipferry::clipboard::local_file::capture::{
    candidate, check_items, classify_formats, is_private_origin_payload, read_drop_effect,
    validate_drop_effect, CaptureError, CaptureRejection, ClipboardCapture, DROPEFFECT_COPY,
    DROPEFFECT_MOVE, MAX_CAPTURE_PATH_U16, PRIVATE_ORIGIN_PREFIX,
};
use clipferry::clipboard::local_file::offer::{LocalFileOffer, LocalOfferRegistry};
use clipferry::clipboard::local_file::snapshot::{
    has_named_data_stream, reject_attributes, FileInformation, FileSnapshot, DEFAULT_STREAM,
    FILE_ATTRIBUTE_COMPRESSED, FILE_ATTRIBUTE_ENCRYPTED, FILE_ATTRIBUTE_REPARSE_POINT,
    FILE_ATTRIBUTE_SPARSE_FILE,
};
use clipferry::clipboard::local_file::stable::{
    io_error, OpenedFile, StableFileSource, StableFileState, StableStep,
};

const FILE_ATTRIBUTE_ARCHIVE: u32 = 0x20;
const FILE_ATTRIBUTE_OFFLINE: u32 = 0x1000;
const FILE_ATTRIBUTE_INTEGRITY_STREAM: u32 = 0x8000;
const MILLISECOND: u64 = 1_000_000;
const SECOND: u64 = 1_000 * MILLISECOND;

/// A file as the system would tell of it.
struct TestFile {
    name: String,
    bytes: Vec<u8>,
    attributes: u32,
    index: u32,
    written: u32,
    streams: Vec<String>,
}

impl TestFile {
    fn create(name: &str, bytes: &[u8]) -> Self {
        Self {
            name: name.to_owned(),
            bytes: bytes.to_vec(),
            attributes: FILE_ATTRIBUTE_ARCHIVE,
            index: 7,
            written: 3,
            streams: vec!["::$DATA".to_owned()],
        }
    }

    fn write(&mut self, bytes: &[u8]) {
        self.bytes = bytes.to_vec();
        self.written += 1;
    }

    fn information(&self) -> FileInformation {
        FileInformation {
            attributes: self.attributes,
            creation_time: FileTime { low_date_time: 1, high_date_time: 10 },
            last_access_time: FileTime { low_date_time: 2, high_date_time: 10 },
            last_write_time: FileTime { low_date_time: self.written, high_date_time: 10 },
            volume_serial: 5,
            size_high: 0,
            size_low: u32::try_from(self.bytes.len()).unwrap(),
            index_high: 1,
            index_low: self.index,
        }
    }

    fn streams(&self) -> Result<bool, HResult> {
        has_named_data_stream(Ok(&stream_list(&self.streams)))
    }

    fn capture(&self) -> Result<FileSnapshot, CaptureError> {
        FileSnapshot::check_path(true, Some(&self.name))?;
        FileSnapshot::capture(
            self.name.encode_utf16().collect(),
            self.name.clone(),
            self.information(),
            true,
            self.streams(),
        )
    }

    fn opened(&self) -> OpenedFile {
        OpenedFile { information: self.information(), on_disk: true, streams: self.streams() }
    }

    /// A read through a source, with the file in the place of the system.
    fn read_at(
        &self,
        source: &mut StableFileSource,
        offset: u64,
        buffer: &mut [u8],
        now: u64,
    ) -> Result<usize, HResult> {
        let mut step = source.start_read(buffer.len(), now);
        loop {
            step = match step {
                StableStep::Open => source.opened(Ok(self.opened())),
                StableStep::Verify => {
                    source.verified(Ok(self.information()), offset, buffer.len())
                }
                StableStep::Read { length } => {
                    let start = usize::try_from(offset).unwrap();
                    buffer[..length].copy_from_slice(&self.bytes[start..start + length]);
                    source.read_done(offset, length, Ok(length))
                }
                StableStep::VerifyEnd { length } => {
                    source.verified_end(Ok(self.information()), length)
                }
                StableStep::Done { count } => return Ok(count),
                StableStep::Fail { code } => return Err(code),
            };
        }
    }
}

/// A stream list as the system lays it out.
fn stream_list(names: &[String]) -> Vec<u8> {
    let mut list = Vec::new();
    for (index, name) in names.iter().enumerate() {
        let name: Vec<u8> = name.encode_utf16().flat_map(u16::to_le_bytes).collect();
        let mut entry = vec![0; (24 + name.len()).max(32).next_multiple_of(8)];
        if index + 1 < names.len() {
            let next = u32::try_from(entry.len()).unwrap();
            entry[..4].copy_from_slice(&next.to_le_bytes());
        }
        entry[4..8].copy_from_slice(&u32::try_from(name.len()).unwrap().to_le_bytes());
        entry[24..24 + name.len()].copy_from_slice(&name);
        list.extend_from_slice(&entry);
    }
    list
}

fn offer(file: &TestFile, ttl: u64, now: u64, id: u8) -> LocalFileOffer {
    LocalFileOffer::create(file.capture().unwrap(), ttl, now, [id; 16], [id + 100; 16]).unwrap()
}

#[test]
fn unsupported_attribute_policy_is_explicit() {
    assert_eq!(reject_attributes(FILE_ATTRIBUTE_DIRECTORY), Err(CaptureRejection::Directory));
    assert_eq!(
        reject_attributes(FILE_ATTRIBUTE_REPARSE_POINT),
        Err(CaptureRejection::ReparsePoint)
    );
    assert_eq!(reject_attributes(FILE_ATTRIBUTE_ENCRYPTED), Err(CaptureRejection::Encrypted));
    assert_eq!(reject_attributes(FILE_ATTRIBUTE_SPARSE_FILE), Err(CaptureRejection::Sparse));
    assert_eq!(
        reject_attributes(FILE_ATTRIBUTE_OFFLINE),
        Err(CaptureRejection::OfflinePlaceholder)
    );
    assert_eq!(reject_attributes(FILE_ATTRIBUTE_COMPRESSED), Err(CaptureRejection::Compressed));
    assert_eq!(
        reject_attributes(FILE_ATTRIBUTE_INTEGRITY_STREAM),
        Err(CaptureRejection::UnsupportedMetadata)
    );
    assert_eq!(reject_attributes(0), Ok(()));
}

#[test]
fn every_refused_attribute_has_its_reason() {
    for bit in [0x1000_u32, 0x4_0000, 0x40_0000] {
        assert_eq!(reject_attributes(bit), Err(CaptureRejection::OfflinePlaceholder));
    }
    for bit in [0x8000_u32, 0x1_0000, 0x2_0000, 0x8_0000, 0x10_0000] {
        assert_eq!(reject_attributes(bit), Err(CaptureRejection::UnsupportedMetadata));
    }
    for bit in [0x1_u32, 0x2, 0x4, 0x20, 0x80, 0x100, 0x2000] {
        assert_eq!(reject_attributes(bit), Ok(()));
    }
    assert_eq!(reject_attributes(u32::MAX), Err(CaptureRejection::Directory));
}

#[test]
fn only_an_explicit_copy_effect_is_accepted() {
    assert_eq!(validate_drop_effect(DROPEFFECT_COPY), Ok(()));
    assert_eq!(validate_drop_effect(DROPEFFECT_MOVE), Err(CaptureRejection::CutOperation));
    assert_eq!(
        validate_drop_effect(DROPEFFECT_COPY | DROPEFFECT_MOVE),
        Err(CaptureRejection::CutOperation)
    );
    assert_eq!(validate_drop_effect(0), Err(CaptureRejection::MissingCopyEffect));
}

#[test]
fn drop_effects_are_read_from_memory() {
    assert_eq!(read_drop_effect(&[1, 0, 0, 0, 9]), Ok(DROPEFFECT_COPY));
    assert_eq!(read_drop_effect(&[2, 1, 0, 0]), Ok(0x102));
    assert_eq!(read_drop_effect(&[1, 0, 0]), Err(E_INVALIDARG));
}

#[test]
fn capture_reads_metadata_but_no_content() {
    let file = TestFile::create("metadata.bin", b"abcdef");
    let snapshot = file.capture().unwrap();
    let descriptor = snapshot.descriptor();

    assert_eq!(snapshot.size(), 6);
    assert_eq!(snapshot.file_name(), "metadata.bin");
    assert_eq!(descriptor.attributes, snapshot.attributes);
    let source = StableFileSource::new(snapshot, SECOND);
    assert_eq!(source.read_calls(), 0);
    assert_eq!(source.bytes_read(), 0);
}

#[test]
fn private_origin_requires_the_exact_versioned_payload_shape() {
    let mut payload = PRIVATE_ORIGIN_PREFIX.to_vec();
    payload.extend_from_slice(&[0xA5; 16]);
    assert!(is_private_origin_payload(&payload));
    assert!(!is_private_origin_payload(&PRIVATE_ORIGIN_PREFIX));
    payload[0] ^= 1;
    assert!(!is_private_origin_payload(&payload));
}

#[test]
fn directory_capture_reports_the_explicit_policy_rejection() {
    let mut file = TestFile::create("directory", b"");
    file.attributes = FILE_ATTRIBUTE_DIRECTORY;
    assert!(matches!(
        file.capture(),
        Err(CaptureError::Rejected { reason: CaptureRejection::Directory })
    ));
}

#[test]
fn alternate_data_stream_is_rejected() {
    let mut file = TestFile::create("motw.bin", b"payload");
    file.streams.push(":Zone.Identifier:$DATA".to_owned());
    assert!(matches!(
        file.capture(),
        Err(CaptureError::Rejected { reason: CaptureRejection::AlternateDataStream })
    ));
}

#[test]
fn alternate_data_stream_added_after_capture_is_rejected_before_content() {
    let mut file = TestFile::create("late-motw.bin", b"payload");
    let snapshot = file.capture().unwrap();
    file.streams.push(":Zone.Identifier:$DATA".to_owned());
    let mut source = StableFileSource::new(snapshot, SECOND);
    let mut bytes = [0_u8; 8];

    assert_eq!(file.read_at(&mut source, 0, &mut bytes, 0), Err(NOT_SUPPORTED));
    assert_eq!(source.read_calls(), 1);
    assert_eq!(source.bytes_read(), 0);
}

#[test]
fn source_change_before_first_read_fails_terminally() {
    let mut file = TestFile::create("changed.bin", b"before");
    let snapshot = file.capture().unwrap();
    file.write(b"after-longer");
    let mut source = StableFileSource::new(snapshot, SECOND);
    let mut bytes = [0_u8; 16];

    assert_eq!(file.read_at(&mut source, 0, &mut bytes, 0), Err(FILE_INVALID));
    assert_eq!(file.read_at(&mut source, 0, &mut bytes, 0), Err(FILE_INVALID));
    assert_eq!(source.read_calls(), 2);
    assert_eq!(source.bytes_read(), 0);
}

#[test]
fn stable_reads_use_explicit_offsets() {
    let file = TestFile::create("stable.bin", b"0123456789abcdef");
    let mut source = StableFileSource::new(file.capture().unwrap(), 2 * SECOND);
    let mut first = [0_u8; 4];
    let mut second = [0_u8; 4];
    assert_eq!(file.read_at(&mut source, 8, &mut second, 0), Ok(4));
    assert_eq!(file.read_at(&mut source, 0, &mut first, 0), Ok(4));

    assert_eq!(&first, b"0123");
    assert_eq!(&second, b"89ab");
    assert_eq!(source.read_calls(), 2);
    assert_eq!(source.bytes_read(), 8);
    assert_eq!(file.read_at(&mut source, 14, &mut first, 0), Ok(2));
    assert_eq!(file.read_at(&mut source, 16, &mut first, 0), Ok(0));
    assert_eq!(file.read_at(&mut source, 0, &mut [], 0), Ok(0));
    assert_eq!(source.read_calls(), 4);
    assert_eq!(source.bytes_read(), 10);
}

#[test]
fn a_file_that_changes_while_its_end_is_read_is_refused() {
    let mut file = TestFile::create("moving.bin", b"stable");
    let mut source = StableFileSource::new(file.capture().unwrap(), SECOND);
    assert_eq!(source.start_read(6, 0), StableStep::Open);
    assert_eq!(source.opened(Ok(file.opened())), StableStep::Verify);
    assert_eq!(
        source.verified(Ok(file.information()), 0, 6),
        StableStep::Read { length: 6 }
    );
    assert_eq!(source.read_done(0, 6, Ok(6)), StableStep::VerifyEnd { length: 6 });
    file.write(b"staple");
    assert_eq!(
        source.verified_end(Ok(file.information()), 6),
        StableStep::Fail { code: FILE_INVALID }
    );
    assert_eq!(
        source.verified(Ok(file.information()), 0, 6),
        StableStep::Fail { code: FILE_INVALID }
    );
}

#[test]
fn failing_system_calls_end_a_read() {
    let file = TestFile::create("failing.bin", b"stable");
    let mut source = StableFileSource::new(file.capture().unwrap(), SECOND);
    let sharing = io_error(Some(32));
    assert_eq!(sharing, 0x8007_0020);
    assert_eq!(io_error(None), E_UNEXPECTED);
    assert_eq!(source.start_read(6, 0), StableStep::Open);
    assert_eq!(source.opened(Err(sharing)), StableStep::Fail { code: sharing });
    assert_eq!(source.progress.state, StableFileState::Failed { code: sharing });
    assert_eq!(source.start_read(6, 0), StableStep::Fail { code: sharing });

    let mut source = StableFileSource::new(file.capture().unwrap(), SECOND);
    assert_eq!(source.start_read(6, 0), StableStep::Open);
    assert_eq!(source.opened(Ok(file.opened())), StableStep::Verify);
    assert_eq!(
        source.verified(Err(E_INVALIDARG), 0, 6),
        StableStep::Fail { code: E_INVALIDARG }
    );
    assert_eq!(
        source.read_done(0, 6, Err(E_UNEXPECTED)),
        StableStep::Fail { code: E_UNEXPECTED }
    );
    assert_eq!(source.read_done(0, 6, Ok(5)), StableStep::Fail { code: FILE_INVALID });
    assert_eq!(source.bytes_read(), 5);
    assert_eq!(
        source.verified_end(Err(E_UNEXPECTED), 6),
        StableStep::Fail { code: E_UNEXPECTED }
    );
}

#[test]
fn open_writer_from_before_transfer_prevents_a_mixed_snapshot() {
    let mut file = TestFile::create("writer.bin", b"stable");
    let snapshot = file.capture().unwrap();
    let mut source = StableFileSource::new(snapshot, SECOND);
    file.write(b"changed");
    let mut bytes = [0_u8; 8];

    assert!(file.read_at(&mut source, 0, &mut bytes, 0).is_err());
}

#[test]
fn expired_and_replaced_unstarted_offers_cannot_begin() {
    let first = TestFile::create("first.bin", b"first");
    let second = TestFile::create("second.bin", b"second");
    let mut registry = LocalOfferRegistry::new();
    assert!(registry.publish(offer(&first, MILLISECOND, 0, 1)).is_none());
    let mut bytes = [0_u8; 8];
    let expired = registry.current.as_mut().unwrap();
    assert_eq!(
        first.read_at(&mut expired.source, 0, &mut bytes, 5 * MILLISECOND),
        Err(TIMEOUT)
    );

    let now = 5 * MILLISECOND;
    assert!(registry.publish(offer(&first, SECOND, now, 2)).is_some());
    let mut old = registry.publish(offer(&second, SECOND, now, 3)).unwrap();
    assert_eq!(old.offer_id, [2; 16]);
    assert_eq!(first.read_at(&mut old.source, 0, &mut bytes, now), Err(TIMEOUT));
    let current = registry.current.as_mut().unwrap();
    assert_eq!(second.read_at(&mut current.source, 0, &mut bytes, now), Ok(6));
    assert_eq!(&bytes[..6], b"second");
}

#[test]
fn an_active_offer_can_finish_after_registry_replacement() {
    let first = TestFile::create("active.bin", b"active-content");
    let second = TestFile::create("replacement.bin", b"replacement");
    let mut registry = LocalOfferRegistry::new();
    registry.publish(offer(&first, SECOND, 0, 1));
    let mut prefix = [0_u8; 6];
    let active = registry.current.as_mut().unwrap();
    assert_eq!(first.read_at(&mut active.source, 0, &mut prefix, 0), Ok(6));
    let mut active = registry.publish(offer(&second, SECOND, 0, 2)).unwrap();
    let mut suffix = [0_u8; 8];
    assert_eq!(first.read_at(&mut active.source, 6, &mut suffix, 2 * SECOND), Ok(8));
    assert_eq!(&prefix, b"active");
    assert_eq!(&suffix, b"-content");
}

#[test]
fn withdrawn_offers_leave_nothing() {
    let file = TestFile::create("gone.bin", b"gone");
    let mut registry = LocalOfferRegistry::new();
    assert!(registry.revoke_current().is_none());
    registry.publish(offer(&file, SECOND, 0, 1));
    let withdrawn = registry.revoke_current().unwrap();
    assert!(withdrawn.source.progress.revoked);
    assert!(registry.current.is_none());
}

#[test]
fn offers_know_their_time_and_origin() {
    let file = TestFile::create("offer.bin", b"offer");
    let offered = offer(&file, SECOND, 10, 9);
    assert_eq!(offered.size(), 5);
    assert_eq!(offered.age(9), 0);
    assert_eq!(offered.age(30), 20);
    assert_eq!(offered.remaining_ttl(30), SECOND - 20);
    assert_eq!(offered.remaining_ttl(2 * SECOND), 0);
    assert_eq!(offered.offer_id(), [9; 16]);
    assert_eq!(offered.file_id(), [109; 16]);
    assert_eq!(offered.file_name(), "offer.bin");
    assert_eq!(offered.source().read_calls(), 0);
    assert!(is_private_origin_payload(offered.origin_payload()));
    assert_eq!(&offered.origin_payload()[25..], &[9; 16]);
    assert_eq!(offered.descriptor().file_name, "offer.bin");
    assert!(matches!(
        LocalFileOffer::create(file.capture().unwrap(), 0, 0, [1; 16], [2; 16]),
        Err(E_INVALIDARG)
    ));
    assert!(matches!(
        LocalFileOffer::create(file.capture().unwrap(), 1, u64::MAX, [1; 16], [2; 16]),
        Err(E_INVALIDARG)
    ));
}

#[test]
fn the_last_access_time_is_no_change() {
    let file = TestFile::create("same.bin", b"same");
    let snapshot = file.capture().unwrap();
    let seen = file.information();
    let later = FileTime { low_date_time: 99, high_date_time: 99 };
    assert!(snapshot.matches(FileInformation { last_access_time: later, ..seen }));
    assert!(!snapshot.matches(FileInformation { last_write_time: later, ..seen }));
    assert!(!snapshot.matches(FileInformation { creation_time: later, ..seen }));
    assert!(!snapshot.matches(FileInformation { index_low: 8, ..seen }));
    assert!(!snapshot.matches(FileInformation { volume_serial: 6, ..seen }));
    assert!(!snapshot.matches(FileInformation { size_high: 1, ..seen }));
    assert!(!snapshot.matches(FileInformation { attributes: 0, ..seen }));
    assert_eq!(FileInformation { size_high: 2, ..seen }.size(), 0x2_0000_0004);
    assert_eq!(seen.identity().file_index, 0x1_0000_0007);
}

#[test]
fn stream_lists_are_walked_with_bounds() {
    let default = "::$DATA".to_owned();
    assert_eq!(DEFAULT_STREAM[..2], [b':', 0]);
    assert_eq!(has_named_data_stream(Ok(&stream_list(&[default.clone()]))), Ok(false));
    assert_eq!(
        has_named_data_stream(Ok(&stream_list(&[default.clone(), default.clone()]))),
        Ok(false)
    );
    assert_eq!(
        has_named_data_stream(Ok(&stream_list(&[default.clone(), ":x:$DATA".to_owned()]))),
        Ok(true)
    );
    assert_eq!(has_named_data_stream(Err(MORE_DATA)), Ok(true));
    assert_eq!(has_named_data_stream(Err(INSUFFICIENT_BUFFER)), Ok(true));
    assert_eq!(has_named_data_stream(Err(E_UNEXPECTED)), Err(E_UNEXPECTED));
    assert_eq!(has_named_data_stream(Ok(&[])), Err(E_INVALIDARG));
    let list = stream_list(&[default]);
    let changed = |at: usize, byte: u8| {
        let mut list = list.clone();
        list[at] = byte;
        list
    };
    assert_eq!(has_named_data_stream(Ok(&changed(4, 13))), Err(E_INVALIDARG));
    assert_eq!(has_named_data_stream(Ok(&changed(4, 200))), Err(E_INVALIDARG));
    assert_eq!(has_named_data_stream(Ok(&changed(0, 8))), Err(E_INVALIDARG));
    assert_eq!(has_named_data_stream(Ok(&changed(0, 200))), Err(E_INVALIDARG));
}

#[test]
fn paths_to_capture_are_checked() {
    let rejected = |reason| Err(CaptureError::Rejected { reason });
    assert_eq!(
        FileSnapshot::check_path(false, Some("a")),
        rejected(CaptureRejection::InvalidPath)
    );
    assert_eq!(
        FileSnapshot::check_path(true, None),
        rejected(CaptureRejection::NonUnicodeName)
    );
    assert_eq!(
        FileSnapshot::check_path(true, Some("a:b")),
        Err(CaptureError::Windows { code: DV_E_FORMATETC })
    );
    assert_eq!(FileSnapshot::check_path(true, Some("a.txt")), Ok(()));
    let file = TestFile::create("pipe", b"");
    assert!(matches!(
        FileSnapshot::capture(vec![], String::new(), file.information(), false, Ok(false)),
        Err(CaptureError::Rejected { reason: CaptureRejection::NonDiskFile })
    ));
    assert!(matches!(
        FileSnapshot::capture(vec![], String::new(), file.information(), true, Err(E_UNEXPECTED)),
        Err(CaptureError::Windows { code: E_UNEXPECTED })
    ));
}

#[test]
fn clipboards_are_classified_before_they_are_read() {
    let mut private = PRIVATE_ORIGIN_PREFIX.to_vec();
    private.extend_from_slice(&[1; 16]);
    assert!(matches!(
        classify_formats(Some(&private), true, true),
        Some(ClipboardCapture::PrivateOffer)
    ));
    assert!(matches!(
        classify_formats(Some(b"other"), false, true),
        Some(ClipboardCapture::NotFileClipboard)
    ));
    assert!(matches!(
        classify_formats(None, true, false),
        Some(ClipboardCapture::Rejected { reason: CaptureRejection::MissingCopyEffect })
    ));
    assert!(classify_formats(None, true, true).is_none());
    assert_eq!(check_items(2, 10), Err(CaptureRejection::MultipleItems));
    assert_eq!(check_items(0, 10), Err(CaptureRejection::MultipleItems));
    assert_eq!(check_items(1, 0), Err(CaptureRejection::InvalidPath));
    assert_eq!(check_items(1, MAX_CAPTURE_PATH_U16 + 1), Err(CaptureRejection::InvalidPath));
    assert_eq!(check_items(1, MAX_CAPTURE_PATH_U16), Ok(()));
    let buffer = [b'C' as u16, b':' as u16, b'\\' as u16, 0];
    assert!(matches!(
        candidate(&buffer, 3, 3, true, 8),
        ClipboardCapture::Candidate { path, sequence: 8 } if path == buffer[..3]
    ));
    for (copied, length, absolute) in [(2, 3, true), (2, 2, true), (3, 3, false)] {
        assert!(matches!(
            candidate(&buffer, length, copied, absolute, 8),
            ClipboardCapture::Rejected { reason: CaptureRejection::InvalidPath }
        ));
    }
    assert_eq!(CaptureRejection::Encrypted.label(), "efs-encrypted");
}
