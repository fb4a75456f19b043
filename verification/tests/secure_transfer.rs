use clipferry::address::{Endpoint, IpAddress};
use clipferry::app_settings::AppSettings;
use clipferry::clipboard::data_object::{VirtualFileDescriptor, FILE_ATTRIBUTE_DIRECTORY};
use clipferry::clipboard::hresult::{HResult, CANCELLED, READ_FAULT, TIMEOUT};
use clipferry::clipboard::product::announce::{encode_announcement, read_announcement};
use clipferry::clipboard::product::session::{OfferAnnouncement, ProductSession};
use clipferry::clipboard::secure_transfer::client::{
    begin_request, control_request, decode_begin_response, decode_read_response,
    fresh_begin_request, io_to_windows_error, read_request, SecureOfferClient,
};
use clipferry::clipboard::secure_transfer::dispatch::{
    answer_hello, encode_read_outcome, fresh_hello_answer, Reply,
};
use clipferry::clipboard::secure_transfer::manifest::{
    encode_manifest, OfferManifest, OfferManifestEntry, MANIFEST_HEADER_LEN,
};
use clipferry::clipboard::secure_transfer::model::{
    ConnectionEnd, ReadStep, SessionSecrets, DEFAULT_MAX_WORKERS, MAX_ACTIVE_TRANSFERS,
};
use clipferry::clipboard::secure_transfer::offer::SecureOfferedFile;
use clipferry::clipboard::secure_transfer::remote::{
    aggregate, BegunStep, ControlStep, LocalProgress, ReceivedStep, RemoteTransferRegistry,
    SecureRemoteSource, SourceStep, StartedTransfer, TransferGroupStatus,
};
use clipferry::clipboard::secure_transfer::server::ServerState;
use clipferry::clipboard::secure_transfer::wire::{
    decode_transfer_status, read_frame, read_frame_optional, require_ok, response_opcode,
    write_frame, Frame, Opcode, ProtocolId, RemoteTransferState, ResponseStatus,
    TransferCredentials, TransferStatus, FRAME_HEADER_LEN, HELLO_ROLE_RECEIVER, MAGIC,
    MAX_FRAME_PAYLOAD, MAX_SECURE_MANIFEST_BYTES, MAX_SECURE_RANGE_BYTES, PROTOCOL_VERSION,
};
use clipferry::clipboard::transfer::generated_byte;
use clipferry::device_store::{create_identity_bundle, DeviceStore};
use clipferry::failure::{Failure, FailureKind};
use clipferry::security::CertificateFingerprint;

const MILLISECOND: u64 = 1_000_000;
const SECOND: u64 = 1_000 * MILLISECOND;
const MINUTE: u64 = 60 * SECOND;

/// A device that offers files and one that receives them, with a clock of their own in the place
/// of the network.
struct World {
    server: ServerState,
    client: SecureOfferClient,
    peer: CertificateFingerprint,
    trusted: bool,
    contents: Vec<(ProtocolId, Vec<u8>)>,
    now: u64,
}

impl World {
    fn generated(size: u64) -> Self {
        Self::generated_with_timeouts(size, MINUTE, 2 * SECOND)
    }

    fn generated_with_timeouts(size: u64, transfer_ttl: u64, request_timeout: u64) -> Self {
        let offered =
            SecureOfferedFile::generated("Remote-Secure-Test.bin".to_owned(), size, MINUTE, 0)
                .unwrap();
        let bytes = (0..size).map(generated_byte).collect();
        Self::start(offered, vec![bytes], transfer_ttl, request_timeout)
    }

    fn start(
        offered: SecureOfferedFile,
        contents: Vec<Vec<u8>>,
        transfer_ttl: u64,
        request_timeout: u64,
    ) -> Self {
        let peer = CertificateFingerprint::from_certificate(b"receiver");
        Self::start_for(peer, offered, contents, transfer_ttl, request_timeout)
    }

    fn start_for(
        peer: CertificateFingerprint,
        offered: SecureOfferedFile,
        contents: Vec<Vec<u8>>,
        transfer_ttl: u64,
        request_timeout: u64,
    ) -> Self {
        let files: Vec<ProtocolId> = offered
            .manifest(0)
            .entries
            .iter()
            .filter(|entry| !entry.descriptor.is_directory())
            .map(|entry| entry.file_id)
            .collect();
        assert_eq!(files.len(), contents.len());
        Self {
            server: ServerState::new(offered, peer, transfer_ttl, request_timeout).unwrap(),
            client: SecureOfferClient::new(),
            peer,
            trusted: true,
            contents: files.into_iter().zip(contents).collect(),
            now: 0,
        }
    }

    fn files(files: &[(&str, &[u8])]) -> Self {
        let items = files
            .iter()
            .map(|(name, bytes)| {
                let size = bytes.len() as u64;
                (VirtualFileDescriptor::basic((*name).to_owned(), size), Some(size))
            })
            .collect();
        let offered = SecureOfferedFile::new_tree(items, MINUTE, 0).unwrap();
        let contents = files.iter().map(|(_, bytes)| bytes.to_vec()).collect();
        Self::start(offered, contents, MINUTE, 2 * SECOND)
    }

    /// A frame as the other side reads it.
    fn carried(frame: &Frame) -> Frame {
        let mut stream = Vec::new();
        write_frame(&mut stream, frame).unwrap();
        let (read, used) = read_frame(&stream).unwrap();
        assert_eq!(used, stream.len());
        read
    }

    /// Sends a request; the bytes of its response.
    fn command(&mut self, opcode: Opcode, payload: Vec<u8>) -> Result<Vec<u8>, Failure> {
        let request = Self::carried(&self.client.request(opcode, payload));
        let admitted = self.server.admit_request(self.peer, self.trusted, &request)?;
        let reply = self.server.dispatch_request(
            self.peer,
            self.trusted,
            self.now,
            admitted,
            &request.payload,
            SessionSecrets::random(),
        );
        let payload = match reply {
            Reply::Bytes(payload) => payload,
            Reply::Read { transfer_id, offset, requested } => {
                self.serve(transfer_id, offset, requested)
            }
        };
        let response = Self::carried(&Frame {
            opcode: response_opcode(opcode),
            request_id: request.request_id,
            payload,
        });
        SecureOfferClient::check_response(response, opcode, request.request_id)
    }

    fn serve(&mut self, transfer_id: ProtocolId, offset: u64, requested: usize) -> Vec<u8> {
        let mut timed_out = false;
        loop {
            let step = self.server.poll_read(
                self.peer,
                self.trusted,
                self.now,
                transfer_id,
                offset,
                requested,
                timed_out,
            );
            match step {
                ReadStep::Wait { nanos } => {
                    self.now += nanos;
                    timed_out = true;
                }
                ReadStep::Answer { outcome } => return encode_read_outcome(outcome, &[]),
                ReadStep::Read { count } => {
                    let bytes = self.bytes_at(offset, count);
                    let outcome = self.server.finish_read(
                        self.peer,
                        self.trusted,
                        self.now,
                        transfer_id,
                        offset,
                        Some(bytes.len() as u64),
                    );
                    return encode_read_outcome(outcome, &bytes);
                }
            }
        }
    }

    /// Bytes of the file that is read.
    fn bytes_at(&self, offset: u64, count: usize) -> Vec<u8> {
        let start = usize::try_from(offset).unwrap();
        self.contents[0].1[start..start + count].to_vec()
    }

    /// Puts the file that is read next first.
    fn select(&mut self, file_id: ProtocolId) {
        let place = self.contents.iter().position(|(id, _)| *id == file_id).unwrap();
        self.contents.swap(0, place);
    }

    fn manifest(&mut self) -> Result<OfferManifest, Failure> {
        let response = self.command(Opcode::GetOffer, vec![])?;
        SecureOfferClient::decode_manifest_response(&response)
    }

    fn begin(
        &mut self,
        manifest: &OfferManifest,
        entry: &OfferManifestEntry,
        nonce: [u8; 32],
    ) -> Result<TransferCredentials, Failure> {
        let payload = begin_request(manifest.offer_id, entry.file_id, nonce);
        let response = self.command(Opcode::BeginTransfer, payload)?;
        decode_begin_response(&response, manifest.offer_id, entry.file_id)
    }

    fn control(
        &mut self,
        credentials: TransferCredentials,
        sequence: u64,
        opcode: Opcode,
    ) -> Result<TransferStatus, Failure> {
        let response = self.command(opcode, control_request(credentials, sequence))?;
        decode_transfer_status(&response)
    }

    fn status(&mut self, credentials: TransferCredentials) -> Result<TransferStatus, Failure> {
        let response = self.command(Opcode::Status, credentials.encode())?;
        decode_transfer_status(&response)
    }

    fn read_range(
        &mut self,
        credentials: TransferCredentials,
        offset: u64,
        requested: usize,
    ) -> Result<(TransferStatus, Vec<u8>), Failure> {
        let payload = read_request(credentials, offset, requested)?;
        let response = self.command(Opcode::ReadRange, payload)?;
        decode_read_response(&response, requested)
    }
}

/// A file of an offer as the clipboard reads it.
struct Reader {
    source: SecureRemoteSource,
    offer: OfferManifest,
    entry: OfferManifestEntry,
    nonce: u8,
}

impl Reader {
    fn new(manifest: &OfferManifest, entry: usize, nonce: u8) -> Self {
        let entry = manifest.entries[entry].clone();
        Self {
            source: SecureRemoteSource::new_for_entry(&entry),
            offer: manifest.clone(),
            entry,
            nonce,
        }
    }

    fn credentials(&mut self, world: &mut World) -> TransferCredentials {
        if self.source.transfer.is_none() {
            let begun = world.begin(&self.offer, &self.entry, [self.nonce; 32]).unwrap();
            assert_eq!(self.source.begun(begun, false, false), BegunStep::Ready);
        }
        self.source.transfer.unwrap()
    }

    fn read_at(
        &mut self,
        world: &mut World,
        offset: u64,
        buffer: &mut [u8],
    ) -> Result<usize, HResult> {
        let failed = |failure: Failure| io_to_windows_error(failure.kind);
        world.select(self.entry.file_id);
        let requested = match self.source.start_read(buffer.len(), false, false) {
            SourceStep::Begin { requested } => {
                let begun = world
                    .begin(&self.offer, &self.entry, [self.nonce; 32])
                    .map_err(failed)?;
                self.source.begun(begun, false, false);
                requested
            }
            SourceStep::Read { requested } => requested,
            SourceStep::Done { count } => return Ok(count),
            SourceStep::Fail { code } => return Err(code),
            SourceStep::Wait => return Err(0),
        };
        let credentials = self.source.transfer.unwrap();
        loop {
            let (status, data) =
                world.read_range(credentials, offset, requested).map_err(failed)?;
            match self.source.received(offset, status.state, data.len()) {
                ReceivedStep::Retry => {}
                ReceivedStep::SendComplete { sequence } => {
                    world
                        .control(credentials, sequence, Opcode::Complete)
                        .map_err(failed)?;
                    self.source.completed();
                    return Ok(0);
                }
                ReceivedStep::Deliver => {
                    buffer[..data.len()].copy_from_slice(&data);
                    return Ok(data.len());
                }
                ReceivedStep::Fail { code } => return Err(code),
            }
        }
    }

    fn control(&mut self, world: &mut World, opcode: Opcode) -> Result<TransferStatus, Failure> {
        let credentials = self.credentials(world);
        let sequence = self.source.next_sequence();
        world.control(credentials, sequence, opcode)
    }

    fn status(&mut self, world: &mut World) -> Result<TransferStatus, Failure> {
        let credentials = self.credentials(world);
        world.status(credentials)
    }
}

fn remote_source(size: u64) -> SecureRemoteSource {
    SecureRemoteSource::new_for_entry(&OfferManifestEntry {
        file_id: ProtocolId([7; 16]),
        descriptor: VirtualFileDescriptor::basic("remote.bin".to_owned(), size),
    })
}

/// State and progress of readers that have started.
fn group(readers: &mut [&mut Reader], world: &mut World) -> TransferGroupStatus {
    let started: Vec<StartedTransfer> = readers
        .iter_mut()
        .map(|reader| StartedTransfer {
            status: reader.status(world).unwrap(),
            read_calls: reader.source.read_calls,
            bytes_read: reader.source.bytes_read,
        })
        .collect();
    aggregate(&started)
}

#[test]
fn offer_metadata_is_authenticated_and_content_is_deferred_until_read() {
    let mut world = World::generated(1024 * 1024);
    let manifest = world.manifest().unwrap();
    assert_eq!(manifest.entries[0].descriptor.file_name, "Remote-Secure-Test.bin");
    assert_eq!(manifest.entries[0].descriptor.size, 1024 * 1024);
    assert_eq!(world.server.metrics().begun_transfers, 0);
    assert_eq!(world.server.metrics().read_requests, 0);

    let mut reader = Reader::new(&manifest, 0, 1);
    assert_eq!(reader.source.read_calls, 0);
    let mut bytes = [0_u8; 257];
    let read = reader.read_at(&mut world, 7_777, &mut bytes).unwrap();
    assert_eq!(read, bytes.len());
    for (index, byte) in bytes.iter().enumerate() {
        assert_eq!(*byte, generated_byte(7_777 + index as u64));
    }
    assert_eq!(world.server.metrics().begun_transfers, 1);
    assert_eq!(world.server.metrics().read_requests, 1);
    assert_eq!(world.server.metrics().unique_bytes, bytes.len() as u64);
}

#[test]
fn secure_tree_manifest_defers_content_and_supports_independent_out_of_order_streams() {
    let directory = |name: &str| VirtualFileDescriptor {
        attributes: FILE_ATTRIBUTE_DIRECTORY,
        ..VirtualFileDescriptor::basic(name.to_owned(), 0)
    };
    let offered = SecureOfferedFile::new_tree(
        vec![
            (directory("资料-🚢"), None),
            (VirtualFileDescriptor::basic("资料-🚢\\alpha.txt".to_owned(), 5), Some(5)),
            (directory("资料-🚢\\空目录"), None),
            (VirtualFileDescriptor::basic("emoji-🚢.bin".to_owned(), 5), Some(5)),
        ],
        MINUTE,
        0,
    )
    .unwrap();
    let contents = vec![b"alpha".to_vec(), b"ferry".to_vec()];
    let mut world = World::start(offered, contents, MINUTE, 2 * SECOND);

    let manifest = world.manifest().unwrap();
    assert_eq!(manifest.entries.len(), 4);
    assert_eq!(world.server.metrics().begun_transfers, 0);
    assert_eq!(world.server.metrics().read_requests, 0);
    let error = world.begin(&manifest, &manifest.entries[0], [9; 32]).unwrap_err();
    assert_eq!(error.kind, FailureKind::PermissionDenied);

    let mut alpha = Reader::new(&manifest, 1, 1);
    let mut ferry = Reader::new(&manifest, 3, 2);
    let mut bytes = [0_u8; 5];
    assert_eq!(ferry.read_at(&mut world, 0, &mut bytes).unwrap(), 5);
    assert_eq!(&bytes, b"ferry");
    assert_eq!(alpha.read_at(&mut world, 0, &mut bytes).unwrap(), 5);
    assert_eq!(&bytes, b"alpha");

    let status = group(&mut [&mut alpha, &mut ferry], &mut world);
    assert_eq!(status.started_transfers, 2);
    assert_eq!(status.unique_bytes, 10);
    assert_eq!(status.read_calls, 2);
    assert_eq!(status.bytes_read, 10);
    assert_eq!(world.server.metrics().begun_transfers, 2);
    assert_eq!(world.server.metrics().read_requests, 2);
    assert_eq!(world.server.metrics().unique_bytes, 10);
}

#[test]
fn completed_file_sessions_remain_observable_after_later_files_begin() {
    let mut world = World::files(&[("first.txt", b"first"), ("second.txt", b"second")]);
    let manifest = world.manifest().unwrap();
    let mut first = Reader::new(&manifest, 0, 1);
    let mut second = Reader::new(&manifest, 1, 2);

    let mut first_bytes = [0_u8; 5];
    assert_eq!(first.read_at(&mut world, 0, &mut first_bytes).unwrap(), 5);
    let mut eof = [0_u8; 1];
    assert_eq!(first.read_at(&mut world, 5, &mut eof).unwrap(), 0);
    assert_eq!(first.status(&mut world).unwrap().state, RemoteTransferState::Completed);

    let mut second_bytes = [0_u8; 6];
    assert_eq!(second.read_at(&mut world, 0, &mut second_bytes).unwrap(), 6);
    assert_eq!(second.read_at(&mut world, 6, &mut eof).unwrap(), 0);

    let mut reread = [0_u8; 1];
    assert_eq!(first.read_at(&mut world, 0, &mut reread).unwrap(), 1);
    assert_eq!(reread, [b'f']);
    let status = group(&mut [&mut first, &mut second], &mut world);
    assert_eq!(status.state, RemoteTransferState::Completed);
    assert_eq!(status.started_transfers, 2);
    assert_eq!(status.unique_bytes, 11);
    assert_eq!(world.server.metrics().unique_bytes, 11);
    assert_eq!(world.server.metrics().denied_requests, 0);
}

#[test]
fn group_pause_resume_and_cancel_apply_to_every_started_file_stream() {
    let mut world = World::files(&[("first.txt", b"first"), ("second.txt", b"second")]);
    let manifest = world.manifest().unwrap();
    let mut first = Reader::new(&manifest, 0, 1);
    let mut second = Reader::new(&manifest, 1, 2);
    let mut byte = [0_u8; 1];
    first.read_at(&mut world, 0, &mut byte).unwrap();
    second.read_at(&mut world, 0, &mut byte).unwrap();
    let mut registry = RemoteTransferRegistry::new();
    registry.remember_source(first.source);
    registry.remember_source(second.source);

    assert_eq!(registry.pause_all().unwrap(), vec![0, 1]);
    first.control(&mut world, Opcode::Pause).unwrap();
    second.control(&mut world, Opcode::Pause).unwrap();
    let paused = group(&mut [&mut first, &mut second], &mut world);
    assert_eq!(paused.state, RemoteTransferState::Paused);
    assert_eq!(paused.started_transfers, 2);
    assert_eq!(registry.resume_all().unwrap(), vec![0, 1]);
    first.control(&mut world, Opcode::Resume).unwrap();
    second.control(&mut world, Opcode::Resume).unwrap();
    let running = group(&mut [&mut first, &mut second], &mut world);
    assert_eq!(running.state, RemoteTransferState::Running);
    assert_eq!(registry.cancel_all().unwrap(), vec![0, 1]);
    first.control(&mut world, Opcode::Cancel).unwrap();
    second.control(&mut world, Opcode::Cancel).unwrap();
    let cancelled = group(&mut [&mut first, &mut second], &mut world);
    assert_eq!(cancelled.state, RemoteTransferState::Cancelled);
    assert_eq!(world.server.metrics().cancelled_transfers, 2);
    assert_eq!(first.read_at(&mut world, 1, &mut byte), Err(CANCELLED));
}

#[test]
fn repeated_streams_receive_distinct_transfer_ids() {
    let mut world = World::generated(4096);
    let manifest = world.manifest().unwrap();
    let first = Reader::new(&manifest, 0, 1).credentials(&mut world);
    let second = Reader::new(&manifest, 0, 2).credentials(&mut world);
    assert_ne!(first.transfer_id, second.transfer_id);
    assert_ne!(first.capability, second.capability);
}

#[test]
fn replayed_control_sequence_and_modified_capability_are_denied() {
    let mut world = World::generated(4096);
    let manifest = world.manifest().unwrap();
    let credentials = Reader::new(&manifest, 0, 1).credentials(&mut world);
    assert_eq!(
        world.control(credentials, 1, Opcode::Pause).unwrap().state,
        RemoteTransferState::Paused
    );
    let replay = world.control(credentials, 1, Opcode::Resume).unwrap_err();
    assert_eq!(replay.kind, FailureKind::PermissionDenied);

    let mut forged = credentials;
    forged.capability[0] ^= 0x80;
    let denied = world.status(forged).unwrap_err();
    assert_eq!(denied.kind, FailureKind::PermissionDenied);
    let metrics = world.server.metrics();
    assert_eq!(metrics.replayed_requests, 1);
    assert_eq!(metrics.denied_requests, 1);
}

#[test]
fn repeated_begin_nonce_is_rejected_as_a_replay() {
    let mut world = World::generated(4096);
    let manifest = world.manifest().unwrap();
    let mut payload = Vec::with_capacity(64);
    payload.extend_from_slice(&manifest.offer_id.0);
    payload.extend_from_slice(&manifest.entries[0].file_id.0);
    payload.extend_from_slice(&[0xA5; 32]);

    let first = world.command(Opcode::BeginTransfer, payload.clone()).unwrap();
    require_ok(&first).unwrap();
    let replay = world.command(Opcode::BeginTransfer, payload).unwrap();
    assert_eq!(replay.first().copied(), Some(ResponseStatus::Replay.encode()));
    assert_eq!(world.server.metrics().begun_transfers, 1);
    assert_eq!(world.server.metrics().replayed_requests, 1);
}

#[test]
fn pause_resume_cancel_and_unique_progress_are_server_authoritative() {
    let mut world = World::generated(4096);
    let manifest = world.manifest().unwrap();
    let mut reader = Reader::new(&manifest, 0, 1);
    let mut bytes = [0_u8; 256];
    reader.read_at(&mut world, 0, &mut bytes).unwrap();
    reader.read_at(&mut world, 128, &mut bytes).unwrap();
    assert_eq!(reader.status(&mut world).unwrap().unique_bytes, 384);
    let paused = reader.control(&mut world, Opcode::Pause).unwrap();
    assert_eq!(paused.state, RemoteTransferState::Paused);
    let running = reader.control(&mut world, Opcode::Resume).unwrap();
    assert_eq!(running.state, RemoteTransferState::Running);
    let cancelled = reader.control(&mut world, Opcode::Cancel).unwrap();
    assert_eq!(cancelled.state, RemoteTransferState::Cancelled);
    assert_eq!(reader.read_at(&mut world, 0, &mut bytes), Err(CANCELLED));
    assert_eq!(world.server.metrics().cancelled_transfers, 1);
    assert_eq!(world.server.metrics().active_reads, 0);
}

#[test]
fn a_long_pause_is_polled_without_returning_false_eof() {
    let mut world = World::generated_with_timeouts(4096, 5 * SECOND, 25 * MILLISECOND);
    let manifest = world.manifest().unwrap();
    let mut reader = Reader::new(&manifest, 0, 1);
    let mut first = [0_u8; 1];
    reader.read_at(&mut world, 0, &mut first).unwrap();
    let paused = reader.control(&mut world, Opcode::Pause).unwrap();
    assert_eq!(paused.state, RemoteTransferState::Paused);

    let credentials = reader.credentials(&mut world);
    while world.now < 120 * MILLISECOND {
        let (status, data) = world.read_range(credentials, 1, 32).unwrap();
        assert!(data.is_empty());
        assert_eq!(reader.source.received(1, status.state, 0), ReceivedStep::Retry);
    }
    assert!(world.server.metrics().read_requests >= 3);

    let running = reader.control(&mut world, Opcode::Resume).unwrap();
    assert_eq!(running.state, RemoteTransferState::Running);
    let mut bytes = [0_u8; 32];
    let read = reader.read_at(&mut world, 1, &mut bytes).unwrap();
    assert_eq!(read, bytes.len());
    assert_eq!(bytes[0], generated_byte(1));
}

#[test]
fn a_paused_read_cannot_outlive_the_transfer_ttl() {
    let mut world = World::generated_with_timeouts(4096, 100 * MILLISECOND, 25 * MILLISECOND);
    let manifest = world.manifest().unwrap();
    let mut reader = Reader::new(&manifest, 0, 1);
    let mut first = [0_u8; 1];
    reader.read_at(&mut world, 0, &mut first).unwrap();
    reader.control(&mut world, Opcode::Pause).unwrap();

    let mut bytes = [0_u8; 32];
    assert_eq!(reader.read_at(&mut world, 1, &mut bytes), Err(TIMEOUT));
    assert_eq!(world.server.metrics().served_bytes, 1);
    assert_eq!(world.server.metrics().active_reads, 0);
}

#[test]
fn completed_transfer_allows_repeated_eof_and_seeked_rereads() {
    let mut world = World::generated(32);
    let manifest = world.manifest().unwrap();
    let mut reader = Reader::new(&manifest, 0, 1);

    let mut contents = [0_u8; 32];
    assert_eq!(reader.read_at(&mut world, 0, &mut contents).unwrap(), contents.len());
    assert_eq!(contents[0], generated_byte(0));
    assert_eq!(contents[31], generated_byte(31));

    let mut byte = [0_u8; 1];
    assert_eq!(reader.read_at(&mut world, 32, &mut byte).unwrap(), 0);
    assert_eq!(reader.read_at(&mut world, 32, &mut byte).unwrap(), 0);
    assert_eq!(reader.status(&mut world).unwrap().state, RemoteTransferState::Completed);

    let mut reread = [0_u8; 4];
    assert_eq!(reader.read_at(&mut world, 7, &mut reread).unwrap(), reread.len());
    assert_eq!(reread, std::array::from_fn(|index| generated_byte(7 + index as u64)));
    assert_eq!(reader.status(&mut world).unwrap().unique_bytes, 32);
    assert_eq!(world.server.metrics().begun_transfers, 1);
    assert_eq!(world.server.metrics().denied_requests, 0);

    let mut registry = RemoteTransferRegistry::new();
    registry.remember_source(reader.source);
    assert_eq!(registry.live_sources(), 1);
    let latest = registry.source(registry.latest_started().unwrap()).unwrap();
    assert_eq!(
        world.status(latest.transfer.unwrap()).unwrap().state,
        RemoteTransferState::Completed
    );
}

#[test]
fn trusted_but_offer_unauthorized_device_is_denied_after_mutual_tls() {
    let mut world = World::generated(4096);
    let authorized = world.peer;
    let other = CertificateFingerprint::from_certificate(b"other");
    assert!(world.server.admit_connection(0));
    assert!(world.server.open_connection(authorized, true).is_ok());
    assert_eq!(world.manifest().unwrap().entries[0].descriptor.size, 4096);

    assert!(world.server.admit_connection(1));
    assert_eq!(
        world.server.open_connection(other, true).unwrap_err().kind,
        FailureKind::PermissionDenied
    );
    world.peer = other;
    assert!(world.manifest().is_err());

    let metrics = world.server.metrics();
    assert!(metrics.denied_requests >= 1);
    assert_eq!(metrics.accepted_connections, 2);
    assert_eq!(metrics.tls_failures, 0);
    assert_eq!(metrics.protocol_errors, 0);
    assert_eq!(metrics.begun_transfers, 0);
}

#[test]
fn revocation_interrupts_a_paused_read_on_existing_tls_connections() {
    let mut world = World::generated_with_timeouts(4096, MINUTE, 100 * MILLISECOND);
    let manifest = world.manifest().unwrap();
    let mut reader = Reader::new(&manifest, 0, 1);
    let mut first = [0_u8; 256];
    assert_eq!(reader.read_at(&mut world, 0, &mut first).unwrap(), first.len());
    let paused = reader.control(&mut world, Opcode::Pause).unwrap();
    assert_eq!(paused.state, RemoteTransferState::Paused);

    let credentials = reader.credentials(&mut world);
    world.server.start_read(world.peer, true, world.now, &credentials, 256).unwrap();
    assert_eq!(world.server.metrics().active_reads, 1);
    let waiting = world.server.poll_read(
        world.peer,
        true,
        world.now,
        credentials.transfer_id,
        256,
        256,
        false,
    );
    assert_eq!(waiting, ReadStep::Wait { nanos: 100 * MILLISECOND });
    world.trusted = false;
    let refused = world.server.poll_read(
        world.peer,
        false,
        world.now,
        credentials.transfer_id,
        256,
        256,
        false,
    );
    assert!(matches!(refused, ReadStep::Answer { outcome: Err(_) }));
    assert!(reader.status(&mut world).is_err());

    let metrics = world.server.metrics();
    assert_eq!(metrics.active_reads, 0);
    assert_eq!(metrics.cancelled_transfers, 1);
    assert!(metrics.denied_requests >= 1);
    assert_eq!(metrics.tls_failures, 0);
    assert_eq!(metrics.protocol_errors, 0);
}

#[test]
fn authenticated_offer_inbox_accepts_only_the_selected_peer() {
    let store = DeviceStore::new("unused".to_owned());
    let first = store.load_identity(&create_identity_bundle().unwrap()).unwrap();
    let second = store.load_identity(&create_identity_bundle().unwrap()).unwrap();
    let local = |port| Endpoint::new(IpAddress::V4(0x7f00_0001), port);
    let receiver_settings = AppSettings {
        local_endpoint: local(45235),
        active_peer: first.fingerprint(),
        peer_endpoint: local(45234),
        auto_receive: true,
    };
    let mut inbox = ProductSession::new(receiver_settings, "first".to_owned(), 0);
    let offered =
        SecureOfferedFile::generated("product-smoke.bin".to_owned(), 4096, MINUTE, 0).unwrap();
    let bytes = (0..4096).map(generated_byte).collect();
    let mut world =
        World::start_for(second.fingerprint(), offered, vec![bytes], MINUTE, 10 * SECOND);
    let transfer_endpoint = local(50_123);
    let frame = encode_announcement(transfer_endpoint).unwrap();
    let endpoint = read_announcement(&frame).unwrap();
    assert!(!inbox.note_offer(OfferAnnouncement { endpoint, peer: second.fingerprint() }));
    assert!(inbox.pending.is_none());
    assert!(inbox.note_offer(OfferAnnouncement { endpoint, peer: first.fingerprint() }));
    let announcement = inbox.pending.unwrap();
    assert_eq!(announcement.endpoint, transfer_endpoint);
    assert_eq!(announcement.peer, first.fingerprint());
    let manifest = world.manifest().unwrap();
    assert_eq!(manifest.entries.len(), 1);
    assert_eq!(manifest.entries[0].descriptor.file_name, "product-smoke.bin");
    assert_eq!(manifest.entries[0].descriptor.size, 4096);
    let mut reader = Reader::new(&manifest, 0, 1);
    let mut bytes = [0_u8; 32];
    assert_eq!(reader.read_at(&mut world, 1024, &mut bytes).unwrap(), bytes.len());
    assert!(bytes.iter().any(|byte| *byte != 0));
}

#[test]
fn authenticated_partial_frame_disconnect_does_not_poison_the_server() {
    let mut world = World::generated(4096);
    let mut payload = vec![HELLO_ROLE_RECEIVER];
    payload.extend_from_slice(&[0x5A; 32]);
    let hello = World::carried(&Frame { opcode: Opcode::Hello.code(), request_id: 77, payload });
    let hello_ack = World::carried(&answer_hello(&hello, [0xA5; 32]).unwrap());
    assert_eq!(hello_ack.opcode, response_opcode(Opcode::Hello));

    let mut incomplete_header = [0_u8; FRAME_HEADER_LEN];
    incomplete_header[..4].copy_from_slice(&MAGIC);
    incomplete_header[4..6].copy_from_slice(&PROTOCOL_VERSION.to_be_bytes());
    incomplete_header[6..8].copy_from_slice(&Opcode::GetOffer.code().to_be_bytes());
    assert_eq!(
        read_frame_optional(&incomplete_header[..10]).unwrap_err().kind,
        FailureKind::UnexpectedEof
    );
    world.server.end_connection(ConnectionEnd::ProtocolError);

    assert!(world.server.metrics().protocol_errors >= 1);
    assert_eq!(world.manifest().unwrap().entries[0].descriptor.size, 4096);
}

#[test]
fn receiver_manifest_decoder_rejects_malicious_metadata_before_exposing_it_to_shell() {
    let world = World::generated(4096);
    let valid = encode_manifest(&world.server.manifest(0)).unwrap();
    let decoded = SecureOfferClient::decode_manifest_response(&valid).unwrap();
    assert_eq!(decoded.entries.len(), 1);

    let mut corpus = Vec::new();
    let mut zero_ttl = valid.clone();
    zero_ttl[17..25].fill(0);
    corpus.push(zero_ttl);

    let mut zero_items = valid.clone();
    zero_items[25..29].fill(0);
    corpus.push(zero_items);

    let time_flags_offset = MANIFEST_HEADER_LEN + 16 + 8 + 4;
    let mut invalid_time_flags = valid.clone();
    invalid_time_flags[time_flags_offset] = 0x80;
    corpus.push(invalid_time_flags);

    let name_length_offset = time_flags_offset + 1 + 24;
    let name_offset = name_length_offset + 2;
    let mut trailing_dot_path = valid.clone();
    *trailing_dot_path.last_mut().unwrap() = b'.';
    corpus.push(trailing_dot_path);

    let mut truncated_name = valid.clone();
    let name_length = u16::from_be_bytes(
        truncated_name[name_length_offset..name_offset].try_into().unwrap(),
    );
    truncated_name[name_length_offset..name_offset]
        .copy_from_slice(&name_length.saturating_add(1).to_be_bytes());
    corpus.push(truncated_name);

    let mut trailing_bytes = valid.clone();
    trailing_bytes.push(0);
    corpus.push(trailing_bytes);

    let mut oversized = valid;
    oversized.resize(MAX_SECURE_MANIFEST_BYTES + 1, 0);
    corpus.push(oversized);

    for malformed in corpus {
        assert!(SecureOfferClient::decode_manifest_response(&malformed).is_err());
    }
}

#[test]
fn malformed_frame_corpus_is_bounded_and_rejected() {
    let mut corpus = Vec::new();

    for length in 1..FRAME_HEADER_LEN {
        corpus.push(vec![0_u8; length]);
    }

    let mut invalid_magic = [0_u8; FRAME_HEADER_LEN];
    invalid_magic[..4].copy_from_slice(b"NOPE");
    invalid_magic[4..6].copy_from_slice(&PROTOCOL_VERSION.to_be_bytes());
    corpus.push(invalid_magic.to_vec());

    let mut invalid_version = [0_u8; FRAME_HEADER_LEN];
    invalid_version[..4].copy_from_slice(&MAGIC);
    invalid_version[4..6].copy_from_slice(&PROTOCOL_VERSION.wrapping_add(1).to_be_bytes());
    corpus.push(invalid_version.to_vec());

    let mut oversized = [0_u8; FRAME_HEADER_LEN];
    oversized[..4].copy_from_slice(&MAGIC);
    oversized[4..6].copy_from_slice(&PROTOCOL_VERSION.to_be_bytes());
    oversized[16..20]
        .copy_from_slice(&(u32::try_from(MAX_FRAME_PAYLOAD).unwrap() + 1).to_be_bytes());
    corpus.push(oversized.to_vec());

    let mut missing_payload = [0_u8; FRAME_HEADER_LEN];
    missing_payload[..4].copy_from_slice(&MAGIC);
    missing_payload[4..6].copy_from_slice(&PROTOCOL_VERSION.to_be_bytes());
    missing_payload[16..20].copy_from_slice(&16_u32.to_be_bytes());
    corpus.push(missing_payload.to_vec());

    for bytes in corpus {
        let error = read_frame(&bytes).unwrap_err();
        assert!(matches!(error.kind, FailureKind::InvalidData | FailureKind::UnexpectedEof));
    }
}

#[test]
fn secure_frame_parser_survives_a_deterministic_mutation_sweep() {
    let mut state = 0xD1B5_4A32_D192_ED03_u64;
    let mut accepted = 0_usize;
    let mut rejected = 0_usize;

    for case in 0..2048_u64 {
        state = state.wrapping_mul(6_364_136_223_846_793_005).wrapping_add(1);
        let actual_length = usize::try_from(state & 0x0FFF).unwrap();
        let mut bytes = vec![0_u8; FRAME_HEADER_LEN + actual_length];
        bytes[..4].copy_from_slice(&MAGIC);
        bytes[4..6].copy_from_slice(&PROTOCOL_VERSION.to_be_bytes());
        let opcode = u16::try_from(state & u64::from(u16::MAX)).unwrap();
        bytes[6..8].copy_from_slice(&opcode.to_be_bytes());
        bytes[8..16].copy_from_slice(&state.to_be_bytes());
        for (index, byte) in bytes[FRAME_HEADER_LEN..].iter_mut().enumerate() {
            *byte = u8::try_from(
                state.rotate_left(u32::try_from(index % 64).unwrap()) & u64::from(u8::MAX),
            )
            .unwrap();
        }

        let declared_length = match case % 5 {
            0 => u32::try_from(actual_length).unwrap(),
            1 => u32::try_from(actual_length + 1).unwrap(),
            2 => {
                bytes[usize::try_from(case).unwrap() % 4] ^= 0x80;
                u32::try_from(actual_length).unwrap()
            }
            3 => {
                bytes[4] ^= 0x40;
                u32::try_from(actual_length).unwrap()
            }
            _ => u32::try_from(MAX_FRAME_PAYLOAD).unwrap() + 1,
        };
        bytes[16..20].copy_from_slice(&declared_length.to_be_bytes());

        match read_frame(&bytes) {
            Ok((frame, used)) => {
                accepted += 1;
                assert_eq!(used, FRAME_HEADER_LEN + actual_length);
                assert_eq!(frame.payload.len(), actual_length);
            }
            Err(error) => {
                rejected += 1;
                assert!(matches!(
                    error.kind,
                    FailureKind::InvalidData | FailureKind::UnexpectedEof
                ));
            }
        }
    }

    assert!(accepted > 0);
    assert!(rejected > 0);
}

#[test]
fn ranges_and_sessions_are_bounded() {
    let mut world = World::generated(4096);
    let manifest = world.manifest().unwrap();
    let credentials = Reader::new(&manifest, 0, 1).credentials(&mut world);
    assert_eq!(
        world.read_range(credentials, 0, MAX_SECURE_RANGE_BYTES + 1).unwrap_err().kind,
        FailureKind::InvalidData
    );
    let mut payload = credentials.encode();
    payload.extend_from_slice(&0_u64.to_be_bytes());
    payload.extend_from_slice(&(MAX_SECURE_RANGE_BYTES as u32 + 1).to_be_bytes());
    let response = world.command(Opcode::ReadRange, payload).unwrap();
    assert_eq!(response, [ResponseStatus::Invalid.encode()]);
    for nonce in 2..=MAX_ACTIVE_TRANSFERS {
        let nonce = [u8::try_from(nonce).unwrap(); 32];
        world.begin(&manifest, &manifest.entries[0], nonce).unwrap();
    }
    let busy = world.begin(&manifest, &manifest.entries[0], [200; 32]).unwrap_err();
    assert_eq!(busy.kind, FailureKind::WouldBlock);
    world.control(credentials, 1, Opcode::Cancel).unwrap();
    assert!(world.begin(&manifest, &manifest.entries[0], [201; 32]).is_ok());
    assert!(!world.server.admit_connection(DEFAULT_MAX_WORKERS));
}

#[test]
fn expired_offers_and_transfers_are_refused() {
    let mut world = World::generated_with_timeouts(4096, SECOND, SECOND);
    let manifest = world.manifest().unwrap();
    let credentials = Reader::new(&manifest, 0, 1).credentials(&mut world);
    world.now = SECOND;
    assert_eq!(world.status(credentials).unwrap_err().kind, FailureKind::TimedOut);
    world.now = MINUTE;
    assert_eq!(world.manifest().unwrap_err().kind, FailureKind::TimedOut);
    assert_eq!(
        world.begin(&manifest, &manifest.entries[0], [7; 32]).unwrap_err().kind,
        FailureKind::TimedOut
    );
}

#[test]
fn a_short_answer_inside_the_file_is_a_fault() {
    let mut source = remote_source(10);
    assert_eq!(
        source.received(3, RemoteTransferState::Running, 0),
        ReceivedStep::Fail { code: READ_FAULT }
    );
    assert_eq!(source.start_read(5, true, true), SourceStep::Fail { code: CANCELLED });
    assert_eq!(source.start_read(5, false, true), SourceStep::Wait);
    assert_eq!(source.read_calls, 0);
    assert_eq!(source.start_read(0, true, true), SourceStep::Done { count: 0 });
    assert_eq!(
        source.received(10, RemoteTransferState::Running, 0),
        ReceivedStep::SendComplete { sequence: 1 }
    );
    source.completion_failed();
    assert_eq!(
        source.received(10, RemoteTransferState::Running, 0),
        ReceivedStep::SendComplete { sequence: 2 }
    );
}

#[test]
fn a_transfer_that_begins_in_a_stopped_group_is_stopped() {
    let mut world = World::generated(16);
    let manifest = world.manifest().unwrap();
    let credentials = world.begin(&manifest, &manifest.entries[0], [1; 32]).unwrap();
    let mut paused = remote_source(16);
    assert_eq!(paused.begun(credentials, false, true), BegunStep::SendPause { sequence: 1 });
    let mut cancelled = remote_source(16);
    assert_eq!(cancelled.begun(credentials, true, true), BegunStep::SendCancel { sequence: 1 });
    let registry = RemoteTransferRegistry::new();
    assert_eq!(registry.latest_started().unwrap_err().kind, FailureKind::NotConnected);
    assert!(!registry.group_paused());
    assert!(!registry.group_cancelled());
}

#[test]
fn frames_round_trip_and_keep_what_follows() {
    let frame = Frame { opcode: Opcode::Status.code(), request_id: 5, payload: vec![1, 2, 3] };
    let mut stream = Vec::new();
    write_frame(&mut stream, &frame).unwrap();
    assert_eq!(&stream[..4], b"CFS4");
    assert_eq!(stream.len(), FRAME_HEADER_LEN + 3);
    stream.extend_from_slice(b"next");
    let (read, used) = read_frame(&stream).unwrap();
    assert_eq!(&stream[used..], b"next");
    assert_eq!(read.opcode, frame.opcode);
    assert_eq!(read.request_id, 5);
    assert_eq!(read.payload, [1, 2, 3]);
    assert!(read_frame_optional(&[]).unwrap().is_none());
    let large = Frame { payload: vec![0; MAX_FRAME_PAYLOAD + 1], ..frame };
    assert_eq!(
        write_frame(&mut Vec::new(), &large).unwrap_err().kind,
        FailureKind::InvalidData
    );
}

#[test]
fn hellos_need_the_role_and_a_nonce() {
    let mut client = SecureOfferClient::new();
    let hello = client.hello([3; 32]);
    let answer = answer_hello(&hello, [4; 32]).unwrap();
    assert!(SecureOfferClient::check_hello(&answer, hello.request_id).is_ok());
    assert!(SecureOfferClient::check_hello(&answer, hello.request_id + 1).is_err());
    let short = Frame { payload: vec![4; 31], ..answer };
    assert!(SecureOfferClient::check_hello(&short, hello.request_id).is_err());
    let mut other_role = hello.payload.clone();
    other_role[0] = 2;
    for payload in [other_role, vec![HELLO_ROLE_RECEIVER], {
        let mut zero = vec![0; 33];
        zero[0] = HELLO_ROLE_RECEIVER;
        zero
    }] {
        let frame = Frame { opcode: Opcode::Hello.code(), request_id: 1, payload };
        assert!(answer_hello(&frame, [4; 32]).is_err());
    }
}

#[test]
fn nonces_are_drawn_anew() {
    let mut client = SecureOfferClient::new();
    let first = client.fresh_hello().unwrap();
    let second = client.fresh_hello().unwrap();
    assert_eq!(second.request_id, first.request_id + 1);
    assert_eq!((first.payload.len(), first.payload[0]), (33, HELLO_ROLE_RECEIVER));
    assert_ne!(first.payload, second.payload);
    let answer = fresh_hello_answer(&first).unwrap();
    SecureOfferClient::check_hello(&answer, first.request_id).unwrap();
    assert_ne!(answer.payload, fresh_hello_answer(&first).unwrap().payload);
    let wrong = Frame { opcode: Opcode::Status.code(), ..first };
    assert_eq!(fresh_hello_answer(&wrong).unwrap_err().message(), "invalid secure protocol hello");
    let (offer_id, file_id) = (ProtocolId([1; 16]), ProtocolId([2; 16]));
    let begin = fresh_begin_request(offer_id, file_id).unwrap();
    assert_eq!(begin.len(), 64);
    assert_eq!(begin[..32], begin_request(offer_id, file_id, [0; 32])[..32]);
    assert_ne!(begin, fresh_begin_request(offer_id, file_id).unwrap());
}

#[test]
fn an_offer_arrives_as_it_is_told() {
    let mut world = World::files(&[("first.txt", b"first"), ("second.txt", b"second")]);
    world.now = 5 * MILLISECOND;
    let told = world.server.manifest(world.now);
    let got = world.manifest().unwrap();
    assert_eq!(got.offer_id, told.offer_id);
    assert_eq!(got.ttl_millis, 60_000 - 5);
    assert_eq!(got.entries.len(), told.entries.len());
    for (got, told) in got.entries.iter().zip(&told.entries) {
        assert_eq!(got.file_id, told.file_id);
        assert_eq!(got.descriptor.file_name, told.descriptor.file_name);
        assert_eq!(got.descriptor.size, told.descriptor.size);
    }
}

#[test]
fn offsets_that_are_served_again_are_no_progress() {
    let mut world = World::generated(4096);
    let manifest = world.manifest().unwrap();
    let credentials = world.begin(&manifest, &manifest.entries[0], [1; 32]).unwrap();
    for (offset, unique, served) in [(0, 256, 256), (128, 384, 512), (64, 384, 768)] {
        let (status, data) = world.read_range(credentials, offset, 256).unwrap();
        assert_eq!((status.unique_bytes, data.len()), (unique, 256));
        assert_eq!(world.server.metrics().served_bytes, served);
    }
}

#[test]
fn a_transfer_that_is_read_outlives_its_time() {
    for (trusted, answer, cancelled) in
        [(false, ResponseStatus::Denied, 1), (true, ResponseStatus::Expired, 0)]
    {
        let mut world = World::generated_with_timeouts(4096, 100 * MILLISECOND, 25 * MILLISECOND);
        let manifest = world.manifest().unwrap();
        let credentials = world.begin(&manifest, &manifest.entries[0], [1; 32]).unwrap();
        world.control(credentials, 1, Opcode::Pause).unwrap();
        world.server.start_read(world.peer, true, world.now, &credentials, 256).unwrap();
        world.now = 150 * MILLISECOND;
        world.begin(&manifest, &manifest.entries[0], [2; 32]).unwrap();
        assert!(world.status(credentials).is_err());
        let step = world.server.poll_read(
            world.peer,
            trusted,
            world.now,
            credentials.transfer_id,
            0,
            256,
            false,
        );
        assert_eq!(step, ReadStep::Answer { outcome: Err(answer) });
        assert_eq!(world.server.metrics().cancelled_transfers, cancelled);
        assert_eq!(world.server.metrics().active_reads, 0);
        let forgotten = world.server.poll_read(
            world.peer,
            false,
            world.now,
            credentials.transfer_id,
            0,
            256,
            false,
        );
        assert_eq!(
            forgotten,
            ReadStep::Answer { outcome: Err(ResponseStatus::Expired) }
        );
    }
}

#[test]
fn every_status_has_its_failure() {
    for (status, kind) in [
        (ResponseStatus::Invalid, FailureKind::InvalidData),
        (ResponseStatus::Denied, FailureKind::PermissionDenied),
        (ResponseStatus::Expired, FailureKind::TimedOut),
        (ResponseStatus::Replay, FailureKind::PermissionDenied),
        (ResponseStatus::Busy, FailureKind::WouldBlock),
        (ResponseStatus::Cancelled, FailureKind::Interrupted),
        (ResponseStatus::Timeout, FailureKind::TimedOut),
        (ResponseStatus::SourceChanged, FailureKind::InvalidData),
        (ResponseStatus::Internal, FailureKind::Other),
    ] {
        let failure = require_ok(&[status.encode()]).unwrap_err();
        assert_eq!(failure.kind, kind, "{status:?}");
        assert_eq!(ResponseStatus::decode(status.encode()).unwrap(), status);
    }
    assert!(require_ok(&[]).is_err());
    assert!(ResponseStatus::decode(10).is_err());
    assert!(require_ok(&[0, 9]).is_ok());
}

#[test]
fn the_first_file_of_an_offer_is_opened() {
    let directory = VirtualFileDescriptor {
        attributes: FILE_ATTRIBUTE_DIRECTORY,
        ..VirtualFileDescriptor::basic("folder".to_owned(), 0)
    };
    let file = |name: &str, size| VirtualFileDescriptor::basic(name.to_owned(), size);
    let entry = |id, descriptor| OfferManifestEntry { file_id: ProtocolId([id; 16]), descriptor };
    let manifest = OfferManifest {
        offer_id: ProtocolId([9; 16]),
        entries: vec![entry(1, directory), entry(2, file("a", 5)), entry(3, file("b", 6))],
        ttl_millis: 1000,
    };
    assert_eq!(SecureRemoteSource::new(&manifest).size, 5);
    let mut registry = RemoteTransferRegistry::new();
    assert_eq!(registry.create_source(&manifest).size, 5);
    let mut second = registry.create_source_for_entry(&manifest.entries[2]);
    assert_eq!(second.size, 6);
    assert_eq!(registry.status_all(&[]).unwrap_err().kind, FailureKind::NotConnected);
    let credentials = TransferCredentials {
        offer_id: manifest.offer_id,
        file_id: ProtocolId([3; 16]),
        transfer_id: ProtocolId([4; 16]),
        capability: [5; 32],
        server_nonce: [6; 32],
        expires_at_millis: 7,
    };
    second.begun(credentials, false, false);
    assert_eq!(second.start_read(4, false, false), SourceStep::Read { requested: 4 });
    assert_eq!(second.received(0, RemoteTransferState::Running, 4), ReceivedStep::Deliver);
    assert_eq!((second.read_calls(), second.bytes_read()), (1, 4));
    let none = LocalProgress {
        bytes_read: 0,
        started_transfers: 0,
        completed_transfers: 0,
        current: None,
    };
    assert_eq!(registry.local_progress(), none);
    registry.update_source(1, second);
    assert_eq!(
        registry.local_progress(),
        LocalProgress { bytes_read: 4, started_transfers: 1, current: Some(1), ..none }
    );
    second.completed();
    registry.update_source(1, second);
    assert_eq!(
        registry.local_progress(),
        LocalProgress { bytes_read: 4, started_transfers: 1, completed_transfers: 1, ..none }
    );
    let status = TransferStatus { state: RemoteTransferState::Paused, unique_bytes: 4 };
    assert_eq!(
        registry.status_all(&[status]).unwrap(),
        TransferGroupStatus {
            state: RemoteTransferState::Paused,
            started_transfers: 1,
            unique_bytes: 4,
            read_calls: 1,
            bytes_read: 4,
        }
    );
}

#[test]
fn control_requests_are_numbered() {
    let mut source = remote_source(8);
    assert_eq!(source.pause(), ControlStep { opcode: Opcode::Pause, sequence: 1 });
    assert_eq!(source.resume(), ControlStep { opcode: Opcode::Resume, sequence: 2 });
    assert_eq!(source.cancel(), ControlStep { opcode: Opcode::Cancel, sequence: 3 });
    assert_eq!(
        source.complete(),
        Some(ControlStep { opcode: Opcode::Complete, sequence: 4 })
    );
    source.completed();
    assert_eq!(source.complete(), None);
}

#[test]
fn secrets_need_every_draw() {
    let secrets = SessionSecrets::from_draws(Some([1; 16]), Some([2; 32]), Some([3; 32])).unwrap();
    assert_eq!(secrets.transfer_id, ProtocolId([1; 16]));
    assert_eq!((secrets.capability, secrets.server_nonce), ([2; 32], [3; 32]));
    assert!(SessionSecrets::from_draws(None, Some([2; 32]), Some([3; 32])).is_none());
    assert!(SessionSecrets::from_draws(Some([1; 16]), None, Some([3; 32])).is_none());
    assert!(SessionSecrets::from_draws(Some([1; 16]), Some([2; 32]), None).is_none());
    let (first, second) = (SessionSecrets::random().unwrap(), SessionSecrets::random().unwrap());
    assert_ne!(first.capability, second.capability);
}
