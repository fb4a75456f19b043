//! The probes that exercise the clipboard and the transfers one by one.

use super::hresult::{HResult, E_INVALIDARG, E_UNEXPECTED, S_OK};
use super::local_file::capture::ClipboardCapture;
use super::local_file::offer::{LocalFileOffer, LocalOfferRegistry};
use super::local_file::snapshot::FileSnapshot;
use super::local_file::stable::StableProgress;
use super::loopback::client::TcpRangeSource;
use super::loopback::server;
use super::loopback::server::{LoopbackServer, LoopbackServerConfig, DEFAULT_MAX_WORKERS};
use super::loopback::wire::{Opcode, LOOPBACK_FILE_ID};
use super::product::session::{WM_CLIPBOARDUPDATE, WM_QUIT, WM_TIMER};
use super::report::{MILLISECOND, SECOND};
use super::secure_transfer::wire::TransferStatus;
use super::transfer::{GeneratedSource, TransferControl, TransferControlState};
use crate::address::Endpoint;
use crate::failure::{Failure, FailureKind};
use crate::security;
use crate::security::{absorb, finish_digest, start_digest, RunningDigest};
use crate::text;
use vstd::prelude::*;

verus! {

/// The name of the generated file of the pause probe.
pub const PAUSE_TEST_FILE_NAME: &'static str = "RemoteClipboard-Pause-Test.bin";

/// The clipboard is open elsewhere.
pub const CLIPBRD_E_CANT_OPEN: HResult = 0x8004_01D0;

/// How the clipboard probe runs. Times are in nanoseconds.
#[derive(Clone, Copy, Debug)]
pub struct ClipboardProbeOptions {
    pub lifetime: Option<u64>,
}

/// How the pause probe runs. Times are in nanoseconds.
#[derive(Clone, Copy, Debug)]
pub struct PauseProbeOptions {
    pub size_bytes: u64,
    pub chunk_bytes: usize,
    pub chunk_delay: u64,
    pub lifetime: Option<u64>,
    pub async_mode: bool,
}

/// How the loopback probe runs. Times are in nanoseconds.
#[derive(Clone, Copy, Debug)]
pub struct LoopbackProbeOptions {
    pub size_bytes: u64,
    pub range_bytes: usize,
    pub fragment_bytes: usize,
    pub range_delay: u64,
    pub connect_timeout: u64,
    pub io_timeout: u64,
    pub lifetime: Option<u64>,
    pub async_mode: bool,
}

/// How the capture probe runs. Times are in nanoseconds.
#[derive(Clone, Copy, Debug)]
pub struct FileCaptureProbeOptions {
    pub offer_ttl: u64,
    pub lifetime: Option<u64>,
    pub async_mode: bool,
}

/// What was fetched.
#[derive(Clone, Copy, Debug)]
pub struct SecureFetchResult {
    pub bytes: u64,
    pub sha256: [u8; 32],
    pub status: TransferStatus,
}

/// How long to wait after each refusal of the clipboard, in milliseconds.
pub const BACKOFF: [u64; 8] = [5, 10, 20, 40, 80, 120, 160, 200];

/// What is next after an object was put on the clipboard, or was refused.
#[derive(Clone, Copy, Debug, PartialEq, Eq, Structural)]
pub enum PublishStep {
    Done,
    /// Try again after so many milliseconds.
    Retry { pause: u64 },
    Fail { code: HResult },
}

/// What is next after an object was put on the clipboard, or was refused with a code, for the
/// given number of times before this one.
pub fn after_publish(refusals: usize, refusal: Option<HResult>) -> (step: PublishStep)
    ensures
        step == (match refusal {
            None => PublishStep::Done,
            Some(code) => if code == CLIPBRD_E_CANT_OPEN && refusals + 1 < BACKOFF@.len() {
                PublishStep::Retry { pause: BACKOFF@[refusals as int] }
            } else {
                PublishStep::Fail { code }
            },
        }),
{
    match refusal {
        None => PublishStep::Done,
        Some(code) => {
            if code == CLIPBRD_E_CANT_OPEN && refusals < 7 {
                PublishStep::Retry { pause: BACKOFF[refusals] }
            } else {
                PublishStep::Fail { code }
            }
        },
    }
}

/// What is next after the clipboard was opened, or was refused with a code, for the given number of
/// times before this one: every refusal is tried again, up to the last.
pub fn after_open(refusals: usize, refusal: Option<HResult>) -> (step: PublishStep)
    ensures
        step == (match refusal {
            None => PublishStep::Done,
            Some(code) => if refusals + 1 < BACKOFF@.len() {
                PublishStep::Retry { pause: BACKOFF@[refusals as int] }
            } else {
                PublishStep::Fail { code }
            },
        }),
{
    match refusal {
        None => PublishStep::Done,
        Some(code) => {
            if refusals < 7 {
                PublishStep::Retry { pause: BACKOFF[refusals] }
            } else {
                PublishStep::Fail { code }
            }
        },
    }
}

/// Checks that putting an object on the clipboard has read nothing of its content.
pub fn check_deferred(read_calls: u64, bytes_read: u64) -> (result: Result<(), HResult>)
    ensures
        result == if read_calls == 0 && bytes_read == 0 {
            Ok::<(), HResult>(())
        } else {
            Err(E_UNEXPECTED)
        },
{
    if read_calls != 0 || bytes_read != 0 {
        return Err(E_UNEXPECTED);
    }
    Ok(())
}

/// Whether an object that is given up is taken off the clipboard: only where it is still there.
pub fn clears_clipboard(status: HResult) -> (clears: bool)
    ensures
        clears == (status == S_OK),
{
    status == S_OK
}

/// After how many milliseconds a probe ends, at least one.
pub fn exit_timer(lifetime: u64) -> (result: Result<u32, HResult>)
    ensures
        result == if lifetime / MILLISECOND > u32::MAX {
            Err::<u32, HResult>(E_INVALIDARG)
        } else if lifetime / MILLISECOND == 0 {
            Ok(1)
        } else {
            Ok((lifetime / MILLISECOND) as u32)
        },
{
    let milliseconds: u64 = lifetime / MILLISECOND;
    if milliseconds > u32::MAX as u64 {
        return Err(E_INVALIDARG);
    }
    if milliseconds == 0 {
        Ok(1)
    } else {
        Ok(milliseconds as u32)
    }
}

/// What the loop of a probe does with a message.
#[derive(Clone, Copy, Debug, PartialEq, Eq, Structural)]
pub enum ProbeAction {
    /// The queue failed.
    Fail,
    /// End the loop.
    Quit,
    /// Look at the clipboard, and hand the message on.
    Clipboard,
    /// Hand the message on.
    Dispatch,
}

/// What the loop of a probe does with a message. `own_window` and `own_timer` say that the
/// message is for the window, or from the timer, of the probe.
pub fn route_probe_message(status: i32, message: u32, own_window: bool, own_timer: bool) -> (action:
    ProbeAction)
    ensures
        action == if status == -1 {
            ProbeAction::Fail
        } else if status == 0 || message == WM_QUIT || (message == WM_TIMER && own_timer) {
            ProbeAction::Quit
        } else if message == WM_CLIPBOARDUPDATE && own_window {
            ProbeAction::Clipboard
        } else {
            ProbeAction::Dispatch
        },
{
    if status == -1 {
        return ProbeAction::Fail;
    }
    if status == 0 || message == WM_QUIT || (message == WM_TIMER && own_timer) {
        return ProbeAction::Quit;
    }
    if message == WM_CLIPBOARDUPDATE && own_window {
        ProbeAction::Clipboard
    } else {
        ProbeAction::Dispatch
    }
}

/// The generated file of the pause probe.
pub fn pause_probe_source(options: PauseProbeOptions) -> (result: Result<GeneratedSource, HResult>)
    ensures
        result == if options.size_bytes == 0 || options.chunk_bytes == 0 {
            Err::<GeneratedSource, HResult>(E_INVALIDARG)
        } else {
            Ok(
                GeneratedSource {
                    length: options.size_bytes,
                    max_chunk: options.chunk_bytes,
                    delay: options.chunk_delay,
                },
            )
        },
{
    GeneratedSource::new(options.size_bytes, options.chunk_bytes, options.chunk_delay)
}

/// How the server of the loopback probe runs.
pub open spec fn loopback_config(options: LoopbackProbeOptions) -> LoopbackServerConfig {
    LoopbackServerConfig {
        length: options.size_bytes,
        file_id: LOOPBACK_FILE_ID,
        max_range_bytes: options.range_bytes,
        fragment_bytes: options.fragment_bytes,
        range_delay: options.range_delay,
        socket_timeout: options.io_timeout,
        max_workers: DEFAULT_MAX_WORKERS,
    }
}

/// How the client of the loopback probe reads.
pub open spec fn loopback_client(options: LoopbackProbeOptions, address: Endpoint) -> TcpRangeSource {
    TcpRangeSource {
        address,
        file_id: LOOPBACK_FILE_ID,
        length: options.size_bytes,
        max_request_bytes: options.range_bytes,
        connect_timeout: options.connect_timeout,
        io_timeout: options.io_timeout,
        next_request_id: 1,
    }
}

/// The server of the loopback probe and a client that reads from it at the given address.
pub fn loopback_probe(options: LoopbackProbeOptions, address: Endpoint) -> (result: Result<
    (LoopbackServer, TcpRangeSource),
    HResult,
>)
    ensures
        match result {
            Ok((started, client)) => {
                &&& loopback_config(options).valid()
                &&& loopback_client(options, address).valid()
                &&& started.wf()
                &&& started@ == server::LoopbackView::fresh(loopback_config(options))
                &&& client == loopback_client(options, address)
            },
            Err(code) => code == E_INVALIDARG && !(loopback_config(options).valid()
                && loopback_client(options, address).valid()),
        },
{
    let started = match LoopbackServer::start(
        LoopbackServerConfig {
            length: options.size_bytes,
            file_id: LOOPBACK_FILE_ID,
            max_range_bytes: options.range_bytes,
            fragment_bytes: options.fragment_bytes,
            range_delay: options.range_delay,
            socket_timeout: options.io_timeout,
            max_workers: DEFAULT_MAX_WORKERS,
        },
    ) {
        Err(code) => {
            return Err(code);
        },
        Ok(started) => started,
    };
    match TcpRangeSource::new(
        address,
        LOOPBACK_FILE_ID,
        options.size_bytes,
        options.range_bytes,
        options.connect_timeout,
        options.io_timeout,
    ) {
        Err(code) => Err(code),
        Ok(client) => Ok((started, client)),
    }
}

/// A counter that stays at its largest value.
pub open spec fn one_more(counter: u64) -> u64 {
    if counter == u64::MAX {
        counter
    } else {
        (counter + 1) as u64
    }
}

/// What the capture probe has done.
#[derive(Clone, Copy, Debug)]
pub struct CaptureSummary {
    pub current: bool,
    pub accepted: u64,
    pub rejected: u64,
    pub ignored: u64,
    pub offer_age_ms: u64,
    pub read_calls: u64,
    pub bytes_read: u64,
    pub events: u64,
    pub dropped_events: u64,
}

/// The capture probe: the offer that stands, whether it is on the clipboard, and how many
/// clipboards were accepted, rejected and ignored.
#[derive(Debug)]
pub struct FileCaptureSession {
    pub offer_ttl: u64,
    pub async_mode: bool,
    pub registry: LocalOfferRegistry,
    pub leased: bool,
    pub accepted: u64,
    pub rejected: u64,
    pub ignored: u64,
}

/// A file that may be offered.
#[derive(Debug)]
pub struct Candidate {
    pub path: Vec<u16>,
    pub sequence: u32,
}

/// The identifiers of an offer that stands for some time from `now` on: the ones that the system
/// gave, unless the time is none or too long, or the system failed.
pub open spec fn accepted_identifiers(
    ttl: u64,
    now: u64,
    identifiers: Result<([u8; 16], [u8; 16]), HResult>,
) -> Result<([u8; 16], [u8; 16]), HResult> {
    if ttl == 0 || now + ttl > u64::MAX {
        Err(E_INVALIDARG)
    } else {
        identifiers
    }
}

impl FileCaptureSession {
    /// Whether an offer is on the clipboard only where one stands.
    pub open spec fn wf(&self) -> bool {
        self.leased ==> self.registry.current is Some
    }

    /// The probe, where offers stand for some time.
    pub fn new(options: FileCaptureProbeOptions) -> (result: Result<Self, HResult>)
        ensures
            match result {
                Ok(session) => {
                    &&& options.offer_ttl != 0
                    &&& session.wf()
                    &&& session == (FileCaptureSession {
                        offer_ttl: options.offer_ttl,
                        async_mode: options.async_mode,
                        registry: LocalOfferRegistry { current: None },
                        leased: false,
                        accepted: 0,
                        rejected: 0,
                        ignored: 0,
                    })
                },
                Err(code) => options.offer_ttl == 0 && code == E_INVALIDARG,
            },
    {
        if options.offer_ttl == 0 {
            return Err(E_INVALIDARG);
        }
        Ok(
            FileCaptureSession {
                offer_ttl: options.offer_ttl,
                async_mode: options.async_mode,
                registry: LocalOfferRegistry::new(),
                leased: false,
                accepted: 0,
                rejected: 0,
                ignored: 0,
            },
        )
    }

    /// The clipboard has changed. Where it is the probe's own offer that is on it, nothing is
    /// done; otherwise the offer is withdrawn and handed out, and the clipboard must be looked at.
    pub fn clipboard_updated(&mut self, current: bool) -> (outcome: (bool, Option<LocalFileOffer>))
        requires
            old(self).wf(),
        ensures
            final(self).wf(),
            if old(self).leased && current {
                outcome == (false, None::<LocalFileOffer>) && *final(self) == *old(self)
            } else {
                &&& outcome == (true, LocalOfferRegistry::revoked(old(self).registry.current))
                &&& *final(self) == (FileCaptureSession {
                    registry: LocalOfferRegistry { current: None },
                    leased: false,
                    ..*old(self)
                })
            },
    {
        if self.leased && current {
            return (false, None);
        }
        let previous = self.registry.revoke_current();
        self.leased = false;
        (true, previous)
    }

    /// The clipboard was looked at: what may be offered, if anything.
    pub fn captured(&mut self, capture: Result<ClipboardCapture, HResult>) -> (candidate: Option<
        Candidate,
    >)
        requires
            old(self).wf(),
        ensures
            final(self).wf(),
            match capture {
                Ok(ClipboardCapture::Candidate { path, sequence }) => {
                    &&& candidate == Some(Candidate { path, sequence })
                    &&& *final(self) == *old(self)
                },
                Ok(ClipboardCapture::Rejected { .. }) | Err(_) => {
                    &&& candidate is None
                    &&& *final(self) == (FileCaptureSession {
                        rejected: one_more(old(self).rejected),
                        ..*old(self)
                    })
                },
                Ok(ClipboardCapture::PrivateOffer) | Ok(ClipboardCapture::NotFileClipboard) => {
                    &&& candidate is None
                    &&& *final(self) == (FileCaptureSession {
                        ignored: one_more(old(self).ignored),
                        ..*old(self)
                    })
                },
            },
    {
        match capture {
            Ok(ClipboardCapture::Candidate { path, sequence }) => Some(
                Candidate { path, sequence },
            ),
            Ok(ClipboardCapture::Rejected { .. }) | Err(_) => {
                self.rejected = self.rejected.saturating_add(1);
                None
            },
            Ok(ClipboardCapture::PrivateOffer) | Ok(ClipboardCapture::NotFileClipboard) => {
                self.ignored = self.ignored.saturating_add(1);
                None
            },
        }
    }

    /// The candidate could not be offered.
    pub fn refuse(&mut self)
        requires
            old(self).wf(),
        ensures
            final(self).wf(),
            *final(self) == (FileCaptureSession {
                rejected: one_more(old(self).rejected),
                ..*old(self)
            }),
    {
        self.rejected = self.rejected.saturating_add(1);
    }

    /// Offers a captured file under the two identifiers that the system gave, unless it failed to
    /// with a code. The offer that stood is withdrawn.
    pub fn accept_candidate(
        &mut self,
        snapshot: FileSnapshot,
        now: u64,
        identifiers: Result<([u8; 16], [u8; 16]), HResult>,
    ) -> (result: Result<Option<LocalFileOffer>, HResult>)
        requires
            old(self).wf(),
        ensures
            final(self).wf(),
            final(self).offer_ttl == old(self).offer_ttl,
            final(self).async_mode == old(self).async_mode,
            final(self).leased == old(self).leased,
            final(self).accepted == old(self).accepted,
            final(self).ignored == old(self).ignored,
            match accepted_identifiers(old(self).offer_ttl, now, identifiers) {
                Err(code) => {
                    &&& result == Err::<Option<LocalFileOffer>, HResult>(code)
                    &&& final(self).registry == old(self).registry
                    &&& final(self).rejected == one_more(old(self).rejected)
                },
                Ok((offer_id, file_id)) => {
                    &&& result == Ok::<Option<LocalFileOffer>, HResult>(
                        LocalOfferRegistry::revoked(old(self).registry.current),
                    )
                    &&& final(self).rejected == old(self).rejected
                    &&& final(self).registry.current matches Some(offer)
                    &&& offer.wf()
                    &&& offer.offer_id == offer_id
                    &&& offer.file_id == file_id
                    &&& offer.created_at == now
                    &&& offer.expires_at == now + old(self).offer_ttl
                    &&& offer.source.snapshot == snapshot
                    &&& offer.source.progress == StableProgress::fresh()
                },
            },
    {
        if self.offer_ttl == 0 || self.offer_ttl > u64::MAX - now {
            self.rejected = self.rejected.saturating_add(1);
            return Err(E_INVALIDARG);
        }
        let (offer_id, file_id) = match identifiers {
            Ok(identifiers) => identifiers,
            Err(code) => {
                self.rejected = self.rejected.saturating_add(1);
                return Err(code);
            },
        };
        match LocalFileOffer::create(snapshot, self.offer_ttl, now, offer_id, file_id) {
            Err(code) => {
                self.rejected = self.rejected.saturating_add(1);
                Err(code)
            },
            Ok(offer) => Ok(self.registry.publish(offer)),
        }
    }

    /// The offer was put on the clipboard, or was not; where it was not, it is withdrawn and
    /// handed out.
    pub fn registered(&mut self, published: bool) -> (withdrawn: Option<LocalFileOffer>)
        requires
            old(self).wf(),
            old(self).registry.current is Some,
        ensures
            final(self).wf(),
            if published {
                &&& withdrawn is None
                &&& *final(self) == (FileCaptureSession {
                    leased: true,
                    accepted: one_more(old(self).accepted),
                    ..*old(self)
                })
            } else {
                &&& withdrawn == LocalOfferRegistry::revoked(old(self).registry.current)
                &&& *final(self) == (FileCaptureSession {
                    registry: LocalOfferRegistry { current: None },
                    leased: false,
                    rejected: one_more(old(self).rejected),
                    ..*old(self)
                })
            },
    {
        if published {
            self.accepted = self.accepted.saturating_add(1);
            self.leased = true;
            None
        } else {
            self.rejected = self.rejected.saturating_add(1);
            self.leased = false;
            self.registry.revoke_current()
        }
    }

    /// What the probe has done. `current` tells whether its offer is on the clipboard.
    pub fn summary(&self, current: bool, now: u64, events: u64, dropped_events: u64) -> (summary:
        CaptureSummary)
        requires
            self.wf(),
        ensures
            summary == (match self.registry.current {
                Some(offer) if self.leased => CaptureSummary {
                    current,
                    accepted: self.accepted,
                    rejected: self.rejected,
                    ignored: self.ignored,
                    offer_age_ms: if now < offer.created_at {
                        0
                    } else {
                        ((now - offer.created_at) as u64 / MILLISECOND) as u64
                    },
                    read_calls: offer.source.progress.read_calls,
                    bytes_read: offer.source.progress.bytes_read,
                    events,
                    dropped_events,
                },
                _ => CaptureSummary {
                    current: false,
                    accepted: self.accepted,
                    rejected: self.rejected,
                    ignored: self.ignored,
                    offer_age_ms: 0,
                    read_calls: 0,
                    bytes_read: 0,
                    events: 0,
                    dropped_events: 0,
                },
            }),
    {
        match &self.registry.current {
            Some(offer) => {
                if self.leased {
                    return CaptureSummary {
                        current,
                        accepted: self.accepted,
                        rejected: self.rejected,
                        ignored: self.ignored,
                        offer_age_ms: offer.age(now) / MILLISECOND,
                        read_calls: offer.source.progress.read_calls,
                        bytes_read: offer.source.progress.bytes_read,
                        events,
                        dropped_events,
                    };
                }
            },
            None => {},
        }
        CaptureSummary {
            current: false,
            accepted: self.accepted,
            rejected: self.rejected,
            ignored: self.ignored,
            offer_age_ms: 0,
            read_calls: 0,
            bytes_read: 0,
            events: 0,
            dropped_events: 0,
        }
    }
}

/// A file that is being fetched: how much of it came, and the digest of that.
pub struct SecureFetch {
    expected: u64,
    offset: u64,
    digest: RunningDigest,
}

impl SecureFetch {
    pub closed spec fn spec_expected(&self) -> u64 {
        self.expected
    }

    /// What has come of the file.
    pub closed spec fn received(&self) -> Seq<u8> {
        security::absorbed(self.digest)
    }

    /// Whether the offset is behind what has come.
    pub closed spec fn wf(&self) -> bool {
        self.offset == self.received().len()
    }

    /// Starts to fetch a file whose size was told.
    pub fn start(expected: u64) -> (fetch: Self)
        ensures
            fetch.wf(),
            fetch.spec_expected() == expected,
            fetch.received() == Seq::<u8>::empty(),
    {
        SecureFetch { expected, offset: 0, digest: start_digest() }
    }

    /// Where the next part of the file starts.
    pub fn offset(&self) -> (offset: u64)
        requires
            self.wf(),
        ensures
            offset == self.received().len(),
    {
        self.offset
    }

    /// Takes the next part of the file.
    pub fn take(&mut self, part: &[u8]) -> (result: Result<(), Failure>)
        requires
            old(self).wf(),
        ensures
            final(self).spec_expected() == old(self).spec_expected(),
            if old(self).received().len() + part@.len() <= u64::MAX {
                &&& result == Ok::<(), Failure>(())
                &&& final(self).wf()
                &&& final(self).received() == old(self).received() + part@
            } else {
                result == Err::<(), Failure>(
                    Failure::new(FailureKind::Other, "download offset overflow"),
                )
            },
    {
        absorb(&mut self.digest, part);
        match self.offset.checked_add(part.len() as u64) {
            None => Err(Failure::new(FailureKind::Other, "download offset overflow")),
            Some(offset) => {
                self.offset = offset;
                Ok(())
            },
        }
    }

    /// Checks that the whole file has come, and no more.
    pub fn check_size(&self) -> (result: Result<(), Failure>)
        requires
            self.wf(),
        ensures
            result == if self.received().len() == self.spec_expected() {
                Ok::<(), Failure>(())
            } else {
                Err(
                    Failure::new(
                        FailureKind::UnexpectedEof,
                        "download size differs from authenticated manifest",
                    ),
                )
            },
    {
        if self.offset != self.expected {
            return Err(
                Failure::new(
                    FailureKind::UnexpectedEof,
                    "download size differs from authenticated manifest",
                ),
            );
        }
        Ok(())
    }

    /// What was fetched, once the other side has taken note that it all came. The digest counts
    /// bits, and their number must fit into 64.
    pub fn finish(self, status: TransferStatus) -> (result: SecureFetchResult)
        requires
            self.wf(),
            8 * self.received().len() <= u64::MAX,
        ensures
            result.bytes == self.received().len(),
            result.sha256@ == security::sha256(self.received()),
            result.status == status,
    {
        SecureFetchResult { bytes: self.offset, sha256: finish_digest(self.digest), status }
    }
}

/// The name of the file into which another one is fetched.
pub open spec fn partial_text(name: Seq<char>, nonce: Seq<u8>) -> Seq<char> {
    "."@ + name + ".clipferry-"@ + text::hex_text(nonce, false) + ".part"@
}

/// The name of the file into which another one is fetched.
pub fn partial_name(name: &str, nonce: &[u8; 8]) -> (partial: String)
    ensures
        partial@ == partial_text(name@, nonce@),
{
    let mut partial = String::new();
    text::push_text(&mut partial, ".");
    text::push_text(&mut partial, name);
    text::push_text(&mut partial, ".clipferry-");
    text::push_hex(&mut partial, nonce, false);
    text::push_text(&mut partial, ".part");
    assert(partial@ =~= partial_text(name@, nonce@));
    partial
}

/// Which probe listens to commands.
#[derive(Clone, Copy, Debug, PartialEq, Eq, Structural)]
pub enum Console {
    /// The pause probe and the loopback probe.
    Transfer,
    /// The capture probe and the secure source.
    Observer,
    /// The secure receiver.
    Receiver,
}

/// A command to a probe.
#[derive(Clone, Copy, Debug, PartialEq, Eq, Structural)]
pub enum ConsoleCommand {
    Pause,
    Resume,
    Cancel,
    Status,
    Stop,
    Quit,
    Empty,
    Unknown,
}

/// The command that a line gives, whatever the case of its letters.
pub open spec fn command_of(line: Seq<char>) -> ConsoleCommand {
    let word = text::ascii_lowercase(text::trimmed(line));
    if word == "pause"@ {
        ConsoleCommand::Pause
    } else if word == "resume"@ {
        ConsoleCommand::Resume
    } else if word == "cancel"@ {
        ConsoleCommand::Cancel
    } else if word == "status"@ {
        ConsoleCommand::Status
    } else if word == "stop"@ {
        ConsoleCommand::Stop
    } else if word == "quit"@ {
        ConsoleCommand::Quit
    } else if word.len() == 0 {
        ConsoleCommand::Empty
    } else {
        ConsoleCommand::Unknown
    }
}

/// Whether a probe knows a command.
pub open spec fn knows(console: Console, command: ConsoleCommand) -> bool {
    match command {
        ConsoleCommand::Pause | ConsoleCommand::Resume | ConsoleCommand::Cancel => !(
        console is Observer),
        ConsoleCommand::Stop => console is Transfer,
        _ => true,
    }
}

/// The request that a command to the loopback probe is sent as.
pub open spec fn request_of(command: ConsoleCommand) -> Option<Opcode> {
    match command {
        ConsoleCommand::Pause => Some(Opcode::Pause),
        ConsoleCommand::Resume => Some(Opcode::Resume),
        ConsoleCommand::Cancel | ConsoleCommand::Quit => Some(Opcode::Cancel),
        ConsoleCommand::Status | ConsoleCommand::Stop => Some(Opcode::Status),
        ConsoleCommand::Empty | ConsoleCommand::Unknown => None,
    }
}

/// The request that a command to the loopback probe is sent as.
pub fn loopback_request(command: ConsoleCommand) -> (opcode: Option<Opcode>)
    ensures
        opcode == request_of(command),
{
    match command {
        ConsoleCommand::Pause => Some(Opcode::Pause),
        ConsoleCommand::Resume => Some(Opcode::Resume),
        ConsoleCommand::Cancel | ConsoleCommand::Quit => Some(Opcode::Cancel),
        ConsoleCommand::Status | ConsoleCommand::Stop => Some(Opcode::Status),
        ConsoleCommand::Empty | ConsoleCommand::Unknown => None,
    }
}

/// The command that a line gives to a probe.
pub fn console_command(console: Console, line: &str) -> (command: ConsoleCommand)
    ensures
        command == if knows(console, command_of(line@)) {
            command_of(line@)
        } else {
            ConsoleCommand::Unknown
        },
{
    let trimmed = text::trim(line);
    let lower = text::to_ascii_lowercase(trimmed.as_str());
    let word = lower.as_str();
    let command = if text::same_text(word, "pause") {
        ConsoleCommand::Pause
    } else if text::same_text(word, "resume") {
        ConsoleCommand::Resume
    } else if text::same_text(word, "cancel") {
        ConsoleCommand::Cancel
    } else if text::same_text(word, "status") {
        ConsoleCommand::Status
    } else if text::same_text(word, "stop") {
        ConsoleCommand::Stop
    } else if text::same_text(word, "quit") {
        ConsoleCommand::Quit
    } else if text::same_text(word, "") {
        ConsoleCommand::Empty
    } else {
        ConsoleCommand::Unknown
    };
    proof {
        reveal_strlit("");
        assert(lower@.len() == 0 ==> lower@ =~= ""@);
        reveal_strlit("pause");
        reveal_strlit("resume");
        reveal_strlit("cancel");
        reveal_strlit("status");
        reveal_strlit("stop");
        reveal_strlit("quit");
    }
    let known = match command {
        ConsoleCommand::Pause | ConsoleCommand::Resume | ConsoleCommand::Cancel => console
            != Console::Observer,
        ConsoleCommand::Stop => console == Console::Transfer,
        _ => true,
    };
    if known {
        command
    } else {
        ConsoleCommand::Unknown
    }
}

/// What the secure receiver asks of a transfer.
#[derive(Clone, Copy, Debug, PartialEq, Eq, Structural)]
pub enum ReceiverRequest {
    Pause,
    Resume,
    Cancel,
    Status,
}

/// What the secure receiver does with a command.
#[derive(Clone, Copy, Debug, PartialEq, Eq, Structural)]
pub enum ReceiverStep {
    /// Nothing.
    Ignore,
    /// Cancel the transfer that was started last, if any was, and end.
    Quit,
    /// Tell that no transfer was started.
    NotStarted,
    /// Tell that the command is not known.
    Unknown,
    /// Ask the transfer that was started last.
    Send { request: ReceiverRequest },
}

/// What the secure receiver does with a command. Only `quit` and an empty line come before the
/// question whether a transfer was started.
pub fn receiver_step(command: ConsoleCommand, started: bool) -> (step: ReceiverStep)
    ensures
        step == (match command {
            ConsoleCommand::Quit => ReceiverStep::Quit,
            ConsoleCommand::Empty => ReceiverStep::Ignore,
            _ => if !started {
                ReceiverStep::NotStarted
            } else {
                match command {
                    ConsoleCommand::Pause => ReceiverStep::Send { request: ReceiverRequest::Pause },
                    ConsoleCommand::Resume => ReceiverStep::Send { request: ReceiverRequest::Resume },
                    ConsoleCommand::Cancel => ReceiverStep::Send { request: ReceiverRequest::Cancel },
                    ConsoleCommand::Status => ReceiverStep::Send { request: ReceiverRequest::Status },
                    _ => ReceiverStep::Unknown,
                }
            },
        }),
{
    match command {
        ConsoleCommand::Quit => ReceiverStep::Quit,
        ConsoleCommand::Empty => ReceiverStep::Ignore,
        _ => {
            if !started {
                return ReceiverStep::NotStarted;
            }
            match command {
                ConsoleCommand::Pause => ReceiverStep::Send { request: ReceiverRequest::Pause },
                ConsoleCommand::Resume => ReceiverStep::Send { request: ReceiverRequest::Resume },
                ConsoleCommand::Cancel => ReceiverStep::Send { request: ReceiverRequest::Cancel },
                ConsoleCommand::Status => ReceiverStep::Send { request: ReceiverRequest::Status },
                _ => ReceiverStep::Unknown,
            }
        },
    }
}

/// Whether a command ends the probe.
pub fn ends_probe(command: ConsoleCommand) -> (ends: bool)
    ensures
        ends == (command is Quit || command is Stop),
{
    match command {
        ConsoleCommand::Quit | ConsoleCommand::Stop => true,
        _ => false,
    }
}

/// Carries out a command on a transfer, and tells how it then stands; nothing where the command
/// does not concern it.
pub fn control_transfer(control: &mut TransferControl, command: ConsoleCommand) -> (state: Option<
    TransferControlState,
>)
    ensures
        *final(control) == (match command {
            ConsoleCommand::Pause => old(control).paused(),
            ConsoleCommand::Resume => old(control).resumed(),
            ConsoleCommand::Cancel | ConsoleCommand::Quit => old(control).cancelled(),
            _ => *old(control),
        }),
        state == (match command {
            ConsoleCommand::Empty | ConsoleCommand::Unknown => None,
            _ => Some(final(control).state),
        }),
{
    match command {
        ConsoleCommand::Pause => Some(control.pause()),
        ConsoleCommand::Resume => Some(control.resume()),
        ConsoleCommand::Cancel | ConsoleCommand::Quit => Some(control.cancel()),
        ConsoleCommand::Status | ConsoleCommand::Stop => Some(control.state()),
        ConsoleCommand::Empty | ConsoleCommand::Unknown => None,
    }
}

/// How long the secure source waits for its next command; nothing where its time is over. Times
/// are in nanoseconds.
pub fn source_wait(now: u64, deadline: Option<u64>) -> (wait: Option<u64>)
    ensures
        wait == (match deadline {
            None => Some(SECOND),
            Some(deadline) => if now >= deadline {
                None
            } else if deadline - now < SECOND {
                Some((deadline - now) as u64)
            } else {
                Some(SECOND)
            },
        }),
{
    match deadline {
        None => Some(SECOND),
        Some(deadline) => {
            if now >= deadline {
                return None;
            }
            let left: u64 = deadline - now;
            if left < SECOND {
                Some(left)
            } else {
                Some(SECOND)
            }
        },
    }
}

/// An offer that was replaced or withdrawn by the capture probe is revoked: whoever has not begun
/// to read it no longer can.
pub proof fn lemma_replaced_offer_is_revoked(current: Option<LocalFileOffer>)
    ensures
        LocalOfferRegistry::revoked(current) is Some <==> current is Some,
        LocalOfferRegistry::revoked(current) matches Some(offer) ==> offer.source.progress.revoked,
{
}

/// An object that is refused because the clipboard is open elsewhere is tried seven times more, after
/// pauses that grow from 5 to 160 milliseconds; any other refusal is final.
pub proof fn lemma_publishing_is_retried(refusals: usize, refusal: Option<HResult>, step: PublishStep)
    requires
        call_ensures(after_publish, (refusals, refusal), step),
        refusals < 0xffff,
    ensures
        refusal is None <==> step is Done,
        step is Retry <==> refusal == Some(0x8004_01d0u32) && refusals < 7,
        step matches PublishStep::Fail { code } ==> refusal == Some(code),
        step matches PublishStep::Retry { pause } ==> paused_for(refusals as int, pause as int),
{
}

/// Opening the clipboard is tried seven times more, whatever it was refused for.
pub proof fn lemma_opening_is_retried(refusals: usize, refusal: Option<HResult>, step: PublishStep)
    requires
        call_ensures(after_open, (refusals, refusal), step),
        refusals < 0xffff,
    ensures
        refusal is None <==> step is Done,
        step is Retry <==> refusal is Some && refusals < 7,
        step matches PublishStep::Fail { code } ==> refusal == Some(code),
        step matches PublishStep::Retry { pause } ==> paused_for(refusals as int, pause as int),
{
}

/// Whether a pause in milliseconds is that after so many refusals: 5 at first, twice as long up to 80,
/// then 40 longer each time.
pub open spec fn paused_for(refusals: int, pause: int) -> bool {
    &&& refusals == 0 ==> pause == 5
    &&& refusals == 1 ==> pause == 10
    &&& refusals == 2 ==> pause == 20
    &&& refusals == 3 ==> pause == 40
    &&& 4 <= refusals <= 6 ==> pause == 80 + 40 * (refusals - 4)
}

/// A probe ends after its lifetime in whole milliseconds, but not before one; a lifetime that a timer
/// cannot hold is refused.
pub proof fn lemma_timers(lifetime: u64, result: Result<u32, HResult>)
    requires
        call_ensures(exit_timer, (lifetime,), result),
    ensures
        result is Ok <==> lifetime < 0x1_0000_0000 * 1_000_000,
        result matches Ok(millis) ==> {
            &&& millis >= 1
            &&& lifetime >= 1_000_000 ==> millis * 1_000_000 <= lifetime < (millis + 1) * 1_000_000
            &&& lifetime < 1_000_000 ==> millis == 1
        },
        result matches Err(code) ==> code == 0x8007_0057,
{
}

/// A probe ends with its queue or its timer, and looks at the clipboard when that changes.
pub proof fn lemma_probe_messages(
    status: i32,
    message: u32,
    own_window: bool,
    own_timer: bool,
    action: ProbeAction,
)
    requires
        call_ensures(route_probe_message, (status, message, own_window, own_timer), action),
    ensures
        action is Fail <==> status == -1,
        action is Quit <==> status == 0 || (status != -1 && (message == 18 || (message == 275 && own_timer))),
        action is Clipboard <==> status != -1 && status != 0 && message == 797 && own_window,
{
}

/// Nothing may have been read of an object that was only put on the clipboard; an object is taken off
/// it only where it is still there.
pub proof fn lemma_objects_are_deferred(
    read_calls: u64,
    bytes_read: u64,
    result: Result<(), HResult>,
    status: HResult,
    clears: bool,
)
    requires
        call_ensures(check_deferred, (read_calls, bytes_read), result),
        call_ensures(clears_clipboard, (status,), clears),
    ensures
        result is Ok <==> read_calls == 0 && bytes_read == 0,
        result matches Err(code) ==> code == 0x8000_ffff,
        clears <==> status == 0,
{
}

/// The generated file of the pause probe is as long and comes in such chunks and with such delays as
/// asked for.
pub proof fn lemma_pause_probes(options: PauseProbeOptions, result: Result<GeneratedSource, HResult>)
    requires
        call_ensures(pause_probe_source, (options,), result),
    ensures
        result is Ok <==> options.size_bytes > 0 && options.chunk_bytes > 0,
        result matches Ok(file) ==> file.length == options.size_bytes && file.max_chunk == options.chunk_bytes
            && file.delay == options.chunk_delay,
{
}

/// The server and the client of the loopback probe agree on the file, its length and the ranges, and
/// both run as asked for.
pub proof fn lemma_loopback_probes(
    options: LoopbackProbeOptions,
    address: Endpoint,
    result: Result<(LoopbackServer, TcpRangeSource), HResult>,
)
    requires
        call_ensures(loopback_probe, (options, address), result),
    ensures
        result matches Ok((started, client)) ==> {
            &&& started@.config.length == options.size_bytes && client.length == options.size_bytes
            &&& started@.config.file_id == client.file_id
            &&& started@.config.max_range_bytes == options.range_bytes && client.max_request_bytes
                == options.range_bytes
            &&& started@.config.fragment_bytes == options.fragment_bytes
            &&& started@.config.range_delay == options.range_delay
            &&& started@.config.socket_timeout == options.io_timeout && client.io_timeout
                == options.io_timeout
            &&& client.connect_timeout == options.connect_timeout
            &&& client.address == address
            &&& started@.config.max_workers == 32
        },
        result is Ok <==> 1 <= options.fragment_bytes <= options.range_bytes && options.range_bytes
            <= 1_048_576 && options.io_timeout > 0 && options.connect_timeout > 0
            && address.ip.spec_loopback(),
{
}

/// A change of the clipboard that is this probe's own does nothing; any other withdraws what was
/// offered, and has the clipboard looked at.
pub proof fn lemma_clipboard_changes(
    session: &mut FileCaptureSession,
    current: bool,
    outcome: (bool, Option<LocalFileOffer>),
)
    requires
        old(session).wf(),
        call_ensures(FileCaptureSession::clipboard_updated, (session, current), outcome),
    ensures
        outcome.0 <==> !(old(session).leased && current),
        !outcome.0 ==> outcome.1 is None && *final(session) == *old(session),
        outcome.0 ==> {
            &&& final(session).registry.current is None && !final(session).leased
            &&& outcome.1 is Some <==> old(session).registry.current is Some
            &&& outcome.1 matches Some(offer) ==> offer.source.progress.revoked && offer.offer_id == old(
                session,
            ).registry.current->0.offer_id
        },
        final(session).accepted == old(session).accepted,
        final(session).rejected == old(session).rejected,
        final(session).ignored == old(session).ignored,
{
}

/// What was found on the clipboard is a candidate, or counts as refused or as none of this probe's
/// business.
pub proof fn lemma_captures_are_counted(
    session: &mut FileCaptureSession,
    capture: Result<ClipboardCapture, HResult>,
    candidate: Option<Candidate>,
)
    requires
        old(session).wf(),
        old(session).rejected < 0xffff_ffff_ffff_ffff,
        old(session).ignored < 0xffff_ffff_ffff_ffff,
        call_ensures(FileCaptureSession::captured, (session, capture), candidate),
    ensures
        candidate is Some <==> capture is Ok && capture->Ok_0 is Candidate,
        candidate matches Some(found) ==> capture->Ok_0 == (ClipboardCapture::Candidate {
            path: found.path,
            sequence: found.sequence,
        }),
        final(session).rejected == old(session).rejected + (if capture is Err || capture->Ok_0 is Rejected {
            1int
        } else {
            0
        }),
        final(session).ignored == old(session).ignored + (if capture is Ok && (capture->Ok_0 is PrivateOffer
            || capture->Ok_0 is NotFileClipboard) {
            1int
        } else {
            0
        }),
        final(session).accepted == old(session).accepted,
        final(session).registry == old(session).registry,
{
}

/// A captured file is offered for the time of the probe, under the identifiers that were given; the
/// offer that stood is revoked. Without identifiers or time it is refused, and counted so.
pub proof fn lemma_captured_files_are_offered(
    session: &mut FileCaptureSession,
    snapshot: FileSnapshot,
    now: u64,
    identifiers: Result<([u8; 16], [u8; 16]), HResult>,
    result: Result<Option<LocalFileOffer>, HResult>,
)
    requires
        old(session).wf(),
        old(session).rejected < 0xffff_ffff_ffff_ffff,
        call_ensures(
            FileCaptureSession::accept_candidate,
            (session, snapshot, now, identifiers),
            result,
        ),
    ensures
        result is Ok <==> old(session).offer_ttl > 0 && now + old(session).offer_ttl <= u64::MAX
            && identifiers is Ok,
        result is Ok ==> {
            &&& final(session).registry.current matches Some(offer)
            &&& offer.source.snapshot == snapshot
            &&& offer.created_at == now && offer.expires_at == now + old(session).offer_ttl
            &&& offer.offer_id == identifiers->Ok_0.0 && offer.file_id == identifiers->Ok_0.1
            &&& offer.source.progress.bytes_read == 0 && !offer.source.progress.revoked
        },
        result matches Ok(Some(previous)) ==> previous.source.progress.revoked,
        result is Err ==> final(session).rejected == old(session).rejected + 1
            && final(session).registry == old(session).registry,
        final(session).accepted == old(session).accepted,
{
}

/// An offer counts as accepted once it is on the clipboard; one that could not be put there is revoked
/// and counts as refused.
pub proof fn lemma_offers_are_registered(
    session: &mut FileCaptureSession,
    published: bool,
    withdrawn: Option<LocalFileOffer>,
)
    requires
        old(session).wf(),
        old(session).registry.current is Some,
        old(session).accepted < 0xffff_ffff_ffff_ffff,
        old(session).rejected < 0xffff_ffff_ffff_ffff,
        call_ensures(FileCaptureSession::registered, (session, published), withdrawn),
    ensures
        published ==> withdrawn is None && final(session).leased && final(session).accepted == old(
            session,
        ).accepted + 1 && final(session).rejected == old(session).rejected
            && final(session).registry == old(session).registry,
        !published ==> withdrawn is Some && withdrawn->0.source.progress.revoked && !final(session).leased
            && final(session).accepted == old(session).accepted && final(session).rejected == old(
            session,
        ).rejected + 1 && final(session).registry.current is None,
{
}

/// The parts of a file are taken one behind the other; the whole is right where it is as long as was
/// told, and its digest is that of all of them.
pub proof fn lemma_fetched_files(
    taking: &mut SecureFetch,
    part: &[u8],
    taken: Result<(), Failure>,
    checked: &SecureFetch,
    whole: Result<(), Failure>,
    finished: SecureFetch,
    status: TransferStatus,
    fetched: SecureFetchResult,
)
    requires
        old(taking).wf(),
        call_ensures(SecureFetch::take, (taking, part), taken),
        old(taking).received().len() + part@.len() <= u64::MAX,
        checked.wf(),
        call_ensures(SecureFetch::check_size, (checked,), whole),
        finished.wf(),
        8 * finished.received().len() <= u64::MAX,
        call_ensures(SecureFetch::finish, (finished, status), fetched),
    ensures
        taken is Ok,
        final(taking).received() == old(taking).received() + part@,
        whole is Ok <==> checked.received().len() == checked.spec_expected(),
        whole matches Err(failure) ==> failure.kind is UnexpectedEof,
        fetched.bytes == finished.received().len(),
        fetched.sha256@ == security::sha256(finished.received()),
        fetched.status == status,
{
}

/// A file is fetched under a hidden name of its own: a dot, the name, and the digits of a nonce.
pub proof fn lemma_partial_names(name: Seq<char>, nonce: Seq<u8>)
    ensures
        text::starts(partial_text(name, nonce), seq!['.'] + name),
        text::ends(partial_text(name, nonce), text::hex_text(nonce, false) + ".part"@),
{
    reveal_strlit(".");
    let start = seq!['.'] + name;
    let end = text::hex_text(nonce, false) + ".part"@;
    assert(partial_text(name, nonce) =~= start + (".clipferry-"@ + end));
    assert(partial_text(name, nonce) =~= (start + ".clipferry-"@) + end);
    text::lemma_holds(Seq::empty(), start, ".clipferry-"@ + end);
    text::lemma_holds(start + ".clipferry-"@, end, Seq::empty());
}

/// Whether a line says a word of small letters: with whitespace around it or not, in letters of either
/// case.
pub open spec fn says(line: Seq<char>, word: Seq<char>) -> bool {
    let said = text::trimmed(line);
    &&& said.len() == word.len()
    &&& forall|k: int|
        0 <= k < word.len() ==> (#[trigger] said[k] == word[k] || said[k] as int == word[k] as int - 32)
}

proof fn lemma_says(line: Seq<char>, word: Seq<char>)
    requires
        forall|k: int| 0 <= k < word.len() ==> 'a' <= #[trigger] word[k] <= 'z',
    ensures
        (text::ascii_lowercase(text::trimmed(line)) == word) <==> says(line, word),
{
    let said = text::trimmed(line);
    let lower = text::ascii_lowercase(said);
    if lower == word {
        assert forall|k: int| 0 <= k < word.len() implies (#[trigger] said[k] == word[k] || said[k] as int
            == word[k] as int - 32) by {
            assert(lower[k] == text::ascii_lower(said[k]));
        }
    }
    if says(line, word) {
        assert forall|k: int| 0 <= k < word.len() implies lower[k] == word[k] by {
            assert(lower[k] == text::ascii_lower(said[k]));
            assert(said[k] == word[k] || said[k] as int == word[k] as int - 32);
        }
        assert(lower =~= word);
    }
}

/// Six words are commands, in letters of either case and with whitespace around them or not; a line of
/// nothing but whitespace says nothing, and any other is not known.
pub proof fn lemma_commands(line: Seq<char>)
    ensures
        command_of(line) is Pause <==> says(line, "pause"@),
        command_of(line) is Resume <==> says(line, "resume"@),
        command_of(line) is Cancel <==> says(line, "cancel"@),
        command_of(line) is Status <==> says(line, "status"@),
        command_of(line) is Stop <==> says(line, "stop"@),
        command_of(line) is Quit <==> says(line, "quit"@),
        command_of(line) is Empty <==> text::trimmed(line).len() == 0,
{
    reveal_strlit("pause");
    reveal_strlit("resume");
    reveal_strlit("cancel");
    reveal_strlit("status");
    reveal_strlit("stop");
    reveal_strlit("quit");
    lemma_says(line, "pause"@);
    lemma_says(line, "resume"@);
    lemma_says(line, "cancel"@);
    lemma_says(line, "status"@);
    lemma_says(line, "stop"@);
    lemma_says(line, "quit"@);
    assert("pause"@[0] != "resume"@[0]);
    assert("resume"@[0] != "cancel"@[0]);
    assert("cancel"@[0] != "status"@[0]);
    assert("resume"@[0] != "status"@[0]);
    assert("stop"@[0] != "quit"@[0]);
}

/// The probes that only watch know neither pausing nor resuming nor cancelling; only those with a
/// transfer of their own know how to stop. All know the rest.
pub proof fn lemma_known_commands(console: Console, line: &str, command: ConsoleCommand)
    requires
        call_ensures(console_command, (console, line), command),
    ensures
        ({
            let said = command_of(line@);
            &&& said is Quit || said is Status || said is Empty || said is Unknown ==> command == said
            &&& said is Pause || said is Resume || said is Cancel ==> command == if console is Observer {
                ConsoleCommand::Unknown
            } else {
                said
            }
            &&& said is Stop ==> command == if console is Transfer {
                said
            } else {
                ConsoleCommand::Unknown
            }
        }),
{
}

/// A command goes over the loopback connection as the request that it names; quitting cancels, and
/// stopping only asks for the state.
pub proof fn lemma_commands_are_sent(command: ConsoleCommand)
    ensures
        request_of(command) == Some(Opcode::Pause) <==> command is Pause,
        request_of(command) == Some(Opcode::Resume) <==> command is Resume,
        request_of(command) == Some(Opcode::Cancel) <==> command is Cancel || command is Quit,
        request_of(command) == Some(Opcode::Status) <==> command is Status || command is Stop,
        request_of(command) is None <==> command is Empty || command is Unknown,
{
}

/// A receiver quits whenever it is told to; anything else needs a transfer that was started, and is
/// then asked of it.
pub proof fn lemma_receivers_are_commanded(command: ConsoleCommand, started: bool, step: ReceiverStep)
    requires
        call_ensures(receiver_step, (command, started), step),
    ensures
        step is Quit <==> command is Quit,
        step is Ignore <==> command is Empty,
        step is NotStarted <==> !started && !(command is Quit) && !(command is Empty),
        step == (ReceiverStep::Send { request: ReceiverRequest::Pause }) <==> started && command is Pause,
        step == (ReceiverStep::Send { request: ReceiverRequest::Resume }) <==> started && command is Resume,
        step == (ReceiverStep::Send { request: ReceiverRequest::Cancel }) <==> started && command is Cancel,
        step == (ReceiverStep::Send { request: ReceiverRequest::Status }) <==> started && command is Status,
        step is Unknown <==> started && (command is Unknown || command is Stop),
{
}

/// A command to a probe with a transfer of its own pauses, resumes or cancels it, and tells how it then
/// stands; only quitting and stopping end the probe.
pub proof fn lemma_transfers_are_commanded(
    control: &mut TransferControl,
    command: ConsoleCommand,
    state: Option<TransferControlState>,
    ends: bool,
)
    requires
        call_ensures(control_transfer, (control, command), state),
        call_ensures(ends_probe, (command,), ends),
    ensures
        command is Cancel || command is Quit ==> final(control).state is Cancelled,
        command is Pause && !(old(control).state is Cancelled) ==> final(control).state is Paused,
        command is Resume && !(old(control).state is Cancelled) ==> final(control).state is Running,
        command is Status || command is Stop || command is Empty || command is Unknown ==> *final(control)
            == *old(control),
        final(control).bytes == old(control).bytes,
        state is None <==> command is Empty || command is Unknown,
        state matches Some(told) ==> told == final(control).state,
        ends <==> command is Quit || command is Stop,
{
}

/// A source waits for a second at a time, and never beyond its deadline.
pub proof fn lemma_sources_wait(now: u64, deadline: Option<u64>, wait: Option<u64>)
    requires
        call_ensures(source_wait, (now, deadline), wait),
    ensures
        wait is None <==> deadline is Some && now >= deadline->0,
        wait matches Some(pause) ==> pause <= 1_000_000_000 && (deadline is Some ==> now + pause
            <= deadline->0) && (pause == 1_000_000_000 || deadline is Some && now + pause == deadline->0),
{
}

} // verus!
