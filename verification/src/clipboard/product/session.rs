//! The session between this device and the paired one.

use super::progress;
use super::progress::{show, Observation, Speed, SpeedSample};
use super::summary::{ProductManifestSummary, ProductTransferSnapshot, ProductTransferState};
use crate::address::Endpoint;
use crate::app_settings;
use crate::app_settings::{validate_private_endpoint, AppSettings};
use crate::clipboard::local_file::capture::{CaptureError, CaptureRejection};
use crate::counter;
use crate::counter::count;
use crate::failure::{Failure, FailureKind};
use crate::security::CertificateFingerprint;
use crate::text;
use vstd::prelude::*;

verus! {

/// Most own offers that are kept at a time.
pub const MAX_LIVE_SOURCE_OFFERS: usize = 4;

/// How long an offer stands, in nanoseconds.
pub const OFFER_TTL: u64 = 900_000_000_000;

/// How long a transfer may take, in nanoseconds.
pub const TRANSFER_TTL: u64 = 3_600_000_000_000;

/// How long a step of a secure connection may take, in nanoseconds.
pub const TLS_TIMEOUT: u64 = 10_000_000_000;

/// Number of the message that tells of an event.
pub const PRODUCT_EVENT_MESSAGE: u32 = 0x8028;

/// Number of the message that tells of a command.
pub const PRODUCT_COMMAND_MESSAGE: u32 = 0x8029;

/// Number of the message that tells of a new clipboard.
pub const WM_CLIPBOARDUPDATE: u32 = 0x031D;

/// Number of the message that ends the loop.
pub const WM_QUIT: u32 = 0x0012;

/// Number of the message of a timer.
pub const WM_TIMER: u32 = 0x0113;

/// What a user asks for.
#[derive(Clone, Copy, Debug, PartialEq, Eq, Structural)]
pub enum ProductCommand {
    AcceptPending,
    Pause,
    Resume,
    Cancel,
}

/// Which way the transfer that is shown goes.
#[derive(Clone, Copy, Debug, PartialEq, Eq, Structural)]
pub enum TransferDirection {
    Source,
    Remote,
}

/// Where another device has an offer.
#[derive(Clone, Copy, Debug)]
pub struct OfferAnnouncement {
    pub endpoint: Endpoint,
    pub peer: CertificateFingerprint,
}

/// What the application shows of the session.
#[derive(Debug)]
pub struct ProductSnapshot {
    pub listener_running: bool,
    pub local_endpoint: Endpoint,
    pub active_peer_label: String,
    pub active_peer: CertificateFingerprint,
    pub auto_receive: bool,
    pub pending_offer: bool,
    pub last_manifest: Option<ProductManifestSummary>,
    pub transfer: Option<ProductTransferSnapshot>,
    pub transfer_generation: u64,
    pub last_error: Option<String>,
}

impl ProductSnapshot {
    /// What is shown before anything happened.
    pub fn initial(settings: &AppSettings, peer_label: String) -> (snapshot: Self)
        ensures
            snapshot == (ProductSnapshot {
                listener_running: false,
                local_endpoint: settings.local_endpoint,
                active_peer_label: peer_label,
                active_peer: settings.active_peer,
                auto_receive: settings.auto_receive,
                pending_offer: false,
                last_manifest: None,
                transfer: None,
                transfer_generation: 0,
                last_error: None,
            }),
    {
        ProductSnapshot {
            listener_running: false,
            local_endpoint: settings.local_endpoint,
            active_peer_label: peer_label,
            active_peer: settings.active_peer,
            auto_receive: settings.auto_receive,
            pending_offer: false,
            last_manifest: None,
            transfer: None,
            transfer_generation: 0,
            last_error: None,
        }
    }
}

/// What went wrong.
#[derive(Clone, Copy, Debug, PartialEq, Eq, Structural)]
pub enum ProductError {
    WorkerStopped,
    PublishFailed,
    NotSent,
    ReadFailed,
    WrongPeer,
    AutoReceiveFailed,
    AnnouncementFailed,
    ControlFailed,
}

impl ProductError {
    /// The words before the details.
    pub open spec fn spec_lead(self) -> Seq<char> {
        match self {
            ProductError::WorkerStopped => "后台服务已停止："@,
            ProductError::PublishFailed => "本机文件清单发布失败："@,
            ProductError::NotSent => "本机文件剪贴板未发送："@,
            ProductError::ReadFailed => "读取本机剪贴板失败："@,
            ProductError::WrongPeer => "收到非活动设备的 Offer，已拒绝"@,
            ProductError::AutoReceiveFailed => "自动接收远端清单失败："@,
            ProductError::AnnouncementFailed => "无法通知对端设备："@,
            ProductError::ControlFailed => "传输控制失败："@,
        }
    }

    /// The words before the details.
    pub fn lead(self) -> (lead: &'static str)
        ensures
            lead@ == self.spec_lead(),
    {
        match self {
            ProductError::WorkerStopped => "后台服务已停止：",
            ProductError::PublishFailed => "本机文件清单发布失败：",
            ProductError::NotSent => "本机文件剪贴板未发送：",
            ProductError::ReadFailed => "读取本机剪贴板失败：",
            ProductError::WrongPeer => "收到非活动设备的 Offer，已拒绝",
            ProductError::AutoReceiveFailed => "自动接收远端清单失败：",
            ProductError::AnnouncementFailed => "无法通知对端设备：",
            ProductError::ControlFailed => "传输控制失败：",
        }
    }
}

/// What the user is told of a file with further data streams.
pub const STREAMS_REFUSED: &'static str = "所选内容包含 NTFS 附加数据流（通常是 Windows 的下载来源标记）。当前虚拟粘贴无法在目标端安全保留该标记，因此已停止发送；请先确认来源并在文件属性中解除锁定后重试。";

/// What the user is told of files that could not be captured, given the words of the system for
/// its code.
pub fn capture_refusal(error: CaptureError, system_text: &str) -> (detail: String)
    ensures
        detail@ == if error == (CaptureError::Rejected {
            reason: CaptureRejection::AlternateDataStream,
        }) {
            STREAMS_REFUSED@
        } else {
            error.sentence(system_text@)
        },
{
    match error {
        CaptureError::Rejected { reason: CaptureRejection::AlternateDataStream } => {
            let mut detail = String::new();
            text::push_text(&mut detail, STREAMS_REFUSED);
            assert(detail@ =~= STREAMS_REFUSED@);
            detail
        },
        _ => error.message(system_text),
    }
}

/// Whether a change of the clipboard is new, and the number of the last one that was. A change
/// without a number is always new.
pub open spec fn claimed(last_sequence: Option<u32>, observed_sequence: u32) -> (
    Option<u32>,
    bool,
) {
    if observed_sequence == 0 {
        (last_sequence, true)
    } else if last_sequence == Some(observed_sequence) {
        (last_sequence, false)
    } else {
        (Some(observed_sequence), true)
    }
}

/// Whether a change of the clipboard is new; it is then no longer.
pub fn claim_clipboard_sequence(last_sequence: &mut Option<u32>, observed_sequence: u32) -> (new:
    bool)
    ensures
        (*final(last_sequence), new) == claimed(*old(last_sequence), observed_sequence),
{
    if observed_sequence == 0 {
        return true;
    }
    match *last_sequence {
        Some(last) => {
            if last == observed_sequence {
                return false;
            }
        },
        None => {},
    }
    *last_sequence = Some(observed_sequence);
    true
}

/// What the loop of the session does with a message.
#[derive(Clone, Copy, Debug, PartialEq, Eq, Structural)]
pub enum WorkerAction {
    /// The queue failed.
    Fail,
    /// End the loop.
    Quit,
    /// Look at the clipboard.
    Clipboard,
    /// Handle the events.
    Events,
    /// Handle the commands.
    Commands,
    /// Look at the progress.
    Refresh,
    /// Hand the message on.
    Dispatch,
}

/// What the loop of the session does with a message. `own_window` and `own_timer` say that the
/// message is for the window, or from the timer, of the session.
pub fn route_message(status: i32, message: u32, own_window: bool, own_timer: bool) -> (action:
    WorkerAction)
    ensures
        action == if status == -1 {
            WorkerAction::Fail
        } else if status == 0 || message == WM_QUIT {
            WorkerAction::Quit
        } else if message == WM_CLIPBOARDUPDATE && own_window {
            WorkerAction::Clipboard
        } else if message == PRODUCT_EVENT_MESSAGE {
            WorkerAction::Events
        } else if message == PRODUCT_COMMAND_MESSAGE {
            WorkerAction::Commands
        } else if message == WM_TIMER && own_timer {
            WorkerAction::Refresh
        } else {
            WorkerAction::Dispatch
        },
{
    if status == -1 {
        return WorkerAction::Fail;
    }
    if status == 0 || message == WM_QUIT {
        return WorkerAction::Quit;
    }
    if message == WM_CLIPBOARDUPDATE && own_window {
        WorkerAction::Clipboard
    } else if message == PRODUCT_EVENT_MESSAGE {
        WorkerAction::Events
    } else if message == PRODUCT_COMMAND_MESSAGE {
        WorkerAction::Commands
    } else if message == WM_TIMER && own_timer {
        WorkerAction::Refresh
    } else {
        WorkerAction::Dispatch
    }
}

/// What is next after the user cancelled.
#[derive(Clone, Copy, Debug, PartialEq, Eq, Structural)]
pub enum CancelStep {
    /// Nothing was begun: give up the clipboard.
    DropOffer,
    /// Cancel every file that was begun.
    CancelAll,
}

/// The session.
#[derive(Debug)]
pub struct ProductSession {
    pub settings: AppSettings,
    pub snapshot: ProductSnapshot,
    pub live_sources: usize,
    pub pending: Option<OfferAnnouncement>,
    pub has_remote: bool,
    pub active_direction: Option<TransferDirection>,
    pub last_clipboard_sequence: Option<u32>,
    pub sample: SpeedSample,
}

/// What is shown of a transfer that waits for its paste.
pub open spec fn awaiting(total_size: u64, total_files: usize) -> ProductTransferSnapshot {
    ProductTransferSnapshot {
        state: ProductTransferState::AwaitingPaste,
        transferred: 0,
        total_size,
        bytes_per_second: 0,
        average_bytes_per_second: 0,
        started_files: 0,
        total_files,
        current_file_name: None,
        current_file_transferred: 0,
        current_file_size: 0,
        reconnect_attempts: 0,
        recovered_commands: 0,
        recovery_active: false,
    }
}

fn wait_for_paste(total_size: u64, total_files: usize) -> (snapshot: ProductTransferSnapshot)
    ensures
        snapshot == awaiting(total_size, total_files),
{
    ProductTransferSnapshot {
        state: ProductTransferState::AwaitingPaste,
        transferred: 0,
        total_size,
        bytes_per_second: 0,
        average_bytes_per_second: 0,
        started_files: 0,
        total_files,
        current_file_name: None,
        current_file_transferred: 0,
        current_file_size: 0,
        reconnect_attempts: 0,
        recovered_commands: 0,
        recovery_active: false,
    }
}

impl ProductSession {
    /// Whether no more own offers are kept than may be, an offer is shown as waiting exactly
    /// where one waits, and a transfer that is followed has an offer behind it and is shown.
    pub open spec fn wf(&self) -> bool {
        &&& self.live_sources <= MAX_LIVE_SOURCE_OFFERS
        &&& self.snapshot.pending_offer == (self.pending is Some)
        &&& match self.active_direction {
            None => true,
            Some(TransferDirection::Source) => self.live_sources > 0,
            Some(TransferDirection::Remote) => self.has_remote,
        }
        &&& self.active_direction is Some ==> self.snapshot.transfer is Some
            && self.snapshot.last_manifest is Some
    }

    pub fn new(settings: AppSettings, peer_label: String, now: u64) -> (session: Self)
        ensures
            session.wf(),
            session.settings == settings,
            session.snapshot.active_peer_label == peer_label,
            session.snapshot.local_endpoint == settings.local_endpoint,
            session.snapshot.active_peer == settings.active_peer,
            session.snapshot.auto_receive == settings.auto_receive,
            !session.snapshot.listener_running && !session.snapshot.pending_offer,
            session.snapshot.last_manifest is None,
            session.snapshot.transfer is None,
            session.snapshot.transfer_generation == 0,
            session.snapshot.last_error is None,
            session.live_sources == 0,
            session.pending is None,
            !session.has_remote,
            session.active_direction is None,
            session.last_clipboard_sequence is None,
            session.sample == SpeedSample::fresh(now),
    {
        ProductSession {
            settings,
            snapshot: ProductSnapshot::initial(&settings, peer_label),
            live_sources: 0,
            pending: None,
            has_remote: false,
            active_direction: None,
            last_clipboard_sequence: None,
            sample: SpeedSample::new(now),
        }
    }

    /// Says whether the session listens for announcements.
    pub fn set_listening(&mut self, running: bool)
        ensures
            old(self).wf() ==> final(self).wf(),
            *final(self) == (ProductSession {
                snapshot: ProductSnapshot { listener_running: running, ..old(self).snapshot },
                ..*old(self)
            }),
    {
        self.snapshot.listener_running = running;
    }

    /// Whether a change of the clipboard is to be looked at. It is claimed before the clipboard
    /// is read, so that it is looked at once whatever the reading gives.
    pub fn note_clipboard_update(&mut self, observed_sequence: u32, owns_clipboard: bool) -> (look:
        bool)
        ensures
            old(self).wf() ==> final(self).wf(),
            ({
                let (last, new) = claimed(old(self).last_clipboard_sequence, observed_sequence);
                &&& *final(self) == (ProductSession {
                    last_clipboard_sequence: last,
                    ..*old(self)
                })
                &&& look == (new && !(old(self).has_remote && owns_clipboard))
            }),
    {
        let new = claim_clipboard_sequence(&mut self.last_clipboard_sequence, observed_sequence);
        new && !(self.has_remote && owns_clipboard)
    }

    /// Notes the number of the clipboard that files were captured from.
    pub fn note_capture(&mut self, sequence: u32)
        ensures
            old(self).wf() ==> final(self).wf(),
            *final(self) == (ProductSession {
                last_clipboard_sequence: if sequence != 0 {
                    Some(sequence)
                } else {
                    old(self).last_clipboard_sequence
                },
                ..*old(self)
            }),
    {
        if sequence != 0 {
            self.last_clipboard_sequence = Some(sequence);
        }
    }

    /// Shows an own offer that was published; whether the oldest own offer is to go.
    pub fn published(&mut self, summary: ProductManifestSummary, now: u64) -> (drop_oldest: bool)
        requires
            old(self).wf(),
        ensures
            final(self).wf(),
            drop_oldest == (old(self).live_sources == MAX_LIVE_SOURCE_OFFERS),
            *final(self) == (ProductSession {
                snapshot: ProductSnapshot {
                    last_manifest: Some(summary),
                    transfer: Some(awaiting(summary.total_size, summary.files)),
                    transfer_generation: counter::counted(
                        old(self).snapshot.transfer_generation,
                        1,
                    ),
                    last_error: None,
                    ..old(self).snapshot
                },
                live_sources: if old(self).live_sources == MAX_LIVE_SOURCE_OFFERS {
                    old(self).live_sources
                } else {
                    (old(self).live_sources + 1) as usize
                },
                active_direction: Some(TransferDirection::Source),
                sample: SpeedSample::fresh(now),
                ..*old(self)
            }),
    {
        let total_size: u64 = summary.total_size;
        let total_files: usize = summary.files;
        let drop_oldest = self.live_sources == MAX_LIVE_SOURCE_OFFERS;
        if !drop_oldest {
            self.live_sources += 1;
        }
        self.active_direction = Some(TransferDirection::Source);
        self.snapshot.last_manifest = Some(summary);
        self.snapshot.transfer_generation = count(self.snapshot.transfer_generation);
        self.snapshot.transfer = Some(wait_for_paste(total_size, total_files));
        self.snapshot.last_error = None;
        self.sample = SpeedSample::new(now);
        drop_oldest
    }

    /// Shows an error.
    pub fn set_error(&mut self, error: ProductError, detail: &str)
        ensures
            old(self).wf() ==> final(self).wf(),
            final(self).snapshot.last_error matches Some(message) && message@ == error.spec_lead()
                + detail@,
            *final(self) == (ProductSession {
                snapshot: ProductSnapshot {
                    last_error: final(self).snapshot.last_error,
                    ..old(self).snapshot
                },
                ..*old(self)
            }),
    {
        let mut message = String::new();
        text::push_text(&mut message, error.lead());
        text::push_text(&mut message, detail);
        assert(message@ =~= error.spec_lead() + detail@);
        self.snapshot.last_error = Some(message);
    }

    /// Takes an announcement; whether it is accepted at once. One of another device than the
    /// selected one is refused.
    pub fn note_offer(&mut self, announcement: OfferAnnouncement) -> (accept: bool)
        ensures
            old(self).wf() ==> final(self).wf(),
            if announcement.peer != old(self).settings.active_peer {
                &&& !accept
                &&& final(self).snapshot.last_error matches Some(message) && message@
                    == ProductError::WrongPeer.spec_lead()
                &&& *final(self) == (ProductSession {
                    snapshot: ProductSnapshot {
                        last_error: final(self).snapshot.last_error,
                        ..old(self).snapshot
                    },
                    ..*old(self)
                })
            } else {
                &&& accept == old(self).settings.auto_receive
                &&& *final(self) == (ProductSession {
                    pending: Some(announcement),
                    snapshot: ProductSnapshot { pending_offer: true, ..old(self).snapshot },
                    ..*old(self)
                })
            },
    {
        if announcement.peer != self.settings.active_peer {
            self.set_error(ProductError::WrongPeer, "");
            proof {
                reveal_strlit("");
                assert(ProductError::WrongPeer.spec_lead() + ""@
                    =~= ProductError::WrongPeer.spec_lead());
            }
            return false;
        }
        self.pending = Some(announcement);
        self.snapshot.pending_offer = true;
        self.settings.auto_receive
    }

    /// Notes that an announcement arrived.
    pub fn announcement_sent(&mut self)
        ensures
            old(self).wf() ==> final(self).wf(),
            *final(self) == (ProductSession {
                snapshot: ProductSnapshot { last_error: None, ..old(self).snapshot },
                ..*old(self)
            }),
    {
        self.snapshot.last_error = None;
    }

    /// Where the offer that waits can be had.
    pub fn pending_endpoint(&self) -> (result: Result<Endpoint, Failure>)
        ensures
            result == (match self.pending {
                None => Err::<Endpoint, Failure>(
                    Failure::new(FailureKind::NotFound, "当前没有待接收清单"),
                ),
                Some(announcement) => match app_settings::endpoint_outcome(announcement.endpoint) {
                    Err(failure) => Err(failure),
                    Ok(_) => Ok(announcement.endpoint),
                },
            }),
    {
        match self.pending {
            None => Err(Failure::new(FailureKind::NotFound, "当前没有待接收清单")),
            Some(announcement) => match validate_private_endpoint(announcement.endpoint) {
                Err(failure) => Err(failure),
                Ok(_) => Ok(announcement.endpoint),
            },
        }
    }

    /// Shows the offer that waited, now that it is on the clipboard.
    pub fn accepted(&mut self, summary: ProductManifestSummary, now: u64)
        ensures
            old(self).wf() ==> final(self).wf(),
            *final(self) == (ProductSession {
                snapshot: ProductSnapshot {
                    pending_offer: false,
                    last_manifest: Some(summary),
                    transfer: Some(awaiting(summary.total_size, summary.files)),
                    transfer_generation: counter::counted(
                        old(self).snapshot.transfer_generation,
                        1,
                    ),
                    last_error: None,
                    ..old(self).snapshot
                },
                pending: None,
                has_remote: true,
                active_direction: Some(TransferDirection::Remote),
                sample: SpeedSample::fresh(now),
                ..*old(self)
            }),
    {
        let total_size: u64 = summary.total_size;
        let total_files: usize = summary.files;
        self.has_remote = true;
        self.active_direction = Some(TransferDirection::Remote);
        self.pending = None;
        self.sample = SpeedSample::new(now);
        self.snapshot.pending_offer = false;
        self.snapshot.last_manifest = Some(summary);
        self.snapshot.transfer_generation = count(self.snapshot.transfer_generation);
        self.snapshot.transfer = Some(wait_for_paste(total_size, total_files));
        self.snapshot.last_error = None;
    }

    /// Whether there is an offer of another device to pause or resume.
    pub fn check_remote(&self) -> (result: Result<(), Failure>)
        ensures
            result == if self.has_remote {
                Ok::<(), Failure>(())
            } else {
                Err(Failure::new(FailureKind::NotConnected, "当前没有远端剪贴板"))
            },
    {
        if !self.has_remote {
            return Err(Failure::new(FailureKind::NotConnected, "当前没有远端剪贴板"));
        }
        Ok(())
    }

    /// Cancels the offer of another device, of which so many files were begun.
    pub fn cancel_remote(&mut self, started_transfers: usize) -> (result: Result<
        CancelStep,
        Failure,
    >)
        ensures
            old(self).wf() ==> final(self).wf(),
            if !old(self).has_remote {
                &&& result == Err::<CancelStep, Failure>(
                    Failure::new(FailureKind::NotConnected, "当前没有远端剪贴板"),
                )
                &&& *final(self) == *old(self)
            } else if started_transfers == 0 {
                &&& result == Ok::<CancelStep, Failure>(CancelStep::DropOffer)
                &&& *final(self) == (ProductSession {
                    has_remote: false,
                    active_direction: None,
                    snapshot: ProductSnapshot {
                        transfer: match old(self).snapshot.transfer {
                            None => None,
                            Some(transfer) => Some(
                                ProductTransferSnapshot {
                                    state: ProductTransferState::Cancelled,
                                    bytes_per_second: 0,
                                    ..transfer
                                },
                            ),
                        },
                        ..old(self).snapshot
                    },
                    ..*old(self)
                })
            } else {
                &&& result == Ok::<CancelStep, Failure>(CancelStep::CancelAll)
                &&& *final(self) == *old(self)
            },
    {
        if !self.has_remote {
            return Err(Failure::new(FailureKind::NotConnected, "当前没有远端剪贴板"));
        }
        if started_transfers != 0 {
            return Ok(CancelStep::CancelAll);
        }
        self.has_remote = false;
        self.active_direction = None;
        match self.snapshot.transfer.take() {
            None => {},
            Some(mut transfer) => {
                transfer.state = ProductTransferState::Cancelled;
                transfer.bytes_per_second = 0;
                self.snapshot.transfer = Some(transfer);
            },
        }
        Ok(CancelStep::DropOffer)
    }

    /// How the transfer that is shown stands: what was received or what was sent, by its direction.
    pub fn observed(&self, received: Option<Observation>, sent: Option<Observation>) -> (observation:
        Observation)
        ensures
            match (self.active_direction, received, sent) {
                (Some(TransferDirection::Remote), Some(received), _) => observation == received,
                (Some(TransferDirection::Source), _, Some(sent)) => observation == sent,
                _ => observation == Observation::nothing(),
            },
    {
        match (self.active_direction, received, sent) {
            (Some(TransferDirection::Remote), Some(received), _) => received,
            (Some(TransferDirection::Source), _, Some(sent)) => sent,
            _ => Observation::none(),
        }
    }

    /// Shows how far the transfer has come. Nothing changes where none is shown.
    pub fn refresh_progress(&mut self, observation: Observation, now: u64)
        ensures
            old(self).wf() ==> final(self).wf(),
            if old(self).active_direction is None {
                *final(self) == *old(self)
            } else {
                let sample = old(self).sample.sampled(now, observation.bytes, observation.state);
                let speed = sample.speed(now, observation.bytes, observation.state);
                *final(self) == (ProductSession {
                    sample,
                    snapshot: ProductSnapshot {
                        transfer: match old(self).snapshot.transfer {
                            None => None,
                            Some(_) => Some(progress::shown(observation, speed)),
                        },
                        ..old(self).snapshot
                    },
                    ..*old(self)
                })
            },
    {
        if self.active_direction.is_none() {
            return ;
        }
        let speed = self.sample.advance(now, observation.bytes, observation.state);
        if self.snapshot.transfer.is_some() {
            self.snapshot.transfer = Some(show(observation, speed));
        }
    }
}

/// One change of the clipboard is looked at once: whatever comes of looking, the same change is
/// not new again, and another one is.
pub proof fn lemma_sequence_is_claimed_once(last_sequence: Option<u32>, observed: u32, next: u32)
    requires
        observed != 0,
    ensures
        ({
            let (last, _) = claimed(last_sequence, observed);
            &&& last == Some(observed)
            &&& !claimed(last, observed).1
            &&& next != observed ==> claimed(last, next).1
        }),
{
}

/// Offers stand for a quarter of an hour and transfers for an hour, a connection is waited for ten
/// seconds, and four offers are kept.
pub proof fn lemma_times_of_offers()
    ensures
        OFFER_TTL == 15 * 60 * 1_000_000_000,
        TRANSFER_TTL == 60 * 60 * 1_000_000_000,
        TLS_TIMEOUT == 10 * 1_000_000_000,
        MAX_LIVE_SOURCE_OFFERS == 4,
        PRODUCT_EVENT_MESSAGE == 0x8000 + 40 && PRODUCT_COMMAND_MESSAGE == 0x8000 + 41,
        WM_CLIPBOARDUPDATE == 797 && WM_QUIT == 18 && WM_TIMER == 275,
{
}

} // verus!
