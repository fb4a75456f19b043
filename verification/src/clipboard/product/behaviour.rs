//! What a user sees of the application: which offers are taken, what is shown of a transfer and how
//! fast it is, and how long a device tries to reach another.

use super::announce;
use super::announce::AnnouncementRetry;
use super::progress;
use super::progress::{Observation, RemoteProgress, SpeedSample};
use super::session;
use super::session::{
    CancelStep, OfferAnnouncement, ProductError, ProductSession, TransferDirection, WorkerAction,
};
use super::summary;
use super::summary::{ProductManifestSummary, ProductTransferSnapshot, ProductTransferState};
use crate::address;
use crate::address::{Endpoint, IpAddress};
use crate::bytes;
use crate::clipboard::secure_transfer::manifest::{EntryView, OfferManifest};
use crate::clipboard::secure_transfer::model::SecureMetricsSnapshot;
use crate::failure::{Failure, FailureKind};
use vstd::prelude::*;

verus! {

/// An offer of another device than the selected one is refused and only said to be; one of the
/// selected device waits, and is accepted at once where the user wants that.
pub proof fn lemma_offers_of_the_peer_are_taken(
    session: &mut ProductSession,
    announcement: OfferAnnouncement,
    accept: bool,
)
    requires
        call_ensures(ProductSession::note_offer, (session, announcement), accept),
    ensures
        final(session).settings == old(session).settings,
        final(session).live_sources == old(session).live_sources,
        final(session).has_remote == old(session).has_remote,
        final(session).active_direction == old(session).active_direction,
        final(session).snapshot.transfer == old(session).snapshot.transfer,
        final(session).snapshot.last_manifest == old(session).snapshot.last_manifest,
        announcement.peer == old(session).settings.active_peer ==> {
            &&& accept == old(session).settings.auto_receive
            &&& final(session).pending == Some(announcement)
            &&& final(session).snapshot.pending_offer
            &&& final(session).snapshot.last_error == old(session).snapshot.last_error
        },
        announcement.peer != old(session).settings.active_peer ==> {
            &&& !accept
            &&& final(session).pending == old(session).pending
            &&& final(session).snapshot.pending_offer == old(session).snapshot.pending_offer
            &&& final(session).snapshot.last_error matches Some(message) && message@
                == "收到非活动设备的 Offer，已拒绝"@
        },
{
}

/// An own offer that was published is shown as waiting for its paste, with nothing transferred.
/// No more than four of them are kept: the oldest goes for the fifth.
pub proof fn lemma_own_offers_are_shown(
    session: &mut ProductSession,
    summary: ProductManifestSummary,
    now: u64,
    drop_oldest: bool,
)
    requires
        old(session).wf(),
        call_ensures(ProductSession::published, (session, summary, now), drop_oldest),
    ensures
        old(session).live_sources < 4 ==> !drop_oldest && final(session).live_sources == old(
            session,
        ).live_sources + 1,
        old(session).live_sources == 4 ==> drop_oldest && final(session).live_sources == 4,
        old(session).live_sources <= 4,
        final(session).active_direction == Some(TransferDirection::Source),
        final(session).snapshot.last_manifest == Some(summary),
        waits_for_paste(final(session).snapshot.transfer, summary),
        final(session).snapshot.transfer_generation == (old(session).snapshot.transfer_generation + 1)
            % 0x1_0000_0000_0000_0000,
        final(session).snapshot.last_error is None,
        final(session).pending == old(session).pending,
        final(session).has_remote == old(session).has_remote,
{
}

/// Whether a transfer is shown that waits for its paste, with nothing transferred yet.
pub open spec fn waits_for_paste(
    transfer: Option<ProductTransferSnapshot>,
    summary: ProductManifestSummary,
) -> bool {
    &&& transfer matches Some(transfer)
    &&& transfer.state is AwaitingPaste
    &&& transfer.transferred == 0 && transfer.current_file_transferred == 0
    &&& transfer.bytes_per_second == 0 && transfer.average_bytes_per_second == 0
    &&& transfer.total_size == summary.total_size
    &&& transfer.total_files == summary.files
    &&& transfer.started_files == 0
    &&& transfer.current_file_name is None && transfer.current_file_size == 0
    &&& transfer.reconnect_attempts == 0 && transfer.recovered_commands == 0
    &&& !transfer.recovery_active
}

/// An offer of the other device that is on the clipboard waits no longer, and is shown in place of
/// what was shown before.
pub proof fn lemma_accepted_offers_are_shown(
    session: &mut ProductSession,
    summary: ProductManifestSummary,
    now: u64,
)
    requires
        call_ensures(ProductSession::accepted, (session, summary, now), ()),
    ensures
        final(session).pending is None,
        !final(session).snapshot.pending_offer,
        final(session).has_remote,
        final(session).active_direction == Some(TransferDirection::Remote),
        final(session).snapshot.last_manifest == Some(summary),
        waits_for_paste(final(session).snapshot.transfer, summary),
        final(session).snapshot.transfer_generation == (old(session).snapshot.transfer_generation + 1)
            % 0x1_0000_0000_0000_0000,
        final(session).snapshot.last_error is None,
        final(session).live_sources == old(session).live_sources,
        final(session).sample.smoothed_speed == 0,
        final(session).sample.transfer_started_at is None,
{
}

/// Cancelling before any file was begun gives the offer up and shows that; thereafter it cancels
/// each file and leaves the rest to them. Without an offer there is nothing to cancel.
pub proof fn lemma_cancelling(
    session: &mut ProductSession,
    started: usize,
    result: Result<CancelStep, Failure>,
)
    requires
        call_ensures(ProductSession::cancel_remote, (session, started), result),
    ensures
        !old(session).has_remote ==> result is Err && result->Err_0.kind is NotConnected,
        old(session).has_remote ==> result is Ok && (result->Ok_0 is DropOffer <==> started == 0),
        !old(session).has_remote || started > 0 ==> *final(session) == *old(session),
        old(session).has_remote && started == 0 ==> {
            &&& !final(session).has_remote
            &&& final(session).active_direction is None
            &&& final(session).pending == old(session).pending
            &&& final(session).snapshot.last_manifest == old(session).snapshot.last_manifest
            &&& old(session).snapshot.transfer matches Some(before) ==> {
                &&& final(session).snapshot.transfer matches Some(after)
                &&& after.state is Cancelled
                &&& after.bytes_per_second == 0
                &&& after.transferred == before.transferred
                &&& after.total_size == before.total_size
                &&& after.average_bytes_per_second == before.average_bytes_per_second
            }
        },
{
}

/// Pausing and resuming need an offer of the other device.
pub proof fn lemma_control_needs_an_offer(session: &ProductSession, result: Result<(), Failure>)
    requires
        call_ensures(ProductSession::check_remote, (session,), result),
    ensures
        result is Ok <==> session.has_remote,
        result matches Err(failure) ==> failure.kind is NotConnected,
{
}

/// The offer that waits is fetched from where it was announced, and only from this device itself or
/// the local network.
pub proof fn lemma_pending_offers_are_fetched(
    session: &ProductSession,
    result: Result<Endpoint, Failure>,
)
    requires
        call_ensures(ProductSession::pending_endpoint, (session,), result),
    ensures
        session.pending is None ==> (result matches Err(failure) && failure.kind is NotFound),
        session.pending matches Some(announcement) ==> (result is Ok <==> announcement.endpoint.port != 0
            && address::local_by_bytes(announcement.endpoint.ip)),
        session.pending matches Some(announcement) ==> result is Ok ==> result->Ok_0
            == announcement.endpoint,
{
    if let Some(announcement) = session.pending {
        address::lemma_near_addresses(announcement.endpoint.ip);
    }
}

/// A change of the clipboard is looked at unless it was looked at before, or the clipboard holds
/// what this device put there for the other one.
pub proof fn lemma_clipboard_changes_are_looked_at(
    session: &mut ProductSession,
    number: u32,
    own: bool,
    look: bool,
)
    requires
        call_ensures(ProductSession::note_clipboard_update, (session, number, own), look),
    ensures
        look <==> !(own && old(session).has_remote) && (number == 0 || old(session).last_clipboard_sequence
            != Some(number)),
        final(session).last_clipboard_sequence == if number == 0 {
            old(session).last_clipboard_sequence
        } else {
            Some(number)
        },
        final(session).snapshot == old(session).snapshot,
        final(session).pending == old(session).pending,
        final(session).live_sources == old(session).live_sources,
{
}

/// Files that were captured from a clipboard with a number are not captured from it again.
pub proof fn lemma_captures_are_noted(session: &mut ProductSession, number: u32)
    requires
        call_ensures(ProductSession::note_capture, (session, number), ()),
    ensures
        number != 0 ==> !session::claimed(final(session).last_clipboard_sequence, number).1,
        number == 0 ==> final(session).last_clipboard_sequence == old(session).last_clipboard_sequence,
        final(session).snapshot == old(session).snapshot,
        final(session).pending == old(session).pending,
{
}

/// What is shown of a transfer is how it stands in its own direction: what was received of an offer
/// of the other device, what was sent of an own one.
pub proof fn lemma_progress_is_followed(
    session: &ProductSession,
    received: Option<Observation>,
    sent: Option<Observation>,
    observation: Observation,
)
    requires
        call_ensures(ProductSession::observed, (session, received, sent), observation),
    ensures
        session.active_direction == Some(TransferDirection::Remote) && received is Some ==> observation
            == received->0,
        session.active_direction == Some(TransferDirection::Source) && sent is Some ==> observation
            == sent->0,
        session.active_direction is None ==> observation.bytes == 0 && observation.total_size == 0
            && observation.state is AwaitingPaste,
{
}

/// Looking at a transfer shows its state, its bytes, its files and its speed, and nothing where none
/// is followed.
pub proof fn lemma_progress_is_shown(session: &mut ProductSession, observation: Observation, now: u64)
    requires
        call_ensures(ProductSession::refresh_progress, (session, observation, now), ()),
    ensures
        old(session).active_direction is None ==> *final(session) == *old(session),
        final(session).snapshot.last_manifest == old(session).snapshot.last_manifest,
        final(session).snapshot.transfer_generation == old(session).snapshot.transfer_generation,
        final(session).snapshot.last_error == old(session).snapshot.last_error,
        old(session).active_direction is Some && old(session).snapshot.transfer is Some ==> {
            &&& final(session).snapshot.transfer matches Some(shown)
            &&& shown.state == observation.state
            &&& shown.transferred == observation.bytes
            &&& shown.total_size == observation.total_size
            &&& shown.started_files == observation.started_files
            &&& shown.total_files == observation.total_files
            &&& shown.reconnect_attempts == observation.reconnect_attempts
            &&& shown.recovered_commands == observation.recovered_commands
            &&& shown.recovery_active == observation.recovery_active
            &&& observation.current_file matches Some(file) ==> shown.current_file_name == Some(file.name)
                && shown.current_file_transferred == file.transferred && shown.current_file_size
                == file.size
            &&& observation.current_file is None ==> shown.current_file_name is None
            &&& !(observation.state is Running) ==> shown.bytes_per_second == 0
            &&& final(session).sample.last_sample_at == now
            &&& final(session).sample.last_sample_bytes == observation.bytes
        },
{
}

/// Whether the device listens, and what went wrong, are shown and change nothing else.
pub proof fn lemma_words_are_shown(
    session: &mut ProductSession,
    error: ProductError,
    detail: &str,
)
    requires
        call_ensures(ProductSession::set_error, (session, error, detail), ()),
    ensures
        final(session).snapshot.last_error matches Some(message) && message@ == error.spec_lead()
            + detail@,
        final(session).snapshot.transfer == old(session).snapshot.transfer,
        final(session).snapshot.transfer_generation == old(session).snapshot.transfer_generation,
        final(session).pending == old(session).pending,
        final(session).active_direction == old(session).active_direction,
{
}

/// An announcement that arrived takes back what was said to have gone wrong, and changes nothing
/// else.
pub proof fn lemma_success_is_shown(session: &mut ProductSession)
    requires
        call_ensures(ProductSession::announcement_sent, (session,), ()),
    ensures
        final(session).snapshot.last_error is None,
        final(session).snapshot.transfer == old(session).snapshot.transfer,
        final(session).snapshot.last_manifest == old(session).snapshot.last_manifest,
        final(session).pending == old(session).pending,
        final(session).active_direction == old(session).active_direction,
{
}

/// The messages that a session acts on: those of the clipboard to its own window, those of its timer,
/// and two of its own. A queue that ends or fails ends it.
pub proof fn lemma_messages_are_routed(
    status: i32,
    message: u32,
    own_window: bool,
    own_timer: bool,
    action: WorkerAction,
)
    requires
        call_ensures(session::route_message, (status, message, own_window, own_timer), action),
    ensures
        status == -1 <==> action is Fail,
        status == 0 || (status != -1 && message == 18) <==> action is Quit,
        status > 0 && message == 797 && own_window <==> status > 0 && action is Clipboard,
        status > 0 && message == 32_808 <==> status > 0 && action is Events,
        status > 0 && message == 32_809 <==> status > 0 && action is Commands,
        status > 0 && message == 275 && own_timer <==> status > 0 && action is Refresh,
{
}

/// The states of a transfer that is received: cancelled or paused as the user wants it, complete once
/// each of its files came, running from the first of them on.
pub proof fn lemma_states_when_receiving(progress: RemoteProgress, files: usize)
    ensures
        ({
            let state = progress::received_state(progress, files);
            let stopped = progress.cancelled || progress.paused;
            let all = files > 0 && progress.completed_transfers == files;
            &&& state is Cancelled <==> progress.cancelled
            &&& state is Paused <==> progress.paused && !progress.cancelled
            &&& state is Completed <==> !stopped && all
            &&& state is Running <==> !stopped && !all && progress.started_transfers > 0
            &&& state is AwaitingPaste <==> !stopped && !all && progress.started_transfers == 0
        }),
{
}

/// The states of a transfer that is sent: cancelled once any of it was, complete once each of its
/// bytes was served, running from the first file on.
pub proof fn lemma_states_when_sending(metrics: SecureMetricsSnapshot, total_size: u64)
    ensures
        ({
            let state = progress::sent_state(metrics, total_size);
            let all = total_size > 0 && metrics.unique_bytes >= total_size;
            &&& state is Cancelled <==> metrics.cancelled_transfers > 0
            &&& state is Completed <==> metrics.cancelled_transfers == 0 && all
            &&& state is Running <==> metrics.cancelled_transfers == 0 && !all && metrics.begun_transfers > 0
            &&& state is AwaitingPaste <==> metrics.cancelled_transfers == 0 && !all
                && metrics.begun_transfers == 0
        }),
{
}

/// What is said of a transfer that is received comes from what the other device served: never more
/// bytes than there are.
pub proof fn lemma_received_bytes_are_told(
    summary: &ProductManifestSummary,
    progress: RemoteProgress,
    told: Observation,
)
    requires
        call_ensures(Observation::received, (summary, progress), told),
    ensures
        told.bytes <= summary.total_size,
        progress.bytes_read <= summary.total_size ==> told.bytes == progress.bytes_read,
        progress.bytes_read > summary.total_size ==> told.bytes == summary.total_size,
        told.total_size == summary.total_size,
        told.total_files == summary.files,
        told.started_files == progress.started_transfers,
        told.current_file == progress.current_file,
        told.reconnect_attempts == progress.reconnect_attempts,
        told.recovered_commands == progress.recovered_commands,
        told.recovery_active <==> progress.active_recoveries > 0,
        told.state is Cancelled <==> progress.cancelled,
        told.state is Completed ==> progress.completed_transfers == summary.files,
{
}

/// What is said of a transfer that is sent: each byte counts once, and never more than there are.
pub proof fn lemma_sent_bytes_are_told(
    summary: &ProductManifestSummary,
    metrics: SecureMetricsSnapshot,
    told: Observation,
)
    requires
        call_ensures(Observation::sent, (summary, metrics), told),
    ensures
        told.bytes <= summary.total_size,
        metrics.unique_bytes <= summary.total_size ==> told.bytes == metrics.unique_bytes,
        metrics.unique_bytes > summary.total_size ==> told.bytes == summary.total_size,
        told.total_size == summary.total_size,
        told.total_files == summary.files,
        metrics.begun_transfers <= usize::MAX ==> told.started_files == metrics.begun_transfers,
        told.current_file is None,
        !told.recovery_active,
        told.state is Cancelled <==> metrics.cancelled_transfers > 0,
        told.state is Completed ==> metrics.unique_bytes >= summary.total_size,
{
}

/// Bytes in a second are a thousand times the bytes in so many milliseconds, rounded down; a
/// millisecond is a million nanoseconds, and the shortest time that counts.
pub proof fn lemma_speeds(bytes: u64, earlier: u64, later: u64)
    ensures
        ({
            let millis = progress::millis_between(earlier, later);
            let speed = progress::per_second(bytes, millis);
            &&& millis >= 1
            &&& later >= earlier + 1_000_000 ==> millis * 1_000_000 <= later - earlier < (millis + 1)
                * 1_000_000
            &&& later < earlier + 1_000_000 ==> millis == 1
            &&& speed * millis <= bytes * 1000
            &&& speed < 0xffff_ffff_ffff_ffff ==> bytes * 1000 < (speed + 1) * millis
        }),
{
    let millis = progress::millis_between(earlier, later);
    let thousandfold = bytes * 1000;
    let quotient = thousandfold / millis;
    let rest = thousandfold % millis;
    vstd::arithmetic::div_mod::lemma_fundamental_div_mod(thousandfold, millis);
    vstd::arithmetic::div_mod::lemma_mod_bound(thousandfold, millis);
    assert(quotient * millis <= thousandfold < (quotient + 1) * millis && 0 <= quotient)
        by (nonlinear_arith)
        requires
            thousandfold == millis * quotient + rest,
            0 <= rest < millis,
            0 <= thousandfold,
    ;
    let speed = progress::per_second(bytes, millis);
    assert(speed * millis <= quotient * millis) by (nonlinear_arith)
        requires
            speed <= quotient,
            1 <= millis,
    ;
}

/// The speed that is shown follows that of the last step, at a quarter of its weight from the second
/// step on.
pub proof fn lemma_speed_is_smoothed(sample: SpeedSample, now: u64, bytes: u64)
    requires
        now > sample.last_sample_at,
        bytes >= sample.last_sample_bytes,
        bytes > 0,
    ensures
        ({
            let after = sample.sampled(now, bytes, ProductTransferState::Running);
            let step = progress::per_second(
                (bytes - sample.last_sample_bytes) as u64,
                progress::millis_between(sample.last_sample_at, now),
            );
            let shown = after.speed(now, bytes, ProductTransferState::Running).current;
            &&& step > 0 && sample.smoothed_speed == 0 ==> shown == step
            &&& step == 0 ==> shown == sample.smoothed_speed
            &&& step > 0 && sample.smoothed_speed > 0 && 3 * sample.smoothed_speed + step
                <= 0xffff_ffff_ffff_ffff ==> 4 * shown <= 3 * sample.smoothed_speed + step < 4 * shown + 4
            &&& after.last_sample_at == now
            &&& after.last_sample_bytes == bytes
        }),
{
}

/// A look without any time since the last one, or with fewer bytes than then, tells nothing of the
/// speed: that stays, and so does when the transfer began.
pub proof fn lemma_speed_needs_time(sample: SpeedSample, now: u64, bytes: u64)
    requires
        now <= sample.last_sample_at || bytes < sample.last_sample_bytes,
    ensures
        ({
            let after = sample.sampled(now, bytes, ProductTransferState::Running);
            &&& bytes > 0 ==> after.smoothed_speed == sample.smoothed_speed
            &&& bytes == 0 ==> after.smoothed_speed == 0
            &&& sample.transfer_started_at is Some ==> after.transfer_started_at
                == sample.transfer_started_at
            &&& after.last_sample_bytes == bytes && after.last_sample_at == now
        }),
{
}

/// The average speed is that since the last look before the first byte came.
pub proof fn lemma_average_speed(
    sample: SpeedSample,
    now: u64,
    bytes: u64,
    later: u64,
    more: u64,
    state: ProductTransferState,
)
    requires
        sample.transfer_started_at is None,
    ensures
        ({
            let first = sample.sampled(now, bytes, ProductTransferState::Running);
            let second = first.sampled(later, more, state);
            &&& bytes > 0 ==> second.speed(later, more, state).average == progress::per_second(
                more,
                progress::millis_between(sample.last_sample_at, later),
            )
            &&& bytes == 0 ==> first.transfer_started_at is None
            &&& bytes == 0 ==> first.speed(now, bytes, ProductTransferState::Running).average == 0
        }),
{
}

/// A summary counts each entry once, as a directory where its attribute says so and as a file else,
/// and sums up the sizes of all of them.
pub proof fn lemma_entries_are_counted(entries: Seq<EntryView>, next: EntryView)
    ensures
        summary::file_count(Seq::<EntryView>::empty()) == 0,
        summary::size_sum(Seq::<EntryView>::empty()) == 0,
        next.descriptor.attributes & 0x10 != 0 ==> summary::file_count(entries.push(next))
            == summary::file_count(entries),
        next.descriptor.attributes & 0x10 == 0 ==> summary::file_count(entries.push(next))
            == summary::file_count(entries) + 1,
        summary::size_sum(entries.push(next)) == summary::size_sum(entries) + next.descriptor.size,
{
    assert(entries.push(next).drop_last() =~= entries);
}

/// A summary goes by the name of the first entry, and tells files and directories apart without
/// leaving out any.
pub proof fn lemma_offers_are_summarized(
    direction: &'static str,
    manifest: &OfferManifest,
    told: ProductManifestSummary,
)
    requires
        call_ensures(summary::summarize_manifest, (direction, manifest), told),
    ensures
        told.direction == direction,
        told.items == manifest@.entries.len(),
        told.files + told.directories == told.items,
        told.files == summary::file_count(manifest@.entries),
        told.total_size == summary::size_sum(manifest@.entries),
        manifest@.entries.len() > 0 ==> told.primary_name@ == manifest@.entries[0].descriptor.name,
        manifest@.entries.len() == 0 ==> told.primary_name@ == "（空清单）"@,
{
}

/// An announcement starts with eight letters, then names the family of an address, the address and
/// the port, each with its highest byte first.
pub proof fn lemma_announcement_layout(endpoint: Endpoint)
    ensures
        ({
            let frame = announce::announcement(endpoint);
            &&& frame.len() == 27
            &&& frame.take(8) == seq![67u8, 70u8, 79u8, 70u8, 70u8, 69u8, 82u8, 49u8]
            &&& endpoint.ip matches IpAddress::V4(ip) ==> {
                &&& frame[8] == 4
                &&& bytes::be_value(frame.subrange(9, 13)) == ip
                &&& forall|k: int| 13 <= k < 25 ==> #[trigger] frame[k] == 0
            }
            &&& endpoint.ip matches IpAddress::V6(ip) ==> {
                &&& frame[8] == 6
                &&& bytes::be_value(frame.subrange(9, 25)) == ip
            }
            &&& 256 * frame[25] + frame[26] == endpoint.port
        }),
{
    let frame = announce::announcement(endpoint);
    bytes::lemma_two_bytes(endpoint.port as nat);
    bytes::lemma_capacity_values();
    match endpoint.ip {
        IpAddress::V4(ip) => {
            bytes::lemma_be_value_of_bytes(ip as nat, 4);
            assert(frame.subrange(9, 13) =~= bytes::be_bytes(ip as nat, 4));
        },
        IpAddress::V6(ip) => {
            bytes::lemma_be_value_of_bytes(ip as nat, 16);
            assert(frame.subrange(9, 25) =~= bytes::be_bytes(ip as nat, 16));
        },
    }
    assert(frame.take(8) =~= seq![67u8, 70u8, 79u8, 70u8, 70u8, 69u8, 82u8, 49u8]);
}

/// Every endpoint of this device itself or of the local network can be announced and is understood;
/// no other can, and none from elsewhere is taken.
pub proof fn lemma_announcements_are_understood(
    endpoint: Endpoint,
    result: Result<Vec<u8>, Failure>,
    frame: Seq<u8>,
)
    requires
        call_ensures(announce::encode_announcement, (endpoint,), result),
    ensures
        result is Ok <==> endpoint.port != 0 && address::local_by_bytes(endpoint.ip),
        result matches Ok(sent) ==> endpoint.scope == 0 ==> announce::announced(sent@) == Ok::<
            Endpoint,
            Failure,
        >(endpoint),
        announce::announced(frame) matches Ok(told) ==> told.port != 0 && address::local_by_bytes(told.ip)
            && told.scope == 0,
{
    address::lemma_near_addresses(endpoint.ip);
    if result is Ok && endpoint.scope == 0 {
        announce::lemma_announcement_round_trip(endpoint);
    }
    if let Ok(told) = announce::announced(frame) {
        address::lemma_near_addresses(told.ip);
    }
}

/// Only the eight bytes of the acknowledgement acknowledge an announcement.
pub proof fn lemma_acknowledgements(answer: &[u8], result: Result<(), Failure>)
    requires
        call_ensures(announce::check_acknowledgement, (answer,), result),
    ensures
        result is Ok <==> answer@ == seq![67u8, 70u8, 65u8, 67u8, 75u8, 48u8, 48u8, 49u8],
{
    assert(announce::OFFER_ACK@ =~= seq![67u8, 70u8, 65u8, 67u8, 75u8, 48u8, 48u8, 49u8]);
}

/// A device tries for a minute to tell another of an offer.
pub proof fn lemma_announcing_goes_on_for_a_minute(now: u64, retry: AnnouncementRetry)
    requires
        call_ensures(AnnouncementRetry::new, (now,), retry),
        now + 60_000_000_000 <= 0xffff_ffff_ffff_ffff,
    ensures
        retry.deadline == now + 60_000_000_000,
        retry.delay == 100_000_000,
{
}

/// After a failure that may pass, the next try comes after the delay at hand and no later than the
/// deadline; the delay doubles until it is two seconds. Any other failure, and any at the deadline,
/// ends it.
pub proof fn lemma_announcing_slows_down(
    retry: &mut AnnouncementRetry,
    may_pass: bool,
    now: u64,
    wait: Option<u64>,
)
    requires
        call_ensures(AnnouncementRetry::after_failure, (retry, may_pass, now), wait),
    ensures
        wait is Some <==> may_pass && now < old(retry).deadline,
        final(retry).deadline == old(retry).deadline,
        wait matches Some(pause) ==> {
            &&& now + pause <= old(retry).deadline
            &&& pause <= old(retry).delay
            &&& pause == old(retry).delay || now + pause == old(retry).deadline
            &&& old(retry).delay < 1_000_000_000 ==> final(retry).delay == 2 * old(retry).delay
            &&& old(retry).delay >= 1_000_000_000 ==> final(retry).delay == 2_000_000_000
        },
        wait is None ==> final(retry).delay == old(retry).delay,
{
}

/// Failures that may pass are those of the connection, whether the system names them by kind or by
/// number; what is refused or malformed does not.
pub proof fn lemma_failures_that_may_pass(kind: FailureKind, raw: Option<i32>)
    ensures
        kind is ConnectionRefused || kind is ConnectionReset || kind is ConnectionAborted
            || kind is NotConnected || kind is BrokenPipe || kind is TimedOut || kind is UnexpectedEof
            ==> announce::recoverable(kind, raw),
        raw matches Some(code) && (10_050 <= code <= 10_054 || 10_060 <= code <= 10_061 || 10_064 <= code
            <= 10_065) ==> announce::recoverable(kind, raw),
        (kind is InvalidData || kind is InvalidInput || kind is PermissionDenied || kind is AlreadyExists
            || kind is NotFound || kind is Interrupted || kind is WouldBlock || kind is Other) && (raw is None
            || raw->0 < 10_050 || 10_054 < raw->0 < 10_060 || 10_061 < raw->0 < 10_064 || raw->0
            > 10_065) ==> !announce::recoverable(kind, raw),
{
}

/// Only a frame that starts with the eight letters and has a four or a six behind them is taken for an
/// announcement; it tells the address that follows, and the port in its last two bytes.
pub proof fn lemma_announcements_that_are_taken(frame: &[u8], result: Result<Endpoint, Failure>)
    requires
        frame@.len() == 27,
        call_ensures(announce::read_announcement, (frame,), result),
    ensures
        result matches Ok(told) ==> {
            &&& frame@.take(8) == seq![67u8, 70u8, 79u8, 70u8, 70u8, 69u8, 82u8, 49u8]
            &&& frame@[8] == 4 <==> told.ip is V4
            &&& frame@[8] == 6 <==> told.ip is V6
            &&& told.port == 256 * frame@[25] + frame@[26]
            &&& told.ip matches IpAddress::V4(ip) ==> ip == 0x100_0000 * frame@[9] + 0x1_0000 * frame@[10]
                + 0x100 * frame@[11] + frame@[12]
        },
{
    if result is Ok {
        let letters = bytes::slice_of(frame@, 0, 8);
        assert(letters =~= frame@.take(8));
        assert(frame@.take(8) =~= seq![67u8, 70u8, 79u8, 70u8, 70u8, 69u8, 82u8, 49u8]);
        reveal_with_fuel(bytes::be_value, 5);
        let port = bytes::slice_of(frame@, 25, 2);
        assert(port =~= seq![frame@[25], frame@[26]]);
        assert(port.drop_last() =~= seq![frame@[25]]);
        assert(port.drop_last().drop_last() =~= Seq::<u8>::empty());
        let four = bytes::slice_of(frame@, 9, 4);
        assert(four =~= seq![frame@[9], frame@[10], frame@[11], frame@[12]]);
        assert(four.drop_last() =~= seq![frame@[9], frame@[10], frame@[11]]);
        assert(four.drop_last().drop_last() =~= seq![frame@[9], frame@[10]]);
        assert(four.drop_last().drop_last().drop_last() =~= seq![frame@[9]]);
        assert(four.drop_last().drop_last().drop_last().drop_last() =~= Seq::<u8>::empty());
    }
}

} // verus!
