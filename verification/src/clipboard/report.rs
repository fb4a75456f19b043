//! The lines that the probes print: a word, then names with their values.

use super::hresult::{HResult, S_OK};
use super::local_file::capture::ClipboardCapture;
use super::local_file::offer::LocalFileOffer;
use super::loopback::server::LoopbackMetricsSnapshot;
use super::loopback::wire::LOOPBACK_TEST_FILE_NAME;
use super::runtime::{
    CaptureSummary, FileCaptureProbeOptions, LoopbackProbeOptions, PauseProbeOptions,
    PAUSE_TEST_FILE_NAME,
};
use super::secure_transfer::model::SecureMetricsSnapshot;
use super::transfer::{TransferControl, TransferControlState};
use super::{TEST_FILE_CONTENT, TEST_FILE_NAME};
use crate::bytes;
use crate::text;
use vstd::prelude::*;
use vstd::utf8::*;

verus! {

/// Nanoseconds in a second.
pub const SECOND: u64 = 1_000_000_000;

/// Nanoseconds in a millisecond.
pub const MILLISECOND: u64 = 1_000_000;

/// A name with its value.
pub open spec fn field(name: Seq<char>, value: Seq<char>) -> Seq<char> {
    " "@ + name + "="@ + value
}

/// A name with a number.
pub open spec fn number(name: Seq<char>, value: u64) -> Seq<char> {
    field(name, text::decimal(value as nat))
}

/// The word for a truth value.
pub open spec fn flag_text(value: bool) -> Seq<char> {
    if value {
        "true"@
    } else {
        "false"@
    }
}

/// A name with a truth value.
pub open spec fn flag(name: Seq<char>, value: bool) -> Seq<char> {
    field(name, flag_text(value))
}

/// A result code in eight upper-case hexadecimal digits.
pub open spec fn code_text(code: HResult) -> Seq<char> {
    "0x"@ + text::hex_text(bytes::be_bytes(code as nat, 4), true)
}

/// How long a probe runs, in whole seconds.
pub open spec fn lifetime_text(lifetime: Option<u64>) -> Seq<char> {
    match lifetime {
        None => "infinite"@,
        Some(lifetime) => text::decimal((lifetime / SECOND) as nat) + "s"@,
    }
}

fn put_field(line: &mut String, name: &str, value: &str)
    ensures
        final(line)@ == old(line)@ + field(name@, value@),
{
    let ghost before = line@;
    text::push_text(line, " ");
    text::push_text(line, name);
    text::push_text(line, "=");
    text::push_text(line, value);
    assert(line@ =~= before + field(name@, value@));
}

fn put_number(line: &mut String, name: &str, value: u64)
    ensures
        final(line)@ == old(line)@ + number(name@, value),
{
    let mut digits = String::new();
    text::push_decimal(&mut digits, value);
    assert(digits@ =~= text::decimal(value as nat));
    put_field(line, name, digits.as_str());
}

fn put_flag(line: &mut String, name: &str, value: bool)
    ensures
        final(line)@ == old(line)@ + flag(name@, value),
{
    if value {
        put_field(line, name, "true");
    } else {
        put_field(line, name, "false");
    }
}

/// A result code in eight upper-case hexadecimal digits.
pub fn format_code(code: HResult) -> (result: String)
    ensures
        result@ == code_text(code),
{
    proof {
        bytes::lemma_capacity_values();
    }
    let mut digits: Vec<u8> = Vec::new();
    bytes::put_be(&mut digits, code as u64, 4);
    assert(digits@ =~= bytes::be_bytes(code as nat, 4));
    let mut result = String::new();
    text::push_text(&mut result, "0x");
    text::push_hex(&mut result, digits.as_slice(), true);
    assert(result@ =~= code_text(code));
    result
}

/// How long a probe runs, in whole seconds.
pub fn format_lifetime(lifetime: Option<u64>) -> (result: String)
    ensures
        result@ == lifetime_text(lifetime),
{
    let mut result = String::new();
    match lifetime {
        None => {
            text::push_text(&mut result, "infinite");
        },
        Some(lifetime) => {
            text::push_decimal(&mut result, lifetime / SECOND);
            text::push_text(&mut result, "s");
        },
    }
    assert(result@ =~= lifetime_text(lifetime));
    result
}

/// What a probe of a clipboard object has counted.
#[derive(Clone, Copy, Debug)]
pub struct ProbeCounts {
    pub read_calls: u64,
    pub events: u64,
    pub dropped_events: u64,
}

/// The end of the line of a probe that stopped.
pub open spec fn probe_end(counts: ProbeCounts) -> Seq<char> {
    number("read_calls"@, counts.read_calls) + number("events"@, counts.events) + number(
        "dropped_events"@,
        counts.dropped_events,
    )
}

/// The start of the line of a probe that stopped.
pub open spec fn stop_start(status: HResult) -> Seq<char> {
    "STOP"@ + flag("current_clipboard"@, status == S_OK) + field("status"@, code_text(status))
}

fn put_probe_end(line: &mut String, counts: ProbeCounts)
    ensures
        final(line)@ == old(line)@ + probe_end(counts),
{
    let ghost before = line@;
    put_number(line, "read_calls", counts.read_calls);
    put_number(line, "events", counts.events);
    put_number(line, "dropped_events", counts.dropped_events);
    assert(line@ =~= before + probe_end(counts));
}

fn start_stop(status: HResult) -> (line: String)
    ensures
        line@ == stop_start(status),
{
    let mut line = String::new();
    text::push_text(&mut line, "STOP");
    put_flag(&mut line, "current_clipboard", status == S_OK);
    put_field(&mut line, "status", format_code(status).as_str());
    assert(line@ =~= stop_start(status));
    line
}

/// The line of a clipboard probe that is ready.
pub open spec fn clipboard_ready_line(read_calls: u64, lifetime: Option<u64>) -> Seq<char> {
    "READY"@ + field("file"@, TEST_FILE_NAME@) + field(
        "size"@,
        text::decimal(encode_utf8(TEST_FILE_CONTENT@).len()),
    ) + number("deferred_reads"@, read_calls) + field("lifetime"@, lifetime_text(lifetime))
}

/// The clipboard probe is ready.
pub fn clipboard_ready(read_calls: u64, lifetime: Option<u64>) -> (line: String)
    ensures
        line@ == clipboard_ready_line(read_calls, lifetime),
{
    let mut line = String::new();
    text::push_text(&mut line, "READY");
    put_field(&mut line, "file", TEST_FILE_NAME);
    put_number(&mut line, "size", TEST_FILE_CONTENT.as_bytes().len() as u64);
    put_number(&mut line, "deferred_reads", read_calls);
    put_field(&mut line, "lifetime", format_lifetime(lifetime).as_str());
    assert(line@ =~= clipboard_ready_line(read_calls, lifetime));
    line
}

/// The clipboard probe has stopped.
pub fn clipboard_stopped(status: HResult, counts: ProbeCounts) -> (line: String)
    ensures
        line@ == stop_start(status) + probe_end(counts),
{
    let mut line = start_stop(status);
    put_probe_end(&mut line, counts);
    line
}

/// The line of a pause probe that is ready.
pub open spec fn pause_ready_line(options: PauseProbeOptions, read_calls: u64) -> Seq<char> {
    "READY"@ + field("file"@, PAUSE_TEST_FILE_NAME@) + number("size"@, options.size_bytes) + number(
        "chunk"@,
        options.chunk_bytes as u64,
    ) + number("delay_ms"@, options.chunk_delay / MILLISECOND) + flag(
        "async_mode"@,
        options.async_mode,
    ) + number("deferred_reads"@, read_calls) + field("lifetime"@, lifetime_text(options.lifetime))
}

/// The pause probe is ready.
pub fn pause_ready(options: PauseProbeOptions, read_calls: u64) -> (line: String)
    ensures
        line@ == pause_ready_line(options, read_calls),
{
    let mut line = String::new();
    text::push_text(&mut line, "READY");
    put_field(&mut line, "file", PAUSE_TEST_FILE_NAME);
    put_number(&mut line, "size", options.size_bytes);
    put_number(&mut line, "chunk", options.chunk_bytes as u64);
    put_number(&mut line, "delay_ms", options.chunk_delay / MILLISECOND);
    put_flag(&mut line, "async_mode", options.async_mode);
    put_number(&mut line, "deferred_reads", read_calls);
    put_field(&mut line, "lifetime", format_lifetime(options.lifetime).as_str());
    assert(line@ =~= pause_ready_line(options, read_calls));
    line
}

/// The pause probe has stopped.
pub fn pause_stopped(status: HResult, control: TransferControl, counts: ProbeCounts) -> (line:
    String)
    ensures
        line@ == stop_start(status) + field("control_state"@, control.state.spec_label()) + number(
            "bytes_served"@,
            control.bytes,
        ) + number("chunks"@, control.chunks) + probe_end(counts),
{
    let mut line = start_stop(status);
    put_field(&mut line, "control_state", control.state.label());
    put_number(&mut line, "bytes_served", control.bytes);
    put_number(&mut line, "chunks", control.chunks);
    put_probe_end(&mut line, counts);
    line
}

/// The pause probe was told a command.
pub fn pause_controlled(control: TransferControl) -> (line: String)
    ensures
        line@ == "CONTROL"@ + field("state"@, control.state.spec_label()) + number(
            "bytes_served"@,
            control.bytes,
        ) + number("chunks"@, control.chunks),
{
    let mut line = String::new();
    text::push_text(&mut line, "CONTROL");
    put_field(&mut line, "state", control.state.label());
    put_number(&mut line, "bytes_served", control.bytes);
    put_number(&mut line, "chunks", control.chunks);
    assert(line@ =~= "CONTROL"@ + field("state"@, control.state.spec_label()) + number(
        "bytes_served"@,
        control.bytes,
    ) + number("chunks"@, control.chunks));
    line
}

/// The line of a loopback probe that is ready.
pub open spec fn loopback_ready_line(
    options: LoopbackProbeOptions,
    address: Seq<char>,
    read_calls: u64,
) -> Seq<char> {
    "READY"@ + field("file"@, LOOPBACK_TEST_FILE_NAME@) + number("size"@, options.size_bytes)
        + field("address"@, address) + number("range"@, options.range_bytes as u64) + number(
        "fragment"@,
        options.fragment_bytes as u64,
    ) + number("delay_ms"@, options.range_delay / MILLISECOND) + number(
        "io_timeout_ms"@,
        options.io_timeout / MILLISECOND,
    ) + flag("async_mode"@, options.async_mode) + number("deferred_reads"@, read_calls) + number(
        "network_reads"@,
        0,
    ) + field("lifetime"@, lifetime_text(options.lifetime))
}

/// The loopback probe is ready.
pub fn loopback_ready(options: LoopbackProbeOptions, address: &str, read_calls: u64) -> (line:
    String)
    ensures
        line@ == loopback_ready_line(options, address@, read_calls),
{
    let mut line = String::new();
    text::push_text(&mut line, "READY");
    put_field(&mut line, "file", LOOPBACK_TEST_FILE_NAME);
    put_number(&mut line, "size", options.size_bytes);
    put_field(&mut line, "address", address);
    put_number(&mut line, "range", options.range_bytes as u64);
    put_number(&mut line, "fragment", options.fragment_bytes as u64);
    put_number(&mut line, "delay_ms", options.range_delay / MILLISECOND);
    put_number(&mut line, "io_timeout_ms", options.io_timeout / MILLISECOND);
    put_flag(&mut line, "async_mode", options.async_mode);
    put_number(&mut line, "deferred_reads", read_calls);
    put_number(&mut line, "network_reads", 0);
    put_field(&mut line, "lifetime", format_lifetime(options.lifetime).as_str());
    assert(line@ =~= loopback_ready_line(options, address@, read_calls));
    line
}

/// The line of a loopback probe that has stopped.
pub open spec fn loopback_stopped_line(
    status: HResult,
    state: TransferControlState,
    metrics: LoopbackMetricsSnapshot,
    counts: ProbeCounts,
) -> Seq<char> {
    stop_start(status) + field("control_state"@, state.spec_label()) + number(
        "connections"@,
        metrics.connections,
    ) + number("network_reads"@, metrics.read_requests) + number(
        "served_bytes"@,
        metrics.served_bytes,
    ) + number("unique_bytes"@, metrics.unique_bytes) + number(
        "ranges"@,
        metrics.retained_ranges as u64,
    ) + flag("coverage_saturated"@, metrics.coverage_saturated) + number(
        "max_concurrent_reads"@,
        metrics.max_concurrent_reads,
    ) + number("protocol_errors"@, metrics.protocol_errors) + probe_end(counts)
}

/// The loopback probe has stopped.
pub fn loopback_stopped(
    status: HResult,
    state: TransferControlState,
    metrics: LoopbackMetricsSnapshot,
    counts: ProbeCounts,
) -> (line: String)
    ensures
        line@ == loopback_stopped_line(status, state, metrics, counts),
{
    let mut line = start_stop(status);
    put_field(&mut line, "control_state", state.label());
    put_number(&mut line, "connections", metrics.connections);
    put_number(&mut line, "network_reads", metrics.read_requests);
    put_number(&mut line, "served_bytes", metrics.served_bytes);
    put_number(&mut line, "unique_bytes", metrics.unique_bytes);
    put_number(&mut line, "ranges", metrics.retained_ranges as u64);
    put_flag(&mut line, "coverage_saturated", metrics.coverage_saturated);
    put_number(&mut line, "max_concurrent_reads", metrics.max_concurrent_reads);
    put_number(&mut line, "protocol_errors", metrics.protocol_errors);
    put_probe_end(&mut line, counts);
    line
}

/// The capture probe is ready.
pub fn capture_ready(options: FileCaptureProbeOptions) -> (line: String)
    ensures
        line@ == "READY"@ + field("mode"@, "file-capture"@) + field("waiting_for"@, "CF_HDROP"@)
            + field("offer_ttl"@, lifetime_text(Some(options.offer_ttl))) + flag(
            "async_mode"@,
            options.async_mode,
        ) + field("lifetime"@, lifetime_text(options.lifetime)),
{
    let mut line = String::new();
    text::push_text(&mut line, "READY");
    put_field(&mut line, "mode", "file-capture");
    put_field(&mut line, "waiting_for", "CF_HDROP");
    put_field(&mut line, "offer_ttl", format_lifetime(Some(options.offer_ttl)).as_str());
    put_flag(&mut line, "async_mode", options.async_mode);
    put_field(&mut line, "lifetime", format_lifetime(options.lifetime).as_str());
    assert(line@ =~= "READY"@ + field("mode"@, "file-capture"@) + field(
        "waiting_for"@,
        "CF_HDROP"@,
    ) + field("offer_ttl"@, lifetime_text(Some(options.offer_ttl))) + flag(
        "async_mode"@,
        options.async_mode,
    ) + field("lifetime"@, lifetime_text(options.lifetime)));
    line
}

/// The line of what a capture probe found on the clipboard; none where there is a candidate.
pub open spec fn capture_seen_line(capture: ClipboardCapture) -> Option<Seq<char>> {
    match capture {
        ClipboardCapture::Candidate { .. } => None,
        ClipboardCapture::Rejected { reason } => Some(
            "CAPTURE"@ + flag("accepted"@, false) + field("reason"@, reason.spec_label()),
        ),
        ClipboardCapture::PrivateOffer => Some(
            "CAPTURE"@ + flag("ignored"@, true) + field("reason"@, "private-origin"@),
        ),
        ClipboardCapture::NotFileClipboard => Some(
            "CAPTURE"@ + flag("ignored"@, true) + field("reason"@, "not-file-clipboard"@),
        ),
    }
}

/// What a capture probe found on the clipboard; nothing where there is a candidate.
pub fn capture_seen(capture: &ClipboardCapture) -> (line: Option<String>)
    ensures
        match line {
            None => capture_seen_line(*capture) is None,
            Some(line) => capture_seen_line(*capture) == Some(line@),
        },
{
    let (word, value, reason) = match capture {
        ClipboardCapture::Candidate { .. } => {
            return None;
        },
        ClipboardCapture::Rejected { reason } => ("accepted", false, reason.label()),
        ClipboardCapture::PrivateOffer => ("ignored", true, "private-origin"),
        ClipboardCapture::NotFileClipboard => ("ignored", true, "not-file-clipboard"),
    };
    let mut line = String::new();
    text::push_text(&mut line, "CAPTURE");
    put_flag(&mut line, word, value);
    put_field(&mut line, "reason", reason);
    assert(line@ =~= "CAPTURE"@ + flag(word@, value) + field("reason"@, reason@));
    Some(line)
}

/// A candidate of a capture probe could not be offered, for a reason with its code.
pub fn capture_failed(reason: &str, code: HResult) -> (line: String)
    ensures
        line@ == "CAPTURE"@ + flag("accepted"@, false) + field("reason"@, reason@) + field(
            "error"@,
            code_text(code),
        ),
{
    let mut line = String::new();
    text::push_text(&mut line, "CAPTURE");
    put_flag(&mut line, "accepted", false);
    put_field(&mut line, "reason", reason);
    put_field(&mut line, "error", format_code(code).as_str());
    assert(line@ =~= "CAPTURE"@ + flag("accepted"@, false) + field("reason"@, reason@) + field(
        "error"@,
        code_text(code),
    ));
    line
}

/// The digits of an identifier of the system, in groups of eight, four, four, four and twelve.
pub open spec fn identifier_text(identifier: Seq<u8>) -> Seq<char> {
    text::hex_text(identifier.subrange(0, 4), true) + "-"@ + text::hex_text(
        identifier.subrange(4, 6),
        true,
    ) + "-"@ + text::hex_text(identifier.subrange(6, 8), true) + "-"@ + text::hex_text(
        identifier.subrange(8, 10),
        true,
    ) + "-"@ + text::hex_text(identifier.subrange(10, 16), true)
}

/// The digits of an identifier of the system, in groups.
pub fn format_identifier(identifier: &[u8; 16]) -> (result: String)
    ensures
        result@ == identifier_text(identifier@),
{
    let digits: &[u8] = identifier;
    let mut result = String::new();
    text::push_hex(&mut result, &digits[0..4], true);
    text::push_text(&mut result, "-");
    text::push_hex(&mut result, &digits[4..6], true);
    text::push_text(&mut result, "-");
    text::push_hex(&mut result, &digits[6..8], true);
    text::push_text(&mut result, "-");
    text::push_hex(&mut result, &digits[8..10], true);
    text::push_text(&mut result, "-");
    text::push_hex(&mut result, &digits[10..16], true);
    assert(result@ =~= identifier_text(identifier@));
    result
}

/// The line of a capture probe that has offered a file.
pub open spec fn capture_accepted_line(sequence: u32, offer: LocalFileOffer, now: u64) -> Seq<char> {
    let left = if now >= offer.expires_at {
        0int
    } else {
        offer.expires_at - now
    };
    "CAPTURE"@ + flag("accepted"@, true) + number("sequence"@, sequence as u64) + field(
        "offer"@,
        identifier_text(offer.offer_id@),
    ) + field("file_id"@, identifier_text(offer.file_id@)) + field(
        "file"@,
        offer.source.snapshot.file_name@,
    ) + number("size"@, offer.source.snapshot.size) + number("content_reads"@, 0) + field(
        "ttl_ms"@,
        text::decimal((left / MILLISECOND as int) as nat),
    )
}

/// The capture probe has offered a file that was on the clipboard with a number.
pub fn capture_accepted(sequence: u32, offer: &LocalFileOffer, now: u64) -> (line: String)
    ensures
        line@ == capture_accepted_line(sequence, *offer, now),
{
    let mut line = String::new();
    text::push_text(&mut line, "CAPTURE");
    put_flag(&mut line, "accepted", true);
    put_number(&mut line, "sequence", sequence as u64);
    put_field(&mut line, "offer", format_identifier(&offer.offer_id).as_str());
    put_field(&mut line, "file_id", format_identifier(&offer.file_id).as_str());
    put_field(&mut line, "file", offer.file_name());
    put_number(&mut line, "size", offer.size());
    put_number(&mut line, "content_reads", 0);
    put_number(&mut line, "ttl_ms", offer.remaining_ttl(now) / MILLISECOND);
    assert(line@ =~= capture_accepted_line(sequence, *offer, now));
    line
}

/// The line of a capture probe that has stopped.
pub open spec fn capture_stopped_line(summary: CaptureSummary) -> Seq<char> {
    "STOP"@ + flag("current_clipboard"@, summary.current) + number("accepted"@, summary.accepted)
        + number("rejected"@, summary.rejected) + number("ignored"@, summary.ignored) + number(
        "offer_age_ms"@,
        summary.offer_age_ms,
    ) + number("read_calls"@, summary.read_calls) + number("bytes_read"@, summary.bytes_read)
        + number("events"@, summary.events) + number("dropped_events"@, summary.dropped_events)
}

/// The capture probe has stopped.
pub fn capture_stopped(summary: CaptureSummary) -> (line: String)
    ensures
        line@ == capture_stopped_line(summary),
{
    let mut line = String::new();
    text::push_text(&mut line, "STOP");
    put_flag(&mut line, "current_clipboard", summary.current);
    put_number(&mut line, "accepted", summary.accepted);
    put_number(&mut line, "rejected", summary.rejected);
    put_number(&mut line, "ignored", summary.ignored);
    put_number(&mut line, "offer_age_ms", summary.offer_age_ms);
    put_number(&mut line, "read_calls", summary.read_calls);
    put_number(&mut line, "bytes_read", summary.bytes_read);
    put_number(&mut line, "events", summary.events);
    put_number(&mut line, "dropped_events", summary.dropped_events);
    assert(line@ =~= capture_stopped_line(summary));
    line
}

/// The line of what a secure source has counted.
pub open spec fn secure_metrics_line(prefix: Seq<char>, metrics: SecureMetricsSnapshot) -> Seq<
    char,
> {
    prefix + number("tls_connections"@, metrics.accepted_connections) + number(
        "tls_failures"@,
        metrics.tls_failures,
    ) + number("begun_transfers"@, metrics.begun_transfers) + number(
        "network_reads"@,
        metrics.read_requests,
    ) + number("served_bytes"@, metrics.served_bytes) + number(
        "unique_bytes"@,
        metrics.unique_bytes,
    ) + number("active_reads"@, metrics.active_reads) + number("denied"@, metrics.denied_requests)
        + number("replays"@, metrics.replayed_requests) + number(
        "cancelled"@,
        metrics.cancelled_transfers,
    ) + number("protocol_errors"@, metrics.protocol_errors)
}

/// What a secure source has counted.
pub fn secure_metrics(prefix: &str, metrics: SecureMetricsSnapshot) -> (line: String)
    ensures
        line@ == secure_metrics_line(prefix@, metrics),
{
    let mut line = String::new();
    text::push_text(&mut line, prefix);
    put_number(&mut line, "tls_connections", metrics.accepted_connections);
    put_number(&mut line, "tls_failures", metrics.tls_failures);
    put_number(&mut line, "begun_transfers", metrics.begun_transfers);
    put_number(&mut line, "network_reads", metrics.read_requests);
    put_number(&mut line, "served_bytes", metrics.served_bytes);
    put_number(&mut line, "unique_bytes", metrics.unique_bytes);
    put_number(&mut line, "active_reads", metrics.active_reads);
    put_number(&mut line, "denied", metrics.denied_requests);
    put_number(&mut line, "replays", metrics.replayed_requests);
    put_number(&mut line, "cancelled", metrics.cancelled_transfers);
    put_number(&mut line, "protocol_errors", metrics.protocol_errors);
    assert(line@ =~= secure_metrics_line(prefix@, metrics));
    line
}

/// The line of a secure probe that is ready. Only a source tells its address, and only a receiver
/// whether it is asynchronous.
pub open spec fn secure_ready_line(
    address: Option<Seq<char>>,
    offer_id: Seq<char>,
    file_id: Seq<char>,
    file_name: Seq<char>,
    size: u64,
    async_mode: Option<bool>,
    lifetime: Option<u64>,
) -> Seq<char> {
    "READY"@ + field(
        "mode"@,
        if address is Some {
            "secure-source"@
        } else {
            "secure-receiver"@
        },
    ) + field("tls"@, "1.3"@) + field("mtls"@, "true"@) + (match address {
        Some(address) => field("address"@, address),
        None => Seq::empty(),
    }) + field("offer"@, offer_id) + field("file_id"@, file_id) + field("file"@, file_name)
        + number("size"@, size) + number("content_reads"@, 0) + (match async_mode {
        Some(async_mode) => flag("async_mode"@, async_mode),
        None => Seq::empty(),
    }) + field("lifetime"@, lifetime_text(lifetime))
}

/// The secure source, which tells its address, or the secure receiver is ready.
pub fn secure_ready(
    address: Option<&str>,
    offer_id: &str,
    file_id: &str,
    file_name: &str,
    size: u64,
    async_mode: Option<bool>,
    lifetime: Option<u64>,
) -> (line: String)
    ensures
        line@ == secure_ready_line(
            match address {
                Some(address) => Some(address@),
                None => None,
            },
            offer_id@,
            file_id@,
            file_name@,
            size,
            async_mode,
            lifetime,
        ),
{
    let mut line = String::new();
    text::push_text(&mut line, "READY");
    match address {
        Some(_) => put_field(&mut line, "mode", "secure-source"),
        None => put_field(&mut line, "mode", "secure-receiver"),
    }
    put_field(&mut line, "tls", "1.3");
    put_field(&mut line, "mtls", "true");
    match address {
        Some(address) => put_field(&mut line, "address", address),
        None => {},
    }
    put_field(&mut line, "offer", offer_id);
    put_field(&mut line, "file_id", file_id);
    put_field(&mut line, "file", file_name);
    put_number(&mut line, "size", size);
    put_number(&mut line, "content_reads", 0);
    match async_mode {
        Some(async_mode) => put_flag(&mut line, "async_mode", async_mode),
        None => {},
    }
    put_field(&mut line, "lifetime", format_lifetime(lifetime).as_str());
    assert(line@ =~= secure_ready_line(
        match address {
            Some(address) => Some(address@),
            None => None,
        },
        offer_id@,
        file_id@,
        file_name@,
        size,
        async_mode,
        lifetime,
    ));
    line
}

/// The secure receiver has stopped.
pub fn secure_stopped(
    status: HResult,
    live_sources: usize,
    read_calls: u64,
    bytes_read: u64,
    transfer_state: &str,
) -> (line: String)
    ensures
        line@ == stop_start(status) + number("live_sources"@, live_sources as u64) + number(
            "read_calls"@,
            read_calls,
        ) + number("bytes_read"@, bytes_read) + field("transfer_state"@, transfer_state@),
{
    let mut line = start_stop(status);
    put_number(&mut line, "live_sources", live_sources as u64);
    put_number(&mut line, "read_calls", read_calls);
    put_number(&mut line, "bytes_read", bytes_read);
    put_field(&mut line, "transfer_state", transfer_state);
    line
}

/// What was read of an object that is given up.
#[derive(Clone, Copy, Debug)]
pub enum LeaseEnd {
    /// A file of a probe.
    Probe { read_calls: u64 },
    /// A file that was captured.
    Captured { read_calls: u64, bytes_read: u64 },
    /// A file of another device.
    Remote { live_sources: usize },
}

impl LeaseEnd {
    /// The event under which giving up an object is noted.
    pub fn event(self) -> (event: &'static str)
        ensures
            event@ == match self {
                LeaseEnd::Probe { .. } => "ClipboardLease::drop"@,
                LeaseEnd::Captured { .. } => "CapturedClipboardLease::drop"@,
                LeaseEnd::Remote { .. } => "RemoteClipboardLease::drop"@,
            },
    {
        match self {
            LeaseEnd::Probe { .. } => "ClipboardLease::drop",
            LeaseEnd::Captured { .. } => "CapturedClipboardLease::drop",
            LeaseEnd::Remote { .. } => "RemoteClipboardLease::drop",
        }
    }

    /// What is noted of an object that is given up.
    pub open spec fn detail_text(self, status: HResult) -> Seq<char> {
        "was_current="@ + flag_text(status == S_OK) + field("status"@, code_text(status)) + match self {
            LeaseEnd::Probe { read_calls } => number("read_calls"@, read_calls),
            LeaseEnd::Captured { read_calls, bytes_read } => number("read_calls"@, read_calls)
                + number("bytes_read"@, bytes_read),
            LeaseEnd::Remote { live_sources } => number("live_sources"@, live_sources as u64),
        }
    }

    /// What is noted of an object that is given up, with whether it is still on the clipboard.
    pub fn detail(self, status: HResult) -> (detail: String)
        ensures
            detail@ == self.detail_text(status),
    {
        let mut detail = String::new();
        text::push_text(&mut detail, "was_current=");
        if status == S_OK {
            text::push_text(&mut detail, "true");
        } else {
            text::push_text(&mut detail, "false");
        }
        put_field(&mut detail, "status", format_code(status).as_str());
        match self {
            LeaseEnd::Probe { read_calls } => {
                put_number(&mut detail, "read_calls", read_calls);
            },
            LeaseEnd::Captured { read_calls, bytes_read } => {
                put_number(&mut detail, "read_calls", read_calls);
                put_number(&mut detail, "bytes_read", bytes_read);
            },
            LeaseEnd::Remote { live_sources } => {
                put_number(&mut detail, "live_sources", live_sources as u64);
            },
        }
        assert(detail@ =~= self.detail_text(status));
        detail
    }
}

/// A start with parts behind it.
pub open spec fn joined(start: Seq<char>, parts: Seq<Seq<char>>) -> Seq<char>
    decreases parts.len(),
{
    if parts.len() == 0 {
        start
    } else {
        joined(start, parts.drop_last()) + parts.last()
    }
}

proof fn lemma_joined_holds(start: Seq<char>, parts: Seq<Seq<char>>)
    ensures
        forall|k: int| 0 <= k < parts.len() ==> text::holds(joined(start, parts), #[trigger] parts[k]),
    decreases parts.len(),
{
    if parts.len() > 0 {
        let rest = parts.drop_last();
        lemma_joined_holds(start, rest);
        assert forall|k: int| 0 <= k < parts.len() implies text::holds(
            joined(start, parts),
            #[trigger] parts[k],
        ) by {
            text::lemma_goes_on(joined(start, rest), parts[k], parts.last());
            if k < rest.len() {
                assert(rest[k] == parts[k]);
            }
        }
    }
}

/// A value is told behind a blank, its name and a sign; a number in digits, a truth value in words.
pub proof fn lemma_values_are_told(name: Seq<char>, value: Seq<char>, count: u64, truth: bool)
    ensures
        field(name, value) == seq![' '] + name + seq!['='] + value,
        number(name, count) == seq![' '] + name + seq!['='] + text::decimal(count as nat),
        flag(name, true) == seq![' '] + name + seq!['=', 't', 'r', 'u', 'e'],
        flag(name, false) == seq![' '] + name + seq!['=', 'f', 'a', 'l', 's', 'e'],
{
    reveal_strlit(" ");
    reveal_strlit("=");
    reveal_strlit("true");
    reveal_strlit("false");
    assert(field(name, value) =~= seq![' '] + name + seq!['='] + value);
    assert(number(name, count) =~= seq![' '] + name + seq!['='] + text::decimal(count as nat));
    assert(flag(name, true) =~= seq![' '] + name + seq!['=', 't', 'r', 'u', 'e']);
    assert(flag(name, false) =~= seq![' '] + name + seq!['=', 'f', 'a', 'l', 's', 'e']);
}

/// What a secure source has counted is told under the name of what was counted.
pub proof fn lemma_metrics_are_told(prefix: Seq<char>, metrics: SecureMetricsSnapshot)
    ensures
        ({
            let told = seq![
                number("tls_connections"@, metrics.accepted_connections),
                number("tls_failures"@, metrics.tls_failures),
                number("begun_transfers"@, metrics.begun_transfers),
                number("network_reads"@, metrics.read_requests),
                number("served_bytes"@, metrics.served_bytes),
                number("unique_bytes"@, metrics.unique_bytes),
                number("active_reads"@, metrics.active_reads),
                number("denied"@, metrics.denied_requests),
                number("replays"@, metrics.replayed_requests),
                number("cancelled"@, metrics.cancelled_transfers),
                number("protocol_errors"@, metrics.protocol_errors),
            ];
            forall|k: int| 0 <= k < told.len() ==> text::holds(secure_metrics_line(prefix, metrics), #[trigger] told[k])
        }),
{
    let told = seq![
        number("tls_connections"@, metrics.accepted_connections),
        number("tls_failures"@, metrics.tls_failures),
        number("begun_transfers"@, metrics.begun_transfers),
        number("network_reads"@, metrics.read_requests),
        number("served_bytes"@, metrics.served_bytes),
        number("unique_bytes"@, metrics.unique_bytes),
        number("active_reads"@, metrics.active_reads),
        number("denied"@, metrics.denied_requests),
        number("replays"@, metrics.replayed_requests),
        number("cancelled"@, metrics.cancelled_transfers),
        number("protocol_errors"@, metrics.protocol_errors),
    ];
    reveal_with_fuel(joined, 12);
    assert(joined(prefix, told) =~= secure_metrics_line(prefix, metrics));
    lemma_joined_holds(prefix, told);
}

/// What a capture probe has done is told under the name of what was done.
pub proof fn lemma_captures_are_told(summary: CaptureSummary)
    ensures
        ({
            let told = seq![
                flag("current_clipboard"@, summary.current),
                number("accepted"@, summary.accepted),
                number("rejected"@, summary.rejected),
                number("ignored"@, summary.ignored),
                number("offer_age_ms"@, summary.offer_age_ms),
                number("read_calls"@, summary.read_calls),
                number("bytes_read"@, summary.bytes_read),
                number("events"@, summary.events),
                number("dropped_events"@, summary.dropped_events),
            ];
            forall|k: int| 0 <= k < told.len() ==> text::holds(capture_stopped_line(summary), #[trigger] told[k])
        }),
{
    let told = seq![
        flag("current_clipboard"@, summary.current),
        number("accepted"@, summary.accepted),
        number("rejected"@, summary.rejected),
        number("ignored"@, summary.ignored),
        number("offer_age_ms"@, summary.offer_age_ms),
        number("read_calls"@, summary.read_calls),
        number("bytes_read"@, summary.bytes_read),
        number("events"@, summary.events),
        number("dropped_events"@, summary.dropped_events),
    ];
    reveal_with_fuel(joined, 10);
    assert(joined("STOP"@, told) =~= capture_stopped_line(summary));
    lemma_joined_holds("STOP"@, told);
}

/// What a loopback probe has counted is told under the name of what was counted, with the state in
/// which it stopped.
pub proof fn lemma_loopback_is_told(
    status: HResult,
    state: TransferControlState,
    metrics: LoopbackMetricsSnapshot,
    counts: ProbeCounts,
)
    ensures
        ({
            let told = seq![
                flag("current_clipboard"@, status == 0),
                field("status"@, code_text(status)),
                field("control_state"@, state.spec_label()),
                number("connections"@, metrics.connections),
                number("network_reads"@, metrics.read_requests),
                number("served_bytes"@, metrics.served_bytes),
                number("unique_bytes"@, metrics.unique_bytes),
                number("ranges"@, metrics.retained_ranges as u64),
                flag("coverage_saturated"@, metrics.coverage_saturated),
                number("max_concurrent_reads"@, metrics.max_concurrent_reads),
                number("protocol_errors"@, metrics.protocol_errors),
                number("read_calls"@, counts.read_calls),
                number("events"@, counts.events),
                number("dropped_events"@, counts.dropped_events),
            ];
            forall|k: int| 0 <= k < told.len() ==> text::holds(loopback_stopped_line(status, state, metrics, counts), #[trigger] told[k])
        }),
{
    let told = seq![
        flag("current_clipboard"@, status == 0),
        field("status"@, code_text(status)),
        field("control_state"@, state.spec_label()),
        number("connections"@, metrics.connections),
        number("network_reads"@, metrics.read_requests),
        number("served_bytes"@, metrics.served_bytes),
        number("unique_bytes"@, metrics.unique_bytes),
        number("ranges"@, metrics.retained_ranges as u64),
        flag("coverage_saturated"@, metrics.coverage_saturated),
        number("max_concurrent_reads"@, metrics.max_concurrent_reads),
        number("protocol_errors"@, metrics.protocol_errors),
        number("read_calls"@, counts.read_calls),
        number("events"@, counts.events),
        number("dropped_events"@, counts.dropped_events),
    ];
    reveal_with_fuel(joined, 15);
    assert(joined("STOP"@, told) =~= loopback_stopped_line(status, state, metrics, counts));
    lemma_joined_holds("STOP"@, told);
}

/// How a pause probe runs is told under the name of what it does, its delay in milliseconds.
pub proof fn lemma_pause_probes_are_told(options: PauseProbeOptions, read_calls: u64)
    ensures
        ({
            let told = seq![
                field("file"@, PAUSE_TEST_FILE_NAME@),
                number("size"@, options.size_bytes),
                number("chunk"@, options.chunk_bytes as u64),
                number("delay_ms"@, options.chunk_delay / 1_000_000),
                flag("async_mode"@, options.async_mode),
                number("deferred_reads"@, read_calls),
                field("lifetime"@, lifetime_text(options.lifetime)),
            ];
            forall|k: int| 0 <= k < told.len() ==> text::holds(pause_ready_line(options, read_calls), #[trigger] told[k])
        }),
{
    let told = seq![
        field("file"@, PAUSE_TEST_FILE_NAME@),
        number("size"@, options.size_bytes),
        number("chunk"@, options.chunk_bytes as u64),
        number("delay_ms"@, options.chunk_delay / 1_000_000),
        flag("async_mode"@, options.async_mode),
        number("deferred_reads"@, read_calls),
        field("lifetime"@, lifetime_text(options.lifetime)),
    ];
    reveal_with_fuel(joined, 8);
    assert(joined("READY"@, told) =~= pause_ready_line(options, read_calls));
    lemma_joined_holds("READY"@, told);
}

/// How a loopback probe runs is told under the name of what it does, its times in milliseconds.
pub proof fn lemma_loopback_probes_are_told(
    options: LoopbackProbeOptions,
    address: Seq<char>,
    read_calls: u64,
)
    ensures
        ({
            let told = seq![
                field("file"@, LOOPBACK_TEST_FILE_NAME@),
                number("size"@, options.size_bytes),
                field("address"@, address),
                number("range"@, options.range_bytes as u64),
                number("fragment"@, options.fragment_bytes as u64),
                number("delay_ms"@, options.range_delay / 1_000_000),
                number("io_timeout_ms"@, options.io_timeout / 1_000_000),
                flag("async_mode"@, options.async_mode),
                number("deferred_reads"@, read_calls),
                number("network_reads"@, 0),
                field("lifetime"@, lifetime_text(options.lifetime)),
            ];
            forall|k: int| 0 <= k < told.len() ==> text::holds(loopback_ready_line(options, address, read_calls), #[trigger] told[k])
        }),
{
    let told = seq![
        field("file"@, LOOPBACK_TEST_FILE_NAME@),
        number("size"@, options.size_bytes),
        field("address"@, address),
        number("range"@, options.range_bytes as u64),
        number("fragment"@, options.fragment_bytes as u64),
        number("delay_ms"@, options.range_delay / 1_000_000),
        number("io_timeout_ms"@, options.io_timeout / 1_000_000),
        flag("async_mode"@, options.async_mode),
        number("deferred_reads"@, read_calls),
        number("network_reads"@, 0),
        field("lifetime"@, lifetime_text(options.lifetime)),
    ];
    reveal_with_fuel(joined, 12);
    assert(joined("READY"@, told) =~= loopback_ready_line(options, address, read_calls));
    lemma_joined_holds("READY"@, told);
}

/// The whole milliseconds until a time in nanoseconds.
pub open spec fn millis_left(end: u64, now: u64) -> nat {
    if now >= end {
        0
    } else {
        ((end - now) / 1_000_000) as nat
    }
}

/// An offer that was made of a captured file is told with its identifiers, its name, its size and the
/// milliseconds for which it still stands.
pub proof fn lemma_accepted_captures_are_told(sequence: u32, offer: LocalFileOffer, now: u64)
    ensures
        ({
            let told = seq![
                flag("accepted"@, true),
                number("sequence"@, sequence as u64),
                field("offer"@, identifier_text(offer.offer_id@)),
                field("file_id"@, identifier_text(offer.file_id@)),
                field("file"@, offer.source.snapshot.file_name@),
                number("size"@, offer.source.snapshot.size),
                number("content_reads"@, 0),
                field("ttl_ms"@, text::decimal(millis_left(offer.expires_at, now))),
            ];
            forall|k: int| 0 <= k < told.len() ==> text::holds(capture_accepted_line(sequence, offer, now), #[trigger] told[k])
        }),
{
    let told = seq![
        flag("accepted"@, true),
        number("sequence"@, sequence as u64),
        field("offer"@, identifier_text(offer.offer_id@)),
        field("file_id"@, identifier_text(offer.file_id@)),
        field("file"@, offer.source.snapshot.file_name@),
        number("size"@, offer.source.snapshot.size),
        number("content_reads"@, 0),
        field("ttl_ms"@, text::decimal(millis_left(offer.expires_at, now))),
    ];
    reveal_with_fuel(joined, 9);
    assert(joined("CAPTURE"@, told) =~= capture_accepted_line(sequence, offer, now));
    lemma_joined_holds("CAPTURE"@, told);
}

/// A clipboard that is not captured is told for the reason for which it is not: refused, this
/// application's own, or without files.
pub proof fn lemma_refused_captures_are_told(capture: ClipboardCapture)
    ensures
        capture_seen_line(capture) is None <==> capture is Candidate,
        capture matches ClipboardCapture::Rejected { reason } ==> text::holds(
            capture_seen_line(capture)->0,
            field("reason"@, reason.spec_label()),
        ) && text::holds(capture_seen_line(capture)->0, flag("accepted"@, false)),
        capture is PrivateOffer ==> text::holds(
            capture_seen_line(capture)->0,
            field("reason"@, "private-origin"@),
        ) && text::holds(capture_seen_line(capture)->0, flag("ignored"@, true)),
        capture is NotFileClipboard ==> text::holds(
            capture_seen_line(capture)->0,
            field("reason"@, "not-file-clipboard"@),
        ) && text::holds(capture_seen_line(capture)->0, flag("ignored"@, true)),
{
    match capture {
        ClipboardCapture::Candidate { .. } => {},
        ClipboardCapture::Rejected { reason } => {
            let word = flag("accepted"@, false);
            text::lemma_goes_on("CAPTURE"@, word, word);
            text::lemma_goes_on("CAPTURE"@ + word, word, field("reason"@, reason.spec_label()));
        },
        ClipboardCapture::PrivateOffer => {
            let word = flag("ignored"@, true);
            text::lemma_goes_on("CAPTURE"@, word, word);
            text::lemma_goes_on("CAPTURE"@ + word, word, field("reason"@, "private-origin"@));
        },
        ClipboardCapture::NotFileClipboard => {
            let word = flag("ignored"@, true);
            text::lemma_goes_on("CAPTURE"@, word, word);
            text::lemma_goes_on("CAPTURE"@ + word, word, field("reason"@, "not-file-clipboard"@));
        },
    }
}

/// A probe runs for so many whole seconds, or without end.
pub proof fn lemma_lifetimes(lifetime: Option<u64>) -> (seconds: nat)
    ensures
        lifetime is None ==> lifetime_text(lifetime) == "infinite"@,
        lifetime matches Some(lifetime) ==> seconds * 1_000_000_000 <= lifetime < (seconds + 1)
            * 1_000_000_000,
        lifetime is Some ==> lifetime_text(lifetime) == text::decimal(seconds) + "s"@,
{
    match lifetime {
        None => 0,
        Some(lifetime) => (lifetime / 1_000_000_000) as nat,
    }
}

/// A code is told as `0x` and eight digits, two for each of its bytes, the highest first.
pub proof fn lemma_codes_are_told(code: HResult, k: int) -> (parts: Seq<u8>)
    requires
        0 <= k < 4,
    ensures
        parts.len() == 4,
        parts[0] * 0x100_0000 + parts[1] * 0x1_0000 + parts[2] * 0x100 + parts[3] == code,
        code_text(code).len() == 10,
        code_text(code)[0] == '0' && code_text(code)[1] == 'x',
        code_text(code)[2 + 2 * k] == text::hex_pair(parts[k], true)[0],
        code_text(code)[3 + 2 * k] == text::hex_pair(parts[k], true)[1],
{
    let parts = bytes::be_bytes(code as nat, 4);
    bytes::lemma_four_bytes(code as nat);
    bytes::lemma_be_bytes_len(code as nat, 4);
    let turned = bytes::le_bytes(code as nat, 4);
    assert(turned[0] == parts[3] && turned[1] == parts[2] && turned[2] == parts[1] && turned[3]
        == parts[0]);
    reveal_strlit("0x");
    text::lemma_hex_text_at(parts, true, k);
    parts
}

/// An identifier is told in 32 digits, two for each of its bytes in order, with dashes behind the
/// eighth, the twelfth, the sixteenth and the twentieth.
pub proof fn lemma_identifiers_are_told(identifier: Seq<u8>, k: int)
    requires
        identifier.len() == 16,
        0 <= k < 16,
    ensures
        ({
            let told = identifier_text(identifier);
            let place = 2 * k + (if k < 4 {
                0int
            } else if k < 6 {
                1
            } else if k < 8 {
                2
            } else if k < 10 {
                3
            } else {
                4
            });
            &&& told.len() == 36
            &&& told[8] == '-' && told[13] == '-' && told[18] == '-' && told[23] == '-'
            &&& told[place] == text::hex_pair(identifier[k], true)[0]
            &&& told[place + 1] == text::hex_pair(identifier[k], true)[1]
        }),
{
    reveal_strlit("-");
    let groups = seq![
        identifier.subrange(0, 4),
        identifier.subrange(4, 6),
        identifier.subrange(6, 8),
        identifier.subrange(8, 10),
        identifier.subrange(10, 16),
    ];
    text::lemma_hex_text_at(groups[0], true, 0);
    text::lemma_hex_text_at(groups[1], true, 0);
    text::lemma_hex_text_at(groups[2], true, 0);
    text::lemma_hex_text_at(groups[3], true, 0);
    text::lemma_hex_text_at(groups[4], true, 0);
    if k < 4 {
        text::lemma_hex_text_at(groups[0], true, k);
    } else if k < 6 {
        text::lemma_hex_text_at(groups[1], true, k - 4);
    } else if k < 8 {
        text::lemma_hex_text_at(groups[2], true, k - 6);
    } else if k < 10 {
        text::lemma_hex_text_at(groups[3], true, k - 8);
    } else {
        text::lemma_hex_text_at(groups[4], true, k - 10);
    }
}

/// How the clipboard stood at the end of a probe is told first, then what the probe has counted.
pub proof fn lemma_ends_of_probes_are_told(status: HResult, counts: ProbeCounts, line: String)
    requires
        call_ensures(clipboard_stopped, (status, counts), line),
    ensures
        text::starts(line@, "STOP"@ + flag("current_clipboard"@, status == 0)),
        text::holds(line@, field("status"@, code_text(status))),
        text::holds(line@, number("read_calls"@, counts.read_calls)),
        text::holds(line@, number("events"@, counts.events)),
        text::ends(line@, number("dropped_events"@, counts.dropped_events)),
{
    let told = seq![
        flag("current_clipboard"@, status == 0),
        field("status"@, code_text(status)),
        number("read_calls"@, counts.read_calls),
        number("events"@, counts.events),
        number("dropped_events"@, counts.dropped_events),
    ];
    reveal_with_fuel(joined, 6);
    assert(joined("STOP"@, told) =~= line@);
    lemma_joined_holds("STOP"@, told);
    assert(text::holds(line@, told[1]) && text::holds(line@, told[2]) && text::holds(line@, told[3]));
    let lead = "STOP"@ + flag("current_clipboard"@, status == 0);
    let rest = told[1] + told[2] + told[3] + told[4];
    assert(line@ =~= lead + rest);
    text::lemma_holds(Seq::empty(), lead, rest);
    assert(line@ =~= (lead + told[1] + told[2] + told[3]) + told[4]);
    text::lemma_holds(lead + told[1] + told[2] + told[3], told[4], Seq::empty());
}

/// A probe of the clipboard tells its file, how often that was read so far and how long it stays.
pub proof fn lemma_clipboard_probes_are_told(read_calls: u64, lifetime: Option<u64>, line: String)
    requires
        call_ensures(clipboard_ready, (read_calls, lifetime), line),
    ensures
        text::starts(line@, "READY"@ + field("file"@, TEST_FILE_NAME@)),
        text::holds(line@, number("deferred_reads"@, read_calls)),
        text::holds(line@, field("size"@, text::decimal(encode_utf8(TEST_FILE_CONTENT@).len()))),
        text::ends(line@, field("lifetime"@, lifetime_text(lifetime))),
{
    let told = seq![
        field("file"@, TEST_FILE_NAME@),
        field("size"@, text::decimal(encode_utf8(TEST_FILE_CONTENT@).len())),
        number("deferred_reads"@, read_calls),
        field("lifetime"@, lifetime_text(lifetime)),
    ];
    reveal_with_fuel(joined, 5);
    assert(joined("READY"@, told) =~= line@);
    lemma_joined_holds("READY"@, told);
    assert(text::holds(line@, told[1]) && text::holds(line@, told[2]));
    let lead = "READY"@ + told[0];
    assert(line@ =~= lead + (told[1] + told[2] + told[3]));
    text::lemma_holds(Seq::empty(), lead, told[1] + told[2] + told[3]);
    assert(line@ =~= (lead + told[1] + told[2]) + told[3]);
    text::lemma_holds(lead + told[1] + told[2], told[3], Seq::empty());
}

/// The end of a lease tells whether the clipboard still held it, and then what it was read for.
pub proof fn lemma_ends_of_leases_are_told(end: LeaseEnd, status: HResult, detail: String)
    requires
        call_ensures(LeaseEnd::detail, (end, status), detail),
    ensures
        text::starts(detail@, "was_current="@ + flag_text(status == 0)),
        text::holds(detail@, field("status"@, code_text(status))),
        end matches LeaseEnd::Probe { read_calls } ==> text::ends(
            detail@,
            number("read_calls"@, read_calls),
        ),
        end matches LeaseEnd::Captured { read_calls, bytes_read } ==> text::ends(
            detail@,
            number("read_calls"@, read_calls) + number("bytes_read"@, bytes_read),
        ),
        end matches LeaseEnd::Remote { live_sources } ==> text::ends(
            detail@,
            number("live_sources"@, live_sources as u64),
        ),
{
    let lead = "was_current="@ + flag_text(status == 0);
    let told = field("status"@, code_text(status));
    let rest = match end {
        LeaseEnd::Probe { read_calls } => number("read_calls"@, read_calls),
        LeaseEnd::Captured { read_calls, bytes_read } => number("read_calls"@, read_calls) + number(
            "bytes_read"@,
            bytes_read,
        ),
        LeaseEnd::Remote { live_sources } => number("live_sources"@, live_sources as u64),
    };
    assert(detail@ =~= lead + told + rest);
    text::lemma_holds(lead, told, rest);
    text::lemma_holds(lead + told, rest, Seq::empty());
    assert(detail@ =~= lead + (told + rest));
    text::lemma_holds(Seq::empty(), lead, told + rest);
}

} // verus!
