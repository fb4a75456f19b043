//! A bounded history of the calls that the shell makes.

use crate::clipboard::hresult::HResult;
use crate::counter;
use crate::counter::count;
use crate::text;
use std::collections::VecDeque;
use vstd::prelude::*;

verus! {

/// Most events that are kept.
pub const MAX_RETAINED_EVENTS: usize = 4096;

/// Counts calls and keeps the newest events.
#[derive(Debug)]
pub struct ProbeState {
    read_calls: u64,
    event_count: u64,
    dropped_events: u64,
    events: VecDeque<String>,
    verbose: bool,
}

/// What a probe holds.
#[verifier::ext_equal]
pub struct ProbeView {
    pub read_calls: u64,
    pub event_count: u64,
    pub dropped_events: u64,
    pub events: Seq<Seq<char>>,
    pub verbose: bool,
}

/// Where a call came from: its thread and the apartment of that thread.
#[derive(Debug)]
pub struct CallContext {
    pub thread: u32,
    pub apartment: String,
}

/// The texts of strings.
pub open spec fn texts(strings: Seq<String>) -> Seq<Seq<char>> {
    strings.map_values(|string: String| string@)
}

impl ProbeView {
    /// A probe that has seen nothing.
    pub open spec fn fresh(verbose: bool) -> ProbeView {
        ProbeView {
            read_calls: 0,
            event_count: 0,
            dropped_events: 0,
            events: Seq::empty(),
            verbose,
        }
    }

    /// The probe once it has kept an event: the oldest goes where there is no room.
    pub open spec fn retained(self, event: Seq<char>) -> ProbeView {
        let full = self.events.len() >= MAX_RETAINED_EVENTS;
        ProbeView {
            event_count: counter::counted(self.event_count, 1),
            dropped_events: if full {
                counter::counted(self.dropped_events, 1)
            } else {
                self.dropped_events
            },
            events: if full {
                self.events.skip(1).push(event)
            } else {
                self.events.push(event)
            },
            ..self
        }
    }

    /// The probe once it has counted and kept a read.
    pub open spec fn after_read(
        self,
        context: &CallContext,
        offset: u64,
        requested: usize,
    ) -> ProbeView {
        let counted = ProbeView {
            read_calls: counter::counted(self.read_calls, 1),
            ..self
        };
        counted.retained(
            event_line(
                "IStream::Read"@,
                context.thread,
                context.apartment@,
                read_detail(offset, requested),
            ),
        )
    }

    /// Whether the history is bounded and every event is either kept or counted as dropped.
    pub open spec fn consistent(self) -> bool {
        &&& self.events.len() <= MAX_RETAINED_EVENTS
        &&& self.event_count == counter::counted(self.dropped_events, self.events.len())
    }
}

/// The line of an event.
pub open spec fn event_line(
    method: Seq<char>,
    thread: u32,
    apartment: Seq<char>,
    detail: Seq<char>,
) -> Seq<char> {
    "COM method="@ + method + " thread="@ + text::decimal(thread as nat) + " apartment="@
        + apartment + " "@ + detail
}

/// The detail of a read.
pub open spec fn read_detail(offset: u64, requested: usize) -> Seq<char> {
    "offset="@ + text::decimal(offset as nat) + " requested="@ + text::decimal(requested as nat)
}

/// Whether an event is shown even by a quiet probe.
pub open spec fn key_event(method: Seq<char>) -> bool {
    ||| method == "OleSetClipboard"@
    ||| method == "WM_CLIPBOARDUPDATE"@
    ||| method == "IStream::ReadFailed"@
    ||| method == "CapturedClipboardLease::drop"@
}

/// Whether an event is shown even by a quiet probe.
pub fn is_key_event(method: &str) -> (key: bool)
    ensures
        key == key_event(method@),
{
    text::same_text(method, "OleSetClipboard") || text::same_text(method, "WM_CLIPBOARDUPDATE")
        || text::same_text(method, "IStream::ReadFailed") || text::same_text(
        method,
        "CapturedClipboardLease::drop",
    )
}

/// A number in decimal digits, with a sign where it is negative.
pub open spec fn signed_decimal(value: int) -> Seq<char> {
    if value < 0 {
        "-"@ + text::decimal((-value) as nat)
    } else {
        text::decimal(value as nat)
    }
}

fn push_signed(out: &mut String, value: i32)
    ensures
        final(out)@ == old(out)@ + signed_decimal(value as int),
{
    let wide: i64 = value as i64;
    if wide < 0 {
        text::push_text(out, "-");
        text::push_decimal(out, (-wide) as u64);
    } else {
        text::push_decimal(out, wide as u64);
    }
    assert(out@ =~= old(out)@ + signed_decimal(value as int));
}

/// The four bytes of a result code, most significant byte first.
pub open spec fn code_bytes(code: HResult) -> Seq<u8> {
    crate::bytes::be_bytes(code as nat, 4)
}

/// The apartment of a thread: its type and qualifier, or the code with which the question for
/// them failed.
pub open spec fn apartment_text(apartment: Result<(i32, i32), HResult>) -> Seq<char> {
    match apartment {
        Ok((kind, qualifier)) => signed_decimal(kind as int) + ":"@ + signed_decimal(
            qualifier as int,
        ),
        Err(code) => "unknown(0x"@ + text::hex_text(code_bytes(code), true) + ")"@,
    }
}

/// The apartment of a thread: its type and qualifier, or the code with which the question for
/// them failed.
pub fn apartment_description(apartment: Result<(i32, i32), HResult>) -> (description: String)
    ensures
        description@ == apartment_text(apartment),
{
    let mut out = String::new();
    match apartment {
        Ok((kind, qualifier)) => {
            push_signed(&mut out, kind);
            text::push_text(&mut out, ":");
            push_signed(&mut out, qualifier);
        },
        Err(code) => {
            proof {
                crate::bytes::lemma_capacity_values();
            }
            let mut bytes: Vec<u8> = Vec::new();
            crate::bytes::put_be(&mut bytes, code as u64, 4);
            assert(bytes@ =~= code_bytes(code));
            text::push_text(&mut out, "unknown(0x");
            text::push_hex(&mut out, bytes.as_slice(), true);
            text::push_text(&mut out, ")");
        },
    }
    assert(out@ =~= apartment_text(apartment));
    out
}

impl View for ProbeState {
    type V = ProbeView;

    closed spec fn view(&self) -> ProbeView {
        ProbeView {
            read_calls: self.read_calls,
            event_count: self.event_count,
            dropped_events: self.dropped_events,
            events: texts(self.events@),
            verbose: self.verbose,
        }
    }
}

impl ProbeState {
    /// A probe that shows every event.
    pub fn new() -> (probe: Self)
        ensures
            probe@ == ProbeView::fresh(true),
    {
        let probe = ProbeState {
            read_calls: 0,
            event_count: 0,
            dropped_events: 0,
            events: VecDeque::new(),
            verbose: true,
        };
        assert(probe@.events =~= Seq::<Seq<char>>::empty());
        probe
    }

    /// A probe that keeps every event but shows lifecycle and failure events only.
    pub fn quiet() -> (probe: Self)
        ensures
            probe@ == ProbeView::fresh(false),
    {
        let mut probe = ProbeState::new();
        probe.verbose = false;
        probe
    }

    /// Keeps an event of a method; gives its line where it is to be shown.
    pub fn record(&mut self, context: &CallContext, method: &str, detail: &str) -> (shown: Option<
        String,
    >)
        requires
            old(self)@.consistent(),
        ensures
            ({
                let line = event_line(method@, context.thread, context.apartment@, detail@);
                &&& final(self)@ == old(self)@.retained(line)
                &&& final(self)@.consistent()
                &&& shown is Some <==> (old(self)@.verbose || key_event(method@))
                &&& shown matches Some(text) ==> text@ == line
            }),
    {
        let mut line = String::new();
        text::push_text(&mut line, "COM method=");
        text::push_text(&mut line, method);
        text::push_text(&mut line, " thread=");
        text::push_decimal(&mut line, context.thread as u64);
        text::push_text(&mut line, " apartment=");
        text::push_text(&mut line, context.apartment.as_str());
        text::push_text(&mut line, " ");
        text::push_text(&mut line, detail);
        assert(line@ =~= event_line(method@, context.thread, context.apartment@, detail@));
        let shown = if self.verbose || is_key_event(method) {
            Some(line.clone())
        } else {
            None
        };
        self.retain(line);
        shown
    }

    /// Keeps an event; the oldest goes where there is no room.
    pub fn retain(&mut self, event: String)
        requires
            old(self)@.consistent(),
        ensures
            final(self)@ == old(self)@.retained(event@),
            final(self)@.consistent(),
    {
        self.event_count = count(self.event_count);
        if self.events.len() >= MAX_RETAINED_EVENTS {
            let _ = self.events.pop_front();
            self.dropped_events = count(self.dropped_events);
        }
        self.events.push_back(event);
        assert(self@.events =~= old(self)@.retained(event@).events);
        proof {
            lemma_retained_is_consistent(old(self)@, event@);
        }
    }

    /// Counts a read and keeps it as an event.
    pub fn note_read(&mut self, context: &CallContext, offset: u64, requested: usize) -> (shown:
        Option<String>)
        requires
            old(self)@.consistent(),
        ensures
            final(self)@ == old(self)@.after_read(context, offset, requested),
            final(self)@.consistent(),
            shown is Some <==> old(self)@.verbose,
            shown matches Some(line) ==> line@ == final(self)@.events.last(),
    {
        self.read_calls = count(self.read_calls);
        let mut detail = String::new();
        text::push_text(&mut detail, "offset=");
        text::push_decimal(&mut detail, offset);
        text::push_text(&mut detail, " requested=");
        text::push_decimal(&mut detail, requested as u64);
        assert(detail@ =~= read_detail(offset, requested));
        proof {
            reveal_strlit("IStream::Read");
            reveal_strlit("OleSetClipboard");
            reveal_strlit("WM_CLIPBOARDUPDATE");
            reveal_strlit("IStream::ReadFailed");
            reveal_strlit("CapturedClipboardLease::drop");
        }
        self.record(context, "IStream::Read", detail.as_str())
    }

    pub fn read_calls(&self) -> (calls: u64)
        ensures
            calls == self@.read_calls,
    {
        self.read_calls
    }

    /// The kept events, oldest first.
    pub fn events(&self) -> (events: Vec<String>)
        ensures
            texts(events@) == self@.events,
    {
        let mut events: Vec<String> = Vec::new();
        let mut index: usize = 0;
        while index < self.events.len()
            invariant
                index <= self.events@.len(),
                texts(events@) =~= texts(self.events@).take(index as int),
            decreases self.events@.len() - index,
        {
            let ghost before = events@;
            events.push(self.events[index].clone());
            assert(texts(events@) =~= texts(before).push(self.events@[index as int]@));
            index += 1;
        }
        assert(texts(events@) =~= self@.events);
        events
    }

    pub fn event_count(&self) -> (count: u64)
        ensures
            count == self@.event_count,
    {
        self.event_count
    }

    pub fn dropped_events(&self) -> (count: u64)
        ensures
            count == self@.dropped_events,
    {
        self.dropped_events
    }
}

/// The history stays bounded, and the total count of events is never lost: what is not kept is
/// counted as dropped.
pub proof fn lemma_retained_is_consistent(probe: ProbeView, event: Seq<char>)
    requires
        probe.consistent(),
    ensures
        probe.retained(event).consistent(),
        probe.retained(event).events.last() == event,
{
}

} // verus!
