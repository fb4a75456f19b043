//! The message by which a device tells another where its offer can be had.

use crate::address::{Endpoint, IpAddress};
use crate::app_settings;
use crate::app_settings::validate_private_endpoint;
use crate::bytes;
use crate::failure::{Failure, FailureKind};
use vstd::prelude::*;

verus! {

/// First bytes of an announcement: `CFOFFER1`.
pub const OFFER_MAGIC: [u8; 8] = [0x43, 0x46, 0x4f, 0x46, 0x46, 0x45, 0x52, 0x31];

/// The answer to an announcement: `CFACK001`.
pub const OFFER_ACK: [u8; 8] = [0x43, 0x46, 0x41, 0x43, 0x4b, 0x30, 0x30, 0x31];

/// Length of an announcement.
pub const OFFER_FRAME_SIZE: usize = 27;

/// How long an announcement is tried, in nanoseconds.
pub const ANNOUNCEMENT_WINDOW: u64 = 60_000_000_000;

/// The first wait between two tries, in nanoseconds.
pub const FIRST_DELAY: u64 = 100_000_000;

/// The longest wait between two tries, in nanoseconds.
pub const LONGEST_DELAY: u64 = 2_000_000_000;

/// The family and the sixteen bytes of an address.
pub open spec fn address_bytes(ip: IpAddress) -> Seq<u8> {
    match ip {
        IpAddress::V4(ip) => seq![4u8] + bytes::be_bytes(ip as nat, 4) + Seq::new(
            12,
            |k: int| 0u8,
        ),
        IpAddress::V6(ip) => seq![6u8] + bytes::be_bytes(ip as nat, 16),
    }
}

/// The bytes of an announcement.
pub open spec fn announcement(endpoint: Endpoint) -> Seq<u8> {
    OFFER_MAGIC@ + address_bytes(endpoint.ip) + bytes::be_bytes(endpoint.port as nat, 2)
}

/// The endpoint that an announcement tells.
pub open spec fn announced(frame: Seq<u8>) -> Result<Endpoint, Failure> {
    let port = bytes::be_value(bytes::slice_of(frame, 25, 2)) as u16;
    let told = if frame[8] == 4 {
        Some(IpAddress::V4(bytes::be_value(bytes::slice_of(frame, 9, 4)) as u32))
    } else if frame[8] == 6 {
        Some(IpAddress::V6(bytes::be_value(bytes::slice_of(frame, 9, 16)) as u128))
    } else {
        None
    };
    if bytes::slice_of(frame, 0, 8) != OFFER_MAGIC@ {
        Err(Failure::invalid("invalid offer announcement magic"))
    } else {
        match told {
            None => Err(Failure::invalid("invalid offer endpoint address family")),
            Some(ip) => match app_settings::endpoint_outcome(Endpoint::new(ip, port)) {
                Err(failure) => Err(failure),
                Ok(_) => Ok(Endpoint::new(ip, port)),
            },
        }
    }
}

/// Encodes an announcement.
pub fn encode_announcement(endpoint: Endpoint) -> (result: Result<Vec<u8>, Failure>)
    ensures
        match result {
            Err(failure) => app_settings::endpoint_outcome(endpoint) == Err::<(), Failure>(failure),
            Ok(frame) => {
                &&& app_settings::endpoint_outcome(endpoint) is Ok
                &&& frame@ == announcement(endpoint)
                &&& frame@.len() == OFFER_FRAME_SIZE
            },
        },
{
    match validate_private_endpoint(endpoint) {
        Err(failure) => {
            return Err(failure);
        },
        Ok(_) => {},
    }
    proof {
        bytes::lemma_capacity_values();
    }
    let mut frame: Vec<u8> = Vec::new();
    bytes::append(&mut frame, &OFFER_MAGIC);
    match endpoint.ip {
        IpAddress::V4(ip) => {
            proof {
                bytes::lemma_be_bytes_len(ip as nat, 4);
            }
            frame.push(4);
            bytes::put_be(&mut frame, ip as u64, 4);
            bytes::append(&mut frame, &[0;12]);
        },
        IpAddress::V6(ip) => {
            proof {
                bytes::lemma_be_bytes_len(ip as nat, 16);
            }
            frame.push(6);
            bytes::put_be_16(&mut frame, ip);
        },
    }
    assert(frame@ =~= OFFER_MAGIC@ + address_bytes(endpoint.ip));
    proof {
        bytes::lemma_be_bytes_len(endpoint.port as nat, 2);
    }
    bytes::put_be(&mut frame, endpoint.port as u64, 2);
    assert(frame@ =~= announcement(endpoint));
    Ok(frame)
}

/// Decodes an announcement.
pub fn read_announcement(frame: &[u8]) -> (result: Result<Endpoint, Failure>)
    requires
        frame@.len() == OFFER_FRAME_SIZE,
    ensures
        result == announced(frame@),
{
    proof {
        bytes::lemma_capacity_values();
    }
    assert(frame@.subrange(0, 8) == bytes::slice_of(frame@, 0, 8));
    if !bytes::bytes_equal(&frame[0..8], &OFFER_MAGIC) {
        return Err(Failure::invalid("invalid offer announcement magic"));
    }
    let ip = if frame[8] == 4 {
        IpAddress::V4(bytes::get_be(frame, 9, 4) as u32)
    } else if frame[8] == 6 {
        IpAddress::V6(bytes::get_be_16(frame, 9))
    } else {
        return Err(Failure::invalid("invalid offer endpoint address family"));
    };
    let port: u16 = bytes::get_be(frame, 25, 2) as u16;
    let endpoint = Endpoint::new(ip, port);
    match validate_private_endpoint(endpoint) {
        Err(failure) => Err(failure),
        Ok(_) => Ok(endpoint),
    }
}

/// Checks the answer to an announcement.
pub fn check_acknowledgement(answer: &[u8]) -> (result: Result<(), Failure>)
    ensures
        result == if answer@ == OFFER_ACK@ {
            Ok::<(), Failure>(())
        } else {
            Err(Failure::invalid("peer returned an invalid offer acknowledgement"))
        },
{
    if !bytes::bytes_equal(answer, &OFFER_ACK) {
        return Err(Failure::invalid("peer returned an invalid offer acknowledgement"));
    }
    Ok(())
}

/// Whether a failure to announce may pass: the connection failed, and not what it carried.
pub open spec fn recoverable(kind: FailureKind, raw: Option<i32>) -> bool {
    ||| kind is BrokenPipe
    ||| kind is ConnectionAborted
    ||| kind is ConnectionRefused
    ||| kind is ConnectionReset
    ||| kind is NotConnected
    ||| kind is TimedOut
    ||| kind is UnexpectedEof
    ||| match raw {
        None => false,
        Some(code) => 10050 <= code <= 10054 || code == 10060 || code == 10061 || code == 10064
            || code == 10065,
    }
}

/// Whether a failure to announce may pass.
pub fn is_recoverable_announcement_error(kind: FailureKind, raw: Option<i32>) -> (may_pass: bool)
    ensures
        may_pass == recoverable(kind, raw),
{
    let by_kind = match kind {
        FailureKind::BrokenPipe
        | FailureKind::ConnectionAborted
        | FailureKind::ConnectionRefused
        | FailureKind::ConnectionReset
        | FailureKind::NotConnected
        | FailureKind::TimedOut
        | FailureKind::UnexpectedEof => true,
        _ => false,
    };
    by_kind || match raw {
        None => false,
        Some(code) => (10050 <= code && code <= 10054) || code == 10060 || code == 10061 || code
            == 10064 || code == 10065,
    }
}

/// The tries of one announcement: until when it is tried, and the next wait.
#[derive(Clone, Copy, Debug, PartialEq, Eq, Structural)]
pub struct AnnouncementRetry {
    pub deadline: u64,
    pub delay: u64,
}

impl AnnouncementRetry {
    pub fn new(now: u64) -> (retry: Self)
        ensures
            retry == (AnnouncementRetry {
                deadline: if now + ANNOUNCEMENT_WINDOW > u64::MAX {
                    u64::MAX
                } else {
                    (now + ANNOUNCEMENT_WINDOW) as u64
                },
                delay: FIRST_DELAY,
            }),
    {
        AnnouncementRetry { deadline: now.saturating_add(ANNOUNCEMENT_WINDOW), delay: FIRST_DELAY }
    }

    /// The wait before the next try after a failure; none where it is given up. The wait never
    /// goes beyond the deadline; the next one is twice as long, up to a bound.
    pub fn after_failure(&mut self, may_pass: bool, now: u64) -> (wait: Option<u64>)
        ensures
            if may_pass && now < old(self).deadline {
                &&& wait == Some(
                    if old(self).delay < old(self).deadline - now {
                        old(self).delay
                    } else {
                        (old(self).deadline - now) as u64
                    },
                )
                &&& *final(self) == (AnnouncementRetry {
                    delay: if 2 * old(self).delay < LONGEST_DELAY {
                        (2 * old(self).delay) as u64
                    } else {
                        LONGEST_DELAY
                    },
                    ..*old(self)
                })
            } else {
                wait is None && *final(self) == *old(self)
            },
    {
        if !may_pass || now >= self.deadline {
            return None;
        }
        let left: u64 = self.deadline - now;
        let wait: u64 = if self.delay < left {
            self.delay
        } else {
            left
        };
        self.delay = if self.delay < LONGEST_DELAY / 2 {
            2 * self.delay
        } else {
            LONGEST_DELAY
        };
        Some(wait)
    }
}

/// An endpoint that may be announced is read back as it was.
pub proof fn lemma_announcement_round_trip(endpoint: Endpoint)
    requires
        app_settings::endpoint_outcome(endpoint) is Ok,
        endpoint.scope == 0,
    ensures
        announcement(endpoint).len() == OFFER_FRAME_SIZE,
        announced(announcement(endpoint)) == Ok::<Endpoint, Failure>(endpoint),
{
    let frame = announcement(endpoint);
    bytes::lemma_capacity_values();
    bytes::lemma_be_value_of_bytes(endpoint.port as nat, 2);
    match endpoint.ip {
        IpAddress::V4(ip) => {
            bytes::lemma_be_value_of_bytes(ip as nat, 4);
            assert(bytes::slice_of(frame, 9, 4) =~= bytes::be_bytes(ip as nat, 4));
        },
        IpAddress::V6(ip) => {
            bytes::lemma_be_value_of_bytes(ip as nat, 16);
            assert(bytes::slice_of(frame, 9, 16) =~= bytes::be_bytes(ip as nat, 16));
        },
    }
    assert(bytes::slice_of(frame, 0, 8) =~= OFFER_MAGIC@);
    assert(bytes::slice_of(frame, 25, 2) =~= bytes::be_bytes(endpoint.port as nat, 2));
}

/// An offer is announced for a minute, at first after a tenth of a second and at most every two seconds.
pub proof fn lemma_times_of_announcements()
    ensures
        ANNOUNCEMENT_WINDOW == 60 * 1_000_000_000,
        FIRST_DELAY * 10 == 1_000_000_000,
        LONGEST_DELAY == 2 * 1_000_000_000,
        OFFER_FRAME_SIZE == 27,
{
}

} // verus!
