//! What devices say on the local network.

use super::{PAIRING_PORT, SERVICE_PORT};
use crate::bytes;
use crate::failure::Failure;
use crate::security::CertificateFingerprint;
use crate::text;
use crate::text::text_from_utf8;
use vstd::prelude::*;
use vstd::utf8::*;

verus! {

/// First bytes of a packet: `CFDISC01`.
pub const MAGIC: [u8; 8] = [0x43, 0x46, 0x44, 0x49, 0x53, 0x43, 0x30, 0x31];

/// The version of the protocol.
pub const VERSION: u16 = 1;

/// The kind of a packet that asks others to answer.
pub const ANNOUNCEMENT: u8 = 1;

/// The kind of a packet that answers.
pub const RESPONSE: u8 = 2;

/// Length of a packet without its label.
pub const HEADER_LENGTH: usize = 48;

/// Longest label, in UTF-8 bytes.
pub const LABEL_LIMIT: usize = 63;

/// Longest packet.
pub const PACKET_LIMIT: usize = 111;

/// The label of a device that has no name.
pub const DEFAULT_LABEL: &'static str = "Windows 设备";

/// What a device says of itself.
#[derive(Debug)]
pub struct Packet {
    pub kind: u8,
    pub fingerprint: CertificateFingerprint,
    pub service_port: u16,
    pub pairing_port: u16,
    pub label: String,
}

pub struct PacketView {
    pub kind: u8,
    pub fingerprint: Seq<u8>,
    pub service_port: u16,
    pub pairing_port: u16,
    pub label: Seq<char>,
}

impl View for Packet {
    type V = PacketView;

    open spec fn view(&self) -> PacketView {
        PacketView {
            kind: self.kind,
            fingerprint: self.fingerprint.0@,
            service_port: self.service_port,
            pairing_port: self.pairing_port,
            label: self.label@,
        }
    }
}

/// A text without its control characters.
pub open spec fn without_control(text: Seq<char>) -> Seq<char>
    decreases text.len(),
{
    if text.len() == 0 {
        Seq::empty()
    } else if text::is_control(text.last()) {
        without_control(text.drop_last())
    } else {
        without_control(text.drop_last()).push(text.last())
    }
}

/// The longest part from the start of a text that takes at most so many UTF-8 bytes.
pub open spec fn fitting(text: Seq<char>, limit: nat) -> Seq<char>
    decreases text.len(),
{
    if text.len() == 0 || encode_utf8(text).len() <= limit {
        text
    } else {
        fitting(text.drop_last(), limit)
    }
}

/// The label that a name gives.
pub open spec fn label_of(name: Seq<char>) -> Seq<char> {
    let cleaned = without_control(text::trimmed(name));
    let source = if cleaned.len() == 0 {
        DEFAULT_LABEL@
    } else {
        cleaned
    };
    fitting(source, LABEL_LIMIT as nat)
}

proof fn lemma_utf8_grows(text: Seq<char>, index: int)
    requires
        0 <= index <= text.len(),
    ensures
        encode_utf8(text.take(index)).len() <= encode_utf8(text).len(),
    decreases text.len() - index,
{
    if index < text.len() {
        lemma_utf8_grows(text, index + 1);
        assert(text.take(index + 1) =~= text.take(index).push(text[index]));
        text::lemma_utf8_push(text.take(index), text[index]);
    } else {
        assert(text.take(index) =~= text);
    }
}

proof fn lemma_fitting_is(text: Seq<char>, limit: nat, index: int)
    requires
        0 <= index <= text.len(),
        encode_utf8(text.take(index)).len() <= limit,
        index < text.len() ==> encode_utf8(text.take(index + 1)).len() > limit,
    ensures
        fitting(text, limit) == text.take(index),
    decreases text.len(),
{
    if index == text.len() {
        assert(text.take(index) =~= text);
    } else {
        lemma_utf8_grows(text, index + 1);
        let shorter = text.drop_last();
        assert(shorter.take(index) =~= text.take(index));
        if index + 1 <= shorter.len() {
            assert(shorter.take(index + 1) =~= text.take(index + 1));
        }
        lemma_fitting_is(shorter, limit, index);
    }
}

proof fn lemma_without_control(text: Seq<char>)
    ensures
        !text::has_control(without_control(text)),
    decreases text.len(),
{
    if text.len() > 0 {
        lemma_without_control(text.drop_last());
    }
}

pub proof fn lemma_fitting_keeps(text: Seq<char>, limit: nat)
    ensures
        fitting(text, limit).len() <= text.len(),
        fitting(text, limit) == text.take(fitting(text, limit).len() as int),
        text.len() > 0 && limit >= 4 ==> fitting(text, limit).len() > 0,
        text.len() > 0 ==> encode_utf8(fitting(text, limit)).len() <= limit,
    decreases text.len(),
{
    if text.len() == 0 || encode_utf8(text).len() <= limit {
        assert(text.take(text.len() as int) =~= text);
    } else {
        let shorter = text.drop_last();
        lemma_fitting_keeps(shorter, limit);
        let kept = fitting(shorter, limit).len() as int;
        assert(shorter.take(kept) =~= text.take(kept));
        if shorter.len() == 0 {
            assert(text =~= seq![text[0]]);
            text::lemma_utf8_push(Seq::empty(), text[0]);
            assert(shorter =~= Seq::<char>::empty());
            assert(encode_utf8(shorter) =~= Seq::<u8>::empty());
        }
    }
}

proof fn lemma_default_label()
    ensures
        DEFAULT_LABEL@.len() > 0,
        !text::has_control(DEFAULT_LABEL@),
{
    reveal_strlit("Windows 设备");
}

/// A text takes at most four bytes for each of its characters.
pub proof fn lemma_utf8_is_bounded(text: Seq<char>)
    ensures
        encode_utf8(text).len() <= 4 * text.len(),
    decreases text.len(),
{
    if text.len() > 0 {
        let rest = text.drop_last();
        lemma_utf8_is_bounded(rest);
        text::lemma_utf8_push(rest, text.last());
        assert(rest.push(text.last()) =~= text);
    }
}

/// The label of a name can always be sent.
pub proof fn lemma_label_is_sendable(name: Seq<char>)
    ensures
        label_of(name).len() > 0,
        0 < encode_utf8(label_of(name)).len() <= LABEL_LIMIT,
        !text::has_control(label_of(name)),
{
    let cleaned = without_control(text::trimmed(name));
    let source = if cleaned.len() == 0 {
        DEFAULT_LABEL@
    } else {
        cleaned
    };
    lemma_default_label();
    lemma_without_control(text::trimmed(name));
    lemma_fitting_keeps(source, LABEL_LIMIT as nat);
    let label = label_of(name);
    text::lemma_utf8_push(label.drop_last(), label.last());
    assert(label.drop_last().push(label.last()) =~= label);
}

/// The label that a name gives: trimmed, without control characters, cut to what a packet holds.
pub fn bounded_label(name: &str) -> (label: String)
    ensures
        label@ == label_of(name@),
        0 < encode_utf8(label@).len() <= LABEL_LIMIT,
        !text::has_control(label@),
{
    let trimmed = text::trim(name);
    let characters = text::characters(trimmed.as_str());
    let mut cleaned: Vec<char> = Vec::new();
    let mut index: usize = 0;
    while index < characters.len()
        invariant
            index <= characters@.len(),
            cleaned@ == without_control(characters@.take(index as int)),
        decreases characters@.len() - index,
    {
        if !text::control(characters[index]) {
            cleaned.push(characters[index]);
        }
        index += 1;
        assert(characters@.take(index as int).drop_last() =~= characters@.take(index - 1));
    }
    assert(characters@.take(index as int) =~= characters@);
    let source = if cleaned.len() == 0 {
        text::characters(DEFAULT_LABEL)
    } else {
        cleaned
    };
    let mut label = String::new();
    let mut length: usize = 0;
    let mut taken: usize = 0;
    assert(source@.take(0) =~= Seq::<char>::empty());
    assert(label@ =~= Seq::<char>::empty());
    assert(source@.len() == 0 ==> source@ =~= Seq::<char>::empty());
    while taken < source.len()
        invariant_except_break
            taken <= source@.len(),
            label@ == source@.take(taken as int),
            length == encode_utf8(label@).len(),
            length <= LABEL_LIMIT,
            taken == source@.len() ==> label@ == fitting(source@, LABEL_LIMIT as nat),
        ensures
            label@ == fitting(source@, LABEL_LIMIT as nat),
        decreases source@.len() - taken,
    {
        let character = source[taken];
        let width: usize = text::width(character);
        proof {
            text::lemma_utf8_push(label@, character);
            assert(source@.take(taken + 1) =~= source@.take(taken as int).push(character));
        }
        if length + width > LABEL_LIMIT {
            proof {
                lemma_fitting_is(source@, LABEL_LIMIT as nat, taken as int);
            }
            break;
        }
        label.push(character);
        length += width;
        taken += 1;
        proof {
            if taken == source@.len() {
                lemma_fitting_is(source@, LABEL_LIMIT as nat, taken as int);
            }
        }
    }
    proof {
        lemma_label_is_sendable(name@);
    }
    label
}

/// Whether a packet can be sent.
pub open spec fn sendable(packet: PacketView) -> bool {
    &&& packet.kind == ANNOUNCEMENT || packet.kind == RESPONSE
    &&& packet.service_port == SERVICE_PORT
    &&& packet.pairing_port == PAIRING_PORT
    &&& 0 < encode_utf8(packet.label).len() <= LABEL_LIMIT
}

/// The bytes of a packet.
pub open spec fn packet_bytes(packet: PacketView) -> Seq<u8> {
    MAGIC@ + bytes::le_bytes(VERSION as nat, 2) + seq![packet.kind] + packet.fingerprint
        + bytes::le_bytes(packet.service_port as nat, 2) + bytes::le_bytes(
        packet.pairing_port as nat,
        2,
    ) + seq![encode_utf8(packet.label).len() as u8] + encode_utf8(packet.label)
}

/// The packet that bytes give.
pub open spec fn packet_outcome(encoded: Seq<u8>) -> Result<PacketView, Failure> {
    let service_port = bytes::le_value(bytes::slice_of(encoded, 43, 2));
    let pairing_port = bytes::le_value(bytes::slice_of(encoded, 45, 2));
    let label_bytes = encoded.skip(48);
    if encoded.len() < HEADER_LENGTH || encoded.len() > PACKET_LIMIT {
        Err(Failure::invalid("invalid discovery packet length"))
    } else if bytes::slice_of(encoded, 0, 8) != MAGIC@ {
        Err(Failure::invalid("discovery packet magic mismatch"))
    } else if bytes::le_value(bytes::slice_of(encoded, 8, 2)) != VERSION {
        Err(Failure::invalid("unsupported discovery packet version"))
    } else if encoded[10] != ANNOUNCEMENT && encoded[10] != RESPONSE {
        Err(Failure::invalid("unknown discovery packet kind"))
    } else if service_port != SERVICE_PORT || pairing_port != PAIRING_PORT {
        Err(Failure::invalid("discovery packet contains unsupported service ports"))
    } else if encoded[47] == 0 || encoded[47] > LABEL_LIMIT || encoded.len() != HEADER_LENGTH
        + encoded[47] {
        Err(Failure::invalid("invalid discovery device label length"))
    } else if !valid_utf8(label_bytes) {
        Err(Failure::invalid("discovery device label is not UTF-8"))
    } else if text::has_control(decode_utf8(label_bytes)) {
        Err(Failure::invalid("discovery device label contains control characters"))
    } else {
        Ok(
            PacketView {
                kind: encoded[10],
                fingerprint: bytes::slice_of(encoded, 11, 32),
                service_port: SERVICE_PORT,
                pairing_port: PAIRING_PORT,
                label: decode_utf8(label_bytes),
            },
        )
    }
}

impl Packet {
    /// What a device with a name says of itself.
    pub fn new(kind: u8, fingerprint: CertificateFingerprint, name: &str) -> (packet: Self)
        ensures
            packet.kind == kind,
            packet.fingerprint == fingerprint,
            packet.service_port == SERVICE_PORT,
            packet.pairing_port == PAIRING_PORT,
            packet.label@ == label_of(name@),
            kind == ANNOUNCEMENT || kind == RESPONSE ==> sendable(packet@),
    {
        Packet {
            kind,
            fingerprint,
            service_port: SERVICE_PORT,
            pairing_port: PAIRING_PORT,
            label: bounded_label(name),
        }
    }

    /// Encodes the packet.
    pub fn encode(&self) -> (result: Result<Vec<u8>, Failure>)
        ensures
            match result {
                Ok(encoded) => sendable(self@) && encoded@ == packet_bytes(self@),
                Err(failure) => !sendable(self@) && failure == if (self.kind == ANNOUNCEMENT
                    || self.kind == RESPONSE) && self.service_port == SERVICE_PORT
                    && self.pairing_port == PAIRING_PORT {
                    Failure::invalid("invalid discovery device label")
                } else {
                    Failure::invalid("invalid discovery packet fields")
                },
            },
    {
        if (self.kind != ANNOUNCEMENT && self.kind != RESPONSE) || self.service_port != SERVICE_PORT
            || self.pairing_port != PAIRING_PORT {
            return Err(Failure::invalid("invalid discovery packet fields"));
        }
        let label = self.label.as_str().as_bytes();
        if label.len() == 0 || label.len() > LABEL_LIMIT {
            return Err(Failure::invalid("invalid discovery device label"));
        }
        proof {
            bytes::lemma_capacity_values();
        }
        let mut encoded: Vec<u8> = Vec::new();
        bytes::append(&mut encoded, &MAGIC);
        bytes::put_le(&mut encoded, VERSION as u64, 2);
        encoded.push(self.kind);
        bytes::append(&mut encoded, &self.fingerprint.0);
        bytes::put_le(&mut encoded, self.service_port as u64, 2);
        bytes::put_le(&mut encoded, self.pairing_port as u64, 2);
        encoded.push(label.len() as u8);
        bytes::append(&mut encoded, label);
        assert(encoded@ =~= packet_bytes(self@));
        Ok(encoded)
    }

    /// Decodes a packet.
    pub fn decode(encoded: &[u8]) -> (result: Result<Self, Failure>)
        ensures
            match result {
                Ok(packet) => packet_outcome(encoded@) == Ok::<PacketView, Failure>(packet@),
                Err(failure) => packet_outcome(encoded@) == Err::<PacketView, Failure>(failure),
            },
    {
        if encoded.len() < HEADER_LENGTH || encoded.len() > PACKET_LIMIT {
            return Err(Failure::invalid("invalid discovery packet length"));
        }
        proof {
            bytes::lemma_capacity_values();
        }
        assert(encoded@.subrange(0, 8) == bytes::slice_of(encoded@, 0, 8));
        if !bytes::bytes_equal(&encoded[0..8], &MAGIC) {
            return Err(Failure::invalid("discovery packet magic mismatch"));
        }
        if bytes::get_le(encoded, 8, 2) != VERSION as u64 {
            return Err(Failure::invalid("unsupported discovery packet version"));
        }
        let kind: u8 = encoded[10];
        if kind != ANNOUNCEMENT && kind != RESPONSE {
            return Err(Failure::invalid("unknown discovery packet kind"));
        }
        let fingerprint = CertificateFingerprint(bytes::array_32(encoded, 11));
        let service_port: u64 = bytes::get_le(encoded, 43, 2);
        let pairing_port: u64 = bytes::get_le(encoded, 45, 2);
        if service_port != SERVICE_PORT as u64 || pairing_port != PAIRING_PORT as u64 {
            return Err(Failure::invalid("discovery packet contains unsupported service ports"));
        }
        let label_length: usize = encoded[47] as usize;
        if label_length == 0 || label_length > LABEL_LIMIT || encoded.len() != HEADER_LENGTH
            + label_length {
            return Err(Failure::invalid("invalid discovery device label length"));
        }
        let label_bytes = bytes::copy_range(encoded, HEADER_LENGTH, label_length);
        assert(label_bytes@ =~= encoded@.skip(48));
        let label = match text_from_utf8(label_bytes.as_slice()) {
            None => {
                return Err(Failure::invalid("discovery device label is not UTF-8"));
            },
            Some(label) => label,
        };
        if text::contains_control(label.as_str()) {
            return Err(Failure::invalid("discovery device label contains control characters"));
        }
        Ok(
            Packet {
                kind,
                fingerprint,
                service_port: SERVICE_PORT,
                pairing_port: PAIRING_PORT,
                label,
            },
        )
    }
}

/// A packet that can be sent is heard as it was said, where its label has no control characters.
pub proof fn lemma_packet_round_trip(packet: PacketView)
    requires
        sendable(packet),
        packet.fingerprint.len() == 32,
        !text::has_control(packet.label),
    ensures
        packet_outcome(packet_bytes(packet)) == Ok::<PacketView, Failure>(packet),
{
    let encoded = packet_bytes(packet);
    let label = encode_utf8(packet.label);
    bytes::lemma_capacity_values();
    bytes::lemma_le_value_of_bytes(VERSION as nat, 2);
    bytes::lemma_le_value_of_bytes(SERVICE_PORT as nat, 2);
    bytes::lemma_le_value_of_bytes(PAIRING_PORT as nat, 2);
    assert(bytes::slice_of(encoded, 0, 8) =~= MAGIC@);
    assert(bytes::slice_of(encoded, 8, 2) =~= bytes::le_bytes(VERSION as nat, 2));
    assert(bytes::slice_of(encoded, 11, 32) =~= packet.fingerprint);
    assert(bytes::slice_of(encoded, 43, 2) =~= bytes::le_bytes(SERVICE_PORT as nat, 2));
    assert(bytes::slice_of(encoded, 45, 2) =~= bytes::le_bytes(PAIRING_PORT as nat, 2));
    assert(encoded.skip(48) =~= label);
    encode_utf8_valid_utf8(packet.label);
    encode_utf8_decode_utf8(packet.label);
}

/// A packet is taken only in the one form in which it is sent: nothing before it, nothing after
/// it, nothing left open.
pub proof fn lemma_packet_is_strict(encoded: Seq<u8>)
    ensures
        packet_outcome(encoded) matches Ok(packet) ==> sendable(packet) && packet_bytes(packet)
            == encoded,
{
    if let Ok(packet) = packet_outcome(encoded) {
        let label = encoded.skip(48);
        bytes::lemma_capacity_values();
        bytes::lemma_le_bytes_of_value(bytes::slice_of(encoded, 8, 2));
        bytes::lemma_le_bytes_of_value(bytes::slice_of(encoded, 43, 2));
        bytes::lemma_le_bytes_of_value(bytes::slice_of(encoded, 45, 2));
        decode_utf8_encode_utf8(label);
        assert(encode_utf8(packet.label) == label);
        assert(encoded =~= bytes::slice_of(encoded, 0, 8) + bytes::slice_of(encoded, 8, 2)
            + seq![encoded[10]] + bytes::slice_of(encoded, 11, 32) + bytes::slice_of(encoded, 43, 2)
            + bytes::slice_of(encoded, 45, 2) + seq![encoded[47]] + label);
    }
}

} // verus!
