//! What devices that trust each other rely on: who may be trusted and under which name, what both
//! people see when they pair two devices, and which settings are taken.

use crate::address;
use crate::address::{Endpoint, IpAddress};
use crate::app_settings;
use crate::app_settings::{AppSettings, FieldsView, SettingsText};
use crate::bytes;
use crate::device_store;
use crate::device_store::{DeviceStore, IdentityStep, PeerFileView, PeerView, TemporaryStep};
use crate::failure::{Failure, FailureKind};
use crate::pairing;
use crate::pairing::{AcceptStep, Hello, PairingCode, PendingPairing, Role};
use crate::security;
use crate::security::CertificateFingerprint;
use crate::text;
use crate::tls;
use crate::tls::TrustFailure;
use vstd::prelude::*;
use vstd::utf8;

verus! {

/// Whether a label may name a device: one to 128 bytes of UTF-8 once the whitespace around it is gone,
/// and no control codes.
pub open spec fn names_a_device(label: Seq<char>) -> bool {
    let name = text::trimmed(label);
    &&& name.len() > 0
    &&& utf8::encode_utf8(name).len() <= 128
    &&& forall|k: int|
        0 <= k < name.len() ==> 32 <= #[trigger] (name[k] as u32) && !(127 <= name[k] as u32 <= 159)
}

/// A label is taken without the whitespace around it, where it may name a device, and else refused.
pub proof fn lemma_labels(label: Seq<char>)
    ensures
        device_store::label_of(label) is Some <==> names_a_device(label),
        device_store::label_of(label) matches Some(taken) ==> taken == text::trimmed(label),
{
    let name = text::trimmed(label);
    if names_a_device(label) && text::has_control(name) {
        let k = choose|k: int| 0 <= k < name.len() && text::is_control(#[trigger] name[k]);
        assert(32 <= name[k] as u32 && !(127 <= name[k] as u32 <= 159));
    }
    if device_store::label_of(label) is Some {
        assert forall|k: int| 0 <= k < name.len() implies 32 <= #[trigger] (name[k] as u32) && !(127
            <= name[k] as u32 <= 159) by {
            assert(!text::is_control(name[k]));
        }
    }
}

/// A device is trusted exactly where its certificate has a length that is taken and the expected
/// fingerprint, is not that of this device, has a label that may name a device, and neither is
/// trusted already nor the 65th.
pub proof fn lemma_who_may_be_trusted(
    local: CertificateFingerprint,
    certificate: Seq<u8>,
    expected: CertificateFingerprint,
    label: Seq<char>,
    known: Seq<PeerView>,
)
    ensures
        device_store::trust_outcome(local, certificate, expected, label, known) is Ok <==> {
            &&& 1 <= certificate.len() <= 65_536
            &&& security::sha256(certificate) == expected.0@
            &&& expected != local
            &&& names_a_device(label)
            &&& known.len() < 64
            &&& forall|k: int|
                0 <= k < known.len() ==> (#[trigger] known[k]).fingerprint != expected.0@
        },
        device_store::trust_outcome(local, certificate, expected, label, known) matches Ok(kept) ==> kept
            == text::trimmed(label),
{
    lemma_labels(label);
    if device_store::knows(known, expected.0@) {
        let k = choose|k: int| 0 <= k < known.len() && (#[trigger] known[k]).fingerprint == expected.0@;
        assert(known[k].fingerprint == expected.0@);
    }
}

/// Records list the devices that are trusted exactly where there are at most 64, each is one of the
/// device that its name tells, and no two are of one device.
pub proof fn lemma_records_list_devices(files: Seq<PeerFileView>)
    ensures
        device_store::listed(files) is Ok <==> {
            &&& files.len() <= 64
            &&& forall|k: int| 0 <= k < files.len() ==> device_store::file_peer(#[trigger] files[k]) is Ok
            &&& forall|j: int, k: int|
                0 <= j < k < files.len() ==> device_store::file_peer(
                    #[trigger] files[j],
                )->Ok_0.fingerprint != device_store::file_peer(#[trigger] files[k])->Ok_0.fingerprint
        },
        device_store::listed(files) matches Ok(peers) ==> {
            &&& peers.len() == files.len()
            &&& forall|i: int|
                0 <= i < peers.len() ==> exists|k: int|
                    0 <= k < files.len() && device_store::file_peer(#[trigger] files[k]) == Ok::<
                        PeerView,
                        device_store::ListFault,
                    >(#[trigger] peers[i])
        },
    decreases files.len(),
{
    if files.len() > 0 {
        let rest = files.drop_last();
        let last = files.len() - 1;
        lemma_records_list_devices(rest);
        assert forall|k: int| 0 <= k < rest.len() implies rest[k] == #[trigger] files[k] by {}
        assert(files.last() == files[last]);
        if let Ok(known) = device_store::listed(rest) {
            if let Ok(peer) = device_store::file_peer(files.last()) {
                let place = device_store::rank(known, peer.fingerprint) as int;
                device_store::lemma_rank_bound(known, peer.fingerprint);
                if device_store::knows(known, peer.fingerprint) {
                    let i = choose|i: int|
                        0 <= i < known.len() && (#[trigger] known[i]).fingerprint == peer.fingerprint;
                    let k = choose|k: int|
                        0 <= k < rest.len() && device_store::file_peer(#[trigger] rest[k]) == Ok::<
                            PeerView,
                            device_store::ListFault,
                        >(known[i]);
                    assert(device_store::file_peer(files[k])->Ok_0.fingerprint
                        == device_store::file_peer(files[last])->Ok_0.fingerprint);
                } else {
                    assert forall|k: int| 0 <= k < last implies device_store::file_peer(
                        #[trigger] files[k],
                    )->Ok_0.fingerprint != peer.fingerprint by {
                        device_store::lemma_list_is_complete(rest);
                        assert(device_store::file_peer(rest[k]) is Ok);
                        let other = device_store::file_peer(rest[k])->Ok_0;
                        assert(known.contains(other));
                        let i = choose|i: int| 0 <= i < known.len() && known[i] == other;
                        assert(known[i].fingerprint != peer.fingerprint);
                    }
                    if known.len() < 64 {
                        let peers = known.insert(place, peer);
                        assert(device_store::listed(files) == Ok::<
                            Seq<PeerView>,
                            device_store::ListFault,
                        >(peers));
                        assert forall|i: int| 0 <= i < peers.len() implies exists|k: int|
                            0 <= k < files.len() && device_store::file_peer(#[trigger] files[k]) == Ok::<
                                PeerView,
                                device_store::ListFault,
                            >(#[trigger] peers[i]) by {
                            if i == place {
                                assert(device_store::file_peer(files[last]) == Ok::<
                                    PeerView,
                                    device_store::ListFault,
                                >(peers[i]));
                            } else {
                                let before = if i < place {
                                    i
                                } else {
                                    i - 1
                                };
                                assert(peers[i] == known[before]);
                                let k = choose|k: int|
                                    0 <= k < rest.len() && device_store::file_peer(#[trigger] rest[k])
                                        == Ok::<PeerView, device_store::ListFault>(known[before]);
                                assert(device_store::file_peer(files[k]) == Ok::<
                                    PeerView,
                                    device_store::ListFault,
                                >(peers[i]));
                            }
                        }
                    }
                }
            }
        }
    }
}

/// The record of a device starts with four letters and a version, then tells the lengths of the
/// certificate and of the label, then holds them.
pub proof fn lemma_record_layout(certificate: Seq<u8>, label: Seq<char>)
    requires
        certificate.len() < 0x1_0000_0000,
        utf8::encode_utf8(label).len() < 0x1_0000,
    ensures
        ({
            let record = device_store::record_bytes(certificate, label);
            let letters = utf8::encode_utf8(label);
            &&& record.len() == 14 + certificate.len() + letters.len()
            &&& record.take(8) == seq![67u8, 70u8, 80u8, 82u8, 1u8, 0u8, 0u8, 0u8]
            &&& record[8] + 0x100 * record[9] + 0x1_0000 * record[10] + 0x100_0000 * record[11]
                == certificate.len()
            &&& record[12] + 0x100 * record[13] == letters.len()
            &&& record.subrange(14, 14 + certificate.len() as int) == certificate
            &&& record.skip(14 + certificate.len() as int) == letters
        }),
{
    let letters = utf8::encode_utf8(label);
    bytes::lemma_four_bytes(certificate.len());
    bytes::lemma_two_bytes(letters.len());
    let record = device_store::record_bytes(certificate, label);
    assert(record.take(8) =~= seq![67u8, 70u8, 80u8, 82u8, 1u8, 0u8, 0u8, 0u8]);
    assert(record.subrange(14, 14 + certificate.len() as int) =~= certificate);
    assert(record.skip(14 + certificate.len() as int) =~= letters);
}

/// An identity starts with four letters and a version, then tells the lengths of the certificate and
/// of the private key, then holds them.
pub proof fn lemma_identity_layout(certificate: Seq<u8>, private_key: Seq<u8>)
    requires
        certificate.len() < 0x1_0000_0000,
        private_key.len() < 0x1_0000_0000,
    ensures
        ({
            let kept = device_store::identity_bytes(certificate, private_key);
            &&& kept.len() == 16 + certificate.len() + private_key.len()
            &&& kept.take(8) == seq![67u8, 70u8, 73u8, 68u8, 1u8, 0u8, 0u8, 0u8]
            &&& kept[8] + 0x100 * kept[9] + 0x1_0000 * kept[10] + 0x100_0000 * kept[11]
                == certificate.len()
            &&& kept[12] + 0x100 * kept[13] + 0x1_0000 * kept[14] + 0x100_0000 * kept[15]
                == private_key.len()
            &&& kept.subrange(16, 16 + certificate.len() as int) == certificate
            &&& kept.skip(16 + certificate.len() as int) == private_key
        }),
{
    bytes::lemma_four_bytes(certificate.len());
    bytes::lemma_four_bytes(private_key.len());
    let kept = device_store::identity_bytes(certificate, private_key);
    assert(kept.take(8) =~= seq![67u8, 70u8, 73u8, 68u8, 1u8, 0u8, 0u8, 0u8]);
    assert(kept.subrange(16, 16 + certificate.len() as int) =~= certificate);
    assert(kept.skip(16 + certificate.len() as int) =~= private_key);
}

/// A certificate of one to 65536 bytes can be kept, with a private key of as many.
pub proof fn lemma_identities_that_are_kept(
    certificate: &[u8],
    private_key: &[u8],
    result: Result<Vec<u8>, Failure>,
)
    requires
        call_ensures(device_store::encode_identity_bundle, (certificate, private_key), result),
    ensures
        result is Ok <==> 1 <= certificate@.len() <= 65_536 && 1 <= private_key@.len() <= 65_536,
        result matches Ok(kept) ==> device_store::identity_outcome(kept@) == Ok::<
            (Seq<u8>, Seq<u8>),
            Failure,
        >((certificate@, private_key@)),
{
    if result is Ok {
        device_store::lemma_identity_round_trip(certificate@, private_key@);
    }
}

/// A temporary file is tried under eight names; any other failure than that a name is taken ends it
/// at once.
pub proof fn lemma_temporary_files(attempts: u32, failure: Option<FailureKind>, step: TemporaryStep)
    requires
        call_ensures(device_store::after_temporary, (attempts, failure), step),
    ensures
        failure is None <==> step is Write,
        failure == Some(FailureKind::AlreadyExists) && attempts < 8 <==> step is Retry,
        failure == Some(FailureKind::AlreadyExists) && attempts >= 8 <==> step is GiveUp,
        failure is Some && failure != Some(FailureKind::AlreadyExists) <==> step is Fail,
{
}

/// A device without an identity gets one, and uses the one that is there where another got there
/// first; it never replaces one.
pub proof fn lemma_identities_are_kept(
    loading: Option<FailureKind>,
    next: IdentityStep,
    publishing: Option<FailureKind>,
    then_next: IdentityStep,
)
    requires
        call_ensures(device_store::after_load, (loading,), next),
        call_ensures(device_store::after_publish, (publishing,), then_next),
    ensures
        next is Create <==> loading == Some(FailureKind::NotFound),
        next is Use <==> loading is None,
        next matches IdentityStep::Use { created } ==> !created,
        then_next is Use <==> publishing is None || publishing == Some(FailureKind::AlreadyExists),
        then_next matches IdentityStep::Use { created } ==> (created <==> publishing is None),
        !(then_next is Create),
{
}

/// A file is read as a whole where it is one, is not empty and is no longer than allowed.
pub proof fn lemma_files_that_are_read(regular: bool, length: u64, limit: usize, readable: bool)
    requires
        call_ensures(device_store::check_file, (regular, length, limit), readable),
    ensures
        readable <==> regular && length >= 1 && length <= limit,
{
}

/// The text of a fingerprint holds two digits for each byte, in order, with a colon between every
/// two.
pub proof fn lemma_fingerprint_text_at(fingerprint: Seq<u8>, k: int)
    requires
        0 <= k < fingerprint.len(),
    ensures
        ({
            let told = security::fingerprint_text(fingerprint);
            &&& told.len() == 3 * fingerprint.len() - 1
            &&& told[3 * k] == text::hex_pair(fingerprint[k], true)[0]
            &&& told[3 * k + 1] == text::hex_pair(fingerprint[k], true)[1]
            &&& k + 1 < fingerprint.len() ==> told[3 * k + 2] == ':'
        }),
    decreases fingerprint.len(),
{
    reveal_with_fuel(security::fingerprint_text, 2);
    if fingerprint.len() > 1 {
        let rest = fingerprint.drop_last();
        if k < rest.len() {
            lemma_fingerprint_text_at(rest, k);
        } else {
            lemma_fingerprint_text_at(rest, 0);
        }
    }
}

/// A text is that of a fingerprint exactly where 64 hexadecimal digits are left without its colons.
pub proof fn lemma_fingerprints_are_read(value: &str, result: Result<CertificateFingerprint, Failure>)
    requires
        call_ensures(CertificateFingerprint::parse, (value,), result),
    ensures
        ({
            let digits = security::without_colons(value@);
            &&& result is Ok <==> digits.len() == 64 && forall|k: int|
                0 <= k < 64 ==> {
                    let digit = #[trigger] digits[k];
                    '0' <= digit <= '9' || 'a' <= digit <= 'f' || 'A' <= digit <= 'F'
                }
            &&& result matches Ok(read) ==> forall|k: int|
                0 <= k < 32 ==> #[trigger] read.0@[k] == 16 * text::hex_value(digits[2 * k])->0
                    + text::hex_value(digits[2 * k + 1])->0
        }),
{
    let digits = security::without_colons(value@);
    if digits.len() == 64 && (forall|k: int|
        0 <= k < 64 ==> {
            let digit = #[trigger] digits[k];
            '0' <= digit <= '9' || 'a' <= digit <= 'f' || 'A' <= digit <= 'F'
        }) {
        assert forall|k: int| 0 <= k < 64 implies text::hex_value(#[trigger] digits[k]) is Some by {
            let digit = digits[k];
            assert('0' <= digit <= '9' || 'a' <= digit <= 'f' || 'A' <= digit <= 'F');
        }
    }
    if result is Ok {
        assert forall|k: int| 0 <= k < 64 implies ({
            let digit = #[trigger] digits[k];
            '0' <= digit <= '9' || 'a' <= digit <= 'f' || 'A' <= digit <= 'F'
        }) by {
            assert(text::hex_value(digits[k]) is Some);
        }
    }
}

/// Colons are left out of the text of a fingerprint; everything else stays, where it stood.
pub proof fn lemma_colons_are_left_out(value: Seq<char>, next: char)
    ensures
        security::without_colons(Seq::empty()) == Seq::<char>::empty(),
        security::without_colons(value.push(next)) == if next == ':' {
            security::without_colons(value)
        } else {
            security::without_colons(value).push(next)
        },
{
    assert(value.push(next).drop_last() =~= value);
}

/// The code that two people compare: 16 digits of the first eight bytes of what both devices have
/// in common, in four groups with dashes between them.
pub proof fn lemma_code_at(code: Seq<u8>, k: int)
    requires
        code.len() == 8,
        0 <= k < 8,
    ensures
        ({
            let shown = pairing::code_text(code);
            &&& shown.len() == 19
            &&& shown[4] == '-' && shown[9] == '-' && shown[14] == '-'
            &&& shown[5 * (k / 2) + 2 * (k % 2)] == text::hex_pair(code[k], true)[0]
            &&& shown[5 * (k / 2) + 2 * (k % 2) + 1] == text::hex_pair(code[k], true)[1]
        }),
{
    text::lemma_hex_text_at(code.subrange(0, 2), true, 0);
    text::lemma_hex_text_at(code.subrange(0, 2), true, 1);
    text::lemma_hex_text_at(code.subrange(2, 4), true, 0);
    text::lemma_hex_text_at(code.subrange(2, 4), true, 1);
    text::lemma_hex_text_at(code.subrange(4, 6), true, 0);
    text::lemma_hex_text_at(code.subrange(4, 6), true, 1);
    text::lemma_hex_text_at(code.subrange(6, 8), true, 0);
    text::lemma_hex_text_at(code.subrange(6, 8), true, 1);
}

/// The code is the start of the digest that both devices have.
pub proof fn lemma_codes(digest: [u8; 32], code: PairingCode)
    requires
        call_ensures(pairing::pairing_code, (digest,), code),
    ensures
        forall|k: int| 0 <= k < 8 ==> #[trigger] code.0@[k] == digest@[k],
{
}

/// What both devices have in common is the digest of both hellos, each in full and the listener's
/// first, behind a text that names its purpose.
pub proof fn lemma_transcript_binds(listener: Seq<u8>, connector: Seq<u8>) -> (message: Seq<u8>)
    ensures
        pairing::transcript(listener, connector) == security::sha256(message),
        message.len() == 31 + listener.len() + connector.len(),
        message.subrange(31, 31 + listener.len() as int) == listener,
        message.skip(31 + listener.len() as int) == connector,
        message.take(9) == seq![67u8, 108u8, 105u8, 112u8, 70u8, 101u8, 114u8, 114u8, 121u8],
{
    let message = pairing::TRANSCRIPT_DOMAIN@ + listener + connector;
    assert(message.subrange(31, 31 + listener.len() as int) =~= listener);
    assert(message.skip(31 + listener.len() as int) =~= connector);
    assert(message.take(9) =~= seq![67u8, 108u8, 105u8, 112u8, 70u8, 101u8, 114u8, 114u8, 121u8]);
    message
}

/// A hello starts with eight letters and a version, then tells the side, holds 32 random bytes, tells
/// the length of the certificate, and holds it.
pub proof fn lemma_hello_layout(hello: Hello)
    requires
        hello.wf(),
    ensures
        ({
            let told = hello.told();
            &&& told.len() == 47 + hello.certificate@.len()
            &&& told.take(8) == seq![67u8, 70u8, 80u8, 65u8, 73u8, 82u8, 48u8, 49u8]
            &&& told[8] == 1 && told[9] == 0
            &&& told[10] == if hello.role is Listener {
                1u8
            } else {
                2u8
            }
            &&& told.subrange(11, 43) == hello.nonce@
            &&& told[43] + 0x100 * told[44] + 0x1_0000 * told[45] + 0x100_0000 * told[46]
                == hello.certificate@.len()
            &&& told.skip(47) == hello.certificate@
        }),
{
    bytes::lemma_two_bytes(1);
    bytes::lemma_four_bytes(hello.certificate@.len());
    let told = hello.told();
    assert(told.take(8) =~= seq![67u8, 70u8, 80u8, 65u8, 73u8, 82u8, 48u8, 49u8]);
    assert(told.subrange(11, 43) =~= hello.nonce@);
    assert(told.skip(47) =~= hello.certificate@);
}

/// A hello is understood exactly where it is whole, of the first version, from the other side, and has
/// a certificate of one to 65536 bytes.
pub proof fn lemma_hellos_that_are_understood(stream: Seq<u8>, expected: Role)
    ensures
        pairing::hello_outcome(stream, expected) is Ok <==> {
            let length = bytes::le_value(stream.subrange(43, 47));
            &&& stream.len() >= 47 + length
            &&& stream.subrange(0, 8) == seq![67u8, 70u8, 80u8, 65u8, 73u8, 82u8, 48u8, 49u8]
            &&& bytes::le_value(stream.subrange(8, 10)) == 1
            &&& stream[10] == if expected is Listener {
                1u8
            } else {
                2u8
            }
            &&& 1 <= length <= 65_536
        },
        pairing::hello_outcome(stream, expected) matches Ok((nonce, certificate)) ==> nonce
            == stream.subrange(11, 43) && certificate == stream.subrange(
            47,
            47 + bytes::le_value(stream.subrange(43, 47)) as int,
        ),
{
    assert(pairing::HELLO_MAGIC@ =~= seq![67u8, 70u8, 80u8, 65u8, 73u8, 82u8, 48u8, 49u8]);
}

/// The head of a hello is understood where it is whole, of the first version, from the other side, and
/// tells of a certificate of one to 65536 bytes; that is then what follows.
pub proof fn lemma_heads_that_are_understood(head: Seq<u8>, expected: Role)
    ensures
        pairing::header_outcome(head, expected) is Ok <==> {
            &&& head.len() >= 47
            &&& head.subrange(0, 8) == seq![67u8, 70u8, 80u8, 65u8, 73u8, 82u8, 48u8, 49u8]
            &&& bytes::le_value(head.subrange(8, 10)) == 1
            &&& head[10] == if expected is Listener {
                1u8
            } else {
                2u8
            }
            &&& 1 <= bytes::le_value(head.subrange(43, 47)) <= 65_536
        },
        pairing::header_outcome(head, expected) matches Ok(length) ==> length == bytes::le_value(
            head.subrange(43, 47),
        ),
        head.len() < 47 ==> pairing::header_outcome(head, expected) == Err::<nat, pairing::HelloFault>(
            pairing::HelloFault::Short,
        ),
        head.len() >= 47 && head.subrange(0, 8) == seq![67u8, 70u8, 80u8, 65u8, 73u8, 82u8, 48u8, 49u8]
            && bytes::le_value(head.subrange(8, 10)) != 1 ==> (pairing::header_outcome(
            head,
            expected,
        ) matches Err(pairing::HelloFault::Version(version))),
{
    assert(pairing::HELLO_MAGIC@ =~= seq![67u8, 70u8, 80u8, 65u8, 73u8, 82u8, 48u8, 49u8]);
}

/// A hello that is read is the other side's, with its own nonce and certificate; one that ended early
/// or is of another version is told apart from one that is none.
pub proof fn lemma_hellos_are_read(
    stream: &[u8],
    expected: Role,
    result: Result<Hello, tls::TrustFailure>,
)
    requires
        call_ensures(Hello::read_from, (stream, expected), result),
    ensures
        result is Ok <==> pairing::hello_outcome(stream@, expected) is Ok,
        result matches Ok(hello) ==> {
            &&& hello.role == expected
            &&& hello.nonce@ == stream@.subrange(11, 43)
            &&& hello.certificate@ == stream@.subrange(47, 47 + hello.certificate@.len() as int)
            &&& 1 <= hello.certificate@.len() <= 65_536
        },
        pairing::hello_outcome(stream@, expected) == Err::<(Seq<u8>, Seq<u8>), pairing::HelloFault>(
            pairing::HelloFault::Short,
        ) ==> (result matches Err(tls::TrustFailure::Refused { failure }) && failure.kind is UnexpectedEof),
        pairing::hello_outcome(stream@, expected) matches Err(pairing::HelloFault::Version(version)) ==> (
        result matches Err(tls::TrustFailure::WrongVersion { version: told }) && told == version),
        pairing::hello_outcome(stream@, expected) matches Err(pairing::HelloFault::Form(message)) ==> (
        result matches Err(tls::TrustFailure::Refused { failure }) && failure.kind is InvalidData
            && failure.message == message),
{
    lemma_hellos_that_are_understood(stream@, expected);
}

/// An identity is read in the one form in which it is kept: with its letters and version, and with
/// nothing but a certificate and a private key of the lengths that it tells.
pub proof fn lemma_identities_that_are_read(kept: Seq<u8>)
    ensures
        ({
            let first = bytes::le_value(kept.subrange(8, 12)) as int;
            let second = bytes::le_value(kept.subrange(12, 16)) as int;
            &&& device_store::identity_outcome(kept) is Ok <==> {
                &&& kept.len() == 16 + first + second
                &&& kept.subrange(0, 8) == seq![67u8, 70u8, 73u8, 68u8, 1u8, 0u8, 0u8, 0u8]
                &&& 1 <= first <= 65_536
                &&& 1 <= second <= 65_536
            }
            &&& device_store::identity_outcome(kept) matches Ok((certificate, private_key)) ==> certificate
                == kept.subrange(16, 16 + first) && private_key == kept.subrange(16 + first, 16 + first + second)
        }),
{
    assert(device_store::IDENTITY_MAGIC@ =~= seq![67u8, 70u8, 73u8, 68u8, 1u8, 0u8, 0u8, 0u8]);
}

/// A record is read in the one form in which it is kept, and only as that of the device whose
/// fingerprint its certificate has.
pub proof fn lemma_records_that_are_read(record: Seq<u8>, fingerprint: Seq<u8>)
    ensures
        ({
            let first = bytes::le_value(record.subrange(8, 12)) as int;
            let second = bytes::le_value(record.subrange(12, 14)) as int;
            let certificate = record.subrange(14, 14 + first);
            let label = record.subrange(14 + first, 14 + first + second);
            &&& device_store::record_outcome(record, fingerprint) is Ok <==> {
                &&& record.len() == 14 + first + second
                &&& record.subrange(0, 8) == seq![67u8, 70u8, 80u8, 82u8, 1u8, 0u8, 0u8, 0u8]
                &&& 1 <= first <= 65_536
                &&& security::sha256(certificate) == fingerprint
                &&& utf8::valid_utf8(label)
                &&& names_a_device(utf8::decode_utf8(label))
            }
            &&& device_store::record_outcome(record, fingerprint) matches Ok((kept, name)) ==> kept
                == certificate && name == text::trimmed(utf8::decode_utf8(label))
        }),
{
    assert(device_store::TRUST_MAGIC@ =~= seq![67u8, 70u8, 80u8, 82u8, 1u8, 0u8, 0u8, 0u8]);
    let first = bytes::le_value(record.subrange(8, 12)) as int;
    let second = bytes::le_value(record.subrange(12, 14)) as int;
    lemma_labels(utf8::decode_utf8(record.subrange(14 + first, 14 + first + second)));
}

/// Reading a record gives the device under its own fingerprint; that of another device is told as
/// such, with the fingerprint that was expected and the one that it has.
pub proof fn lemma_records_are_read(
    record: &[u8],
    expected: CertificateFingerprint,
    result: Result<device_store::TrustedPeer, tls::TrustFailure>,
)
    requires
        call_ensures(device_store::decode_trust_record, (record, expected), result),
    ensures
        result is Ok <==> device_store::record_outcome(record@, expected.0@) is Ok,
        result matches Ok(peer) ==> peer.fingerprint == expected && security::sha256(peer.certificate@)
            == expected.0@,
        result matches Err(tls::TrustFailure::WrongRecord { expected: told, actual }) ==> told == expected
            && actual != expected,
        device_store::record_outcome(record@, expected.0@) matches Err(
            device_store::RecordFault::Fingerprint,
        ) ==> result is Err && result->Err_0 is WrongRecord,
{
    lemma_records_that_are_read(record@, expected.0@);
}

/// Trusting a device keeps its certificate, its fingerprint and its label; a certificate with another
/// fingerprint than expected is told as such, and a device that is trusted already is not trusted
/// again.
pub proof fn lemma_devices_are_trusted(
    store: &device_store::DeviceStore,
    local: CertificateFingerprint,
    certificate: Vec<u8>,
    expected: CertificateFingerprint,
    label: &str,
    known: &device_store::PeerList,
    result: Result<device_store::TrustedPeer, tls::TrustFailure>,
)
    requires
        call_ensures(
            device_store::DeviceStore::trust_peer,
            (store, local, certificate, expected, label, known),
            result,
        ),
    ensures
        result is Ok <==> {
            &&& 1 <= certificate@.len() <= 65_536
            &&& security::sha256(certificate@) == expected.0@
            &&& expected != local
            &&& names_a_device(label@)
            &&& known.all().len() < 64
            &&& forall|k: int|
                0 <= k < known.all().len() ==> (#[trigger] known.all()[k]).fingerprint != expected.0@
        },
        result matches Ok(peer) ==> peer.fingerprint == expected && peer.certificate@ == certificate@
            && peer.label@ == text::trimmed(label@),
        1 <= certificate@.len() <= 65_536 && security::sha256(certificate@) != expected.0@ ==> (
        result matches Err(tls::TrustFailure::WrongPeer { expected: told, actual }) && told == expected
            && actual.0@ == security::sha256(certificate@)),
        result matches Err(tls::TrustFailure::Refused { failure }) && failure.kind is AlreadyExists
            ==> exists|k: int|
            0 <= k < known.all().len() && (#[trigger] known.all()[k]).fingerprint == expected.0@,
        1 <= certificate@.len() <= 65_536 && security::sha256(certificate@) == expected.0@ && expected
            != local && names_a_device(label@) && known.all().len() < 64 && result is Err ==> (
        result matches Err(tls::TrustFailure::Refused { failure }) && failure.kind is AlreadyExists),
{
    lemma_who_may_be_trusted(local, certificate@, expected, label@, known.all());
}

/// Listing the records of trusted devices gives all of them, or tells which one is not of the device
/// that its name tells.
pub proof fn lemma_devices_are_listed(
    store: &device_store::DeviceStore,
    files: &Vec<device_store::PeerFile>,
    result: Result<device_store::PeerList, tls::TrustFailure>,
)
    requires
        call_ensures(device_store::DeviceStore::list_peers, (store, files), result),
    ensures
        result is Ok <==> device_store::listed(device_store::file_views(files@)) is Ok,
        result matches Ok(list) ==> device_store::listed(device_store::file_views(files@)) == Ok::<
            Seq<PeerView>,
            device_store::ListFault,
        >(list.all()),
        device_store::listed(device_store::file_views(files@)) matches Err(
            device_store::ListFault::Misplaced { expected, record },
        ) ==> (result matches Err(tls::TrustFailure::WrongRecord { expected: told, actual }) && told.0@
            == expected && actual.0@ == security::sha256(
            record.subrange(14, 14 + bytes::le_value(record.subrange(8, 12)) as int),
        )),
{
}

/// Trust is given exactly where the other side answered with its own decision on what both have in
/// common, both decided for it, and this device is still who it said it was.
pub proof fn lemma_trust_is_given(
    transcript: Seq<u8>,
    approved: bool,
    answer: Seq<u8>,
    same_identity: bool,
)
    requires
        transcript.len() == 32,
    ensures
        pairing::confirmation_fault(transcript, approved, answer, same_identity) is None <==> {
            &&& approved
            &&& same_identity
            &&& answer.len() == 41
            &&& answer.take(8) == seq![67u8, 70u8, 80u8, 67u8, 78u8, 70u8, 48u8, 49u8]
            &&& answer.subrange(8, 40) == transcript
            &&& answer[40] == 1
        },
{
    let letters = seq![67u8, 70u8, 80u8, 67u8, 78u8, 70u8, 48u8, 49u8];
    assert(pairing::CONFIRM_MAGIC@ =~= letters);
    if answer.len() == 41 {
        let start = answer.take(40);
        if start == pairing::CONFIRM_MAGIC@ + transcript {
            assert(answer.take(8) =~= start.take(8));
            assert(start.take(8) =~= letters);
            assert(answer.subrange(8, 40) =~= start.skip(8));
            assert(start.skip(8) =~= transcript);
        }
        if answer.take(8) == letters && answer.subrange(8, 40) == transcript {
            assert(start =~= answer.take(8) + answer.subrange(8, 40));
        }
    }
}

/// What each side proves on the connection, and what it decides, is said of what both have in common.
pub proof fn lemma_pairing_messages(transcript: Seq<u8>, approved: bool)
    requires
        transcript.len() == 32,
    ensures
        pairing::proof_bytes(transcript).len() == 40,
        pairing::proof_bytes(transcript).take(8) == seq![67u8, 70u8, 80u8, 82u8, 79u8, 79u8, 70u8, 49u8],
        pairing::proof_bytes(transcript).skip(8) == transcript,
        pairing::confirmation_bytes(transcript, approved).len() == 41,
        pairing::confirmation_bytes(transcript, approved).subrange(8, 40) == transcript,
        pairing::confirmation_bytes(transcript, approved)[40] == if approved {
            1u8
        } else {
            0u8
        },
{
    assert(pairing::proof_bytes(transcript).take(8) =~= seq![
        67u8,
        70u8,
        80u8,
        82u8,
        79u8,
        79u8,
        70u8,
        49u8,
    ]);
    assert(pairing::proof_bytes(transcript).skip(8) =~= transcript);
    assert(pairing::confirmation_bytes(transcript, approved).subrange(8, 40) =~= transcript);
}

/// A proof is taken exactly where it is of what both have in common.
pub proof fn lemma_proofs_that_are_taken(
    pending: &PendingPairing,
    answer: &[u8],
    result: Result<(), Failure>,
)
    requires
        pending.wf(),
        call_ensures(PendingPairing::check_tls_proof, (pending, answer), result),
    ensures
        result is Ok <==> answer@.len() == 40 && answer@.skip(8) == pending@.transcript && answer@.take(8)
            == seq![67u8, 70u8, 80u8, 82u8, 79u8, 79u8, 70u8, 49u8],
{
    lemma_pairing_messages(pending@.transcript, true);
    if answer@.len() == 40 && answer@.skip(8) == pending@.transcript && answer@.take(8) == seq![
        67u8,
        70u8,
        80u8,
        82u8,
        79u8,
        79u8,
        70u8,
        49u8,
    ] {
        assert(answer@ =~= answer@.take(8) + answer@.skip(8));
        assert(pairing::proof_bytes(pending@.transcript) =~= answer@);
    }
}

/// Two devices pair where they play different parts; each then knows the other by the digest of its
/// certificate, and where it spoke from.
pub proof fn lemma_pairings_begin(
    local: &Hello,
    remote: Hello,
    source: Endpoint,
    result: Result<PendingPairing, tls::TrustFailure>,
)
    requires
        local.wf(),
        remote.wf(),
        call_ensures(PendingPairing::begin, (local, remote, source), result),
    ensures
        result is Ok <==> (local.role is Listener) != (remote.role is Listener),
        result matches Ok(pending) ==> {
            &&& pending@.peer == security::sha256(remote.certificate@)
            &&& pending@.local == security::sha256(local.certificate@)
            &&& pending.spec_peer_certificate() == remote.certificate@
            &&& pending.spec_peer_address() == source
            &&& local.role is Listener ==> pending@.transcript == pairing::transcript(
                local.told(),
                remote.told(),
            )
            &&& local.role is Connector ==> pending@.transcript == pairing::transcript(
                remote.told(),
                local.told(),
            )
        },
{
}

/// Pairing takes five minutes at most, happens on the local network only, and needs a port.
pub proof fn lemma_limits_of_pairing(
    timeout: u64,
    endpoint: Endpoint,
    timely: Result<(), Failure>,
    peer: Result<(), Failure>,
    connecting: Result<(), Failure>,
    listening: Result<(), Failure>,
)
    requires
        call_ensures(pairing::validate_timeout, (timeout,), timely),
        call_ensures(pairing::validate_peer_address, (endpoint.ip,), peer),
        call_ensures(pairing::validate_endpoint, (endpoint,), connecting),
        call_ensures(pairing::validate_listener_endpoint, (endpoint,), listening),
    ensures
        timely is Ok <==> 1 <= timeout <= 300_000_000_000,
        peer is Ok <==> address::local_by_bytes(endpoint.ip),
        connecting is Ok <==> endpoint.port != 0 && address::local_by_bytes(endpoint.ip),
        listening is Ok <==> endpoint.port != 0 && (address::local_by_bytes(endpoint.ip) || endpoint.ip
            == IpAddress::V4(0) || endpoint.ip == IpAddress::V6(0)),
{
    address::lemma_near_addresses(endpoint.ip);
}

/// A listener looks for a connection forty times a second until its time is over.
pub proof fn lemma_listeners_wait(
    now: u64,
    timeout: u64,
    deadline: Result<u64, Failure>,
    later: u64,
    reason: FailureKind,
    step: AcceptStep,
)
    requires
        call_ensures(pairing::accept_deadline, (now, timeout), deadline),
        deadline is Ok,
        call_ensures(pairing::after_accept, (reason, later, deadline->Ok_0), step),
    ensures
        deadline->Ok_0 == now + timeout,
        !(reason is WouldBlock) <==> step is Fail,
        reason is WouldBlock && later >= now + timeout <==> step is TimedOut,
        reason is WouldBlock && later < now + timeout <==> step is Wait,
        step matches AcceptStep::Wait { pause } ==> 40 * pause == 1_000_000_000,
        step matches AcceptStep::TimedOut { failure } ==> failure.kind is TimedOut,
{
}

/// Settings are taken where both endpoints have ports, and both are of this device itself or both of
/// the local network.
pub proof fn lemma_settings_that_are_taken(settings: &AppSettings, result: Result<(), Failure>)
    requires
        call_ensures(AppSettings::validate, (settings,), result),
    ensures
        result is Ok <==> {
            &&& settings.local_endpoint.port != 0
            &&& settings.peer_endpoint.port != 0
            &&& address::local_by_bytes(settings.local_endpoint.ip)
            &&& address::local_by_bytes(settings.peer_endpoint.ip)
            &&& settings.local_endpoint.ip.spec_loopback() == settings.peer_endpoint.ip.spec_loopback()
        },
{
    address::lemma_near_addresses(settings.local_endpoint.ip);
    address::lemma_near_addresses(settings.peer_endpoint.ip);
}

/// The values of a file say settings where both endpoints can be told and are taken, the peer is a
/// fingerprint, and receiving is `0` or `1`; the settings are then what the values say.
pub proof fn lemma_values_say_settings(
    values: &SettingsText,
    local: Option<Endpoint>,
    peer: Option<Endpoint>,
    result: Result<AppSettings, Failure>,
)
    requires
        call_ensures(SettingsText::resolve, (values, local, peer), result),
    ensures
        result is Ok <==> {
            &&& local is Some && local->0.port != 0 && address::local_by_bytes(local->0.ip)
            &&& peer is Some && peer->0.port != 0 && address::local_by_bytes(peer->0.ip)
            &&& security::fingerprint_bytes(values@.active_peer) is Some
            &&& values@.auto_receive == seq!['0'] || values@.auto_receive == seq!['1']
        },
        result matches Ok(settings) ==> {
            &&& local == Some(settings.local_endpoint)
            &&& peer == Some(settings.peer_endpoint)
            &&& security::fingerprint_bytes(values@.active_peer) == Some(settings.active_peer.0@)
            &&& settings.auto_receive <==> values@.auto_receive == seq!['1']
        },
{
    reveal_strlit("0");
    reveal_strlit("1");
    assert("0"@ =~= seq!['0']);
    assert("1"@ =~= seq!['1']);
    assert("0"@[0] != "1"@[0]);
    if let Some(local) = local {
        address::lemma_near_addresses(local.ip);
    }
    if let Some(peer) = peer {
        address::lemma_near_addresses(peer.ip);
    }
}

/// A line of a settings file names a field and gives its value, which may hold anything; a field may
/// come once, and no other may come. An empty line says nothing.
pub proof fn lemma_lines_give_fields(fields: FieldsView, key: Seq<char>, value: Seq<char>)
    requires
        forall|k: int| 0 <= k < key.len() ==> #[trigger] key[k] != '=',
    ensures
        ({
            let line = key + seq!['='] + value;
            &&& fields.with_line(Seq::empty()) == Ok::<FieldsView, Failure>(fields)
            &&& key == "local_endpoint"@ && fields.local_endpoint is None ==> fields.with_line(line) == Ok::<
                FieldsView,
                Failure,
            >(FieldsView { local_endpoint: Some(value), ..fields })
            &&& key == "active_peer"@ && fields.active_peer is None ==> fields.with_line(line) == Ok::<
                FieldsView,
                Failure,
            >(FieldsView { active_peer: Some(value), ..fields })
            &&& key == "peer_endpoint"@ && fields.peer_endpoint is None ==> fields.with_line(line) == Ok::<
                FieldsView,
                Failure,
            >(FieldsView { peer_endpoint: Some(value), ..fields })
            &&& key == "auto_receive"@ && fields.auto_receive is None ==> fields.with_line(line) == Ok::<
                FieldsView,
                Failure,
            >(FieldsView { auto_receive: Some(value), ..fields })
            &&& key == "local_endpoint"@ && fields.local_endpoint is Some ==> fields.with_line(line) is Err
            &&& key == "active_peer"@ && fields.active_peer is Some ==> fields.with_line(line) is Err
            &&& key == "peer_endpoint"@ && fields.peer_endpoint is Some ==> fields.with_line(line) is Err
            &&& key == "auto_receive"@ && fields.auto_receive is Some ==> fields.with_line(line) is Err
            &&& key != "local_endpoint"@ && key != "active_peer"@ && key != "peer_endpoint"@ && key
                != "auto_receive"@ ==> fields.with_line(line) is Err
            &&& key.len() > 0 ==> fields.with_line(key) is Err
        }),
{
    let line = key + seq!['='] + value;
    assert forall|k: int| 0 <= k < key.len() implies #[trigger] line[k] != '=' by {
        assert(line[k] == key[k]);
    }
    text::lemma_position_is(line, '=', key.len() as int);
    text::lemma_position_is(key, '=', key.len() as int);
    assert(line.take(key.len() as int) =~= key);
    assert(line.skip(key.len() as int + 1) =~= value);
    reveal_strlit("local_endpoint");
    reveal_strlit("active_peer");
    reveal_strlit("peer_endpoint");
    reveal_strlit("auto_receive");
}

/// Lines end in a line feed, with or without a carriage return before it.
pub proof fn lemma_lines_end(line: Seq<char>, rest: Seq<char>)
    requires
        forall|k: int| 0 <= k < line.len() ==> #[trigger] line[k] != '\n',
        line.len() > 0 ==> line.last() != '\r',
    ensures
        app_settings::lines(line + seq!['\n'] + rest) == seq![line] + app_settings::lines(rest),
        app_settings::lines(line + seq!['\r', '\n'] + rest) == seq![line] + app_settings::lines(rest),
        line.len() > 0 ==> app_settings::lines(line) == seq![line],
        app_settings::lines(Seq::empty()).len() == 0,
{
    let plain = line + seq!['\n'] + rest;
    assert forall|k: int| 0 <= k < line.len() implies #[trigger] plain[k] != '\n' by {
        assert(plain[k] == line[k]);
    }
    text::lemma_position_is(plain, '\n', line.len() as int);
    assert(plain.take(line.len() as int) =~= line);
    assert(plain.skip(line.len() as int + 1) =~= rest);
    let returned = line + seq!['\r', '\n'] + rest;
    assert forall|k: int| 0 <= k < line.len() + 1 implies #[trigger] returned[k] != '\n' by {
        if k < line.len() {
            assert(returned[k] == line[k]);
        }
    }
    text::lemma_position_is(returned, '\n', line.len() as int + 1);
    assert(returned.take(line.len() as int + 1) =~= line.push('\r'));
    assert(line.push('\r').drop_last() =~= line);
    assert(returned.skip(line.len() as int + 2) =~= rest);
    text::lemma_position_is(line, '\n', line.len() as int);
}

/// A settings file of one to 4096 bytes is read.
pub proof fn lemma_settings_files_that_are_read(length: u64, result: Result<(), Failure>)
    requires
        call_ensures(app_settings::check_length, (length,), result),
    ensures
        result is Ok <==> 1 <= length <= 4096,
{
}

/// A settings file is read line by line: first the name of its form, then the fields, where each line
/// adds to those before it; each of the four fields must have come.
pub proof fn lemma_settings_are_read_by_lines(text: &str, result: Result<SettingsText, Failure>)
    requires
        call_ensures(app_settings::decode, (text,), result),
    ensures
        app_settings::lines(text@).len() == 0 ==> result is Err,
        result is Ok ==> app_settings::lines(text@)[0] == "ClipFerrySettingsV1"@,
        result matches Err(failure) ==> failure.kind is InvalidData,
        app_settings::lines(text@).len() > 0 && app_settings::lines(text@)[0] == "ClipFerrySettingsV1"@ ==> {
            let read = FieldsView::none().with_lines(app_settings::lines(text@).skip(1));
            &&& result is Ok <==> read is Ok && read->Ok_0.local_endpoint is Some
                && read->Ok_0.active_peer is Some && read->Ok_0.peer_endpoint is Some
                && read->Ok_0.auto_receive is Some
            &&& result matches Ok(values) ==> {
                &&& read->Ok_0.local_endpoint == Some(values@.local_endpoint)
                &&& read->Ok_0.active_peer == Some(values@.active_peer)
                &&& read->Ok_0.peer_endpoint == Some(values@.peer_endpoint)
                &&& read->Ok_0.auto_receive == Some(values@.auto_receive)
            }
        },
{
    let all = app_settings::lines(text@);
    if all.len() > 0 {
        lemma_failures_of_lines(FieldsView::none(), all.skip(1));
    }
}

/// The fields of no lines are those that there were; those of more lines are those of the rest, added to
/// those of the first.
pub proof fn lemma_fields_of_lines(fields: FieldsView, line: Seq<char>, rest: Seq<Seq<char>>)
    ensures
        fields.with_lines(Seq::empty()) == Ok::<FieldsView, Failure>(fields),
        FieldsView::none().local_endpoint is None && FieldsView::none().active_peer is None
            && FieldsView::none().peer_endpoint is None && FieldsView::none().auto_receive is None,
        fields.with_line(line) is Err ==> fields.with_lines(seq![line] + rest) is Err,
        fields.with_line(line) matches Ok(next) ==> fields.with_lines(seq![line] + rest)
            == next.with_lines(rest),
{
    let all = seq![line] + rest;
    assert(all[0] == line);
    assert(all.skip(1) =~= rest);
}

proof fn lemma_failures_of_lines(fields: FieldsView, lines: Seq<Seq<char>>)
    ensures
        fields.with_lines(lines) matches Err(failure) ==> failure.kind is InvalidData,
    decreases lines.len(),
{
    if lines.len() > 0 {
        if let Ok(next) = fields.with_line(lines[0]) {
            lemma_failures_of_lines(next, lines.skip(1));
        }
    }
}

/// What went wrong between two devices is told with both fingerprints, the version or the reason.
pub proof fn lemma_trust_failures_are_told(failure: &TrustFailure, message: String, kind: FailureKind)
    requires
        call_ensures(TrustFailure::message, (failure,), message),
        call_ensures(TrustFailure::kind, (failure,), kind),
    ensures
        failure matches TrustFailure::WrongPeer { expected, actual } ==> {
            &&& text::starts(message@, "peer certificate fingerprint mismatch: expected "@)
            &&& text::holds(message@, security::fingerprint_text(expected.0@) + ", got "@)
            &&& text::ends(message@, security::fingerprint_text(actual.0@))
        },
        failure matches TrustFailure::WrongRecord { expected, actual } ==> {
            &&& text::starts(message@, "trusted peer record fingerprint mismatch: filename "@)
            &&& text::holds(message@, security::fingerprint_text(expected.0@) + ", certificate "@)
            &&& text::ends(message@, security::fingerprint_text(actual.0@))
        },
        failure matches TrustFailure::WrongVersion { version } ==> {
            &&& text::starts(message@, "unsupported pairing version "@)
            &&& text::ends(message@, text::decimal(version as nat))
        },
        failure matches TrustFailure::Refused { failure: refusal } ==> message@ == refusal.message@
            && kind == refusal.kind,
        failure matches TrustFailure::Cryptography { detail } ==> message@ == detail@,
        failure matches TrustFailure::Randomness { detail } ==> {
            &&& text::starts(message@, "random nonce generation failed: "@)
            &&& text::ends(message@, detail@)
        },
        kind is Other || kind is InvalidData || failure is Refused,
        failure is Randomness ==> kind is Other,
        failure is WrongPeer || failure is WrongRecord || failure is WrongVersion || failure is Cryptography
            ==> kind is InvalidData,
{
    match *failure {
        TrustFailure::WrongPeer { expected, actual } => {
            lemma_mismatch(
                "peer certificate fingerprint mismatch: expected "@,
                security::fingerprint_text(expected.0@),
                ", got "@,
                security::fingerprint_text(actual.0@),
            );
        },
        TrustFailure::WrongRecord { expected, actual } => {
            lemma_mismatch(
                "trusted peer record fingerprint mismatch: filename "@,
                security::fingerprint_text(expected.0@),
                ", certificate "@,
                security::fingerprint_text(actual.0@),
            );
        },
        TrustFailure::WrongVersion { version } => {
            let lead = "unsupported pairing version "@;
            let number = text::decimal(version as nat);
            text::lemma_holds(lead, number, Seq::empty());
            text::lemma_holds(Seq::empty(), lead, number);
        },
        TrustFailure::Randomness { detail } => {
            let lead = "random nonce generation failed: "@;
            text::lemma_holds(lead, detail@, Seq::empty());
            text::lemma_holds(Seq::empty(), lead, detail@);
        },
        _ => {},
    }
}

proof fn lemma_mismatch(lead: Seq<char>, first: Seq<char>, between: Seq<char>, second: Seq<char>)
    ensures
        ({
            let whole = lead + first + between + second;
            &&& text::starts(whole, lead)
            &&& text::holds(whole, first + between)
            &&& text::ends(whole, second)
        }),
{
    let whole = lead + first + between + second;
    assert(whole =~= lead + (first + between + second));
    text::lemma_holds(Seq::empty(), lead, first + between + second);
    assert(whole =~= lead + (first + between) + second);
    text::lemma_holds(lead, first + between, second);
    text::lemma_holds(lead + first + between, second, Seq::empty());
}

/// A temporary file lies hidden beside the file it is for: a dot, the file's name, the process, sixteen
/// digits of chance, and an ending of its own.
pub proof fn lemma_temporary_names(name: &str, process: u32, random: u64, temporary: String)
    requires
        call_ensures(device_store::temporary_name, (name, process, random), temporary),
    ensures
        temporary@.len() == 1 + name@.len() + 1 + text::decimal(process as nat).len() + 1 + 16 + 4,
        temporary@[0] == '.',
        temporary@.subrange(1, 1 + name@.len() as int) == name@,
        temporary@[1 + name@.len() as int] == '.',
        text::ends(temporary@, ".tmp"@),
        text::holds(temporary@, text::decimal(process as nat)),
        text::holds(temporary@, text::hex_text(bytes::be_bytes(random as nat, 8), false)),
{
    reveal_strlit(".");
    reveal_strlit(".tmp");
    let number = text::decimal(process as nat);
    let chance = text::hex_text(bytes::be_bytes(random as nat, 8), false);
    bytes::lemma_be_bytes_len(random as nat, 8);
    text::lemma_hex_text_len(bytes::be_bytes(random as nat, 8), false);
    let lead = "."@ + name@ + "."@;
    text::lemma_holds(lead + number + "."@ + chance, ".tmp"@, Seq::empty());
    text::lemma_holds(lead + number + "."@, chance, ".tmp"@);
    assert(temporary@ =~= lead + number + ("."@ + chance + ".tmp"@));
    text::lemma_holds(lead, number, "."@ + chance + ".tmp"@);
    assert(temporary@.subrange(1, 1 + name@.len() as int) =~= name@);
}

/// A certificate may be kept for a device other than this one, under a label that names a device; the
/// label is kept without the whitespace around it.
pub proof fn lemma_certificates_that_may_be_kept(
    store: &DeviceStore,
    local: CertificateFingerprint,
    certificate: &[u8],
    expected: CertificateFingerprint,
    label: &str,
    result: Result<String, TrustFailure>,
)
    requires
        call_ensures(DeviceStore::check_peer, (store, local, certificate, expected, label), result),
    ensures
        result is Ok <==> {
            &&& 1 <= certificate@.len() <= 65_536
            &&& security::sha256(certificate@) == expected.0@
            &&& expected != local
            &&& names_a_device(label@)
        },
        result matches Ok(kept) ==> kept@ == text::trimmed(label@),
        result matches Err(failure) ==> (failure is WrongPeer <==> 1 <= certificate@.len() <= 65_536
            && security::sha256(certificate@) != expected.0@),
{
    lemma_labels(label@);
}

} // verus!
