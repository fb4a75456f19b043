//! Certificate fingerprints, and what a mutually authenticated connection must have negotiated.

use crate::bytes;
use crate::failure::Failure;
use crate::text;
use vstd::prelude::*;

verus! {

/// The SHA-256 digest of a byte sequence.
pub uninterp spec fn sha256(data: Seq<u8>) -> Seq<u8>;

/// `Sha256::digest` of the sha2 crate: its 32 bytes are a function of the data alone.
#[verifier::external_body]
pub(crate) fn sha256_digest(data: &[u8]) -> (digest: [u8; 32])
    ensures
        digest@ == sha256(data@),
{
    <sha2::Sha256 as sha2::Digest>::digest(data).into()
}

/// A SHA-256 digest in the making, which takes in its data piece by piece.
#[verifier::external_body]
pub struct RunningDigest {
    inner: sha2::Sha256,
}

/// The data that a digest in the making has taken in.
pub uninterp spec fn absorbed(digest: RunningDigest) -> Seq<u8>;

/// `Sha256::new` of the sha2 crate: a digest that has taken in nothing.
#[verifier::external_body]
pub(crate) fn start_digest() -> (digest: RunningDigest)
    ensures
        absorbed(digest) == Seq::<u8>::empty(),
{
    RunningDigest { inner: <sha2::Sha256 as sha2::Digest>::new() }
}

/// `Digest::update` of the sha2 crate: takes in more data behind what was taken in before.
#[verifier::external_body]
pub(crate) fn absorb(digest: &mut RunningDigest, data: &[u8])
    ensures
        absorbed(*final(digest)) == absorbed(*old(digest)) + data@,
{
    sha2::Digest::update(&mut digest.inner, data)
}

/// `Digest::finalize` of the sha2 crate: the digest of all that was taken in, as one piece. The
/// number of bits must fit into 64.
#[verifier::external_body]
pub(crate) fn finish_digest(digest: RunningDigest) -> (finished: [u8; 32])
    requires
        8 * absorbed(digest).len() <= u64::MAX,
    ensures
        finished@ == sha256(absorbed(digest)),
{
    sha2::Digest::finalize(digest.inner).into()
}

/// The complete SHA-256 fingerprint of a certificate.
#[derive(Clone, Copy, Debug, Eq, Hash)]
pub struct CertificateFingerprint(pub [u8; 32]);

impl PartialEq for CertificateFingerprint {
    fn eq(&self, other: &Self) -> (same: bool) {
        let same = bytes::bytes_equal(&self.0, &other.0);
        proof {
            if same {
                assert(self.0 =~= other.0);
            }
        }
        same
    }
}

impl vstd::std_specs::cmp::PartialEqSpecImpl for CertificateFingerprint {
    open spec fn obeys_eq_spec() -> bool {
        true
    }

    open spec fn eq_spec(&self, other: &Self) -> bool {
        *self == *other
    }
}

/// The text of a fingerprint: upper-case hexadecimal bytes with a colon between every two.
pub open spec fn fingerprint_text(bytes: Seq<u8>) -> Seq<char>
    decreases bytes.len(),
{
    if bytes.len() == 0 {
        Seq::empty()
    } else if bytes.len() == 1 {
        text::hex_pair(bytes[0], true)
    } else {
        fingerprint_text(bytes.drop_last()).push(':') + text::hex_pair(bytes.last(), true)
    }
}

/// The text without its colons.
pub open spec fn without_colons(text: Seq<char>) -> Seq<char>
    decreases text.len(),
{
    if text.len() == 0 {
        Seq::empty()
    } else if text.last() == ':' {
        without_colons(text.drop_last())
    } else {
        without_colons(text.drop_last()).push(text.last())
    }
}

/// Whether a text is the 64 hexadecimal digits of 32 bytes, of either case.
pub open spec fn compact_digits(text: Seq<char>) -> bool {
    &&& text.len() == 64
    &&& forall|k: int| 0 <= k < 64 ==> text::hex_value(#[trigger] text[k]) is Some
}

/// The bytes that pairs of hexadecimal digits spell.
pub open spec fn digit_bytes(text: Seq<char>) -> Seq<u8> {
    Seq::new(
        text.len() / 2,
        |k: int|
            (16 * text::hex_value(text[2 * k])->0 + text::hex_value(text[2 * k + 1])->0) as u8,
    )
}

/// The bytes of the fingerprint that a text gives: exactly 32 of them in hexadecimal digits,
/// colons aside.
pub open spec fn fingerprint_bytes(text: Seq<char>) -> Option<Seq<u8>> {
    let compact = without_colons(text);
    if compact_digits(compact) {
        Some(digit_bytes(compact))
    } else {
        None
    }
}

proof fn lemma_without_colons_add(left: Seq<char>, right: Seq<char>)
    ensures
        without_colons(left + right) == without_colons(left) + without_colons(right),
    decreases right.len(),
{
    if right.len() == 0 {
        assert(left + right =~= left);
        assert(without_colons(left) + without_colons(right) =~= without_colons(left));
    } else {
        lemma_without_colons_add(left, right.drop_last());
        assert((left + right).drop_last() =~= left + right.drop_last());
        if right.last() != ':' {
            assert((without_colons(left) + without_colons(right.drop_last())).push(right.last())
                =~= without_colons(left) + without_colons(right.drop_last()).push(right.last()));
        }
    }
}

proof fn lemma_without_colons_of_digits(text: Seq<char>)
    requires
        forall|k: int| 0 <= k < text.len() ==> #[trigger] text[k] != ':',
    ensures
        without_colons(text) == text,
    decreases text.len(),
{
    if text.len() > 0 {
        lemma_without_colons_of_digits(text.drop_last());
        assert(text.drop_last().push(text.last()) =~= text);
    }
}

proof fn lemma_fingerprint_text_compact(bytes: Seq<u8>)
    ensures
        without_colons(fingerprint_text(bytes)) == text::hex_text(bytes, true),
        bytes.len() > 0 ==> fingerprint_text(bytes).len() == 3 * bytes.len() - 1,
    decreases bytes.len(),
{
    if bytes.len() > 0 {
        let pair = text::hex_pair(bytes.last(), true);
        lemma_without_colons_of_digits(pair);
        let rest = bytes.drop_last();
        lemma_fingerprint_text_compact(rest);
        if bytes.len() == 1 {
            assert(text::hex_text(rest, true) =~= Seq::empty());
            assert(text::hex_text(bytes, true) =~= pair);
            assert(fingerprint_text(bytes) == pair);
        } else {
            let prefix = fingerprint_text(rest).push(':');
            assert(prefix.drop_last() =~= fingerprint_text(rest));
            lemma_without_colons_add(prefix, pair);
        }
    }
}

/// Hexadecimal digits of 32 bytes spell those bytes, in either case.
pub proof fn lemma_digits_round_trip(bytes: Seq<u8>, upper: bool)
    requires
        bytes.len() == 32,
    ensures
        compact_digits(text::hex_text(bytes, upper)),
        digit_bytes(text::hex_text(bytes, upper)) == bytes,
        without_colons(text::hex_text(bytes, upper)) == text::hex_text(bytes, upper),
{
    let digits = text::hex_text(bytes, upper);
    text::lemma_hex_text_len(bytes, upper);
    assert forall|k: int| 0 <= k < 64 implies text::hex_value(#[trigger] digits[k]) is Some
        && digits[k] != ':' by {
        text::lemma_hex_text_at(bytes, upper, k / 2);
        text::lemma_hex_value_of_digit(bytes[k / 2] as nat / 16, upper);
        text::lemma_hex_value_of_digit(bytes[k / 2] as nat % 16, upper);
        assert(k == 2 * (k / 2) || k == 2 * (k / 2) + 1);
    }
    assert forall|k: int| 0 <= k < 32 implies #[trigger] digit_bytes(digits)[k] == bytes[k] by {
        text::lemma_hex_text_at(bytes, upper, k);
        text::lemma_hex_value_of_digit(bytes[k] as nat / 16, upper);
        text::lemma_hex_value_of_digit(bytes[k] as nat % 16, upper);
    }
    assert(digit_bytes(digits) =~= bytes);
    lemma_without_colons_of_digits(digits);
}

/// Reading the text of a fingerprint gives the fingerprint back, and so does reading its digits
/// alone, in upper or lower case.
pub proof fn lemma_fingerprint_round_trip(bytes: Seq<u8>)
    requires
        bytes.len() == 32,
    ensures
        fingerprint_text(bytes).len() == 95,
        fingerprint_bytes(fingerprint_text(bytes)) == Some(bytes),
        fingerprint_bytes(text::hex_text(bytes, true)) == Some(bytes),
        fingerprint_bytes(text::hex_text(bytes, false)) == Some(bytes),
{
    lemma_fingerprint_text_compact(bytes);
    lemma_digits_round_trip(bytes, true);
    lemma_digits_round_trip(bytes, false);
}

/// The 32 bytes that 64 hexadecimal digits spell, or nothing where the characters are not that.
pub(crate) fn parse_digits(compact: &[char]) -> (parsed: Option<[u8; 32]>)
    ensures
        parsed is Some <==> compact_digits(compact@),
        parsed matches Some(parsed) ==> parsed@ == digit_bytes(compact@),
{
    if compact.len() != 64 {
        return None;
    }
    let mut parsed: [u8; 32] = [0;32];
    let mut index: usize = 0;
    while index < 32
        invariant
            index <= 32,
            compact@.len() == 64,
            forall|k: int| 0 <= k < 2 * index ==> text::hex_value(#[trigger] compact@[k]) is Some,
            forall|k: int| 0 <= k < index ==> parsed@[k] == digit_bytes(compact@)[k],
        decreases 32 - index,
    {
        let high = text::from_hex_digit(compact[2 * index]);
        let low = text::from_hex_digit(compact[2 * index + 1]);
        match (high, low) {
            (Some(high), Some(low)) => {
                parsed[index] = 16 * high + low;
            },
            _ => {
                assert(text::hex_value(compact@[2 * index as int]) is None || text::hex_value(
                    compact@[2 * index + 1],
                ) is None);
                return None;
            },
        }
        index += 1;
    }
    assert(parsed@ =~= digit_bytes(compact@));
    Some(parsed)
}

impl CertificateFingerprint {
    /// The fingerprint of a certificate.
    pub fn from_certificate(certificate: &[u8]) -> (fingerprint: Self)
        ensures
            fingerprint.0@ == sha256(certificate@),
    {
        CertificateFingerprint(sha256_digest(certificate))
    }

    /// The fingerprint with these bytes.
    pub fn from_bytes(bytes: [u8; 32]) -> (fingerprint: Self)
        ensures
            fingerprint.0 == bytes,
    {
        CertificateFingerprint(bytes)
    }

    pub fn bytes(self) -> (bytes: [u8; 32])
        ensures
            bytes == self.0,
    {
        self.0
    }

    /// The fingerprint as people compare it.
    pub fn to_text(&self) -> (result: String)
        ensures
            result@ == fingerprint_text(self.0@),
    {
        let mut result = String::new();
        let mut index: usize = 0;
        while index < 32
            invariant
                index <= 32,
                result@ == fingerprint_text(self.0@.take(index as int)),
            decreases 32 - index,
        {
            if index != 0 {
                result.push(':');
            }
            let byte: u8 = self.0[index];
            result.push(text::to_hex_digit(byte / 16, true));
            result.push(text::to_hex_digit(byte % 16, true));
            index += 1;
            proof {
                let prefix = self.0@.take(index as int);
                assert(prefix.drop_last() =~= self.0@.take(index - 1));
                assert(result@ =~= fingerprint_text(prefix));
            }
        }
        assert(self.0@.take(32) =~= self.0@);
        result
    }

    /// Reads a fingerprint from text.
    pub fn parse(value: &str) -> (result: Result<Self, Failure>)
        ensures
            match fingerprint_bytes(value@) {
                Some(bytes) => result is Ok && result->Ok_0.0@ == bytes,
                None => result == Err::<Self, Failure>(
                    Failure::invalid(
                        "certificate fingerprint must contain exactly 32 hexadecimal bytes",
                    ),
                ),
            },
    {
        let characters = text::characters(value);
        let mut compact: Vec<char> = Vec::new();
        let mut index: usize = 0;
        while index < characters.len()
            invariant
                index <= characters@.len(),
                characters@ == value@,
                compact@ == without_colons(value@.take(index as int)),
            decreases characters@.len() - index,
        {
            if characters[index] != ':' {
                compact.push(characters[index]);
            }
            index += 1;
            assert(value@.take(index as int).drop_last() =~= value@.take(index - 1));
        }
        assert(value@.take(index as int) =~= value@);
        match parse_digits(compact.as_slice()) {
            Some(bytes) => Ok(CertificateFingerprint(bytes)),
            None => Err(
                Failure::invalid("certificate fingerprint must contain exactly 32 hexadecimal bytes"),
            ),
        }
    }
}

} // verus!
