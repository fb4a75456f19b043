//! Offers: what a source publishes of its files, and how that is put on the wire.

use super::wire;
use super::wire::{ProtocolId, ResponseStatus, MAX_SECURE_MANIFEST_BYTES};
use crate::bytes;
use crate::clipboard::data_object;
use crate::clipboard::data_object::{
    validate_virtual_descriptor_tree, DescriptorView, FileTime, VirtualFileDescriptor,
    MAX_VIRTUAL_ITEMS,
};
use crate::failure::Failure;
use crate::text;
use vstd::prelude::*;
use vstd::string::*;
use vstd::utf8::*;

verus! {

/// Bytes of an encoded offer before its entries.
pub const MANIFEST_HEADER_LEN: usize = 29;

/// Bytes of an encoded entry besides its name.
pub const MANIFEST_ENTRY_FIXED_LEN: usize = 55;

/// Bytes that mark a clipboard as filled by this application: `ClipFerry.SourceOffer.v1` and a
/// zero.
pub const ORIGIN_PREFIX: [u8; 25] = [
    0x43, 0x6c, 0x69, 0x70, 0x46, 0x65, 0x72, 0x72, 0x79, 0x2e, 0x53, 0x6f, 0x75, 0x72, 0x63, 0x65,
    0x4f, 0x66, 0x66, 0x65, 0x72, 0x2e, 0x76, 0x31, 0x00,
];

/// One file or directory of an offer.
#[derive(Debug)]
pub struct OfferManifestEntry {
    pub file_id: ProtocolId,
    pub descriptor: VirtualFileDescriptor,
}

/// What an offer tells of its files, and for how many milliseconds it stands.
#[derive(Debug)]
pub struct OfferManifest {
    pub offer_id: ProtocolId,
    pub entries: Vec<OfferManifestEntry>,
    pub ttl_millis: u64,
}

/// The contents of an entry.
#[verifier::ext_equal]
pub struct EntryView {
    pub file_id: ProtocolId,
    pub descriptor: DescriptorView,
}

/// The contents of an offer.
#[verifier::ext_equal]
pub struct ManifestView {
    pub offer_id: ProtocolId,
    pub ttl_millis: u64,
    pub entries: Seq<EntryView>,
}

impl View for OfferManifestEntry {
    type V = EntryView;

    open spec fn view(&self) -> EntryView {
        EntryView { file_id: self.file_id, descriptor: self.descriptor@ }
    }
}

/// The contents of entries.
pub open spec fn entry_views(entries: Seq<OfferManifestEntry>) -> Seq<EntryView> {
    entries.map_values(|entry: OfferManifestEntry| entry@)
}

impl View for OfferManifest {
    type V = ManifestView;

    open spec fn view(&self) -> ManifestView {
        ManifestView {
            offer_id: self.offer_id,
            ttl_millis: self.ttl_millis,
            entries: entry_views(self.entries@),
        }
    }
}

/// The descriptors of entries.
pub open spec fn entry_descriptors(entries: Seq<EntryView>) -> Seq<DescriptorView> {
    entries.map_values(|entry: EntryView| entry.descriptor)
}

impl Clone for OfferManifestEntry {
    fn clone(&self) -> (copy: Self)
        ensures
            copy == *self,
    {
        OfferManifestEntry { file_id: self.file_id, descriptor: self.descriptor.clone() }
    }
}

impl Clone for OfferManifest {
    fn clone(&self) -> (copy: Self)
        ensures
            copy@ == self@,
            copy.entries@ == self.entries@,
    {
        self.with_ttl(self.ttl_millis)
    }
}

impl OfferManifest {
    /// The same offer with another lifetime.
    pub fn with_ttl(&self, ttl_millis: u64) -> (copy: Self)
        ensures
            copy@ == (ManifestView { ttl_millis, ..self@ }),
            copy.entries@ == self.entries@,
    {
        let mut entries: Vec<OfferManifestEntry> = Vec::new();
        let mut index: usize = 0;
        while index < self.entries.len()
            invariant
                index <= self.entries@.len(),
                entries@ =~= self.entries@.take(index as int),
            decreases self.entries@.len() - index,
        {
            entries.push(self.entries[index].clone());
            index += 1;
        }
        assert(entries@ =~= self.entries@);
        OfferManifest { offer_id: self.offer_id, entries, ttl_millis }
    }

    /// The bytes by which the clipboard of a receiver shows where its files come from.
    pub fn origin_payload(&self) -> (payload: Vec<u8>)
        ensures
            payload@ == ORIGIN_PREFIX@ + self.offer_id.0@,
    {
        let mut payload: Vec<u8> = Vec::new();
        bytes::append(&mut payload, &ORIGIN_PREFIX);
        bytes::append(&mut payload, &self.offer_id.0);
        assert(payload@ =~= ORIGIN_PREFIX@ + self.offer_id.0@);
        payload
    }

    /// The place of the first ordinary file among the entries.
    pub fn first_file(&self) -> (found: Option<usize>)
        ensures
            match found {
                Some(index) => {
                    &&& index < self.entries@.len()
                    &&& !self.entries@[index as int].descriptor.spec_is_directory()
                    &&& forall|k: int|
                        0 <= k < index ==> (
                        #[trigger] self.entries@[k]).descriptor.spec_is_directory()
                },
                None => forall|k: int|
                    0 <= k < self.entries@.len() ==> (
                    #[trigger] self.entries@[k]).descriptor.spec_is_directory(),
            },
    {
        let mut index: usize = 0;
        while index < self.entries.len()
            invariant
                index <= self.entries@.len(),
                forall|k: int|
                    0 <= k < index ==> (#[trigger] self.entries@[k]).descriptor.spec_is_directory(),
            decreases self.entries@.len() - index,
        {
            if !self.entries[index].descriptor.is_directory() {
                return Some(index);
            }
            index += 1;
        }
        None
    }
}

/// The bits of a time on the wire; zero stands for an unknown time.
pub open spec fn time_bits(time: Option<FileTime>) -> u64 {
    match time {
        Some(time) => time.spec_bits(),
        None => 0,
    }
}

/// Which times of a descriptor are known.
pub open spec fn time_flags(descriptor: DescriptorView) -> u8 {
    ((if descriptor.creation_time is Some {
        1int
    } else {
        0
    }) + (if descriptor.last_access_time is Some {
        2int
    } else {
        0
    }) + (if descriptor.last_write_time is Some {
        4int
    } else {
        0
    })) as u8
}

/// The bytes of an entry.
pub open spec fn entry_bytes(entry: EntryView) -> Seq<u8> {
    entry.file_id.0@ + bytes::be_bytes(entry.descriptor.size as nat, 8) + bytes::be_bytes(
        entry.descriptor.attributes as nat,
        4,
    ) + seq![time_flags(entry.descriptor)] + bytes::be_bytes(
        time_bits(entry.descriptor.creation_time) as nat,
        8,
    ) + bytes::be_bytes(time_bits(entry.descriptor.last_access_time) as nat, 8) + bytes::be_bytes(
        time_bits(entry.descriptor.last_write_time) as nat,
        8,
    ) + bytes::be_bytes(encode_utf8(entry.descriptor.name).len(), 2) + encode_utf8(
        entry.descriptor.name,
    )
}

/// The bytes of entries.
pub open spec fn entries_bytes(entries: Seq<EntryView>) -> Seq<u8>
    decreases entries.len(),
{
    if entries.len() == 0 {
        Seq::empty()
    } else {
        entries_bytes(entries.drop_last()) + entry_bytes(entries.last())
    }
}

/// The bytes of an offer before its entries.
pub open spec fn manifest_header(manifest: ManifestView) -> Seq<u8> {
    seq![0u8] + manifest.offer_id.0@ + bytes::be_bytes(manifest.ttl_millis as nat, 8)
        + bytes::be_bytes(manifest.entries.len(), 4)
}

/// The bytes of an offer.
pub open spec fn manifest_bytes(manifest: ManifestView) -> Seq<u8> {
    manifest_header(manifest) + entries_bytes(manifest.entries)
}

/// Whether an offer has an encoding: its names and its whole length fit their limits.
pub open spec fn encodable(manifest: ManifestView) -> bool {
    &&& manifest.entries.len() <= u32::MAX
    &&& forall|k: int|
        0 <= k < manifest.entries.len() ==> encode_utf8(
            (#[trigger] manifest.entries[k]).descriptor.name,
        ).len() <= u16::MAX
    &&& manifest_bytes(manifest).len() <= MAX_SECURE_MANIFEST_BYTES
}

pub proof fn lemma_entry_len(entry: EntryView)
    ensures
        entry_bytes(entry).len() == MANIFEST_ENTRY_FIXED_LEN + encode_utf8(
            entry.descriptor.name,
        ).len(),
{
    bytes::lemma_be_bytes_len(entry.descriptor.size as nat, 8);
    bytes::lemma_be_bytes_len(entry.descriptor.attributes as nat, 4);
    bytes::lemma_be_bytes_len(time_bits(entry.descriptor.creation_time) as nat, 8);
    bytes::lemma_be_bytes_len(time_bits(entry.descriptor.last_access_time) as nat, 8);
    bytes::lemma_be_bytes_len(time_bits(entry.descriptor.last_write_time) as nat, 8);
    bytes::lemma_be_bytes_len(encode_utf8(entry.descriptor.name).len(), 2);
}

pub proof fn lemma_header_len(manifest: ManifestView)
    ensures
        manifest_header(manifest).len() == MANIFEST_HEADER_LEN,
{
    bytes::lemma_be_bytes_len(manifest.ttl_millis as nat, 8);
    bytes::lemma_be_bytes_len(manifest.entries.len(), 4);
}

/// The bytes of the first entries are a prefix of the bytes of all.
proof fn lemma_entries_prefix(entries: Seq<EntryView>, count: int)
    requires
        0 <= count <= entries.len(),
    ensures
        entries_bytes(entries.take(count)).len() <= entries_bytes(entries).len(),
        entries_bytes(entries).take(entries_bytes(entries.take(count)).len() as int)
            == entries_bytes(entries.take(count)),
    decreases entries.len() - count,
{
    let all = entries_bytes(entries);
    let some = entries_bytes(entries.take(count));
    if count == entries.len() {
        assert(entries.take(count) =~= entries);
        assert(all.take(all.len() as int) =~= all);
    } else {
        lemma_entries_prefix(entries, count + 1);
        let more = entries_bytes(entries.take(count + 1));
        assert(entries.take(count + 1).drop_last() =~= entries.take(count));
        assert(more == some + entry_bytes(entries[count]));
        assert(all.take(some.len() as int) =~= all.take(more.len() as int).take(some.len() as int));
        assert(more.take(some.len() as int) =~= some);
    }
}

fn bits_of(time: Option<FileTime>) -> (bits: u64)
    ensures
        bits == time_bits(time),
{
    match time {
        Some(time) => time.bits(),
        None => 0,
    }
}

/// Appends the bytes of an entry, unless its name is too long for its length field.
fn put_entry(out: &mut Vec<u8>, entry: &OfferManifestEntry) -> (fits: bool)
    ensures
        fits == (encode_utf8(entry@.descriptor.name).len() <= u16::MAX),
        fits ==> final(out)@ == old(out)@ + entry_bytes(entry@),
{
    proof {
        bytes::lemma_capacity_values();
    }
    let name = entry.descriptor.file_name.as_str().as_bytes();
    if name.len() > 0xffff {
        return false;
    }
    bytes::append(out, &entry.file_id.0);
    bytes::put_be(out, entry.descriptor.size, 8);
    bytes::put_be(out, entry.descriptor.attributes as u64, 4);
    let mut flags: u8 = 0;
    if entry.descriptor.creation_time.is_some() {
        flags += 1;
    }
    if entry.descriptor.last_access_time.is_some() {
        flags += 2;
    }
    if entry.descriptor.last_write_time.is_some() {
        flags += 4;
    }
    out.push(flags);
    bytes::put_be(out, bits_of(entry.descriptor.creation_time), 8);
    bytes::put_be(out, bits_of(entry.descriptor.last_access_time), 8);
    bytes::put_be(out, bits_of(entry.descriptor.last_write_time), 8);
    bytes::put_be(out, name.len() as u64, 2);
    bytes::append(out, name);
    assert(out@ =~= old(out)@ + entry_bytes(entry@));
    true
}

/// Encodes an offer as the response to a request for it.
pub fn encode_manifest(manifest: &OfferManifest) -> (result: Result<Vec<u8>, ResponseStatus>)
    ensures
        match result {
            Ok(response) => encodable(manifest@) && response@ == manifest_bytes(manifest@),
            Err(status) => !encodable(manifest@) && status is Internal,
        },
{
    let ghost view = manifest@;
    proof {
        bytes::lemma_capacity_values();
        lemma_header_len(view);
    }
    if manifest.entries.len() > 0xffff_ffff {
        return Err(ResponseStatus::Internal);
    }
    let mut response: Vec<u8> = Vec::new();
    response.push(ResponseStatus::Success.encode());
    bytes::append(&mut response, &manifest.offer_id.0);
    bytes::put_be(&mut response, manifest.ttl_millis, 8);
    bytes::put_be(&mut response, manifest.entries.len() as u64, 4);
    assert(response@ =~= manifest_header(view) + entries_bytes(view.entries.take(0)));
    let mut index: usize = 0;
    while index < manifest.entries.len()
        invariant
            index <= manifest.entries@.len(),
            view == manifest@,
            manifest.entries@.len() <= u32::MAX,
            manifest_header(view).len() == MANIFEST_HEADER_LEN,
            response@ == manifest_header(view) + entries_bytes(view.entries.take(index as int)),
            response@.len() <= MAX_SECURE_MANIFEST_BYTES,
            forall|k: int|
                0 <= k < index ==> encode_utf8((#[trigger] view.entries[k]).descriptor.name).len()
                    <= u16::MAX,
        decreases manifest.entries@.len() - index,
    {
        assert(view.entries[index as int] == manifest.entries@[index as int]@);
        if !put_entry(&mut response, &manifest.entries[index]) {
            assert(!(encode_utf8(view.entries[index as int].descriptor.name).len() <= u16::MAX));
            return Err(ResponseStatus::Internal);
        }
        index += 1;
        proof {
            assert(view.entries.take(index as int).drop_last() =~= view.entries.take(index - 1));
            assert(response@ =~= manifest_header(view) + entries_bytes(
                view.entries.take(index as int),
            ));
            lemma_entries_prefix(view.entries, index as int);
        }
        if response.len() > MAX_SECURE_MANIFEST_BYTES {
            return Err(ResponseStatus::Internal);
        }
    }
    assert(view.entries.take(index as int) =~= view.entries);
    Ok(response)
}

/// Whether an entry with this identifier is among `seen`.
pub open spec fn has_file(seen: Seq<EntryView>, file_id: Seq<u8>) -> bool {
    exists|k: int| 0 <= k < seen.len() && (#[trigger] seen[k]).file_id.0@ == file_id
}

/// The time of bits on the wire, where it is known.
pub open spec fn known_time(known: bool, bits: nat) -> Option<FileTime> {
    if known {
        Some(FileTime::spec_from_bits(bits as u64))
    } else {
        None
    }
}

/// The entry that `response` holds from `cursor` on, and where the next one starts.
pub open spec fn entry_outcome(response: Seq<u8>, cursor: int, seen: Seq<EntryView>) -> Result<
    (EntryView, int),
    Failure,
> {
    let flags = response[cursor + 28] as int;
    let name_length = bytes::be_value(bytes::slice_of(response, cursor + 53, 2)) as int;
    let name = bytes::slice_of(response, cursor + 55, name_length);
    if cursor + 16 > response.len() {
        Err(Failure::invalid("truncated secure protocol field"))
    } else if has_file(seen, bytes::slice_of(response, cursor, 16)) {
        Err(Failure::invalid("duplicate offer file identifier"))
    } else if cursor + 28 > response.len() {
        Err(Failure::invalid("truncated secure protocol field"))
    } else if cursor + 29 > response.len() {
        Err(Failure::invalid("truncated offer time flags"))
    } else if flags > 7 {
        Err(Failure::invalid("invalid offer time flags"))
    } else if cursor + 55 > response.len() {
        Err(Failure::invalid("truncated secure protocol field"))
    } else if cursor + 55 + name_length > response.len() {
        Err(Failure::invalid("truncated offer file name"))
    } else if !valid_utf8(name) {
        Err(Failure::invalid("offer file name is not UTF-8"))
    } else {
        Ok(
            (
                EntryView {
                    file_id: ProtocolId(bytes::spec_array_16(response, cursor)),
                    descriptor: DescriptorView {
                        name: decode_utf8(name),
                        size: bytes::be_value(bytes::slice_of(response, cursor + 16, 8)) as u64,
                        attributes: bytes::be_value(
                            bytes::slice_of(response, cursor + 24, 4),
                        ) as u32,
                        creation_time: known_time(
                            flags % 2 == 1,
                            bytes::be_value(bytes::slice_of(response, cursor + 29, 8)),
                        ),
                        last_access_time: known_time(
                            flags / 2 % 2 == 1,
                            bytes::be_value(bytes::slice_of(response, cursor + 37, 8)),
                        ),
                        last_write_time: known_time(
                            flags / 4 == 1,
                            bytes::be_value(bytes::slice_of(response, cursor + 45, 8)),
                        ),
                    },
                },
                cursor + 55 + name_length,
            ),
        )
    }
}

/// The next `count` entries from `cursor` on, after those in `seen`, and where they end.
pub open spec fn entries_outcome(
    response: Seq<u8>,
    cursor: int,
    count: nat,
    seen: Seq<EntryView>,
) -> Result<(Seq<EntryView>, int), Failure>
    decreases count,
{
    if count == 0 {
        Ok((seen, cursor))
    } else {
        match entry_outcome(response, cursor, seen) {
            Err(failure) => Err(failure),
            Ok((entry, next)) => entries_outcome(
                response,
                next,
                (count - 1) as nat,
                seen.push(entry),
            ),
        }
    }
}

/// The offer that a response holds.
pub open spec fn manifest_outcome(response: Seq<u8>) -> Result<ManifestView, Failure> {
    let ttl_millis = bytes::be_value(bytes::slice_of(response, 17, 8));
    let count = bytes::be_value(bytes::slice_of(response, 25, 4));
    match wire::ok_outcome(response) {
        Err(failure) => Err(failure),
        Ok(_) => if response.len() < MANIFEST_HEADER_LEN {
            Err(Failure::invalid("truncated offer manifest"))
        } else if ttl_millis == 0 {
            Err(Failure::invalid("expired offer manifest"))
        } else if count == 0 || count > MAX_VIRTUAL_ITEMS {
            Err(Failure::invalid("invalid offer item count"))
        } else if response.len() < MANIFEST_HEADER_LEN + count * MANIFEST_ENTRY_FIXED_LEN
            || response.len() > MAX_SECURE_MANIFEST_BYTES {
            Err(Failure::invalid("invalid offer manifest length"))
        } else {
            match entries_outcome(response, MANIFEST_HEADER_LEN as int, count, Seq::empty()) {
                Err(failure) => Err(failure),
                Ok((entries, end)) => if end != response.len() {
                    Err(Failure::invalid("trailing offer manifest bytes"))
                } else if !data_object::valid_tree(entry_descriptors(entries)) {
                    Err(Failure::invalid("Windows validation failed: 0x80040064"))
                } else {
                    Ok(
                        ManifestView {
                            offer_id: ProtocolId(bytes::spec_array_16(response, 1)),
                            ttl_millis: ttl_millis as u64,
                            entries,
                        },
                    )
                },
            }
        },
    }
}

fn contains_file(entries: &Vec<OfferManifestEntry>, file_id: ProtocolId) -> (found: bool)
    ensures
        found == has_file(entry_views(entries@), file_id.0@),
{
    let ghost views = entry_views(entries@);
    let mut index: usize = 0;
    while index < entries.len()
        invariant
            index <= entries@.len(),
            views == entry_views(entries@),
            forall|k: int| 0 <= k < index ==> (#[trigger] views[k]).file_id.0@ != file_id.0@,
        decreases entries@.len() - index,
    {
        assert(views[index as int].file_id == entries@[index as int].file_id);
        if bytes::bytes_equal(&entries[index].file_id.0, &file_id.0) {
            return true;
        }
        index += 1;
    }
    false
}

fn time_if(known: bool, bits: u64) -> (time: Option<FileTime>)
    ensures
        time == known_time(known, bits as nat),
{
    if known {
        Some(FileTime::from_bits(bits))
    } else {
        None
    }
}

/// Decodes the entry that `response` holds from `cursor` on.
fn decode_entry(response: &[u8], cursor: usize, seen: &Vec<OfferManifestEntry>) -> (result: Result<
    (OfferManifestEntry, usize),
    Failure,
>)
    requires
        cursor <= response@.len() <= MAX_SECURE_MANIFEST_BYTES,
    ensures
        match result {
            Err(failure) => entry_outcome(response@, cursor as int, entry_views(seen@)) == Err::<
                (EntryView, int),
                Failure,
            >(failure),
            Ok((entry, next)) => entry_outcome(response@, cursor as int, entry_views(seen@)) == Ok::<
                (EntryView, int),
                Failure,
            >((entry@, next as int)) && next <= response@.len(),
        },
{
    proof {
        bytes::lemma_capacity_values();
    }
    let length: usize = response.len();
    if length - cursor < 16 {
        return Err(Failure::invalid("truncated secure protocol field"));
    }
    let file_id = ProtocolId(bytes::array_16(response, cursor));
    if contains_file(seen, file_id) {
        return Err(Failure::invalid("duplicate offer file identifier"));
    }
    if length - cursor < 28 {
        return Err(Failure::invalid("truncated secure protocol field"));
    }
    let size: u64 = bytes::get_be(response, cursor + 16, 8);
    let attributes: u32 = bytes::get_be(response, cursor + 24, 4) as u32;
    if length - cursor < 29 {
        return Err(Failure::invalid("truncated offer time flags"));
    }
    let flags: u8 = response[cursor + 28];
    if flags > 7 {
        return Err(Failure::invalid("invalid offer time flags"));
    }
    if length - cursor < 55 {
        return Err(Failure::invalid("truncated secure protocol field"));
    }
    let creation: u64 = bytes::get_be(response, cursor + 29, 8);
    let access: u64 = bytes::get_be(response, cursor + 37, 8);
    let write: u64 = bytes::get_be(response, cursor + 45, 8);
    let name_length: usize = bytes::get_be(response, cursor + 53, 2) as usize;
    let start: usize = cursor + 55;
    if length - start < name_length {
        return Err(Failure::invalid("truncated offer file name"));
    }
    let name = &response[start..start + name_length];
    assert(name@ == bytes::slice_of(response@, cursor + 55, name_length as int));
    match text::text_from_utf8(name) {
        None => Err(Failure::invalid("offer file name is not UTF-8")),
        Some(file_name) => {
            let entry = OfferManifestEntry {
                file_id,
                descriptor: VirtualFileDescriptor {
                    file_name,
                    size,
                    attributes,
                    creation_time: time_if(flags % 2 == 1, creation),
                    last_access_time: time_if(flags / 2 % 2 == 1, access),
                    last_write_time: time_if(flags / 4 == 1, write),
                },
            };
            Ok((entry, start + name_length))
        },
    }
}

/// Decodes the offer that a response holds.
pub fn decode_manifest_response(response: &[u8]) -> (result: Result<OfferManifest, Failure>)
    ensures
        match result {
            Err(failure) => manifest_outcome(response@) == Err::<ManifestView, Failure>(failure),
            Ok(manifest) => manifest_outcome(response@) == Ok::<ManifestView, Failure>(manifest@),
        },
{
    match wire::require_ok(response) {
        Err(failure) => {
            return Err(failure);
        },
        Ok(_) => {},
    }
    if response.len() < MANIFEST_HEADER_LEN {
        return Err(Failure::invalid("truncated offer manifest"));
    }
    proof {
        bytes::lemma_capacity_values();
    }
    let offer_id = ProtocolId(bytes::array_16(response, 1));
    let ttl_millis: u64 = bytes::get_be(response, 17, 8);
    if ttl_millis == 0 {
        return Err(Failure::invalid("expired offer manifest"));
    }
    let item_count: u64 = bytes::get_be(response, 25, 4);
    if item_count == 0 || item_count > MAX_VIRTUAL_ITEMS as u64 {
        return Err(Failure::invalid("invalid offer item count"));
    }
    let item_count: usize = item_count as usize;
    let minimum: usize = MANIFEST_HEADER_LEN + item_count * MANIFEST_ENTRY_FIXED_LEN;
    if response.len() < minimum || response.len() > MAX_SECURE_MANIFEST_BYTES {
        return Err(Failure::invalid("invalid offer manifest length"));
    }
    let ghost goal = entries_outcome(
        response@,
        MANIFEST_HEADER_LEN as int,
        item_count as nat,
        Seq::empty(),
    );
    let mut cursor: usize = MANIFEST_HEADER_LEN;
    let mut entries: Vec<OfferManifestEntry> = Vec::new();
    let mut descriptors: Vec<VirtualFileDescriptor> = Vec::new();
    let mut remaining: usize = item_count;
    assert(entry_views(entries@) =~= Seq::empty());
    while remaining > 0
        invariant
            cursor <= response@.len() <= MAX_SECURE_MANIFEST_BYTES,
            goal == entries_outcome(
                response@,
                cursor as int,
                remaining as nat,
                entry_views(entries@),
            ),
            data_object::descriptor_views(descriptors@) =~= entry_descriptors(
                entry_views(entries@),
            ),
            manifest_outcome(response@) == (match goal {
                Err(failure) => Err::<ManifestView, Failure>(failure),
                Ok((found, end)) => if end != response@.len() {
                    Err::<ManifestView, Failure>(Failure::invalid("trailing offer manifest bytes"))
                } else if !data_object::valid_tree(entry_descriptors(found)) {
                    Err::<ManifestView, Failure>(
                        Failure::invalid("Windows validation failed: 0x80040064"),
                    )
                } else {
                    Ok::<ManifestView, Failure>(
                        ManifestView {
                            offer_id: ProtocolId(bytes::spec_array_16(response@, 1)),
                            ttl_millis: ttl_millis,
                            entries: found,
                        },
                    )
                },
            }),
        decreases remaining,
    {
        let ghost before = entry_views(entries@);
        let ghost before_descriptors = data_object::descriptor_views(descriptors@);
        match decode_entry(response, cursor, &entries) {
            Err(failure) => {
                return Err(failure);
            },
            Ok((entry, next)) => {
                let ghost found = entry@;
                descriptors.push(entry.descriptor.clone());
                entries.push(entry);
                cursor = next;
                proof {
                    assert(entry_views(entries@) =~= before.push(found));
                    assert(data_object::descriptor_views(descriptors@)
                        =~= before_descriptors.push(found.descriptor));
                    assert(entry_descriptors(before.push(found)) =~= entry_descriptors(before).push(
                        found.descriptor,
                    ));
                }
            },
        }
        remaining -= 1;
    }
    if cursor != response.len() {
        return Err(Failure::invalid("trailing offer manifest bytes"));
    }
    match validate_virtual_descriptor_tree(descriptors.as_slice()) {
        Err(_) => {
            return Err(Failure::invalid("Windows validation failed: 0x80040064"));
        },
        Ok(_) => {},
    }
    Ok(OfferManifest { offer_id, entries, ttl_millis })
}

/// Whether a receiver accepts the offer: it still stands, its entries are few, distinct and a
/// virtual tree, and it has an encoding.
pub open spec fn acceptable(manifest: ManifestView) -> bool {
    &&& manifest.ttl_millis > 0
    &&& 0 < manifest.entries.len() <= MAX_VIRTUAL_ITEMS
    &&& forall|j: int, k: int|
        0 <= j < k < manifest.entries.len() ==> (#[trigger] manifest.entries[j]).file_id != (
        #[trigger] manifest.entries[k]).file_id
    &&& data_object::valid_tree(entry_descriptors(manifest.entries))
    &&& encodable(manifest)
}

/// The bytes of the entry at `index` stand behind those of the entries before it.
proof fn lemma_entry_placed(manifest: ManifestView, index: int)
    requires
        0 <= index < manifest.entries.len(),
    ensures
        ({
            let before = entries_bytes(manifest.entries.take(index)).len();
            let encoded = entry_bytes(manifest.entries[index]);
            let cursor = MANIFEST_HEADER_LEN + before;
            &&& cursor + encoded.len() <= manifest_bytes(manifest).len()
            &&& manifest_bytes(manifest).subrange(cursor, cursor + encoded.len()) == encoded
            &&& entries_bytes(manifest.entries.take(index + 1)).len() == before + encoded.len()
        }),
{
    let before = entries_bytes(manifest.entries.take(index));
    let encoded = entry_bytes(manifest.entries[index]);
    let all = entries_bytes(manifest.entries);
    let cursor = MANIFEST_HEADER_LEN + before.len();
    let response = manifest_bytes(manifest);
    lemma_header_len(manifest);
    lemma_entries_prefix(manifest.entries, index + 1);
    assert(manifest.entries.take(index + 1).drop_last() =~= manifest.entries.take(index));
    let upto = entries_bytes(manifest.entries.take(index + 1));
    assert(upto == before + encoded);
    assert(all.take(upto.len() as int) == upto);
    assert(response.subrange(cursor, cursor + encoded.len()) =~= all.take(
        upto.len() as int,
    ).subrange(before.len() as int, upto.len() as int));
    assert(upto.subrange(before.len() as int, upto.len() as int) =~= encoded);
}

/// Where the fields of an entry stand in its bytes.
pub proof fn lemma_entry_fields(entry: EntryView)
    ensures
        ({
            let encoded = entry_bytes(entry);
            let name = encode_utf8(entry.descriptor.name);
            &&& encoded.len() == 55 + name.len()
            &&& encoded.subrange(0, 16) == entry.file_id.0@
            &&& encoded.subrange(16, 24) == bytes::be_bytes(entry.descriptor.size as nat, 8)
            &&& encoded.subrange(24, 28) == bytes::be_bytes(entry.descriptor.attributes as nat, 4)
            &&& encoded[28] == time_flags(entry.descriptor)
            &&& encoded.subrange(29, 37) == bytes::be_bytes(
                time_bits(entry.descriptor.creation_time) as nat,
                8,
            )
            &&& encoded.subrange(37, 45) == bytes::be_bytes(
                time_bits(entry.descriptor.last_access_time) as nat,
                8,
            )
            &&& encoded.subrange(45, 53) == bytes::be_bytes(
                time_bits(entry.descriptor.last_write_time) as nat,
                8,
            )
            &&& encoded.subrange(53, 55) == bytes::be_bytes(name.len(), 2)
            &&& encoded.subrange(55, encoded.len() as int) == name
        }),
{
    let encoded = entry_bytes(entry);
    let name = encode_utf8(entry.descriptor.name);
    lemma_entry_len(entry);
    let id = entry.file_id.0@;
    let size = bytes::be_bytes(entry.descriptor.size as nat, 8);
    let attributes = bytes::be_bytes(entry.descriptor.attributes as nat, 4);
    let flags = seq![time_flags(entry.descriptor)];
    let creation = bytes::be_bytes(time_bits(entry.descriptor.creation_time) as nat, 8);
    let access = bytes::be_bytes(time_bits(entry.descriptor.last_access_time) as nat, 8);
    let write = bytes::be_bytes(time_bits(entry.descriptor.last_write_time) as nat, 8);
    let length = bytes::be_bytes(name.len(), 2);
    bytes::lemma_be_bytes_len(entry.descriptor.size as nat, 8);
    bytes::lemma_be_bytes_len(entry.descriptor.attributes as nat, 4);
    bytes::lemma_be_bytes_len(time_bits(entry.descriptor.creation_time) as nat, 8);
    bytes::lemma_be_bytes_len(time_bits(entry.descriptor.last_access_time) as nat, 8);
    bytes::lemma_be_bytes_len(time_bits(entry.descriptor.last_write_time) as nat, 8);
    bytes::lemma_be_bytes_len(name.len(), 2);
    assert(encoded == id + size + attributes + flags + creation + access + write + length + name);
    assert(encoded.subrange(0, 16) =~= id);
    assert(encoded.subrange(16, 24) =~= size);
    assert(encoded.subrange(24, 28) =~= attributes);
    assert(encoded.subrange(29, 37) =~= creation);
    assert(encoded.subrange(37, 45) =~= access);
    assert(encoded.subrange(45, 53) =~= write);
    assert(encoded.subrange(53, 55) =~= length);
    assert(encoded.subrange(55, encoded.len() as int) =~= name);
}

/// Known flags and bits give the times of a descriptor back.
proof fn lemma_times_decode(descriptor: DescriptorView)
    ensures
        ({
            let flags = time_flags(descriptor) as int;
            &&& 0 <= flags <= 7
            &&& known_time(flags % 2 == 1, time_bits(descriptor.creation_time) as nat)
                == descriptor.creation_time
            &&& known_time(flags / 2 % 2 == 1, time_bits(descriptor.last_access_time) as nat)
                == descriptor.last_access_time
            &&& known_time(flags / 4 == 1, time_bits(descriptor.last_write_time) as nat)
                == descriptor.last_write_time
        }),
{
    if descriptor.creation_time is Some {
        descriptor.creation_time->0.lemma_bits_round_trip();
    }
    if descriptor.last_access_time is Some {
        descriptor.last_access_time->0.lemma_bits_round_trip();
    }
    if descriptor.last_write_time is Some {
        descriptor.last_write_time->0.lemma_bits_round_trip();
    }
}

/// The bytes of an entry decode to it, wherever in a response they stand.
proof fn lemma_entry_decodes_at(
    response: Seq<u8>,
    cursor: int,
    entry: EntryView,
    seen: Seq<EntryView>,
)
    requires
        0 <= cursor,
        cursor + entry_bytes(entry).len() <= response.len(),
        response.subrange(cursor, cursor + entry_bytes(entry).len()) == entry_bytes(entry),
        encode_utf8(entry.descriptor.name).len() <= u16::MAX,
        !has_file(seen, entry.file_id.0@),
    ensures
        entry_outcome(response, cursor, seen) == Ok::<(EntryView, int), Failure>(
            (entry, cursor + entry_bytes(entry).len()),
        ),
{
    let encoded = entry_bytes(entry);
    let descriptor = entry.descriptor;
    let name = encode_utf8(descriptor.name);
    lemma_entry_fields(entry);
    lemma_times_decode(descriptor);
    assert forall|start: int, end: int|
        0 <= start <= end <= encoded.len() implies #[trigger] response.subrange(
        cursor + start,
        cursor + end,
    ) == encoded.subrange(start, end) by {
        assert(response.subrange(cursor + start, cursor + end) =~= response.subrange(
            cursor,
            cursor + encoded.len(),
        ).subrange(start, end));
    }
    assert(bytes::slice_of(response, cursor, 16) == response.subrange(cursor + 0, cursor + 16));
    assert(bytes::slice_of(response, cursor + 16, 8) == response.subrange(cursor + 16, cursor + 24));
    assert(bytes::slice_of(response, cursor + 24, 4) == response.subrange(cursor + 24, cursor + 28));
    assert(response[cursor + 28] == response.subrange(cursor, cursor + encoded.len())[28]);
    assert(bytes::slice_of(response, cursor + 29, 8) == response.subrange(cursor + 29, cursor + 37));
    assert(bytes::slice_of(response, cursor + 37, 8) == response.subrange(cursor + 37, cursor + 45));
    assert(bytes::slice_of(response, cursor + 45, 8) == response.subrange(cursor + 45, cursor + 53));
    assert(bytes::slice_of(response, cursor + 53, 2) == response.subrange(cursor + 53, cursor + 55));
    assert(bytes::slice_of(response, cursor + 55, name.len() as int) == response.subrange(
        cursor + 55,
        cursor + encoded.len(),
    ));
    bytes::lemma_capacity_values();
    bytes::lemma_be_value_of_bytes(descriptor.size as nat, 8);
    bytes::lemma_be_value_of_bytes(descriptor.attributes as nat, 4);
    bytes::lemma_be_value_of_bytes(time_bits(descriptor.creation_time) as nat, 8);
    bytes::lemma_be_value_of_bytes(time_bits(descriptor.last_access_time) as nat, 8);
    bytes::lemma_be_value_of_bytes(time_bits(descriptor.last_write_time) as nat, 8);
    bytes::lemma_be_value_of_bytes(name.len(), 2);
    encode_utf8_valid_utf8(descriptor.name);
    encode_utf8_decode_utf8(descriptor.name);
    bytes::lemma_array_16(entry.file_id.0, response, cursor);
}

/// No entry before `index` has the identifier of the entry there.
proof fn lemma_entry_is_new(manifest: ManifestView, index: int)
    requires
        acceptable(manifest),
        0 <= index < manifest.entries.len(),
    ensures
        !has_file(manifest.entries.take(index), manifest.entries[index].file_id.0@),
{
    let entry = manifest.entries[index];
    let seen = manifest.entries.take(index);
    if has_file(seen, entry.file_id.0@) {
        let k = choose|k: int| 0 <= k < seen.len() && (#[trigger] seen[k]).file_id.0@ == entry.file_id.0@;
        assert(seen[k] == manifest.entries[k]);
        assert(manifest.entries[k].file_id.0 =~= entry.file_id.0);
        assert(manifest.entries[k].file_id == manifest.entries[index].file_id);
    }
}

/// The entry at `index` decodes from where its bytes stand.
#[verifier::spinoff_prover]
#[verifier::rlimit(40)]
proof fn lemma_entry_decodes(manifest: ManifestView, index: int)
    requires
        acceptable(manifest),
        0 <= index < manifest.entries.len(),
    ensures
        entry_outcome(
            manifest_bytes(manifest),
            MANIFEST_HEADER_LEN + entries_bytes(manifest.entries.take(index)).len(),
            manifest.entries.take(index),
        ) == Ok::<(EntryView, int), Failure>(
            (
                manifest.entries[index],
                MANIFEST_HEADER_LEN + entries_bytes(manifest.entries.take(index + 1)).len(),
            ),
        ),
{
    let entry = manifest.entries[index];
    let seen = manifest.entries.take(index);
    lemma_entry_placed(manifest, index);
    lemma_entry_is_new(manifest, index);
    lemma_entry_decodes_at(
        manifest_bytes(manifest),
        MANIFEST_HEADER_LEN + entries_bytes(seen).len(),
        entry,
        seen,
    );
}

proof fn lemma_entries_step(
    response: Seq<u8>,
    cursor: int,
    count: nat,
    seen: Seq<EntryView>,
    entry: EntryView,
    next: int,
)
    requires
        count > 0,
        entry_outcome(response, cursor, seen) == Ok::<(EntryView, int), Failure>((entry, next)),
    ensures
        entries_outcome(response, cursor, count, seen) == entries_outcome(
            response,
            next,
            (count - 1) as nat,
            seen.push(entry),
        ),
{
}

#[verifier::spinoff_prover]
#[verifier::rlimit(40)]
proof fn lemma_entries_decode(manifest: ManifestView, index: int)
    requires
        acceptable(manifest),
        0 <= index <= manifest.entries.len(),
    ensures
        entries_outcome(
            manifest_bytes(manifest),
            MANIFEST_HEADER_LEN + entries_bytes(manifest.entries.take(index)).len(),
            (manifest.entries.len() - index) as nat,
            manifest.entries.take(index),
        ) == Ok::<(Seq<EntryView>, int), Failure>(
            (manifest.entries, manifest_bytes(manifest).len() as int),
        ),
    decreases manifest.entries.len() - index,
{
    if index == manifest.entries.len() {
        assert(manifest.entries.take(index) =~= manifest.entries);
        lemma_header_len(manifest);
    } else {
        lemma_entry_decodes(manifest, index);
        assert(manifest.entries.take(index).push(manifest.entries[index])
            =~= manifest.entries.take(index + 1));
        lemma_entries_step(
            manifest_bytes(manifest),
            MANIFEST_HEADER_LEN + entries_bytes(manifest.entries.take(index)).len(),
            (manifest.entries.len() - index) as nat,
            manifest.entries.take(index),
            manifest.entries[index],
            MANIFEST_HEADER_LEN + entries_bytes(manifest.entries.take(index + 1)).len(),
        );
        lemma_entries_decode(manifest, index + 1);
    }
}

/// A receiver gets back the offer that a source encoded.
pub proof fn lemma_manifest_round_trip(manifest: ManifestView)
    requires
        acceptable(manifest),
    ensures
        manifest_outcome(manifest_bytes(manifest)) == Ok::<ManifestView, Failure>(manifest),
{
    let response = manifest_bytes(manifest);
    bytes::lemma_capacity_values();
    lemma_header_len(manifest);
    bytes::lemma_be_value_of_bytes(manifest.ttl_millis as nat, 8);
    bytes::lemma_be_value_of_bytes(manifest.entries.len(), 4);
    assert(bytes::slice_of(response, 1, 16) =~= manifest.offer_id.0@);
    assert(bytes::slice_of(response, 17, 8) =~= bytes::be_bytes(manifest.ttl_millis as nat, 8));
    assert(bytes::slice_of(response, 25, 4) =~= bytes::be_bytes(manifest.entries.len(), 4));
    bytes::lemma_array_16(manifest.offer_id.0, response, 1);
    assert(manifest.entries.take(0) =~= Seq::empty());
    lemma_entries_decode(manifest, 0);
    lemma_entries_min_len(manifest.entries);
}

proof fn lemma_entries_min_len(entries: Seq<EntryView>)
    ensures
        entries_bytes(entries).len() >= entries.len() * MANIFEST_ENTRY_FIXED_LEN,
    decreases entries.len(),
{
    if entries.len() > 0 {
        lemma_entries_min_len(entries.drop_last());
        lemma_entry_len(entries.last());
    }
}

/// As many entries are read as are told of.
pub proof fn lemma_entries_are_counted(
    response: Seq<u8>,
    cursor: int,
    count: nat,
    seen: Seq<EntryView>,
)
    ensures
        entries_outcome(response, cursor, count, seen) matches Ok((entries, _)) ==> entries.len()
            == seen.len() + count,
    decreases count,
{
    if count > 0 {
        if let Ok((entry, next)) = entry_outcome(response, cursor, seen) {
            lemma_entries_are_counted(response, next, (count - 1) as nat, seen.push(entry));
        }
    }
}

/// An offer is told where each name takes at most 65535 bytes and the whole at most 1048576; what does not
/// fit is answered as an internal failure.
pub proof fn lemma_offers_that_fit(manifest: &OfferManifest, result: Result<Vec<u8>, ResponseStatus>)
    requires
        call_ensures(encode_manifest, (manifest,), result),
        manifest@.entries.len() < 0x1_0000_0000,
    ensures
        result is Ok <==> {
            &&& forall|k: int|
                0 <= k < manifest@.entries.len() ==> encode_utf8(
                    (#[trigger] manifest@.entries[k]).descriptor.name,
                ).len() < 65536
            &&& manifest_bytes(manifest@).len() <= 1_048_576
        },
        result matches Ok(response) ==> response@ == manifest_bytes(manifest@),
        result matches Err(status) ==> status is Internal,
{
}

} // verus!
