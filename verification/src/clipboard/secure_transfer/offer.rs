//! An offer as its source holds it.

use super::manifest;
use super::manifest::{EntryView, ManifestView, OfferManifest, OfferManifestEntry};
use super::model::NANOS_PER_MILLI;
use super::wire::ProtocolId;
use crate::clipboard::data_object;
use crate::clipboard::local_file::offer::LocalFileOffer;
use crate::clipboard::data_object::{
    validate_virtual_descriptor_tree, DescriptorView, VirtualFileDescriptor, MAX_VIRTUAL_ITEMS,
};
use crate::failure::Failure;
use crate::random;
use crate::tls::TrustFailure;
use vstd::prelude::*;

verus! {

/// Whether the entries hold content under this identifier: one of them has it and is no
/// directory.
pub open spec fn has_content(entries: Seq<EntryView>, file_id: ProtocolId) -> bool {
    exists|k: int|
        0 <= k < entries.len() && (#[trigger] entries[k]).file_id == file_id
            && !data_object::directory_attributes(entries[k].descriptor.attributes)
}

/// Where the first entry with this identifier stands; past the end where there is none.
pub open spec fn entry_place(entries: Seq<EntryView>, file_id: ProtocolId) -> nat
    decreases entries.len(),
{
    if entries.len() == 0 || entries[0].file_id == file_id {
        0
    } else {
        1 + entry_place(entries.skip(1), file_id)
    }
}

pub proof fn lemma_entry_place(entries: Seq<EntryView>, file_id: ProtocolId)
    ensures
        entry_place(entries, file_id) <= entries.len(),
        entry_place(entries, file_id) < entries.len() ==> entries[entry_place(
            entries,
            file_id,
        ) as int].file_id == file_id,
        forall|k: int|
            0 <= k < entry_place(entries, file_id) ==> (#[trigger] entries[k]).file_id != file_id,
    decreases entries.len(),
{
    if entries.len() > 0 && entries[0].file_id != file_id {
        let rest = entries.skip(1);
        lemma_entry_place(rest, file_id);
        assert forall|k: int| 0 <= k < entry_place(entries, file_id) implies (
        #[trigger] entries[k]).file_id != file_id by {
            if k > 0 {
                assert(rest[k - 1] == entries[k]);
            }
        }
        if entry_place(entries, file_id) < entries.len() {
            assert(rest[entry_place(rest, file_id) as int] == entries[entry_place(
                entries,
                file_id,
            ) as int]);
        }
    }
}

pub proof fn lemma_entry_place_is(entries: Seq<EntryView>, file_id: ProtocolId, at: int)
    requires
        0 <= at <= entries.len(),
        at < entries.len() ==> entries[at].file_id == file_id,
        forall|k: int| 0 <= k < at ==> (#[trigger] entries[k]).file_id != file_id,
    ensures
        entry_place(entries, file_id) == at,
{
    lemma_entry_place(entries, file_id);
    let found = entry_place(entries, file_id) as int;
    if found < at {
        assert(entries[found].file_id == file_id);
    } else if at < found {
        assert(entries[at].file_id != file_id);
    }
}

/// A tree of files on offer until a point in time; their content stays with the source.
#[derive(Debug)]
pub struct SecureOfferedFile {
    manifest: OfferManifest,
    expires_at: u64,
}

/// Whether entries make up a tree of files and directories that is neither empty nor too large.
pub open spec fn is_tree(entries: Seq<EntryView>) -> bool {
    &&& 0 < entries.len() <= MAX_VIRTUAL_ITEMS
    &&& data_object::valid_tree(manifest::entry_descriptors(entries))
}

impl SecureOfferedFile {
    /// Whether a valid tree is on offer.
    pub open spec fn wf(&self) -> bool {
        is_tree(self.entries())
    }

    pub closed spec fn spec_offer_id(&self) -> ProtocolId {
        self.manifest.offer_id
    }

    /// What the offer tells of its files.
    pub closed spec fn entries(&self) -> Seq<EntryView> {
        self.manifest@.entries
    }

    pub closed spec fn spec_expires_at(&self) -> u64 {
        self.expires_at
    }

    pub fn offer_id(&self) -> (offer_id: ProtocolId)
        ensures
            offer_id == self.spec_offer_id(),
    {
        self.manifest.offer_id
    }

    pub fn expires_at(&self) -> (expires_at: u64)
        ensures
            expires_at == self.spec_expires_at(),
    {
        self.expires_at
    }

    /// Whether the offer holds content under this identifier.
    pub fn has_source(&self, file_id: ProtocolId) -> (found: bool)
        ensures
            found == has_content(self.entries(), file_id),
    {
        let ghost views = self.entries();
        let mut index: usize = 0;
        while index < self.manifest.entries.len()
            invariant
                index <= self.manifest.entries@.len(),
                views == self.entries(),
                forall|k: int|
                    0 <= k < index ==> !((#[trigger] views[k]).file_id == file_id
                        && !data_object::directory_attributes(views[k].descriptor.attributes)),
            decreases self.manifest.entries@.len() - index,
        {
            let entry = &self.manifest.entries[index];
            assert(views[index as int] == entry@);
            if entry.file_id == file_id && !entry.descriptor.is_directory() {
                return true;
            }
            index += 1;
        }
        false
    }

    /// The size of the first entry with this identifier.
    pub fn entry_size(&self, file_id: ProtocolId) -> (size: Option<u64>)
        ensures
            match size {
                Some(size) => entry_place(self.entries(), file_id) < self.entries().len() && size
                    == self.entries()[entry_place(self.entries(), file_id) as int].descriptor.size,
                None => entry_place(self.entries(), file_id) == self.entries().len(),
            },
    {
        let ghost views = self.entries();
        let mut index: usize = 0;
        while index < self.manifest.entries.len()
            invariant
                index <= self.manifest.entries@.len(),
                views == self.entries(),
                forall|k: int| 0 <= k < index ==> (#[trigger] views[k]).file_id != file_id,
            decreases self.manifest.entries@.len() - index,
        {
            let entry = &self.manifest.entries[index];
            assert(views[index as int] == entry@);
            if entry.file_id == file_id {
                proof {
                    lemma_entry_place_is(views, file_id, index as int);
                }
                return Some(entry.descriptor.size);
            }
            index += 1;
        }
        proof {
            lemma_entry_place_is(views, file_id, index as int);
        }
        None
    }

    fn check_tree(items: &Vec<(VirtualFileDescriptor, Option<u64>)>, ttl: u64) -> (result: Result<
        (),
        Failure,
    >)
        ensures
            result == tree_outcome(items@, ttl),
    {
        if ttl == 0 || items.len() == 0 || items.len() > MAX_VIRTUAL_ITEMS {
            return Err(Failure::invalid("invalid secure offer size or lifetime"));
        }
        let mut descriptors: Vec<VirtualFileDescriptor> = Vec::new();
        let mut index: usize = 0;
        while index < items.len()
            invariant
                index <= items@.len(),
                data_object::descriptor_views(descriptors@) =~= item_views(
                    items@,
                ).take(index as int),
            decreases items@.len() - index,
        {
            let ghost before = data_object::descriptor_views(descriptors@);
            descriptors.push(items[index].0.clone());
            index += 1;
            proof {
                assert(data_object::descriptor_views(descriptors@) =~= before.push(
                    items@[index - 1].0@,
                ));
                assert(item_views(items@).take(index as int) =~= item_views(items@).take(
                    index - 1,
                ).push(items@[index - 1].0@));
            }
        }
        assert(item_views(items@).take(index as int) =~= item_views(items@));
        if validate_virtual_descriptor_tree(descriptors.as_slice()).is_err() {
            return Err(Failure::invalid("Windows validation failed: 0x80040064"));
        }
        Ok(())
    }

    /// Puts a tree of files on offer under the given identifiers.
    ///
    /// Each item is a descriptor and the length of its content; a directory has no content.
    pub fn new_tree_with(
        items: Vec<(VirtualFileDescriptor, Option<u64>)>,
        ttl: u64,
        now: u64,
        offer_id: ProtocolId,
        file_ids: &[ProtocolId],
    ) -> (result: Result<Self, Failure>)
        requires
            file_ids@.len() == items@.len(),
        ensures
            result is Ok <==> offer_outcome(items@, ttl, now) is Ok,
            result matches Err(failure) ==> offer_outcome(items@, ttl, now) == Err::<(), Failure>(
                failure,
            ),
            result matches Ok(offered) ==> {
                &&& offered.wf()
                &&& offered.spec_offer_id() == offer_id
                &&& offered.entries() == offered_entries(items@, file_ids@)
                &&& offered.spec_expires_at() == now + ttl
            },
    {
        match Self::check_tree(&items, ttl) {
            Err(failure) => {
                return Err(failure);
            },
            Ok(_) => {},
        }
        let mut index: usize = 0;
        let mut entries: Vec<OfferManifestEntry> = Vec::new();
        let ghost wanted = offered_entries(items@, file_ids@);
        while index < items.len()
            invariant
                index <= items@.len(),
                file_ids@.len() == items@.len(),
                ttl != 0,
                0 < items@.len() <= MAX_VIRTUAL_ITEMS,
                data_object::valid_tree(item_views(items@)),
                wanted == offered_entries(items@, file_ids@),
                forall|k: int| 0 <= k < index ==> item_matches(#[trigger] items@[k]),
                manifest::entry_views(entries@) =~= wanted.take(index as int),
            decreases items@.len() - index,
        {
            let directory = items[index].0.is_directory();
            let matching = match items[index].1 {
                Some(length) => !directory && items[index].0.size == length,
                None => directory,
            };
            if !matching {
                assert(!item_matches(items@[index as int]));
                return Err(Failure::invalid("secure offer source does not match descriptor"));
            }
            let ghost before = manifest::entry_views(entries@);
            entries.push(
                OfferManifestEntry { file_id: file_ids[index], descriptor: items[index].0.clone() },
            );
            index += 1;
            proof {
                assert(manifest::entry_views(entries@) =~= before.push(wanted[index - 1]));
                assert(wanted.take(index as int) =~= wanted.take(index - 1).push(
                    wanted[index - 1],
                ));
            }
        }
        assert(wanted.take(index as int) =~= wanted);
        if ttl > u64::MAX - now {
            return Err(Failure::invalid("secure offer lifetime is too large"));
        }
        proof {
            assert(manifest::entry_descriptors(wanted) =~= item_views(items@));
        }
        Ok(
            SecureOfferedFile {
                manifest: OfferManifest { offer_id, entries, ttl_millis: ttl / NANOS_PER_MILLI },
                expires_at: now + ttl,
            },
        )
    }

    /// Puts a tree of files on offer under fresh random identifiers.
    pub fn new_tree(
        items: Vec<(VirtualFileDescriptor, Option<u64>)>,
        ttl: u64,
        now: u64,
    ) -> (result: Result<Self, TrustFailure>)
        ensures
            offers(result, items@, ttl, now),
    {
        match Self::check_tree(&items, ttl) {
            Err(failure) => {
                return Err(TrustFailure::Refused { failure });
            },
            Ok(_) => {},
        }
        let offer_id = match random::random_16() {
            Ok(random) => ProtocolId(random),
            Err(detail) => {
                return Err(TrustFailure::Cryptography { detail });
            },
        };
        let mut file_ids: Vec<ProtocolId> = Vec::new();
        while file_ids.len() < items.len()
            invariant
                file_ids@.len() <= items@.len(),
                tree_outcome(items@, ttl) is Ok,
                all_drawn(file_ids@),
            decreases items@.len() - file_ids@.len(),
        {
            match random::random_16() {
                Ok(random) => {
                    file_ids.push(ProtocolId(random));
                },
                Err(detail) => {
                    return Err(TrustFailure::Cryptography { detail });
                },
            }
        }
        match Self::new_tree_with(items, ttl, now, offer_id, file_ids.as_slice()) {
            Ok(offered) => {
                assert(offered.entries() == offered_entries(items@, file_ids@));
                Ok(offered)
            },
            Err(failure) => Err(TrustFailure::Refused { failure }),
        }
    }

    /// Puts one file on offer under fresh random identifiers.
    pub fn new(descriptor: VirtualFileDescriptor, length: u64, ttl: u64, now: u64) -> (result: Result<
        Self,
        TrustFailure,
    >)
        ensures
            offers(result, seq![(descriptor, Some(length))], ttl, now),
    {
        let mut items: Vec<(VirtualFileDescriptor, Option<u64>)> = Vec::new();
        items.push((descriptor, Some(length)));
        assert(items@ =~= seq![(descriptor, Some(length))]);
        Self::new_tree(items, ttl, now)
    }

    /// Puts a captured file on offer for as long as it is offered on this device.
    pub fn from_local_offer(offer: &LocalFileOffer, now: u64) -> (result: Result<
        Self,
        TrustFailure,
    >)
        ensures
            exists|descriptor: VirtualFileDescriptor|
                {
                    &&& #[trigger] descriptor@ == (DescriptorView {
                        name: offer.source.snapshot.file_name@,
                        size: offer.source.snapshot.size,
                        attributes: offer.source.snapshot.attributes,
                        creation_time: Some(offer.source.snapshot.creation_time),
                        last_access_time: Some(offer.source.snapshot.last_access_time),
                        last_write_time: Some(offer.source.snapshot.last_write_time),
                    })
                    &&& offers(
                        result,
                        seq![(descriptor, Some(offer.source.snapshot.size))],
                        if now >= offer.expires_at {
                            0
                        } else {
                            (offer.expires_at - now) as u64
                        },
                        now,
                    )
                },
    {
        let descriptor = offer.descriptor();
        let size: u64 = offer.size();
        let remaining: u64 = offer.remaining_ttl(now);
        assert(descriptor@.size == size);
        Self::new(descriptor, size, remaining, now)
    }

    /// Puts a file of generated bytes on offer under fresh random identifiers.
    pub fn generated(file_name: String, size: u64, ttl: u64, now: u64) -> (result: Result<
        Self,
        TrustFailure,
    >)
        ensures
            if size == 0 {
                result == Err::<Self, TrustFailure>(
                    TrustFailure::Refused {
                        failure: Failure::invalid("Windows validation failed: 0x80070057"),
                    },
                )
            } else {
                exists|descriptor: VirtualFileDescriptor|
                    {
                        &&& #[trigger] descriptor@ == DescriptorView::basic(file_name@, size)
                        &&& offers(result, seq![(descriptor, Some(size))], ttl, now)
                    }
            },
    {
        if size == 0 {
            return Err(
                TrustFailure::Refused {
                    failure: Failure::invalid("Windows validation failed: 0x80070057"),
                },
            );
        }
        let descriptor = VirtualFileDescriptor::basic(file_name, size);
        assert(descriptor@.size == size);
        Self::new(descriptor, size, ttl, now)
    }

    /// The offer as it is told at `now`.
    pub fn manifest(&self, now: u64) -> (manifest: OfferManifest)
        ensures
            manifest@ == self.told(now),
    {
        let left: u64 = if self.expires_at <= now {
            0
        } else {
            self.expires_at - now
        };
        self.manifest.with_ttl(left / NANOS_PER_MILLI)
    }

    /// The offer as it is told at `now`: with the milliseconds that are left of its lifetime.
    pub open spec fn told(&self, now: u64) -> ManifestView {
        ManifestView {
            offer_id: self.spec_offer_id(),
            ttl_millis: if self.spec_expires_at() <= now {
                0
            } else {
                ((self.spec_expires_at() - now) / NANOS_PER_MILLI as int) as u64
            },
            entries: self.entries(),
        }
    }
}

/// The contents of the descriptors of items.
pub open spec fn item_views(items: Seq<(VirtualFileDescriptor, Option<u64>)>) -> Seq<
    DescriptorView,
> {
    items.map_values(|item: (VirtualFileDescriptor, Option<u64>)| item.0@)
}

/// Whether an item has content exactly where its descriptor says so, and as much of it.
pub open spec fn item_matches(item: (VirtualFileDescriptor, Option<u64>)) -> bool {
    match item.1 {
        Some(length) => !item.0.spec_is_directory() && item.0.size == length,
        None => item.0.spec_is_directory(),
    }
}

/// Whether items make up a tree that may be on offer for a time.
pub open spec fn tree_outcome(
    items: Seq<(VirtualFileDescriptor, Option<u64>)>,
    ttl: u64,
) -> Result<(), Failure> {
    if ttl == 0 || items.len() == 0 || items.len() > MAX_VIRTUAL_ITEMS {
        Err(Failure::invalid("invalid secure offer size or lifetime"))
    } else if !data_object::valid_tree(item_views(items)) {
        Err(Failure::invalid("Windows validation failed: 0x80040064"))
    } else {
        Ok(())
    }
}

/// Whether items can be put on offer.
pub open spec fn offer_outcome(
    items: Seq<(VirtualFileDescriptor, Option<u64>)>,
    ttl: u64,
    now: u64,
) -> Result<(), Failure> {
    if tree_outcome(items, ttl) is Err {
        tree_outcome(items, ttl)
    } else if exists|k: int| 0 <= k < items.len() && !item_matches(#[trigger] items[k]) {
        Err(Failure::invalid("secure offer source does not match descriptor"))
    } else if now + ttl > u64::MAX {
        Err(Failure::invalid("secure offer lifetime is too large"))
    } else {
        Ok(())
    }
}

/// What an offer tells of items that have these identifiers.
pub open spec fn offered_entries(
    items: Seq<(VirtualFileDescriptor, Option<u64>)>,
    file_ids: Seq<ProtocolId>,
) -> Seq<EntryView> {
    Seq::new(
        items.len(),
        |k: int| EntryView { file_id: file_ids[k], descriptor: items[k].0@ },
    )
}

/// Whether the system's random number source can have given each of the identifiers.
pub open spec fn all_drawn(ids: Seq<ProtocolId>) -> bool {
    forall|k: int| 0 <= k < ids.len() ==> random::drawn((#[trigger] ids[k]).0@)
}

/// Whether a result is that of putting items on offer under identifiers that are drawn for them:
/// nothing but what cannot be on offer is refused, unless no identifiers can be drawn.
pub open spec fn offers(
    result: Result<SecureOfferedFile, TrustFailure>,
    items: Seq<(VirtualFileDescriptor, Option<u64>)>,
    ttl: u64,
    now: u64,
) -> bool {
    match result {
        Ok(offered) => {
            &&& offer_outcome(items, ttl, now) is Ok
            &&& offered.wf()
            &&& offered.spec_expires_at() == now + ttl
            &&& random::drawn(offered.spec_offer_id().0@)
            &&& exists|file_ids: Seq<ProtocolId>|
                file_ids.len() == items.len() && all_drawn(file_ids) && offered.entries()
                    == #[trigger] offered_entries(items, file_ids)
        },
        Err(TrustFailure::Refused { failure }) => offer_outcome(items, ttl, now) == Err::<
            (),
            Failure,
        >(failure),
        Err(TrustFailure::Cryptography { detail }) => tree_outcome(items, ttl) is Ok
            && random::refused(16, detail),
        Err(_) => false,
    }
}

} // verus!
