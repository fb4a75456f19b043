//! The offer of a captured file, and the one offer that stands.

use super::capture;
use super::capture::PRIVATE_ORIGIN_PREFIX;
use super::snapshot::FileSnapshot;
use super::stable::{StableFileSource, StableProgress};
use crate::bytes;
use crate::clipboard::data_object::{DescriptorView, VirtualFileDescriptor};
use crate::clipboard::hresult::{HResult, E_INVALIDARG};
use vstd::prelude::*;

verus! {

/// The offer of a captured file. Times are in nanoseconds.
#[derive(Debug)]
pub struct LocalFileOffer {
    pub offer_id: [u8; 16],
    pub file_id: [u8; 16],
    pub created_at: u64,
    pub expires_at: u64,
    pub source: StableFileSource,
    pub origin_payload: Vec<u8>,
}

impl LocalFileOffer {
    /// Whether the offer says the same of its file everywhere, and its origin can be told.
    pub open spec fn wf(&self) -> bool {
        &&& self.source.expires_at == self.expires_at
        &&& self.created_at < self.expires_at
        &&& self.origin_payload@ == PRIVATE_ORIGIN_PREFIX@ + self.offer_id@
    }

    /// An offer for a captured file that stands for `ttl` from `now` on. The identifiers are
    /// fresh ones.
    pub fn create(
        snapshot: FileSnapshot,
        ttl: u64,
        now: u64,
        offer_id: [u8; 16],
        file_id: [u8; 16],
    ) -> (result: Result<Self, HResult>)
        ensures
            match result {
                Err(code) => (ttl == 0 || now + ttl > u64::MAX) && code == E_INVALIDARG,
                Ok(offer) => {
                    &&& ttl != 0 && now + ttl <= u64::MAX
                    &&& offer.wf()
                    &&& offer.offer_id == offer_id && offer.file_id == file_id
                    &&& offer.created_at == now && offer.expires_at == now + ttl
                    &&& offer.source.snapshot == snapshot
                    &&& offer.source.progress == StableProgress::fresh()
                },
            },
    {
        if ttl == 0 {
            return Err(E_INVALIDARG);
        }
        let expires_at: u64 = match now.checked_add(ttl) {
            Some(expires_at) => expires_at,
            None => {
                return Err(E_INVALIDARG);
            },
        };
        let mut origin_payload: Vec<u8> = Vec::new();
        bytes::append(&mut origin_payload, &PRIVATE_ORIGIN_PREFIX);
        bytes::append(&mut origin_payload, &offer_id);
        assert(origin_payload@ =~= PRIVATE_ORIGIN_PREFIX@ + offer_id@);
        Ok(
            LocalFileOffer {
                offer_id,
                file_id,
                created_at: now,
                expires_at,
                source: StableFileSource::new(snapshot, expires_at),
                origin_payload,
            },
        )
    }

    pub fn offer_id(&self) -> (offer_id: [u8; 16])
        ensures
            offer_id == self.offer_id,
    {
        self.offer_id
    }

    pub fn file_id(&self) -> (file_id: [u8; 16])
        ensures
            file_id == self.file_id,
    {
        self.file_id
    }

    pub fn file_name(&self) -> (name: &str)
        ensures
            name@ == self.source.snapshot.file_name@,
    {
        self.source.snapshot.file_name()
    }

    pub fn source(&self) -> (source: &StableFileSource)
        ensures
            *source == self.source,
    {
        &self.source
    }

    pub fn origin_payload(&self) -> (payload: &[u8])
        ensures
            payload@ == self.origin_payload@,
    {
        self.origin_payload.as_slice()
    }

    pub fn size(&self) -> (size: u64)
        ensures
            size == self.source.snapshot.size,
    {
        self.source.snapshot.size
    }

    /// How long the offer has stood.
    pub fn age(&self, now: u64) -> (age: u64)
        ensures
            age == if now < self.created_at {
                0int
            } else {
                now - self.created_at
            },
    {
        now.saturating_sub(self.created_at)
    }

    /// How long the offer still stands.
    pub fn remaining_ttl(&self, now: u64) -> (remaining: u64)
        ensures
            remaining == if now >= self.expires_at {
                0int
            } else {
                self.expires_at - now
            },
    {
        self.expires_at.saturating_sub(now)
    }

    /// What the clipboard tells of the file.
    pub fn descriptor(&self) -> (descriptor: VirtualFileDescriptor)
        ensures
            descriptor@ == (DescriptorView {
                name: self.source.snapshot.file_name@,
                size: self.source.snapshot.size,
                attributes: self.source.snapshot.attributes,
                creation_time: Some(self.source.snapshot.creation_time),
                last_access_time: Some(self.source.snapshot.last_access_time),
                last_write_time: Some(self.source.snapshot.last_write_time),
            }),
    {
        self.source.snapshot.descriptor()
    }

    /// The origin of an offer is recognised as one of this application.
    pub proof fn lemma_origin_is_recognised(&self)
        requires
            self.wf(),
        ensures
            capture::private_origin(self.origin_payload@),
    {
        assert(self.origin_payload@.take(25) =~= PRIVATE_ORIGIN_PREFIX@);
    }
}

/// The offers of this device: the one that stands, and those that were replaced or withdrawn.
#[derive(Debug)]
pub struct LocalOfferRegistry {
    pub current: Option<LocalFileOffer>,
}

impl LocalOfferRegistry {
    pub fn new() -> (registry: Self)
        ensures
            registry.current is None,
    {
        LocalOfferRegistry { current: None }
    }

    /// The offer that stood, revoked.
    pub open spec fn revoked(current: Option<LocalFileOffer>) -> Option<LocalFileOffer> {
        match current {
            None => None,
            Some(offer) => Some(
                LocalFileOffer {
                    source: StableFileSource {
                        progress: StableProgress { revoked: true, ..offer.source.progress },
                        ..offer.source
                    },
                    ..offer
                },
            ),
        }
    }

    /// Publishes an offer; the one that stood is revoked and handed out, so that reads that have
    /// begun can end.
    pub fn publish(&mut self, offer: LocalFileOffer) -> (previous: Option<LocalFileOffer>)
        ensures
            final(self).current == Some(offer),
            previous == LocalOfferRegistry::revoked(old(self).current),
    {
        let mut previous = self.current.take();
        self.current = Some(offer);
        match previous {
            None => None,
            Some(mut offer) => {
                offer.source.revoke();
                Some(offer)
            },
        }
    }

    /// Withdraws the offer that stands; it is handed out revoked.
    pub fn revoke_current(&mut self) -> (previous: Option<LocalFileOffer>)
        ensures
            final(self).current is None,
            previous == LocalOfferRegistry::revoked(old(self).current),
    {
        match self.current.take() {
            None => None,
            Some(mut offer) => {
                offer.source.revoke();
                Some(offer)
            },
        }
    }
}

} // verus!
