//! Per-challenge metadata and the registry that holds it.

use vstd::prelude::*;
use vstd::utf8::encode_utf8;
use crate::error::ErrorCode;

verus! {

/// The longest descriptor URI that a challenge may carry, in bytes.
pub const MAX_DESCRIPTOR_BYTES: usize = 200;

/// The length of a descriptor URI in bytes, as it is stored: UTF-8 encoded.
pub open spec fn descriptor_len(uri: Seq<char>) -> nat {
    encode_utf8(uri).len()
}

/// The metadata of one challenge.
#[derive(Clone, Debug, PartialEq, Eq)]
pub struct Challenge {
    pub id: u8,
    pub descriptor_uri: String,
}

/// A challenge as a mathematical value.
pub struct ChallengeView {
    pub id: u8,
    pub descriptor_uri: Seq<char>,
}

impl ChallengeView {
    /// The descriptor fits the cap.
    pub open spec fn wf(self) -> bool {
        descriptor_len(self.descriptor_uri) <= MAX_DESCRIPTOR_BYTES
    }
}

impl View for Challenge {
    type V = ChallengeView;

    open spec fn view(&self) -> ChallengeView {
        ChallengeView { id: self.id, descriptor_uri: self.descriptor_uri@ }
    }
}

impl Challenge {
    /// The challenge `id` with the given descriptor; `DescriptorTooLong` if
    /// and only if the descriptor is longer than 200 bytes.
    pub fn new(id: u8, descriptor_uri: String) -> (result: Result<Challenge, ErrorCode>)
        ensures
            match result {
                Ok(challenge) => challenge@ == (ChallengeView {
                    id,
                    descriptor_uri: descriptor_uri@,
                }) && challenge@.wf(),
                Err(e) => e == ErrorCode::DescriptorTooLong && descriptor_len(descriptor_uri@)
                    > MAX_DESCRIPTOR_BYTES,
            },
    {
        if descriptor_uri.as_str().as_bytes().len() > MAX_DESCRIPTOR_BYTES {
            Err(ErrorCode::DescriptorTooLong)
        } else {
            Ok(Challenge { id, descriptor_uri })
        }
    }
}

/// What registering challenge `id` with descriptor `uri` does to the
/// registered challenges: the registry with the new record, or the reason why
/// nothing is registered. A record that exists is never replaced.
pub open spec fn registration(challenges: Map<u8, ChallengeView>, id: u8, uri: Seq<char>) -> Result<
    Map<u8, ChallengeView>,
    ErrorCode,
> {
    if challenges.dom().contains(id) {
        Err(ErrorCode::ChallengeAlreadyExists)
    } else if descriptor_len(uri) > MAX_DESCRIPTOR_BYTES {
        Err(ErrorCode::DescriptorTooLong)
    } else {
        Ok(challenges.insert(id, ChallengeView { id, descriptor_uri: uri }))
    }
}

/// The challenges that have been registered, at most one per id. A record
/// is written once and never changed afterwards.
#[derive(Debug)]
pub struct ChallengeRegistry {
    slots: Vec<Option<Challenge>>,
}

impl View for ChallengeRegistry {
    type V = Map<u8, ChallengeView>;

    /// The registered challenges by id.
    closed spec fn view(&self) -> Map<u8, ChallengeView> {
        Map::new(
            |id: u8| id < self.slots@.len() && self.slots@[id as int] is Some,
            |id: u8| self.slots@[id as int]->0@,
        )
    }
}

impl ChallengeRegistry {
    /// One slot per id, and each record in the slot of its own id, its
    /// descriptor within the cap.
    pub closed spec fn wf(&self) -> bool {
        &&& self.slots@.len() == 256
        &&& forall|i: int|
            0 <= i < 256 ==> (#[trigger] self.slots@[i] matches Some(c) ==> c.id == i && c@.wf())
    }

    /// Every registered challenge is filed under its own id and fits the cap.
    pub proof fn lemma_records_are_wf(&self)
        requires
            self.wf(),
        ensures
            forall|id: u8| #[trigger]
                self@.dom().contains(id) ==> self@[id].id == id && self@[id].wf(),
    {
        assert forall|id: u8| #[trigger] self@.dom().contains(id) implies self@[id].id == id
            && self@[id].wf() by {
            assert(self.slots@[id as int] is Some);
        }
    }

    /// The registry with no challenge in it.
    pub fn new() -> (registry: ChallengeRegistry)
        ensures
            registry.wf(),
            registry@ == Map::<u8, ChallengeView>::empty(),
    {
        let mut slots: Vec<Option<Challenge>> = Vec::new();
        while slots.len() < 256
            invariant
                slots@.len() <= 256,
                forall|i: int| 0 <= i < slots@.len() ==> slots@[i] is None,
            decreases 256 - slots@.len(),
        {
            slots.push(None);
        }
        let registry = ChallengeRegistry { slots };
        assert(registry@ =~= Map::<u8, ChallengeView>::empty());
        registry
    }

    /// Whether a challenge is registered under `id`.
    pub fn contains(&self, id: u8) -> (registered: bool)
        requires
            self.wf(),
        ensures
            registered == self@.dom().contains(id),
    {
        self.slots[id as usize].is_some()
    }

    /// The challenge registered under `id`, if there is one.
    pub fn get(&self, id: u8) -> (found: Option<&Challenge>)
        requires
            self.wf(),
        ensures
            match found {
                Some(challenge) => self@.dom().contains(id) && self@[id] == challenge@
                    && challenge.id == id && challenge@.wf(),
                None => !self@.dom().contains(id),
            },
    {
        self.slots[id as usize].as_ref()
    }

    /// Registers challenge `id` with the given descriptor. Fails with
    /// `ChallengeAlreadyExists` if a record for `id` is present, else with
    /// `DescriptorTooLong` if the descriptor is longer than 200 bytes; a
    /// failure leaves the registry as it was.
    pub fn register_challenge(&mut self, id: u8, descriptor_uri: String) -> (result: Result<
        (),
        ErrorCode,
    >)
        requires
            old(self).wf(),
        ensures
            final(self).wf(),
            match registration(old(self)@, id, descriptor_uri@) {
                Ok(registered) => result == Ok::<(), ErrorCode>(()) && final(self)@ == registered,
                Err(e) => result == Err::<(), ErrorCode>(e) && final(self)@ == old(self)@,
            },
    {
        if self.slots[id as usize].is_some() {
            return Err(ErrorCode::ChallengeAlreadyExists);
        }
        match Challenge::new(id, descriptor_uri) {
            Err(e) => Err(e),
            Ok(challenge) => {
                self.slots.set(id as usize, Some(challenge));
                assert(self@ =~= old(self)@.insert(
                    id,
                    ChallengeView { id, descriptor_uri: descriptor_uri@ },
                ));
                Ok(())
            },
        }
    }
}

} // verus!
