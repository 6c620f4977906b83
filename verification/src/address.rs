//! Deterministic addressing of ledger resources.

use vstd::prelude::*;
use anchor_lang::prelude::Pubkey;

verus! {

/// The namespace tag under which reward resources are addressed: the bytes
/// of `reward_mint`.
pub const REWARD_MINT_SEED: [u8; 11] = [114, 101, 119, 97, 114, 100, 95, 109, 105, 110, 116];

/// The longest seed that the host derives an address from, in bytes.
pub const MAX_SEED_LEN: usize = 32;

/// A 32-byte identity on the ledger: a principal's public key or the address
/// of a resource.
#[derive(Clone, Copy, Debug, PartialEq, Eq)]
pub struct Address {
    pub bytes: [u8; 32],
}

impl View for Address {
    type V = Seq<u8>;

    open spec fn view(&self) -> Seq<u8> {
        self.bytes@
    }
}

impl Address {
    /// Whether the two addresses hold the same 32 bytes.
    pub fn same_as(&self, other: &Address) -> (same: bool)
        ensures
            same == (self@ == other@),
    {
        let mut i: usize = 0;
        while i < 32
            invariant
                i <= 32,
                forall|k: int| 0 <= k < i ==> self.bytes@[k] == other.bytes@[k],
            decreases 32 - i,
        {
            if self.bytes[i] != other.bytes[i] {
                return false;
            }
            i = i + 1;
        }
        assert(self@ =~= other@);
        true
    }
}

/// A derived resource address together with the bump that lets the deriving
/// program act as that address without holding a private key.
#[derive(Clone, Copy, Debug, PartialEq, Eq)]
pub struct DerivedAddress {
    pub address: Address,
    pub bump: u8,
}

impl View for DerivedAddress {
    type V = (Seq<u8>, u8);

    open spec fn view(&self) -> (Seq<u8>, u8) {
        (self.address@, self.bump)
    }
}

/// The outcome of a derivation as a mathematical value.
pub open spec fn derived_view(found: Option<DerivedAddress>) -> Option<(Seq<u8>, u8)> {
    match found {
        Some(derived) => Some(derived@),
        None => None,
    }
}

/// What the ledger host derives for the seeds `[tag, authority,
/// [challenge_id]]` under `program_id`: the address and its bump, or `None`
/// where no bump gives a valid address.
pub uninterp spec fn program_address(
    tag: Seq<u8>,
    authority: Seq<u8>,
    challenge_id: u8,
    program_id: Seq<u8>,
) -> Option<(Seq<u8>, u8)>;

/// Calls `Pubkey::try_find_program_address` with the seeds `[tag, authority,
/// [challenge_id]]`. Believed of it, not proved: the call hashes its
/// arguments and nothing else, so its result is the same for the same
/// arguments; and it returns `None`, rather than panic, where no bump is
/// found or a seed is longer than 32 bytes.
#[verifier::external_body]
fn find_program_address(
    tag: &[u8],
    authority: &[u8; 32],
    challenge_id: u8,
    program_id: &[u8; 32],
) -> (found: Option<([u8; 32], u8)>)
    ensures
        match found {
            Some((address, bump)) => program_address(tag@, authority@, challenge_id, program_id@)
                == Some((address@, bump)),
            None => program_address(tag@, authority@, challenge_id, program_id@) is None,
        },
        tag@.len() > MAX_SEED_LEN ==> found is None,
{
    let id = [challenge_id];
    let program = Pubkey::new_from_array(*program_id);
    match Pubkey::try_find_program_address(&[tag, authority.as_slice(), id.as_slice()], &program) {
        Some((address, bump)) => Some((address.to_bytes(), bump)),
        None => None,
    }
}

/// Derives resource addresses on behalf of one program.
#[derive(Clone, Copy, Debug, PartialEq, Eq)]
pub struct AddressDeriver {
    pub program_id: Address,
}

impl AddressDeriver {
    /// What `derive` yields for the given inputs, as views.
    pub open spec fn derived(
        self,
        tag: Seq<u8>,
        authority: Seq<u8>,
        challenge_id: u8,
    ) -> Option<(Seq<u8>, u8)> {
        program_address(tag, authority, challenge_id, self.program_id@)
    }

    /// The address of the resource that `tag`, `authority` and `challenge_id`
    /// name, with its bump. The result depends on these inputs and the
    /// program id alone: equal inputs give equal addresses.
    pub fn derive(&self, tag: &[u8], authority: &Address, challenge_id: u8) -> (found: Option<
        DerivedAddress,
    >)
        ensures
            derived_view(found) == self.derived(tag@, authority@, challenge_id),
            tag@.len() > MAX_SEED_LEN ==> found is None,
    {
        match find_program_address(tag, &authority.bytes, challenge_id, &self.program_id.bytes) {
            Some((bytes, bump)) => Some(DerivedAddress { address: Address { bytes }, bump }),
            None => None,
        }
    }
}

} // verus!
