use vstd::prelude::*;

verus! {

/// Length of the namespace tag that campaign addresses are derived from.
pub const CAMPAIGN_SEED_LEN: usize = 13;

/// A 32-byte account identity: a signer's public key or a derived address.
#[derive(Clone, Copy, Debug)]
pub struct Address {
    pub bytes: [u8; 32],
}

impl View for Address {
    type V = Seq<u8>;

    open spec fn view(&self) -> Seq<u8> {
        self.bytes@
    }
}

impl Address {
    pub fn new(bytes: [u8; 32]) -> (r: Address)
        ensures
            r@ == bytes@,
    {
        Address { bytes }
    }

    /// Byte-wise comparison of two identities.
    pub fn same(&self, other: &Address) -> (r: bool)
        ensures
            r == (self@ == other@),
    {
        let mut i: usize = 0;
        while i < 32
            invariant
                i <= 32,
                forall|j: int| 0 <= j < i ==> self@[j] == other@[j],
            decreases 32 - i,
        {
            if self.bytes[i] != other.bytes[i] {
                assert(self@[i as int] != other@[i as int]);
                return false;
            }
            i += 1;
        }
        assert(self@ =~= other@);
        true
    }
}

impl PartialEq for Address {
    fn eq(&self, other: &Address) -> (r: bool) {
        self.same(other)
    }
}

impl vstd::std_specs::cmp::PartialEqSpecImpl for Address {
    open spec fn obeys_eq_spec() -> bool {
        true
    }

    open spec fn eq_spec(&self, other: &Address) -> bool {
        self@ == other@
    }
}

/// The namespace tag under which a creator's campaign address is derived.
pub open spec fn campaign_seed_spec() -> Seq<u8> {
    seq![67u8, 65, 77, 80, 65, 73, 71, 78, 95, 68, 69, 77, 79]
}

/// The bytes of `CAMPAIGN_DEMO`.
pub fn campaign_seed() -> (r: [u8; CAMPAIGN_SEED_LEN])
    ensures
        r@ == campaign_seed_spec(),
{
    let r: [u8; CAMPAIGN_SEED_LEN] = [67, 65, 77, 80, 65, 73, 71, 78, 95, 68, 69, 77, 79];
    assert(r@ =~= campaign_seed_spec());
    r
}

/// The program-derived address for the seeds `[tag, owner]` under the
/// program `program_id`, or `None` where no bump seed yields one.
pub uninterp spec fn program_address_of(tag: Seq<u8>, owner: Seq<u8>, program_id: Seq<u8>) -> Option<Seq<u8>>;

pub open spec fn address_opt_view(a: Option<Address>) -> Option<Seq<u8>> {
    match a {
        Some(x) => Some(x@),
        None => None,
    }
}

/// Relies on `Pubkey::try_find_program_address` (solana-address): the first
/// off-curve address that SHA-256 gives over the seeds, a bump seed, the
/// program id and the PDA marker, trying bumps from 255 down; `None` when no
/// bump works or a seed is longer than 32 bytes. The bump is dropped.
#[verifier::external_body]
pub(crate) fn find_program_address(tag: &[u8], owner: &Address, program_id: &Address) -> (r: Option<Address>)
    ensures
        address_opt_view(r) == program_address_of(tag@, owner@, program_id@),
{
    let program = anchor_lang::prelude::Pubkey::new_from_array(program_id.bytes);
    anchor_lang::prelude::Pubkey::try_find_program_address(&[tag, &owner.bytes[..]], &program)
        .map(|found| Address { bytes: found.0.to_bytes() })
}

} // verus!
