use vstd::prelude::*;

use crate::address::Address;

verus! {

/// Bytes reserved for a campaign record's account.
pub const RECORD_SPACE: usize = 9000;

/// Bytes of a stored record besides its two texts: an 8-byte type tag, the
/// admin key, two 4-byte length prefixes and the 8-byte counter.
pub const RECORD_FIXED_BYTES: usize = 56;

/// One funding effort, stored at the address derived from its creator.
#[derive(Debug)]
pub struct Campaign {
    pub admin: Address,
    pub name: String,
    pub description: String,
    pub amount_donated: u64,
}

/// What a campaign record holds, as mathematical values.
pub struct CampaignView {
    pub admin: Seq<u8>,
    pub name: Seq<char>,
    pub description: Seq<char>,
    pub amount_donated: nat,
}

impl CampaignView {
    pub open spec fn with_donated(self, amount: nat) -> CampaignView {
        CampaignView { amount_donated: amount, ..self }
    }
}

impl View for Campaign {
    type V = CampaignView;

    open spec fn view(&self) -> CampaignView {
        CampaignView {
            admin: self.admin@,
            name: self.name@,
            description: self.description@,
            amount_donated: self.amount_donated as nat,
        }
    }
}

/// Whether a record with texts of these byte lengths fits its account.
pub open spec fn record_fits(name_len: nat, description_len: nat) -> bool {
    RECORD_FIXED_BYTES + name_len + description_len <= RECORD_SPACE
}

/// Why an operation on the ledger was rejected. Every rejection leaves the
/// ledger as it was.
#[derive(Clone, Copy, Debug, PartialEq, Eq, Structural)]
pub enum CrowdfundError {
    /// A campaign record already stands at the derived address.
    AlreadyExists,
    /// No campaign record stands at the given address.
    CampaignNotFound,
    /// The requester is not the campaign's admin.
    Unauthorized,
    /// The campaign's balance less its reserve does not cover the amount.
    InsufficientFunds,
    /// The donor's balance does not cover the amount.
    InsufficientDonorFunds,
    /// A balance or counter would pass `u64::MAX`.
    ArithmeticOverflow,
    /// The donation counter would go below zero.
    ArithmeticUnderflow,
    /// The record's texts do not fit the space reserved for it.
    RecordTooLarge,
    /// No program-derived address exists for the creator.
    AddressUnavailable,
    /// The fund transfer itself was refused: its source holds a campaign
    /// record. This failure is fatal to the whole instruction.
    TransferFailed,
}

} // verus!
