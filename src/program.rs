use vstd::prelude::*;
use vstd::utf8::encode_utf8;

use crate::address::{
    campaign_seed, campaign_seed_spec, find_program_address, program_address_of, Address,
};
use crate::campaign::{
    record_fits, Campaign, CampaignView, CrowdfundError, RECORD_FIXED_BYTES, RECORD_SPACE,
};
use crate::ledger::{Ledger, LedgerView};

verus! {

/// The accounts that `create` names: the signer who creates the campaign.
#[derive(Clone, Copy, Debug)]
pub struct Create {
    pub user: Address,
}

/// The accounts that `withdraw` names: the campaign, and the signer who asks
/// for the funds and receives them.
#[derive(Clone, Copy, Debug)]
pub struct Withdraw {
    pub campaign: Address,
    pub user: Address,
}

/// The accounts that `donate` names: the campaign, and the signer whose
/// balance pays the donation.
#[derive(Clone, Copy, Debug)]
pub struct Donate {
    pub campaign: Address,
    pub user: Address,
}

/// The address of the campaign that `creator` may hold in the ledger `v`.
pub open spec fn campaign_address(v: LedgerView, creator: Seq<u8>) -> Option<Seq<u8>> {
    program_address_of(campaign_seed_spec(), creator, v.program_id)
}

/// A fresh record: the creator as admin, the texts as given, nothing donated.
pub open spec fn new_campaign(creator: Seq<u8>, name: Seq<char>, description: Seq<char>) -> CampaignView {
    CampaignView { admin: creator, name, description, amount_donated: 0 }
}

/// Whether a record for the given texts can be put at `id`, or why not.
pub open spec fn create_at_check(v: LedgerView, id: Seq<u8>, name: Seq<char>, description: Seq<char>) -> Result<
    (),
    CrowdfundError,
> {
    if v.record(id) is Some {
        Err(CrowdfundError::AlreadyExists)
    } else if !record_fits(encode_utf8(name).len(), encode_utf8(description).len()) {
        Err(CrowdfundError::RecordTooLarge)
    } else {
        Ok(())
    }
}

/// Where `create` puts the record, or why it refuses.
pub open spec fn create_check(
    v: LedgerView,
    creator: Seq<u8>,
    name: Seq<char>,
    description: Seq<char>,
) -> Result<Seq<u8>, CrowdfundError> {
    match campaign_address(v, creator) {
        None => Err(CrowdfundError::AddressUnavailable),
        Some(id) => match create_at_check(v, id, name, description) {
            Ok(_) => Ok(id),
            Err(e) => Err(e),
        },
    }
}

pub open spec fn after_create(
    v: LedgerView,
    id: Seq<u8>,
    creator: Seq<u8>,
    name: Seq<char>,
    description: Seq<char>,
) -> LedgerView {
    v.set_record(id, new_campaign(creator, name, description))
}

/// Whether `donate` goes through, or why it refuses.
pub open spec fn donate_check(v: LedgerView, campaign: Seq<u8>, donor: Seq<u8>, amount: nat) -> Result<
    (),
    CrowdfundError,
> {
    if v.record(campaign) is None {
        Err(CrowdfundError::CampaignNotFound)
    } else if v.record(donor) is Some {
        Err(CrowdfundError::TransferFailed)
    } else if v.lamports(donor) < amount {
        Err(CrowdfundError::InsufficientDonorFunds)
    } else if v.lamports(campaign) + amount > u64::MAX || v.record(campaign)->Some_0.amount_donated
        + amount > u64::MAX {
        Err(CrowdfundError::ArithmeticOverflow)
    } else {
        Ok(())
    }
}

/// The ledger after `amount` moved from `donor` to `campaign` and was counted.
pub open spec fn after_donate(v: LedgerView, campaign: Seq<u8>, donor: Seq<u8>, amount: nat) -> LedgerView {
    let c = v.record(campaign)->Some_0;
    v.set_lamports(donor, (v.lamports(donor) - amount) as nat).set_lamports(
        campaign,
        v.lamports(campaign) + amount,
    ).set_record(campaign, c.with_donated(c.amount_donated + amount))
}

/// Whether `withdraw` goes through, or why it refuses. `reserve` is the
/// balance the campaign's account must keep for its own upkeep.
pub open spec fn withdraw_check(
    v: LedgerView,
    campaign: Seq<u8>,
    requester: Seq<u8>,
    amount: nat,
    reserve: nat,
) -> Result<(), CrowdfundError> {
    if v.record(campaign) is None {
        Err(CrowdfundError::CampaignNotFound)
    } else if v.record(campaign)->Some_0.admin != requester {
        Err(CrowdfundError::Unauthorized)
    } else if v.lamports(campaign) < reserve + amount {
        Err(CrowdfundError::InsufficientFunds)
    } else if v.record(campaign)->Some_0.amount_donated < amount {
        Err(CrowdfundError::ArithmeticUnderflow)
    } else if requester != campaign && v.lamports(requester) + amount > u64::MAX {
        Err(CrowdfundError::ArithmeticOverflow)
    } else {
        Ok(())
    }
}

/// The ledger after `amount` moved from `campaign` to `requester` and was
/// taken off the counter.
pub open spec fn after_withdraw(v: LedgerView, campaign: Seq<u8>, requester: Seq<u8>, amount: nat) -> LedgerView {
    let c = v.record(campaign)->Some_0;
    let debited = v.set_lamports(campaign, (v.lamports(campaign) - amount) as nat);
    debited.set_lamports(requester, debited.lamports(requester) + amount).set_record(
        campaign,
        c.with_donated((c.amount_donated - amount) as nat),
    )
}

pub open spec fn id_result_view(r: Result<Address, CrowdfundError>) -> Result<Seq<u8>, CrowdfundError> {
    match r {
        Ok(id) => Ok(id@),
        Err(e) => Err(e),
    }
}

/// Creating a record keeps every campaign solvent.
pub proof fn lemma_create_keeps_solvent(
    v: LedgerView,
    id: Seq<u8>,
    creator: Seq<u8>,
    name: Seq<char>,
    description: Seq<char>,
)
    requires
        v.solvent(),
        create_at_check(v, id, name, description) is Ok,
    ensures
        after_create(v, id, creator, name, description).solvent(),
{
    let w = after_create(v, id, creator, name, description);
    assert forall|k: Seq<u8>| #[trigger] w.accounts.contains_key(k) && w.accounts[k].campaign is Some implies
        w.accounts[k].campaign->Some_0.amount_donated <= w.accounts[k].lamports by {
        if k != id {
            assert(v.accounts[k] == w.accounts[k]);
        }
    }
}

/// A donation that goes through keeps every campaign solvent.
pub proof fn lemma_donate_keeps_solvent(v: LedgerView, campaign: Seq<u8>, donor: Seq<u8>, amount: nat)
    requires
        v.solvent(),
        donate_check(v, campaign, donor, amount) is Ok,
    ensures
        after_donate(v, campaign, donor, amount).solvent(),
{
    let w = after_donate(v, campaign, donor, amount);
    assert forall|k: Seq<u8>| #[trigger] w.accounts.contains_key(k) && w.accounts[k].campaign is Some implies
        w.accounts[k].campaign->Some_0.amount_donated <= w.accounts[k].lamports by {
        if k == campaign {
            if v.accounts.contains_key(campaign) {
                assert(v.accounts[campaign] == v.accounts[campaign]);
            }
        } else if k != donor {
            assert(v.accounts[k] == w.accounts[k]);
        }
    }
}

/// A withdrawal that goes through keeps every campaign solvent.
pub proof fn lemma_withdraw_keeps_solvent(
    v: LedgerView,
    campaign: Seq<u8>,
    requester: Seq<u8>,
    amount: nat,
    reserve: nat,
)
    requires
        v.solvent(),
        withdraw_check(v, campaign, requester, amount, reserve) is Ok,
    ensures
        after_withdraw(v, campaign, requester, amount).solvent(),
{
    let w = after_withdraw(v, campaign, requester, amount);
    assert forall|k: Seq<u8>| #[trigger] w.accounts.contains_key(k) && w.accounts[k].campaign is Some implies
        w.accounts[k].campaign->Some_0.amount_donated <= w.accounts[k].lamports by {
        if k == campaign {
            if v.accounts.contains_key(campaign) {
                assert(v.accounts[campaign] == v.accounts[campaign]);
            }
        } else if k != requester {
            assert(v.accounts[k] == w.accounts[k]);
        } else if v.accounts.contains_key(k) {
            assert(v.accounts[k] == v.accounts[k]);
        }
    }
}

/// Puts a fresh record for `creator` with the given texts at `id`: the
/// creator as admin, nothing donated. No funds move.
pub fn create_at(
    ledger: &mut Ledger,
    id: &Address,
    creator: &Address,
    name: String,
    description: String,
) -> (r: Result<(), CrowdfundError>)
    requires
        old(ledger).wf(),
    ensures
        final(ledger).wf(),
        r == create_at_check(old(ledger)@, id@, name@, description@),
        final(ledger)@ == (if r is Ok {
            after_create(old(ledger)@, id@, creator@, name@, description@)
        } else {
            old(ledger)@
        }),
{
    if ledger.campaign(id).is_some() {
        return Err(CrowdfundError::AlreadyExists);
    }
    let name_len = name.as_str().as_bytes().len();
    let description_len = description.as_str().as_bytes().len();
    if name_len > RECORD_SPACE - RECORD_FIXED_BYTES || description_len > RECORD_SPACE
        - RECORD_FIXED_BYTES - name_len {
        return Err(CrowdfundError::RecordTooLarge);
    }
    proof {
        lemma_create_keeps_solvent(old(ledger)@, id@, creator@, name@, description@);
    }
    ledger.put_record(id, Campaign { admin: *creator, name, description, amount_donated: 0 });
    Ok(())
}

/// Creates the campaign of `ctx.user` at the address derived from the
/// namespace tag and the creator's key. A creator holds at most one.
pub fn create(ledger: &mut Ledger, ctx: &Create, name: String, description: String) -> (r: Result<
    Address,
    CrowdfundError,
>)
    requires
        old(ledger).wf(),
    ensures
        final(ledger).wf(),
        id_result_view(r) == create_check(old(ledger)@, ctx.user@, name@, description@),
        final(ledger)@ == (match r {
            Ok(id) => after_create(old(ledger)@, id@, ctx.user@, name@, description@),
            Err(_) => old(ledger)@,
        }),
{
    let seed = campaign_seed();
    let program_id = ledger.program_id();
    let id = match find_program_address(&seed, &ctx.user, &program_id) {
        Some(id) => id,
        None => return Err(CrowdfundError::AddressUnavailable),
    };
    match create_at(ledger, &id, &ctx.user, name, description) {
        Ok(()) => Ok(id),
        Err(e) => Err(e),
    }
}

/// Moves `amount` from the donor's balance to the campaign's and adds it to
/// the campaign's counter, both or neither. Anyone may donate.
pub fn donate(ledger: &mut Ledger, ctx: &Donate, amount: u64) -> (r: Result<(), CrowdfundError>)
    requires
        old(ledger).wf(),
    ensures
        final(ledger).wf(),
        r == donate_check(old(ledger)@, ctx.campaign@, ctx.user@, amount as nat),
        final(ledger)@ == (if r is Ok {
            after_donate(old(ledger)@, ctx.campaign@, ctx.user@, amount as nat)
        } else {
            old(ledger)@
        }),
{
    let donated = match ledger.campaign(&ctx.campaign) {
        Some(c) => c.amount_donated,
        None => return Err(CrowdfundError::CampaignNotFound),
    };
    if ledger.campaign(&ctx.user).is_some() {
        return Err(CrowdfundError::TransferFailed);
    }
    let donor_balance = ledger.lamports(&ctx.user);
    if donor_balance < amount {
        return Err(CrowdfundError::InsufficientDonorFunds);
    }
    let campaign_balance = ledger.lamports(&ctx.campaign);
    let new_balance = match campaign_balance.checked_add(amount) {
        Some(b) => b,
        None => return Err(CrowdfundError::ArithmeticOverflow),
    };
    let new_donated = match donated.checked_add(amount) {
        Some(d) => d,
        None => return Err(CrowdfundError::ArithmeticOverflow),
    };
    proof {
        lemma_donate_keeps_solvent(old(ledger)@, ctx.campaign@, ctx.user@, amount as nat);
    }
    ledger.set_lamports(&ctx.user, donor_balance - amount);
    ledger.set_lamports(&ctx.campaign, new_balance);
    ledger.set_donated(&ctx.campaign, new_donated);
    Ok(())
}

/// Moves `amount` from the campaign's balance to its admin's and takes it
/// off the campaign's counter, both or neither. Only the admin may
/// withdraw; the campaign keeps `reserve` for its upkeep, and the counter
/// never goes below zero.
pub fn withdraw(ledger: &mut Ledger, ctx: &Withdraw, amount: u64, reserve: u64) -> (r: Result<
    (),
    CrowdfundError,
>)
    requires
        old(ledger).wf(),
    ensures
        final(ledger).wf(),
        r == withdraw_check(old(ledger)@, ctx.campaign@, ctx.user@, amount as nat, reserve as nat),
        final(ledger)@ == (if r is Ok {
            after_withdraw(old(ledger)@, ctx.campaign@, ctx.user@, amount as nat)
        } else {
            old(ledger)@
        }),
{
    let (admin, donated) = match ledger.campaign(&ctx.campaign) {
        Some(c) => (c.admin, c.amount_donated),
        None => return Err(CrowdfundError::CampaignNotFound),
    };
    if !admin.same(&ctx.user) {
        return Err(CrowdfundError::Unauthorized);
    }
    let campaign_balance = ledger.lamports(&ctx.campaign);
    if campaign_balance < reserve || campaign_balance - reserve < amount {
        return Err(CrowdfundError::InsufficientFunds);
    }
    if donated < amount {
        return Err(CrowdfundError::ArithmeticUnderflow);
    }
    let same_account = ctx.user.same(&ctx.campaign);
    if !same_account && ledger.lamports(&ctx.user) > u64::MAX - amount {
        return Err(CrowdfundError::ArithmeticOverflow);
    }
    proof {
        lemma_withdraw_keeps_solvent(old(ledger)@, ctx.campaign@, ctx.user@, amount as nat, reserve as nat);
    }
    ledger.set_lamports(&ctx.campaign, campaign_balance - amount);
    let requester_balance = ledger.lamports(&ctx.user);
    ledger.set_lamports(&ctx.user, requester_balance + amount);
    ledger.set_donated(&ctx.campaign, donated - amount);
    Ok(())
}

} // verus!
