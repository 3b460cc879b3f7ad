use vstd::prelude::*;

use crate::campaign::CrowdfundError;
use crate::ledger::LedgerView;
use crate::program::{
    after_create, after_donate, after_withdraw, campaign_address, create_check, donate_check,
    new_campaign, withdraw_check,
};

verus! {

/// The sum of the amounts of a sequence of donations.
pub open spec fn total(donations: Seq<(Seq<u8>, nat)>) -> nat
    decreases donations.len(),
{
    if donations.len() == 0 {
        0
    } else {
        total(donations.drop_last()) + donations.last().1
    }
}

/// The ledger after each `(donor, amount)` of `donations` was given to
/// `campaign` in turn, or the first refusal.
pub open spec fn donate_all(v: LedgerView, campaign: Seq<u8>, donations: Seq<(Seq<u8>, nat)>) -> Result<
    LedgerView,
    CrowdfundError,
>
    decreases donations.len(),
{
    if donations.len() == 0 {
        Ok(v)
    } else {
        match donate_all(v, campaign, donations.drop_last()) {
            Ok(w) => {
                let (donor, amount) = donations.last();
                match donate_check(w, campaign, donor, amount) {
                    Ok(_) => Ok(after_donate(w, campaign, donor, amount)),
                    Err(e) => Err(e),
                }
            },
            Err(e) => Err(e),
        }
    }
}

/// A campaign that was just created has nothing donated and its creator as
/// admin.
pub proof fn lemma_created_campaign_is_fresh(
    v: LedgerView,
    creator: Seq<u8>,
    name: Seq<char>,
    description: Seq<char>,
)
    requires
        create_check(v, creator, name, description) is Ok,
    ensures
        ({
            let id = create_check(v, creator, name, description)->Ok_0;
            let c = after_create(v, id, creator, name, description).record(id);
            &&& c == Some(new_campaign(creator, name, description))
            &&& c->Some_0.amount_donated == 0
            &&& c->Some_0.admin == creator
        }),
{
}

/// Once a creator's campaign exists, creating another for the same creator
/// fails with `AlreadyExists`, whatever its texts; the failed call changes
/// nothing, so the first campaign stays as it was.
pub proof fn lemma_second_create_fails(
    v: LedgerView,
    creator: Seq<u8>,
    name: Seq<char>,
    description: Seq<char>,
    other_name: Seq<char>,
    other_description: Seq<char>,
)
    requires
        create_check(v, creator, name, description) is Ok,
    ensures
        ({
            let id = create_check(v, creator, name, description)->Ok_0;
            let w = after_create(v, id, creator, name, description);
            &&& campaign_address(w, creator) == Some(id)
            &&& create_check(w, creator, other_name, other_description) == Err::<Seq<u8>, CrowdfundError>(
                CrowdfundError::AlreadyExists,
            )
        }),
{
}

/// After a sequence of donations to one campaign that all went through,
/// the campaign's counter has grown by exactly their sum.
pub proof fn lemma_donations_add_up(v: LedgerView, campaign: Seq<u8>, donations: Seq<(Seq<u8>, nat)>)
    requires
        v.record(campaign) is Some,
        donate_all(v, campaign, donations) is Ok,
    ensures
        donate_all(v, campaign, donations)->Ok_0.record(campaign) is Some,
        donate_all(v, campaign, donations)->Ok_0.record(campaign)->Some_0.amount_donated
            == v.record(campaign)->Some_0.amount_donated + total(donations),
    decreases donations.len(),
{
    if donations.len() > 0 {
        lemma_donations_add_up(v, campaign, donations.drop_last());
    }
}

/// A withdrawal asked for by anyone but the campaign's admin fails with
/// `Unauthorized`, whatever the amount and balances.
pub proof fn lemma_only_admin_withdraws(
    v: LedgerView,
    campaign: Seq<u8>,
    requester: Seq<u8>,
    amount: nat,
    reserve: nat,
)
    requires
        v.record(campaign) is Some,
        v.record(campaign)->Some_0.admin != requester,
    ensures
        withdraw_check(v, campaign, requester, amount, reserve) == Err::<(), CrowdfundError>(
            CrowdfundError::Unauthorized,
        ),
{
}

/// A withdrawal by the admin of more than the counter holds fails with
/// `ArithmeticUnderflow`, even where the campaign's balance covers it.
pub proof fn lemma_counter_cannot_go_negative(v: LedgerView, campaign: Seq<u8>, amount: nat, reserve: nat)
    requires
        v.record(campaign) is Some,
        amount > v.record(campaign)->Some_0.amount_donated,
        v.lamports(campaign) >= reserve + amount,
    ensures
        withdraw_check(v, campaign, v.record(campaign)->Some_0.admin, amount, reserve) == Err::<
            (),
            CrowdfundError,
        >(CrowdfundError::ArithmeticUnderflow),
{
}

/// A donation followed by the admin's withdrawal of the same amount brings
/// the counter back to where it was, when the campaign held its reserve
/// before the donation and the admin's balance can take the amount.
pub proof fn lemma_donate_then_withdraw(
    v: LedgerView,
    campaign: Seq<u8>,
    donor: Seq<u8>,
    amount: nat,
    reserve: nat,
)
    requires
        donate_check(v, campaign, donor, amount) is Ok,
        v.lamports(campaign) >= reserve,
        ({
            let w = after_donate(v, campaign, donor, amount);
            let admin = v.record(campaign)->Some_0.admin;
            admin == campaign || w.lamports(admin) + amount <= u64::MAX
        }),
    ensures
        ({
            let w = after_donate(v, campaign, donor, amount);
            let admin = v.record(campaign)->Some_0.admin;
            &&& withdraw_check(w, campaign, admin, amount, reserve) is Ok
            &&& after_withdraw(w, campaign, admin, amount).record(campaign)->Some_0.amount_donated
                == v.record(campaign)->Some_0.amount_donated
        }),
{
}

/// Donations and withdrawals that go through leave every record's admin,
/// name and description as they were, and remove no record.
pub proof fn lemma_admin_is_fixed(
    v: LedgerView,
    campaign: Seq<u8>,
    sender: Seq<u8>,
    amount: nat,
    reserve: nat,
    key: Seq<u8>,
)
    requires
        v.record(key) is Some,
    ensures
        donate_check(v, campaign, sender, amount) is Ok ==> {
            let c = after_donate(v, campaign, sender, amount).record(key);
            &&& c is Some
            &&& c->Some_0.admin == v.record(key)->Some_0.admin
            &&& c->Some_0.name == v.record(key)->Some_0.name
            &&& c->Some_0.description == v.record(key)->Some_0.description
        },
        withdraw_check(v, campaign, sender, amount, reserve) is Ok ==> {
            let c = after_withdraw(v, campaign, sender, amount).record(key);
            &&& c is Some
            &&& c->Some_0.admin == v.record(key)->Some_0.admin
            &&& c->Some_0.name == v.record(key)->Some_0.name
            &&& c->Some_0.description == v.record(key)->Some_0.description
        },
{
}

} // verus!
