//! A crowdfunding ledger: campaign records at program-derived addresses,
//! donations that credit them, and withdrawals that only a campaign's admin
//! may make, never below the account's reserve nor below zero.

mod address;
mod campaign;
mod laws;
mod ledger;
mod program;

pub use address::{
    address_opt_view, campaign_seed, campaign_seed_spec, program_address_of, Address,
    CAMPAIGN_SEED_LEN,
};
pub use campaign::{
    record_fits, Campaign, CampaignView, CrowdfundError, RECORD_FIXED_BYTES, RECORD_SPACE,
};
pub use laws::{
    donate_all, lemma_admin_is_fixed, lemma_counter_cannot_go_negative,
    lemma_created_campaign_is_fresh, lemma_donate_then_withdraw, lemma_donations_add_up,
    lemma_only_admin_withdraws, lemma_second_create_fails, total,
};
pub use ledger::{
    campaign_opt_view, lemma_credit_keeps_solvent, Account, AccountView, Ledger, LedgerView,
};
pub use program::{
    after_create, after_donate, after_withdraw, campaign_address, create, create_at,
    create_at_check, create_check, donate, donate_check, id_result_view,
    lemma_create_keeps_solvent, lemma_donate_keeps_solvent, lemma_withdraw_keeps_solvent,
    new_campaign, withdraw, withdraw_check, Create, Donate, Withdraw,
};
