use anchor_lang::prelude::Pubkey;
use cloud_funding::{
    campaign_seed, create, create_at, donate, withdraw, Address, Create, CrowdfundError, Donate,
    Ledger, Withdraw, RECORD_FIXED_BYTES, RECORD_SPACE,
};

const RESERVE: u64 = 63_530_880;

fn program() -> Address {
    Address::new([7u8; 32])
}

fn alice() -> Address {
    Address::new([1u8; 32])
}

fn bob() -> Address {
    Address::new([2u8; 32])
}

fn new_campaign(ledger: &mut Ledger, creator: Address) -> Address {
    create(
        ledger,
        &Create { user: creator },
        String::from("Clean water"),
        String::from("Wells for the village"),
    )
    .unwrap()
}

fn donated(ledger: &Ledger, campaign: &Address) -> u64 {
    ledger.campaign(campaign).unwrap().amount_donated
}

#[test]
fn campaign_address_is_the_program_derived_address() {
    let mut ledger = Ledger::new(program());
    let id = new_campaign(&mut ledger, alice());
    let program_key = Pubkey::new_from_array([7u8; 32]);
    let (expected, _bump) =
        Pubkey::find_program_address(&[b"CAMPAIGN_DEMO".as_ref(), &[1u8; 32]], &program_key);
    assert_eq!(id.bytes, expected.to_bytes());
    assert_ne!(id, alice());
    assert_ne!(id, program());
}

#[test]
fn campaign_seed_is_the_namespace_tag() {
    assert_eq!(&campaign_seed()[..], b"CAMPAIGN_DEMO");
}

#[test]
fn creators_get_distinct_campaigns() {
    let mut ledger = Ledger::new(program());
    let a = new_campaign(&mut ledger, alice());
    let b = new_campaign(&mut ledger, bob());
    assert_ne!(a, b);
    let mut other = Ledger::new(program());
    assert_eq!(new_campaign(&mut other, alice()), a);
}

#[test]
fn created_campaign_starts_empty() {
    let mut ledger = Ledger::new(program());
    let id = new_campaign(&mut ledger, alice());
    let c = ledger.campaign(&id).unwrap();
    assert_eq!(c.amount_donated, 0);
    assert_eq!(c.admin, alice());
    assert_eq!(c.name, "Clean water");
    assert_eq!(c.description, "Wells for the village");
    assert_eq!(ledger.lamports(&id), 0);
}

#[test]
fn second_create_fails_with_already_exists() {
    let mut ledger = Ledger::new(program());
    let id = new_campaign(&mut ledger, alice());
    ledger.deposit(&bob(), 100).unwrap();
    donate(&mut ledger, &Donate { campaign: id, user: bob() }, 40).unwrap();
    let again = create(
        &mut ledger,
        &Create { user: alice() },
        String::from("Other"),
        String::from("Other text"),
    );
    assert_eq!(again.unwrap_err(), CrowdfundError::AlreadyExists);
    let c = ledger.campaign(&id).unwrap();
    assert_eq!(c.name, "Clean water");
    assert_eq!(c.amount_donated, 40);
    assert_eq!(c.admin, alice());
}

#[test]
fn donations_add_up() {
    let mut ledger = Ledger::new(program());
    let id = new_campaign(&mut ledger, alice());
    ledger.deposit(&bob(), 1_000).unwrap();
    let amounts: [u64; 5] = [0, 5, 10, 100, 7];
    for amount in amounts {
        donate(&mut ledger, &Donate { campaign: id, user: bob() }, amount).unwrap();
    }
    assert_eq!(donated(&ledger, &id), 122);
    assert_eq!(ledger.lamports(&id), 122);
    assert_eq!(ledger.lamports(&bob()), 878);
}

#[test]
fn zero_donation_is_valid() {
    let mut ledger = Ledger::new(program());
    let id = new_campaign(&mut ledger, alice());
    assert_eq!(donate(&mut ledger, &Donate { campaign: id, user: bob() }, 0), Ok(()));
    assert_eq!(donated(&ledger, &id), 0);
    assert_eq!(ledger.lamports(&bob()), 0);
}

#[test]
fn withdraw_by_other_than_admin_is_unauthorized() {
    let mut ledger = Ledger::new(program());
    let id = new_campaign(&mut ledger, alice());
    ledger.deposit(&bob(), 500).unwrap();
    donate(&mut ledger, &Donate { campaign: id, user: bob() }, 500).unwrap();
    ledger.deposit(&id, RESERVE).unwrap();
    let r = withdraw(&mut ledger, &Withdraw { campaign: id, user: bob() }, 1, RESERVE);
    assert_eq!(r, Err(CrowdfundError::Unauthorized));
    assert_eq!(donated(&ledger, &id), 500);
    assert_eq!(ledger.lamports(&id), 500 + RESERVE);
    assert_eq!(ledger.lamports(&bob()), 0);
}

#[test]
fn withdraw_beyond_counter_underflows_even_when_balance_covers() {
    let mut ledger = Ledger::new(program());
    let id = new_campaign(&mut ledger, alice());
    ledger.deposit(&bob(), 100).unwrap();
    donate(&mut ledger, &Donate { campaign: id, user: bob() }, 100).unwrap();
    ledger.deposit(&id, RESERVE + 1_000).unwrap();
    let r = withdraw(&mut ledger, &Withdraw { campaign: id, user: alice() }, 101, RESERVE);
    assert_eq!(r, Err(CrowdfundError::ArithmeticUnderflow));
    assert_eq!(donated(&ledger, &id), 100);
    assert_eq!(ledger.lamports(&id), RESERVE + 1_100);
    assert_eq!(ledger.lamports(&alice()), 0);
}

#[test]
fn donate_then_withdraw_restores_counter() {
    let mut ledger = Ledger::new(program());
    let id = new_campaign(&mut ledger, alice());
    ledger.deposit(&bob(), 1_000).unwrap();
    ledger.deposit(&id, RESERVE).unwrap();
    donate(&mut ledger, &Donate { campaign: id, user: bob() }, 300).unwrap();
    let before = donated(&ledger, &id);
    donate(&mut ledger, &Donate { campaign: id, user: bob() }, 250).unwrap();
    assert_eq!(donated(&ledger, &id), before + 250);
    withdraw(&mut ledger, &Withdraw { campaign: id, user: alice() }, 250, RESERVE).unwrap();
    assert_eq!(donated(&ledger, &id), before);
    assert_eq!(ledger.lamports(&alice()), 250);
}

#[test]
fn donate_withdraw_scenario() {
    let mut ledger = Ledger::new(program());
    let c = new_campaign(&mut ledger, alice());
    ledger.deposit(&bob(), 500).unwrap();
    assert_eq!(donate(&mut ledger, &Donate { campaign: c, user: bob() }, 500), Ok(()));
    assert_eq!(donated(&ledger, &c), 500);
    ledger.deposit(&c, RESERVE).unwrap();
    assert_eq!(ledger.lamports(&c), 500 + RESERVE);
    assert_eq!(withdraw(&mut ledger, &Withdraw { campaign: c, user: alice() }, 500, RESERVE), Ok(()));
    assert_eq!(donated(&ledger, &c), 0);
    assert_eq!(ledger.lamports(&c), RESERVE);
    assert_eq!(ledger.lamports(&alice()), 500);
    assert_eq!(
        withdraw(&mut ledger, &Withdraw { campaign: c, user: alice() }, 1, RESERVE),
        Err(CrowdfundError::InsufficientFunds)
    );
    assert_eq!(donated(&ledger, &c), 0);
}

#[test]
fn withdraw_cannot_touch_reserve() {
    let mut ledger = Ledger::new(program());
    let c = new_campaign(&mut ledger, alice());
    ledger.deposit(&bob(), 500).unwrap();
    donate(&mut ledger, &Donate { campaign: c, user: bob() }, 500).unwrap();
    let r = withdraw(&mut ledger, &Withdraw { campaign: c, user: alice() }, 500, RESERVE);
    assert_eq!(r, Err(CrowdfundError::InsufficientFunds));
    assert_eq!(withdraw(&mut ledger, &Withdraw { campaign: c, user: alice() }, 500, 0), Ok(()));
    assert_eq!(ledger.lamports(&c), 0);
}

#[test]
fn donate_to_missing_campaign() {
    let mut ledger = Ledger::new(program());
    ledger.deposit(&bob(), 10).unwrap();
    let r = donate(&mut ledger, &Donate { campaign: alice(), user: bob() }, 5);
    assert_eq!(r, Err(CrowdfundError::CampaignNotFound));
    assert_eq!(ledger.lamports(&bob()), 10);
}

#[test]
fn withdraw_from_missing_campaign() {
    let mut ledger = Ledger::new(program());
    let r = withdraw(&mut ledger, &Withdraw { campaign: bob(), user: alice() }, 0, 0);
    assert_eq!(r, Err(CrowdfundError::CampaignNotFound));
}

#[test]
fn donor_without_funds() {
    let mut ledger = Ledger::new(program());
    let id = new_campaign(&mut ledger, alice());
    ledger.deposit(&bob(), 99).unwrap();
    let r = donate(&mut ledger, &Donate { campaign: id, user: bob() }, 100);
    assert_eq!(r, Err(CrowdfundError::InsufficientDonorFunds));
    assert_eq!(ledger.lamports(&bob()), 99);
    assert_eq!(donated(&ledger, &id), 0);
}

#[test]
fn donation_overflowing_campaign_balance() {
    let mut ledger = Ledger::new(program());
    let id = new_campaign(&mut ledger, alice());
    ledger.deposit(&id, u64::MAX).unwrap();
    ledger.deposit(&bob(), 1).unwrap();
    let r = donate(&mut ledger, &Donate { campaign: id, user: bob() }, 1);
    assert_eq!(r, Err(CrowdfundError::ArithmeticOverflow));
    assert_eq!(ledger.lamports(&bob()), 1);
    assert_eq!(donated(&ledger, &id), 0);
}

#[test]
fn withdraw_overflowing_admin_balance() {
    let mut ledger = Ledger::new(program());
    let id = new_campaign(&mut ledger, alice());
    ledger.deposit(&bob(), 10).unwrap();
    donate(&mut ledger, &Donate { campaign: id, user: bob() }, 10).unwrap();
    ledger.deposit(&alice(), u64::MAX - 5).unwrap();
    let r = withdraw(&mut ledger, &Withdraw { campaign: id, user: alice() }, 10, 0);
    assert_eq!(r, Err(CrowdfundError::ArithmeticOverflow));
    assert_eq!(donated(&ledger, &id), 10);
    assert_eq!(ledger.lamports(&id), 10);
}

#[test]
fn deposit_overflow() {
    let mut ledger = Ledger::new(program());
    ledger.deposit(&bob(), u64::MAX).unwrap();
    assert_eq!(ledger.deposit(&bob(), 1), Err(CrowdfundError::ArithmeticOverflow));
    assert_eq!(ledger.lamports(&bob()), u64::MAX);
}

#[test]
fn campaign_cannot_fund_a_donation() {
    let mut ledger = Ledger::new(program());
    let a = new_campaign(&mut ledger, alice());
    let b = new_campaign(&mut ledger, bob());
    ledger.deposit(&a, 50).unwrap();
    let r = donate(&mut ledger, &Donate { campaign: b, user: a }, 10);
    assert_eq!(r, Err(CrowdfundError::TransferFailed));
    let r = donate(&mut ledger, &Donate { campaign: a, user: a }, 10);
    assert_eq!(r, Err(CrowdfundError::TransferFailed));
    assert_eq!(ledger.lamports(&a), 50);
    assert_eq!(donated(&ledger, &a), 0);
}

#[test]
fn record_texts_must_fit() {
    let mut ledger = Ledger::new(program());
    let room = RECORD_SPACE - RECORD_FIXED_BYTES;
    let r = create(
        &mut ledger,
        &Create { user: alice() },
        "n".repeat(room - 10),
        "d".repeat(11),
    );
    assert_eq!(r, Err(CrowdfundError::RecordTooLarge));
    let r = create(&mut ledger, &Create { user: alice() }, "n".repeat(room - 10), "d".repeat(10));
    assert!(r.is_ok());
}

#[test]
fn record_size_counts_bytes() {
    let mut ledger = Ledger::new(program());
    let spot = Address::new([9u8; 32]);
    let room = RECORD_SPACE - RECORD_FIXED_BYTES;
    let wide = "\u{00e9}".repeat(room / 2 + 1);
    let r = create_at(&mut ledger, &spot, &alice(), wide, String::new());
    assert_eq!(r, Err(CrowdfundError::RecordTooLarge));
    assert!(ledger.campaign(&spot).is_none());
}

#[test]
fn create_at_places_record() {
    let mut ledger = Ledger::new(program());
    let spot = Address::new([9u8; 32]);
    ledger.deposit(&spot, 42).unwrap();
    assert_eq!(create_at(&mut ledger, &spot, &bob(), String::from("a"), String::from("b")), Ok(()));
    let c = ledger.campaign(&spot).unwrap();
    assert_eq!(c.admin, bob());
    assert_eq!(c.amount_donated, 0);
    assert_eq!(ledger.lamports(&spot), 42);
    assert_eq!(
        create_at(&mut ledger, &spot, &alice(), String::new(), String::new()),
        Err(CrowdfundError::AlreadyExists)
    );
    assert_eq!(ledger.campaign(&spot).unwrap().admin, bob());
}

#[test]
fn address_equality_is_bytewise() {
    let mut bytes = [1u8; 32];
    assert!(Address::new(bytes).same(&alice()));
    bytes[31] = 0;
    assert!(!Address::new(bytes).same(&alice()));
    assert_ne!(Address::new(bytes), alice());
    assert_eq!(ledger_program_id(), program());
}

fn ledger_program_id() -> Address {
    Ledger::new(program()).program_id()
}
