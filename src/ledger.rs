use vstd::prelude::*;

use crate::address::Address;
use crate::campaign::{Campaign, CampaignView, CrowdfundError};

verus! {

/// One account: its identity, its balance and, for a campaign, its record.
#[derive(Debug)]
pub struct Account {
    pub key: Address,
    pub lamports: u64,
    pub campaign: Option<Campaign>,
}

/// An account as mathematical values.
pub struct AccountView {
    pub lamports: nat,
    pub campaign: Option<CampaignView>,
}

pub open spec fn campaign_opt_view(c: Option<Campaign>) -> Option<CampaignView> {
    match c {
        Some(x) => Some(x@),
        None => None,
    }
}

impl View for Account {
    type V = AccountView;

    open spec fn view(&self) -> AccountView {
        AccountView { lamports: self.lamports as nat, campaign: campaign_opt_view(self.campaign) }
    }
}

/// The ledger as mathematical values: the program whose campaigns it holds
/// and every account it has seen. An account it has not seen is empty.
pub struct LedgerView {
    pub program_id: Seq<u8>,
    pub accounts: Map<Seq<u8>, AccountView>,
}

impl LedgerView {
    pub open spec fn account(self, key: Seq<u8>) -> AccountView {
        if self.accounts.contains_key(key) {
            self.accounts[key]
        } else {
            AccountView { lamports: 0, campaign: None }
        }
    }

    /// The custodial balance held at `key`.
    pub open spec fn lamports(self, key: Seq<u8>) -> nat {
        self.account(key).lamports
    }

    /// The campaign record stored at `key`, if any.
    pub open spec fn record(self, key: Seq<u8>) -> Option<CampaignView> {
        self.account(key).campaign
    }

    pub open spec fn set_lamports(self, key: Seq<u8>, value: nat) -> LedgerView {
        LedgerView {
            accounts: self.accounts.insert(key, AccountView { lamports: value, ..self.account(key) }),
            ..self
        }
    }

    pub open spec fn set_record(self, key: Seq<u8>, c: CampaignView) -> LedgerView {
        LedgerView {
            accounts: self.accounts.insert(key, AccountView { campaign: Some(c), ..self.account(key) }),
            ..self
        }
    }

    /// No campaign has recorded more donations than its account holds.
    pub open spec fn solvent(self) -> bool {
        forall|key: Seq<u8>|
            #![trigger self.accounts[key]]
            self.accounts.contains_key(key) && self.accounts[key].campaign is Some
                ==> self.accounts[key].campaign->Some_0.amount_donated <= self.accounts[key].lamports
    }
}

/// Raising a balance keeps every campaign solvent.
pub proof fn lemma_credit_keeps_solvent(v: LedgerView, key: Seq<u8>, value: nat)
    requires
        v.solvent(),
        value >= v.lamports(key),
    ensures
        v.set_lamports(key, value).solvent(),
{
    let w = v.set_lamports(key, value);
    assert forall|k: Seq<u8>| #[trigger] w.accounts.contains_key(k) && w.accounts[k].campaign is Some implies
        w.accounts[k].campaign->Some_0.amount_donated <= w.accounts[k].lamports by {
        if k != key {
            assert(v.accounts[k] == w.accounts[k]);
        }
    }
}

/// The store of accounts that the campaign operations read and change.
pub struct Ledger {
    program_id: Address,
    accounts: Vec<Account>,
    model: Ghost<Map<Seq<u8>, AccountView>>,
}

impl View for Ledger {
    type V = LedgerView;

    closed spec fn view(&self) -> LedgerView {
        LedgerView { program_id: self.program_id@, accounts: self.model@ }
    }
}

impl Ledger {
    /// The entries match the model one for one, keyed without repetition.
    pub closed spec fn store_wf(&self) -> bool {
        &&& forall|i: int|
            #![trigger self.accounts@[i]]
            0 <= i < self.accounts@.len() ==> {
                &&& self.model@.contains_key(self.accounts@[i].key@)
                &&& self.model@[self.accounts@[i].key@] == self.accounts@[i]@
            }
        &&& forall|key: Seq<u8>|
            #![trigger self.model@.contains_key(key)]
            self.model@.contains_key(key) ==> exists|i: int|
                0 <= i < self.accounts@.len() && #[trigger] self.accounts@[i].key@ == key
        &&& forall|i: int, j: int|
            0 <= i < self.accounts@.len() && 0 <= j < self.accounts@.len() && i != j
                ==> #[trigger] self.accounts@[i].key@ != #[trigger] self.accounts@[j].key@
    }

    pub open spec fn wf(&self) -> bool {
        self.store_wf() && self@.solvent()
    }

    /// An empty ledger for the program `program_id`.
    pub fn new(program_id: Address) -> (r: Ledger)
        ensures
            r.wf(),
            r@.program_id == program_id@,
            r@.accounts == Map::<Seq<u8>, AccountView>::empty(),
    {
        Ledger { program_id, accounts: Vec::new(), model: Ghost(Map::empty()) }
    }

    pub fn program_id(&self) -> (r: Address)
        ensures
            r@ == self@.program_id,
    {
        self.program_id
    }

    /// The index of the entry keyed `key`, if the ledger has one.
    fn find(&self, key: &Address) -> (r: Option<usize>)
        requires
            self.store_wf(),
        ensures
            match r {
                Some(i) => i < self.accounts@.len() && self.accounts@[i as int].key@ == key@,
                None => !self.model@.contains_key(key@),
            },
    {
        let mut i: usize = 0;
        while i < self.accounts.len()
            invariant
                self.store_wf(),
                i <= self.accounts@.len(),
                forall|j: int| 0 <= j < i ==> self.accounts@[j].key@ != key@,
            decreases self.accounts@.len() - i,
        {
            if self.accounts[i].key.same(key) {
                return Some(i);
            }
            i += 1;
        }
        proof {
            if self.model@.contains_key(key@) {
                let j = choose|j: int| 0 <= j < self.accounts@.len() && #[trigger] self.accounts@[j].key@ == key@;
                assert(self.accounts@[j].key@ != key@);
            }
        }
        None
    }

    /// The balance held at `key`.
    pub fn lamports(&self, key: &Address) -> (r: u64)
        requires
            self.store_wf(),
        ensures
            r as nat == self@.lamports(key@),
    {
        match self.find(key) {
            Some(i) => self.accounts[i].lamports,
            None => 0,
        }
    }

    /// The campaign record stored at `key`, if any.
    pub fn campaign(&self, key: &Address) -> (r: Option<&Campaign>)
        requires
            self.store_wf(),
        ensures
            match r {
                Some(c) => self@.record(key@) == Some(c@),
                None => self@.record(key@) is None,
            },
    {
        match self.find(key) {
            Some(i) => self.accounts[i].campaign.as_ref(),
            None => None,
        }
    }

    /// Puts `entry` in place of the entry at `i`, which has the same key.
    fn replace_at(&mut self, i: usize, entry: Account) -> (prev: Account)
        requires
            old(self).store_wf(),
            i < old(self).accounts@.len(),
            entry.key@ == old(self).accounts@[i as int].key@,
        ensures
            final(self).store_wf(),
            final(self).program_id == old(self).program_id,
            final(self).model@ == old(self).model@.insert(entry.key@, entry@),
            final(self).accounts@ == old(self).accounts@.update(i as int, entry),
            prev == old(self).accounts@[i as int],
    {
        let ghost before = self.accounts@;
        let ghost entry_view = entry@;
        let ghost k = entry.key@;
        let prev = self.accounts.remove(i);
        self.accounts.insert(i, entry);
        self.model = Ghost(self.model@.insert(k, entry_view));
        assert(self.accounts@ =~= before.update(i as int, entry));
        assert forall|j: int| 0 <= j < self.accounts@.len() && j != i implies self.accounts@[j] == before[j] by {}
        assert forall|key: Seq<u8>| #[trigger] self.model@.contains_key(key) implies exists|j: int|
            0 <= j < self.accounts@.len() && #[trigger] self.accounts@[j].key@ == key by {
            if key == k {
                assert(self.accounts@[i as int].key@ == key);
            } else {
                assert(old(self).model@.contains_key(key));
                let j = choose|j: int| 0 <= j < before.len() && #[trigger] before[j].key@ == key;
                assert(self.accounts@[j].key@ == key);
            }
        }
        prev
    }

    /// Adds `entry`, whose key the ledger has not seen.
    fn push_new(&mut self, entry: Account)
        requires
            old(self).store_wf(),
            !old(self).model@.contains_key(entry.key@),
        ensures
            final(self).store_wf(),
            final(self).program_id == old(self).program_id,
            final(self).model@ == old(self).model@.insert(entry.key@, entry@),
    {
        let ghost before = self.accounts@;
        let ghost entry_view = entry@;
        let ghost k = entry.key@;
        self.accounts.push(entry);
        self.model = Ghost(self.model@.insert(k, entry_view));
        let ghost n = before.len() as int;
        assert forall|j: int| 0 <= j < n implies #[trigger] before[j].key@ != k by {
            assert(old(self).model@.contains_key(before[j].key@));
        }
        assert forall|key: Seq<u8>| #[trigger] self.model@.contains_key(key) implies exists|j: int|
            0 <= j < self.accounts@.len() && #[trigger] self.accounts@[j].key@ == key by {
            if key == k {
                assert(self.accounts@[n].key@ == key);
            } else {
                assert(old(self).model@.contains_key(key));
                let j = choose|j: int| 0 <= j < before.len() && #[trigger] before[j].key@ == key;
                assert(self.accounts@[j].key@ == key);
            }
        }
        assert forall|a: int, b: int|
            0 <= a < self.accounts@.len() && 0 <= b < self.accounts@.len() && a != b
                implies #[trigger] self.accounts@[a].key@ != #[trigger] self.accounts@[b].key@ by {
            if a < n && b < n {
                assert(before[a] == self.accounts@[a] && before[b] == self.accounts@[b]);
            } else if a == n {
                assert(before[b] == self.accounts@[b]);
            } else {
                assert(before[a] == self.accounts@[a]);
            }
        }
    }

    /// Sets the balance at `key`; an account the ledger has not seen is
    /// added with that balance and no record.
    pub(crate) fn set_lamports(&mut self, key: &Address, value: u64)
        requires
            old(self).store_wf(),
        ensures
            final(self).store_wf(),
            final(self)@ == old(self)@.set_lamports(key@, value as nat),
    {
        match self.find(key) {
            Some(i) => {
                // Take the entry out, change it, and put it back.
                let placeholder = Account { key: *key, lamports: value, campaign: None };
                let mut entry = self.replace_at(i, placeholder);
                entry.lamports = value;
                self.replace_at(i, entry);
                assert(self.model@ =~= old(self)@.set_lamports(key@, value as nat).accounts);
            }
            None => {
                self.push_new(Account { key: *key, lamports: value, campaign: None });
                assert(self.model@ =~= old(self)@.set_lamports(key@, value as nat).accounts);
            }
        }
    }

    /// Sets the donation counter of the record at `key`.
    pub(crate) fn set_donated(&mut self, key: &Address, value: u64)
        requires
            old(self).store_wf(),
            old(self)@.record(key@) is Some,
        ensures
            final(self).store_wf(),
            final(self)@ == old(self)@.set_record(
                key@,
                old(self)@.record(key@)->Some_0.with_donated(value as nat),
            ),
    {
        match self.find(key) {
            Some(i) => {
                let placeholder = Account { key: *key, lamports: 0, campaign: None };
                let entry = self.replace_at(i, placeholder);
                let Account { key: k, lamports, campaign } = entry;
                let campaign = match campaign {
                    Some(mut c) => {
                        c.amount_donated = value;
                        Some(c)
                    },
                    None => None,
                };
                self.replace_at(i, Account { key: k, lamports, campaign });
                assert(self.model@ =~= old(self)@.set_record(
                    key@,
                    old(self)@.record(key@)->Some_0.with_donated(value as nat),
                ).accounts);
            },
            None => {},
        }
    }

    /// Stores `c` as the record at `key`, keeping the balance there.
    pub(crate) fn put_record(&mut self, key: &Address, c: Campaign)
        requires
            old(self).store_wf(),
        ensures
            final(self).store_wf(),
            final(self)@ == old(self)@.set_record(key@, c@),
    {
        let ghost cv = c@;
        match self.find(key) {
            Some(i) => {
                let placeholder = Account { key: *key, lamports: 0, campaign: None };
                let entry = self.replace_at(i, placeholder);
                self.replace_at(i, Account { key: entry.key, lamports: entry.lamports, campaign: Some(c) });
            },
            None => {
                self.push_new(Account { key: *key, lamports: 0, campaign: Some(c) });
            },
        }
        assert(self.model@ =~= old(self)@.set_record(key@, cv).accounts);
    }

    /// Credits `amount` to `key` from outside the campaign operations, as a
    /// transfer that the host runtime made on its own would.
    pub fn deposit(&mut self, key: &Address, amount: u64) -> (r: Result<(), CrowdfundError>)
        requires
            old(self).wf(),
        ensures
            final(self).wf(),
            r == (if old(self)@.lamports(key@) + amount > u64::MAX {
                Err::<(), CrowdfundError>(CrowdfundError::ArithmeticOverflow)
            } else {
                Ok(())
            }),
            final(self)@ == (if r is Ok {
                old(self)@.set_lamports(key@, (old(self)@.lamports(key@) + amount) as nat)
            } else {
                old(self)@
            }),
    {
        let balance = self.lamports(key);
        match balance.checked_add(amount) {
            Some(total) => {
                self.set_lamports(key, total);
                proof { lemma_credit_keeps_solvent(old(self)@, key@, total as nat); }
                Ok(())
            },
            None => Err(CrowdfundError::ArithmeticOverflow),
        }
    }
}

} // verus!
