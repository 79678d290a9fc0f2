//! The ledger substrate: token accounts and live escrows, keyed lookups over
//! vectors whose keys are unique.
use vstd::prelude::*;
use crate::model::{escrow_address, AssetKind, Escrow, EscrowError, Identity, LedgerView};

verus! {

/// The balance that `owner` holds of `asset`.
#[derive(Clone, Copy, Debug, PartialEq, Eq, Structural)]
pub struct TokenAccount {
    pub owner: Identity,
    pub asset: AssetKind,
    pub amount: u64,
}

pub struct Ledger {
    accounts: Vec<TokenAccount>,
    escrows: Vec<Escrow>,
    balance_map: Ghost<Map<(Identity, AssetKind), nat>>,
    escrow_map: Ghost<Map<(Identity, u64), Escrow>>,
}

pub open spec fn account_key(a: TokenAccount) -> (Identity, AssetKind) {
    (a.owner, a.asset)
}

pub open spec fn escrow_key(e: Escrow) -> (Identity, u64) {
    escrow_address(e.record.maker, e.record.seed)
}

impl View for Ledger {
    type V = LedgerView;

    closed spec fn view(&self) -> LedgerView {
        LedgerView { balances: self.balance_map@, escrows: self.escrow_map@ }
    }
}

impl Ledger {
    /// The vectors hold each key once, and the model maps each key to the
    /// entry that holds it.
    pub closed spec fn wf(&self) -> bool {
        &&& forall|i: int, j: int|
            0 <= i < j < self.accounts@.len() ==> account_key(#[trigger] self.accounts@[i])
                != account_key(#[trigger] self.accounts@[j])
        &&& forall|i: int|
            0 <= i < self.accounts@.len() ==> self.balance_map@.contains_key(
                account_key(#[trigger] self.accounts@[i]),
            ) && self.balance_map@[account_key(self.accounts@[i])] == self.accounts@[i].amount
        &&& forall|k: (Identity, AssetKind)| #[trigger]
            self.balance_map@.contains_key(k) ==> exists|i: int|
                0 <= i < self.accounts@.len() && account_key(#[trigger] self.accounts@[i]) == k
        &&& forall|i: int, j: int|
            0 <= i < j < self.escrows@.len() ==> escrow_key(#[trigger] self.escrows@[i])
                != escrow_key(#[trigger] self.escrows@[j])
        &&& forall|i: int|
            0 <= i < self.escrows@.len() ==> self.escrow_map@.contains_key(
                escrow_key(#[trigger] self.escrows@[i]),
            ) && self.escrow_map@[escrow_key(self.escrows@[i])] == self.escrows@[i]
        &&& forall|k: (Identity, u64)| #[trigger]
            self.escrow_map@.contains_key(k) ==> exists|i: int|
                0 <= i < self.escrows@.len() && escrow_key(#[trigger] self.escrows@[i]) == k
    }

    /// A well-formed ledger has a well-formed model.
    pub proof fn lemma_wf_view(&self)
        requires
            self.wf(),
        ensures
            self@.wf(),
    {
        assert forall|k: (Identity, AssetKind)| #[trigger] self@.balances.contains_key(k)
            implies self@.balances[k] <= u64::MAX by {
            let i = choose|i: int| 0 <= i < self.accounts@.len() && account_key(#[trigger] self.accounts@[i]) == k;
            assert(self.balance_map@[account_key(self.accounts@[i])] == self.accounts@[i].amount);
        }
        assert forall|k: (Identity, u64)| #[trigger] self@.escrows.contains_key(k)
            implies k == escrow_address(self@.escrows[k].record.maker, self@.escrows[k].record.seed) by {
            let i = choose|i: int| 0 <= i < self.escrows@.len() && escrow_key(#[trigger] self.escrows@[i]) == k;
            assert(self.escrow_map@[escrow_key(self.escrows@[i])] == self.escrows@[i]);
        }
    }

    /// A ledger with no accounts and no escrows.
    pub fn new() -> (r: Ledger)
        ensures
            r.wf(),
            r@.balances == Map::<(Identity, AssetKind), nat>::empty(),
            r@.escrows == Map::<(Identity, u64), Escrow>::empty(),
    {
        Ledger {
            accounts: Vec::new(),
            escrows: Vec::new(),
            balance_map: Ghost(Map::empty()),
            escrow_map: Ghost(Map::empty()),
        }
    }

    fn find_account(&self, owner: Identity, asset: AssetKind) -> (r: Option<usize>)
        requires
            self.wf(),
        ensures
            match r {
                Some(i) => i < self.accounts@.len() && account_key(self.accounts@[i as int]) == (
                owner,
                asset,
                ),
                None => !self@.balances.contains_key((owner, asset)),
            },
    {
        let mut i: usize = 0;
        while i < self.accounts.len()
            invariant
                self.wf(),
                i <= self.accounts@.len(),
                forall|j: int| 0 <= j < i ==> account_key(#[trigger] self.accounts@[j]) != (owner, asset),
            decreases self.accounts@.len() - i,
        {
            if self.accounts[i].owner == owner && self.accounts[i].asset == asset {
                return Some(i);
            }
            i = i + 1;
        }
        None
    }

    /// What `owner` holds of `asset`.
    pub fn balance(&self, owner: Identity, asset: AssetKind) -> (r: u64)
        requires
            self.wf(),
        ensures
            r == self@.balance(owner, asset),
    {
        match self.find_account(owner, asset) {
            Some(i) => self.accounts[i].amount,
            None => 0,
        }
    }

    /// Sets what `owner` holds of `asset`, opening the account if need be.
    pub(crate) fn set_balance(&mut self, owner: Identity, asset: AssetKind, amount: u64)
        requires
            old(self).wf(),
        ensures
            final(self).wf(),
            final(self)@ == old(self)@.set_balance(owner, asset, amount as nat),
    {
        let k = Ghost((owner, asset));
        let acc = TokenAccount { owner, asset, amount };
        let pos: usize;
        match self.find_account(owner, asset) {
            Some(i) => {
                self.accounts.set(i, acc);
                pos = i;
            },
            None => {
                pos = self.accounts.len();
                self.accounts.push(acc);
            },
        }
        self.balance_map = Ghost(self.balance_map@.insert(k@, amount as nat));
        assert(self.accounts@[pos as int] == acc);
        assert forall|q: (Identity, AssetKind)| #[trigger]
            self.balance_map@.contains_key(q) implies exists|i: int|
                0 <= i < self.accounts@.len() && account_key(#[trigger] self.accounts@[i]) == q by {
            if q != k@ {
                let i = choose|i: int| 0 <= i < old(self).accounts@.len() && account_key(#[trigger] old(self).accounts@[i]) == q;
                assert(account_key(self.accounts@[i]) == q);
            } else {
                assert(account_key(self.accounts@[pos as int]) == q);
            }
        }
    }
    /// Credits `amount` of `asset` to `owner`: how funds enter the ledger.
    /// Refused with `Overflow`, and nothing changes, where the balance would
    /// pass the largest representable quantity.
    pub fn credit(&mut self, owner: Identity, asset: AssetKind, amount: u64) -> (r: Result<(), EscrowError>)
        requires
            old(self).wf(),
        ensures
            final(self).wf(),
            old(self)@.balance(owner, asset) + amount <= u64::MAX ==> r is Ok && final(self)@
                == old(self)@.set_balance(owner, asset, (old(self)@.balance(owner, asset) + amount) as nat),
            old(self)@.balance(owner, asset) + amount > u64::MAX ==> r == Err::<(), EscrowError>(
                EscrowError::Overflow,
            ) && final(self)@ == old(self)@,
    {
        let held = self.balance(owner, asset);
        if held > u64::MAX - amount {
            return Err(EscrowError::Overflow);
        }
        self.set_balance(owner, asset, held + amount);
        Ok(())
    }

    fn find_escrow(&self, maker: Identity, seed: u64) -> (r: Option<usize>)
        requires
            self.wf(),
        ensures
            match r {
                Some(i) => i < self.escrows@.len() && escrow_key(self.escrows@[i as int])
                    == escrow_address(maker, seed) && self@.has_escrow(maker, seed)
                    && self@.escrow(maker, seed) == self.escrows@[i as int],
                None => !self@.has_escrow(maker, seed),
            },
    {
        let mut i: usize = 0;
        while i < self.escrows.len()
            invariant
                self.wf(),
                i <= self.escrows@.len(),
                forall|j: int|
                    0 <= j < i ==> escrow_key(#[trigger] self.escrows@[j]) != escrow_address(maker, seed),
            decreases self.escrows@.len() - i,
        {
            if self.escrows[i].record.maker == maker && self.escrows[i].record.seed == seed {
                return Some(i);
            }
            i = i + 1;
        }
        None
    }

    /// The escrow at the address derived from `(maker, seed)`, if one is live.
    pub fn escrow(&self, maker: Identity, seed: u64) -> (r: Option<Escrow>)
        requires
            self.wf(),
        ensures
            match r {
                Some(e) => self@.has_escrow(maker, seed) && e == self@.escrow(maker, seed),
                None => !self@.has_escrow(maker, seed),
            },
    {
        match self.find_escrow(maker, seed) {
            Some(i) => Some(self.escrows[i]),
            None => None,
        }
    }

    /// Opens an escrow at the address derived from its own record.
    pub(crate) fn insert_escrow(&mut self, e: Escrow)
        requires
            old(self).wf(),
            !old(self)@.has_escrow(e.record.maker, e.record.seed),
        ensures
            final(self).wf(),
            final(self)@ == (LedgerView {
                escrows: old(self)@.escrows.insert(escrow_key(e), e),
                ..old(self)@
            }),
    {
        let k = Ghost(escrow_key(e));
        let pos = self.escrows.len();
        self.escrows.push(e);
        self.escrow_map = Ghost(self.escrow_map@.insert(k@, e));
        assert(self.escrows@[pos as int] == e);
        assert forall|a: int, b: int|
            0 <= a < b < self.escrows@.len() implies escrow_key(#[trigger] self.escrows@[a])
                != escrow_key(#[trigger] self.escrows@[b]) by {
            assert(self.escrows@[a] == old(self).escrows@[a]);
            if b < pos {
                assert(self.escrows@[b] == old(self).escrows@[b]);
            }
        }
        assert forall|j: int|
            0 <= j < self.escrows@.len() implies self.escrow_map@.contains_key(
                escrow_key(#[trigger] self.escrows@[j]),
            ) && self.escrow_map@[escrow_key(self.escrows@[j])] == self.escrows@[j] by {
            if j < pos {
                assert(self.escrows@[j] == old(self).escrows@[j]);
                assert(old(self).escrow_map@.contains_key(escrow_key(old(self).escrows@[j])));
            }
        }
        assert forall|q: (Identity, u64)| #[trigger]
            self.escrow_map@.contains_key(q) implies exists|i: int|
                0 <= i < self.escrows@.len() && escrow_key(#[trigger] self.escrows@[i]) == q by {
            if q != k@ {
                let i = choose|i: int| 0 <= i < old(self).escrows@.len() && escrow_key(#[trigger] old(self).escrows@[i]) == q;
                assert(escrow_key(self.escrows@[i]) == q);
            } else {
                assert(escrow_key(self.escrows@[pos as int]) == q);
            }
        }
        assert(self.accounts@ == old(self).accounts@);
        assert(self.balance_map@ == old(self).balance_map@);
        assert(self.wf());
    }

    /// Closes the escrow at `(maker, seed)`: the record and its vault go together.
    pub(crate) fn remove_escrow(&mut self, maker: Identity, seed: u64)
        requires
            old(self).wf(),
        ensures
            final(self).wf(),
            final(self)@ == old(self)@.without_escrow(maker, seed),
    {
        let k = Ghost(escrow_address(maker, seed));
        match self.find_escrow(maker, seed) {
            Some(i) => {
                let ghost before = self.escrows@;
                self.escrows.remove(i);
                self.escrow_map = Ghost(self.escrow_map@.remove(k@));
                assert forall|j: int|
                    0 <= j < self.escrows@.len() implies self.escrow_map@.contains_key(
                        escrow_key(#[trigger] self.escrows@[j]),
                    ) && self.escrow_map@[escrow_key(self.escrows@[j])] == self.escrows@[j] by {
                    if j < i {
                        assert(self.escrows@[j] == before[j]);
                    } else {
                        assert(self.escrows@[j] == before[j + 1]);
                    }
                }
                assert forall|a: int, b: int|
                    0 <= a < b < self.escrows@.len() implies escrow_key(#[trigger] self.escrows@[a])
                        != escrow_key(#[trigger] self.escrows@[b]) by {
                    let a0 = if a < i { a } else { a + 1 };
                    let b0 = if b < i { b } else { b + 1 };
                    assert(self.escrows@[a] == before[a0]);
                    assert(self.escrows@[b] == before[b0]);
                }
                assert forall|q: (Identity, u64)| #[trigger]
                    self.escrow_map@.contains_key(q) implies exists|j: int|
                        0 <= j < self.escrows@.len() && escrow_key(#[trigger] self.escrows@[j]) == q by {
                    let j0 = choose|j: int| 0 <= j < before.len() && escrow_key(#[trigger] before[j]) == q;
                    if j0 < i {
                        assert(escrow_key(self.escrows@[j0]) == q);
                    } else {
                        assert(j0 != i);
                        assert(escrow_key(self.escrows@[j0 - 1]) == q);
                    }
                }
                assert(self.accounts@ == old(self).accounts@);
                assert(self.balance_map@ == old(self).balance_map@);
                assert(self.wf());
            },
            None => {
                assert(self.escrow_map@.remove(k@) =~= self.escrow_map@);
            },
        }
        assert(self@ =~= old(self)@.without_escrow(maker, seed));
    }
}

} // verus!
