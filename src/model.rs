//! The mathematical model of the ledger and the three escrow transitions.
use vstd::prelude::*;

verus! {

/// An identity on the ledger: a party, or the holder of an account.
pub type Identity = u64;

/// The identifier of a kind of asset (a mint).
pub type AssetKind = u64;

/// Why a transition was refused. A refused transition changes nothing.
#[derive(Clone, Copy, Debug, PartialEq, Eq, Structural)]
pub enum EscrowError {
    /// A deposit of zero.
    InvalidAmount,
    /// The payer holds less than the transfer asks for.
    InsufficientFunds,
    /// An escrow record already stands at the derived address.
    AlreadyExists,
    /// No escrow record stands at the referenced address.
    NotFound,
    /// The caller is not the party the operation requires.
    Unauthorized,
    /// A credit would take a balance past the largest representable quantity.
    Overflow,
}

/// The persistent description of one pending trade. Never changed after creation.
#[derive(Clone, Copy, Debug, PartialEq, Eq, Structural)]
pub struct EscrowRecord {
    pub maker: Identity,
    pub seed: u64,
    pub deposit_asset: AssetKind,
    pub receive_asset: AssetKind,
    pub receive_amount: u64,
}

/// An escrow record together with its vault: the two exist together or not at all.
#[derive(Clone, Copy, Debug, PartialEq, Eq, Structural)]
pub struct Escrow {
    pub record: EscrowRecord,
    /// The quantity of `record.deposit_asset` held in the vault.
    pub vault: u64,
}

/// The address of an escrow record, derived from the maker and the seed.
pub open spec fn escrow_address(maker: Identity, seed: u64) -> (Identity, u64) {
    (maker, seed)
}

/// The ledger as a mathematical value: the balance of each (holder, asset)
/// account that was ever touched, and each live escrow keyed by its address.
#[verifier::ext_equal]
pub struct LedgerView {
    pub balances: Map<(Identity, AssetKind), nat>,
    pub escrows: Map<(Identity, u64), Escrow>,
}

impl LedgerView {
    /// Every balance fits in a `u64`, and every escrow sits at the address
    /// derived from its own record.
    pub open spec fn wf(self) -> bool {
        &&& forall|k: (Identity, AssetKind)| #[trigger] self.balances.contains_key(k)
            ==> self.balances[k] <= u64::MAX
        &&& forall|k: (Identity, u64)| #[trigger] self.escrows.contains_key(k)
            ==> k == escrow_address(self.escrows[k].record.maker, self.escrows[k].record.seed)
    }

    /// What `owner` holds of `asset`; an account never touched holds nothing.
    pub open spec fn balance(self, owner: Identity, asset: AssetKind) -> nat {
        if self.balances.contains_key((owner, asset)) {
            self.balances[(owner, asset)]
        } else {
            0
        }
    }

    pub open spec fn set_balance(self, owner: Identity, asset: AssetKind, amount: nat) -> LedgerView {
        LedgerView { balances: self.balances.insert((owner, asset), amount), ..self }
    }

    /// Moves `amount` of `asset` from `from` to `to` (the payer is debited first).
    pub open spec fn transfer(self, from: Identity, to: Identity, asset: AssetKind, amount: nat) -> LedgerView {
        let debited = self.set_balance(from, asset, (self.balance(from, asset) - amount) as nat);
        debited.set_balance(to, asset, (debited.balance(to, asset) + amount) as nat)
    }

    pub open spec fn has_escrow(self, maker: Identity, seed: u64) -> bool {
        self.escrows.contains_key(escrow_address(maker, seed))
    }

    pub open spec fn escrow(self, maker: Identity, seed: u64) -> Escrow {
        self.escrows[escrow_address(maker, seed)]
    }

    pub open spec fn without_escrow(self, maker: Identity, seed: u64) -> LedgerView {
        LedgerView { escrows: self.escrows.remove(escrow_address(maker, seed)), ..self }
    }
}

/// The outcome of `make`: the new ledger, or the error and no change.
/// The address is checked first, then the amount, then the maker's funds.
pub open spec fn make_result(
    v: LedgerView,
    maker: Identity,
    seed: u64,
    deposit: u64,
    receive: u64,
    deposit_asset: AssetKind,
    receive_asset: AssetKind,
) -> Result<LedgerView, EscrowError> {
    if v.has_escrow(maker, seed) {
        Err(EscrowError::AlreadyExists)
    } else if deposit == 0 {
        Err(EscrowError::InvalidAmount)
    } else if v.balance(maker, deposit_asset) < deposit {
        Err(EscrowError::InsufficientFunds)
    } else {
        let record = EscrowRecord { maker, seed, deposit_asset, receive_asset, receive_amount: receive };
        let paid = v.set_balance(maker, deposit_asset, (v.balance(maker, deposit_asset) - deposit) as nat);
        Ok(LedgerView {
            escrows: paid.escrows.insert(escrow_address(maker, seed), Escrow { record, vault: deposit }),
            ..paid
        })
    }
}

/// The outcome of `refund` by `caller` on the escrow at `(maker, seed)`:
/// the vault goes back to the maker and the escrow is closed.
pub open spec fn refund_result(v: LedgerView, caller: Identity, maker: Identity, seed: u64) -> Result<
    LedgerView,
    EscrowError,
> {
    if !v.has_escrow(maker, seed) {
        Err(EscrowError::NotFound)
    } else {
        let e = v.escrow(maker, seed);
        if caller != e.record.maker {
            Err(EscrowError::Unauthorized)
        } else if v.balance(e.record.maker, e.record.deposit_asset) + e.vault > u64::MAX {
            Err(EscrowError::Overflow)
        } else {
            let back = v.set_balance(
                e.record.maker,
                e.record.deposit_asset,
                (v.balance(e.record.maker, e.record.deposit_asset) + e.vault) as nat,
            );
            Ok(back.without_escrow(maker, seed))
        }
    }
}

/// The outcome of `take` by `taker` on the escrow at `(maker, seed)`: the taker
/// pays the receive amount to the maker, then receives the whole vault, and the
/// escrow is closed; all of it or none.
pub open spec fn take_result(v: LedgerView, taker: Identity, maker: Identity, seed: u64) -> Result<
    LedgerView,
    EscrowError,
> {
    if !v.has_escrow(maker, seed) {
        Err(EscrowError::NotFound)
    } else {
        let e = v.escrow(maker, seed);
        let r = e.record;
        if v.balance(taker, r.receive_asset) < r.receive_amount {
            Err(EscrowError::InsufficientFunds)
        } else {
            let paid = v.transfer(taker, r.maker, r.receive_asset, r.receive_amount as nat);
            if paid.balance(r.maker, r.receive_asset) > u64::MAX {
                Err(EscrowError::Overflow)
            } else if paid.balance(taker, r.deposit_asset) + e.vault > u64::MAX {
                Err(EscrowError::Overflow)
            } else {
                let received = paid.set_balance(
                    taker,
                    r.deposit_asset,
                    (paid.balance(taker, r.deposit_asset) + e.vault) as nat,
                );
                Ok(received.without_escrow(maker, seed))
            }
        }
    }
}

} // verus!
