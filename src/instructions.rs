//! The three escrow transitions. Each either commits in full, as its outcome in
//! the model says, or returns the error and leaves the ledger as it was.
use vstd::prelude::*;
use crate::ledger::Ledger;
use crate::model::{
    make_result, refund_result, take_result, AssetKind, Escrow, EscrowError, EscrowRecord,
    Identity, LedgerView,
};

verus! {

/// `r` and the new ledger are what `outcome` says: the new ledger on success,
/// the error and no change otherwise.
pub open spec fn committed(
    outcome: Result<LedgerView, EscrowError>,
    r: Result<(), EscrowError>,
    before: LedgerView,
    after: LedgerView,
) -> bool {
    match outcome {
        Ok(v) => r is Ok && after == v,
        Err(e) => r == Err::<(), EscrowError>(e) && after == before,
    }
}

/// Opens an escrow: the maker (the authorised caller) locks `deposit` of
/// `deposit_asset` in a new vault and asks `receive` of `receive_asset` for it.
pub fn make(
    ledger: &mut Ledger,
    maker: Identity,
    seed: u64,
    deposit: u64,
    receive: u64,
    deposit_asset: AssetKind,
    receive_asset: AssetKind,
) -> (r: Result<(), EscrowError>)
    requires
        old(ledger).wf(),
    ensures
        final(ledger).wf(),
        committed(
            make_result(old(ledger)@, maker, seed, deposit, receive, deposit_asset, receive_asset),
            r,
            old(ledger)@,
            final(ledger)@,
        ),
{
    if ledger.escrow(maker, seed).is_some() {
        return Err(EscrowError::AlreadyExists);
    }
    if deposit == 0 {
        return Err(EscrowError::InvalidAmount);
    }
    let held = ledger.balance(maker, deposit_asset);
    if held < deposit {
        return Err(EscrowError::InsufficientFunds);
    }
    ledger.set_balance(maker, deposit_asset, held - deposit);
    let record = EscrowRecord { maker, seed, deposit_asset, receive_asset, receive_amount: receive };
    ledger.insert_escrow(Escrow { record, vault: deposit });
    assert(ledger@ =~= make_result(
        old(ledger)@,
        maker,
        seed,
        deposit,
        receive,
        deposit_asset,
        receive_asset,
    ).unwrap());
    Ok(())
}

/// Cancels the escrow at `(maker, seed)`: only its maker may; the whole vault
/// goes back to the maker, and the vault and the record are closed.
pub fn refund(ledger: &mut Ledger, caller: Identity, maker: Identity, seed: u64) -> (r: Result<
    (),
    EscrowError,
>)
    requires
        old(ledger).wf(),
    ensures
        final(ledger).wf(),
        committed(refund_result(old(ledger)@, caller, maker, seed), r, old(ledger)@, final(ledger)@),
{
    let e = match ledger.escrow(maker, seed) {
        Some(e) => e,
        None => {
            return Err(EscrowError::NotFound);
        },
    };
    if caller != e.record.maker {
        return Err(EscrowError::Unauthorized);
    }
    let held = ledger.balance(e.record.maker, e.record.deposit_asset);
    if held > u64::MAX - e.vault {
        return Err(EscrowError::Overflow);
    }
    ledger.set_balance(e.record.maker, e.record.deposit_asset, held + e.vault);
    ledger.remove_escrow(maker, seed);
    assert(ledger@ =~= refund_result(old(ledger)@, caller, maker, seed).unwrap());
    Ok(())
}

/// Fulfils the escrow at `(maker, seed)`: the taker (the authorised caller)
/// pays the receive amount to the maker and receives the whole vault, and the
/// vault and the record are closed; all of it or none.
pub fn take(ledger: &mut Ledger, taker: Identity, maker: Identity, seed: u64) -> (r: Result<
    (),
    EscrowError,
>)
    requires
        old(ledger).wf(),
    ensures
        final(ledger).wf(),
        committed(take_result(old(ledger)@, taker, maker, seed), r, old(ledger)@, final(ledger)@),
{
    let e = match ledger.escrow(maker, seed) {
        Some(e) => e,
        None => {
            return Err(EscrowError::NotFound);
        },
    };
    let rec = e.record;
    let owed = rec.receive_amount;
    let paying = ledger.balance(taker, rec.receive_asset);
    if paying < owed {
        return Err(EscrowError::InsufficientFunds);
    }
    // The maker's balance of the receive asset once the taker has been debited.
    let maker_held = if taker == rec.maker {
        paying - owed
    } else {
        ledger.balance(rec.maker, rec.receive_asset)
    };
    if maker_held > u64::MAX - owed {
        return Err(EscrowError::Overflow);
    }
    // The taker's balance of the deposit asset once the payment has been made.
    let taker_held = if rec.deposit_asset != rec.receive_asset {
        ledger.balance(taker, rec.deposit_asset)
    } else if taker == rec.maker {
        paying
    } else {
        paying - owed
    };
    if taker_held > u64::MAX - e.vault {
        return Err(EscrowError::Overflow);
    }
    ledger.set_balance(taker, rec.receive_asset, paying - owed);
    ledger.set_balance(rec.maker, rec.receive_asset, maker_held + owed);
    ledger.set_balance(taker, rec.deposit_asset, taker_held + e.vault);
    ledger.remove_escrow(maker, seed);
    assert(ledger@ =~= take_result(old(ledger)@, taker, maker, seed).unwrap());
    Ok(())
}

} // verus!
