//! Properties of the escrow transitions, proved over the model that the
//! executable transitions are held to.
use vstd::prelude::*;
use crate::model::{
    make_result, refund_result, take_result, AssetKind, EscrowError, EscrowRecord, Identity,
    LedgerView,
};

verus! {

/// A successful `make` leaves exactly `deposit` in the new vault, records the
/// trade as asked, takes exactly `deposit` from the maker's balance of the
/// deposit asset, and touches no other balance.
pub proof fn lemma_make_locks_deposit(
    v: LedgerView,
    maker: Identity,
    seed: u64,
    deposit: u64,
    receive: u64,
    deposit_asset: AssetKind,
    receive_asset: AssetKind,
)
    requires
        make_result(v, maker, seed, deposit, receive, deposit_asset, receive_asset) is Ok,
    ensures
        ({
            let w = make_result(v, maker, seed, deposit, receive, deposit_asset, receive_asset).unwrap();
            &&& w.has_escrow(maker, seed)
            &&& w.escrow(maker, seed).vault == deposit
            &&& w.escrow(maker, seed).record == (EscrowRecord {
                maker,
                seed,
                deposit_asset,
                receive_asset,
                receive_amount: receive,
            })
            &&& w.balance(maker, deposit_asset) + deposit == v.balance(maker, deposit_asset)
            &&& forall|o: Identity, a: AssetKind|
                (o, a) != (maker, deposit_asset) ==> #[trigger] w.balance(o, a) == v.balance(o, a)
        }),
{
}

/// Once `take` has closed an escrow, a later `take` or `refund` on the same
/// address, by anyone, finds nothing.
pub proof fn lemma_take_closes_escrow(
    v: LedgerView,
    taker: Identity,
    maker: Identity,
    seed: u64,
    later_taker: Identity,
    later_caller: Identity,
)
    requires
        take_result(v, taker, maker, seed) is Ok,
    ensures
        ({
            let w = take_result(v, taker, maker, seed).unwrap();
            &&& !w.has_escrow(maker, seed)
            &&& take_result(w, later_taker, maker, seed) == Err::<LedgerView, EscrowError>(EscrowError::NotFound)
            &&& refund_result(w, later_caller, maker, seed) == Err::<LedgerView, EscrowError>(EscrowError::NotFound)
        }),
{
}

/// Once `refund` has closed an escrow, a later `take` or `refund` on the same
/// address, by anyone, finds nothing: at most one of the two ever succeeds.
pub proof fn lemma_refund_closes_escrow(
    v: LedgerView,
    caller: Identity,
    maker: Identity,
    seed: u64,
    later_taker: Identity,
    later_caller: Identity,
)
    requires
        refund_result(v, caller, maker, seed) is Ok,
    ensures
        ({
            let w = refund_result(v, caller, maker, seed).unwrap();
            &&& !w.has_escrow(maker, seed)
            &&& take_result(w, later_taker, maker, seed) == Err::<LedgerView, EscrowError>(EscrowError::NotFound)
            &&& refund_result(w, later_caller, maker, seed) == Err::<LedgerView, EscrowError>(EscrowError::NotFound)
        }),
{
}

/// On a live escrow, `refund` by anyone but its maker is refused with
/// `Unauthorized` (and a refused transition changes nothing).
pub proof fn lemma_refund_needs_maker(v: LedgerView, caller: Identity, maker: Identity, seed: u64)
    requires
        v.wf(),
        v.has_escrow(maker, seed),
        caller != maker,
    ensures
        refund_result(v, caller, maker, seed) == Err::<LedgerView, EscrowError>(EscrowError::Unauthorized),
{
}

/// `make` followed by the maker's `refund` succeeds, closes the escrow, and
/// leaves every balance, the maker's deposit asset included, as it was before.
pub proof fn lemma_make_then_refund(
    v: LedgerView,
    maker: Identity,
    seed: u64,
    deposit: u64,
    receive: u64,
    deposit_asset: AssetKind,
    receive_asset: AssetKind,
)
    requires
        v.wf(),
        make_result(v, maker, seed, deposit, receive, deposit_asset, receive_asset) is Ok,
    ensures
        ({
            let w = make_result(v, maker, seed, deposit, receive, deposit_asset, receive_asset).unwrap();
            &&& refund_result(w, maker, maker, seed) is Ok
            &&& !refund_result(w, maker, maker, seed).unwrap().has_escrow(maker, seed)
            &&& forall|o: Identity, a: AssetKind|
                #[trigger] refund_result(w, maker, maker, seed).unwrap().balance(o, a) == v.balance(o, a)
        }),
{
}

/// Of two `make` calls at the same `(maker, seed)`, whatever their other
/// arguments, at most one succeeds: once the first has, the second is refused
/// with `AlreadyExists`.
pub proof fn lemma_make_same_address_refused(
    v: LedgerView,
    maker: Identity,
    seed: u64,
    deposit: u64,
    receive: u64,
    deposit_asset: AssetKind,
    receive_asset: AssetKind,
    deposit2: u64,
    receive2: u64,
    deposit_asset2: AssetKind,
    receive_asset2: AssetKind,
)
    requires
        make_result(v, maker, seed, deposit, receive, deposit_asset, receive_asset) is Ok,
    ensures
        make_result(
            make_result(v, maker, seed, deposit, receive, deposit_asset, receive_asset).unwrap(),
            maker,
            seed,
            deposit2,
            receive2,
            deposit_asset2,
            receive_asset2,
        ) == Err::<LedgerView, EscrowError>(EscrowError::AlreadyExists),
{
}

/// A successful `take` between two distinct parties over two distinct assets
/// moves the receive amount from the taker to the maker and the whole vault to
/// the taker, and closes the escrow.
pub proof fn lemma_take_swaps_assets(v: LedgerView, taker: Identity, maker: Identity, seed: u64)
    requires
        v.wf(),
        take_result(v, taker, maker, seed) is Ok,
        taker != maker,
        v.escrow(maker, seed).record.deposit_asset != v.escrow(maker, seed).record.receive_asset,
    ensures
        ({
            let w = take_result(v, taker, maker, seed).unwrap();
            let e = v.escrow(maker, seed);
            let (da, ra) = (e.record.deposit_asset, e.record.receive_asset);
            &&& !w.has_escrow(maker, seed)
            &&& w.balance(maker, ra) == v.balance(maker, ra) + e.record.receive_amount
            &&& w.balance(taker, ra) + e.record.receive_amount == v.balance(taker, ra)
            &&& w.balance(taker, da) == v.balance(taker, da) + e.vault
            &&& w.balance(maker, da) == v.balance(maker, da)
        }),
{
}

} // verus!
