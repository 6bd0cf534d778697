//! Laws of the listing lifecycle, proved over the abstract transitions.
//!
//! Each public proof function here states one guarantee of the marketplace
//! that relates several operations or every reachable state, over the same
//! transition functions that the executable operations are proved equal to.

use vstd::prelude::*;

verus! {

use crate::bazaar::{active_ids, BazaarError, BazaarView, Listing};

/// A purchase of a created listing succeeds exactly once: after one
/// successful purchase, any further purchase of the same listing is refused
/// as already sold, whoever calls and whatever they pay.
pub proof fn lemma_purchase_succeeds_exactly_once(
    v: BazaarView,
    first_buyer: u128,
    second_buyer: u128,
    listing_id: u128,
    first_paid: u128,
    second_paid: u128,
)
    requires
        v.inv(),
        v.created(listing_id),
        v.spec_purchase(first_buyer, listing_id, first_paid).1 is Ok,
    ensures
        v.spec_purchase(first_buyer, listing_id, first_paid).0.spec_purchase(
            second_buyer,
            listing_id,
            second_paid,
        ).1 == Err::<(), BazaarError>(BazaarError::AlreadySold),
{
    let v1 = v.spec_purchase(first_buyer, listing_id, first_paid).0;
    assert(v1.listing_rec(listing_id).sold);
}

/// A cancellation by anyone but the lister, and an emergency cancellation by
/// anyone but the admin, are refused and leave the whole marketplace state
/// unchanged: no record, no role, no event.
pub proof fn lemma_unauthorized_cancel_changes_nothing(
    v: BazaarView,
    caller: u128,
    listing_id: u128,
)
    requires
        caller != v.listing_rec(listing_id).lister,
        caller != v.admin,
    ensures
        v.spec_cancel(caller, listing_id) == (v, Err::<(), BazaarError>(BazaarError::NotOwner)),
        v.spec_emergency_cancel(caller, listing_id) == (
            v,
            Err::<(), BazaarError>(BazaarError::NotAdmin),
        ),
{
}

/// Pausing blocks trading but nothing else: after the admin pauses the
/// marketplace, creation and purchase are refused as paused, while a price
/// edit and a cancellation that were permitted before remain permitted.
pub proof fn lemma_pause_blocks_only_trading(
    v: BazaarView,
    admin: u128,
    trader: u128,
    nft_contract: u128,
    token_id: u128,
    price: u128,
    paid_amount: u128,
    lister: u128,
    listing_id: u128,
    new_price: u128,
)
    requires
        admin == v.admin,
        lister == v.listing_rec(listing_id).lister,
        !v.listing_rec(listing_id).sold,
        new_price > 0,
    ensures
        ({
            let paused = v.spec_set_paused(admin, true).0;
            &&& v.spec_set_paused(admin, true).1 is Ok
            &&& paused.spec_list_nft(trader, nft_contract, token_id, price).1 == Err::<
                u128,
                BazaarError,
            >(BazaarError::Paused)
            &&& paused.spec_purchase(trader, listing_id, paid_amount).1 == Err::<(), BazaarError>(
                BazaarError::Paused,
            )
            &&& paused.spec_edit_price(lister, listing_id, new_price).1 is Ok
            &&& paused.spec_cancel(lister, listing_id).1 is Ok
        }),
{
    let paused = v.spec_set_paused(admin, true).0;
    assert(paused.listing_rec(listing_id) == v.listing_rec(listing_id));
}

/// In a well-formed ledger the active listing ids are strictly ascending,
/// and each of them is the id of a created listing.
pub proof fn lemma_active_ids_ascending(v: BazaarView)
    requires
        v.inv(),
    ensures
        forall|j: int, k: int|
            0 <= j < k < active_ids(v.listings).len() ==> active_ids(v.listings)[j] < active_ids(
                v.listings,
            )[k],
        forall|j: int|
            0 <= j < active_ids(v.listings).len() ==> 1 <= #[trigger] active_ids(v.listings)[j]
                <= v.listings.len(),
{
    lemma_active_ids_ascending_rec(v.listings);
}

/// Induction behind [`lemma_active_ids_ascending`]: it needs only that each
/// record carries its positional id.
proof fn lemma_active_ids_ascending_rec(listings: Seq<Listing>)
    requires
        forall|i: int|
            0 <= i < listings.len() ==> (#[trigger] listings[i]).listing_id == i + 1,
    ensures
        forall|j: int, k: int|
            0 <= j < k < active_ids(listings).len() ==> active_ids(listings)[j] < active_ids(
                listings,
            )[k],
        forall|j: int|
            0 <= j < active_ids(listings).len() ==> 1 <= #[trigger] active_ids(listings)[j]
                <= listings.len(),
    decreases listings.len(),
{
    if listings.len() > 0 {
        let prefix = listings.drop_last();
        assert forall|i: int| 0 <= i < prefix.len() implies (#[trigger] prefix[i]).listing_id == i
            + 1 by {
            assert(prefix[i] == listings[i]);
        }
        lemma_active_ids_ascending_rec(prefix);
        let ids = active_ids(listings);
        let prefix_ids = active_ids(prefix);
        assert(listings.last().listing_id == listings.len());
        if !listings.last().sold {
            assert(ids == prefix_ids.push(listings.last().listing_id));
            assert forall|j: int, k: int| 0 <= j < k < ids.len() implies ids[j] < ids[k] by {
                if k < prefix_ids.len() {
                    assert(ids[j] == prefix_ids[j] && ids[k] == prefix_ids[k]);
                } else {
                    assert(ids[k] == listings.len());
                    assert(ids[j] == prefix_ids[j] && prefix_ids[j] <= prefix.len());
                }
            }
        }
    }
}

/// The active listing ids are exactly the ids of the unsold records: no
/// terminal listing is reported active, and no unsold listing is missed.
pub proof fn lemma_active_ids_exactly_the_unsold(v: BazaarView)
    requires
        v.inv(),
    ensures
        forall|i: int|
            0 <= i < v.listings.len() ==> (active_ids(v.listings).contains((i + 1) as u128) <==> !(
            #[trigger] v.listings[i]).sold),
{
    lemma_active_ids_membership_rec(v.listings);
}

/// Induction behind [`lemma_active_ids_exactly_the_unsold`].
proof fn lemma_active_ids_membership_rec(listings: Seq<Listing>)
    requires
        forall|i: int|
            0 <= i < listings.len() ==> (#[trigger] listings[i]).listing_id == i + 1,
    ensures
        forall|i: int|
            0 <= i < listings.len() ==> (active_ids(listings).contains((i + 1) as u128) <==> !(
            #[trigger] listings[i]).sold),
    decreases listings.len(),
{
    if listings.len() > 0 {
        let prefix = listings.drop_last();
        assert forall|i: int| 0 <= i < prefix.len() implies (#[trigger] prefix[i]).listing_id == i
            + 1 by {
            assert(prefix[i] == listings[i]);
        }
        lemma_active_ids_membership_rec(prefix);
        lemma_active_ids_ascending_rec(prefix);
        let ids = active_ids(listings);
        let prefix_ids = active_ids(prefix);
        let last_id = listings.last().listing_id;
        assert(last_id == listings.len());
        assert forall|i: int|
            0 <= i < listings.len() implies (ids.contains((i + 1) as u128) <==> !(
        #[trigger] listings[i]).sold) by {
            if i == listings.len() - 1 {
                if listings.last().sold {
                    // every reported id comes from the strictly smaller prefix
                    assert(forall|j: int|
                        0 <= j < prefix_ids.len() ==> #[trigger] prefix_ids[j] <= prefix.len());
                } else {
                    assert(ids.last() == last_id);
                    assert(ids.contains(last_id));
                }
            } else {
                assert(prefix[i] == listings[i]);
                if prefix_ids.contains((i + 1) as u128) {
                    let j = choose|j: int|
                        0 <= j < prefix_ids.len() && prefix_ids[j] == (i + 1) as u128;
                    if !listings.last().sold {
                        assert(ids[j] == prefix_ids[j]);
                    }
                    assert(ids.contains((i + 1) as u128));
                }
                if ids.contains((i + 1) as u128) {
                    let j = choose|j: int| 0 <= j < ids.len() && ids[j] == (i + 1) as u128;
                    if !listings.last().sold && j == ids.len() - 1 {
                        assert(ids[j] == last_id);
                        assert(false);
                    } else {
                        assert(prefix_ids[j] == ids[j]);
                        assert(prefix_ids.contains((i + 1) as u128));
                    }
                }
            }
        }
    }
}

/// One marketplace request, as data: everything a caller can ask of an
/// already-initialized marketplace.
pub enum BazaarOp {
    ListNft { caller: u128, nft_contract: u128, token_id: u128, price: u128 },
    Purchase { caller: u128, listing_id: u128, paid_amount: u128 },
    EditPrice { caller: u128, listing_id: u128, new_price: u128 },
    Cancel { caller: u128, listing_id: u128 },
    EmergencyCancel { caller: u128, listing_id: u128 },
    UpdatePlatformFee { caller: u128, new_fee_bps: u128 },
    SetPaused { caller: u128, state: bool },
    TransferOwnership { caller: u128, new_admin: u128 },
}

/// The marketplace state after one request, refused or not.
pub open spec fn apply_op(v: BazaarView, op: BazaarOp) -> BazaarView {
    match op {
        BazaarOp::ListNft { caller, nft_contract, token_id, price } => v.spec_list_nft(
            caller,
            nft_contract,
            token_id,
            price,
        ).0,
        BazaarOp::Purchase { caller, listing_id, paid_amount } => v.spec_purchase(
            caller,
            listing_id,
            paid_amount,
        ).0,
        BazaarOp::EditPrice { caller, listing_id, new_price } => v.spec_edit_price(
            caller,
            listing_id,
            new_price,
        ).0,
        BazaarOp::Cancel { caller, listing_id } => v.spec_cancel(caller, listing_id).0,
        BazaarOp::EmergencyCancel { caller, listing_id } => v.spec_emergency_cancel(
            caller,
            listing_id,
        ).0,
        BazaarOp::UpdatePlatformFee { caller, new_fee_bps } => v.spec_update_platform_fee(
            caller,
            new_fee_bps,
        ).0,
        BazaarOp::SetPaused { caller, state } => v.spec_set_paused(caller, state).0,
        BazaarOp::TransferOwnership { caller, new_admin } => v.spec_transfer_ownership(
            caller,
            new_admin,
        ).0,
    }
}

/// The marketplace state after a whole sequence of requests, oldest first.
pub open spec fn apply_ops(v: BazaarView, ops: Seq<BazaarOp>) -> BazaarView
    decreases ops.len(),
{
    if ops.len() == 0 {
        v
    } else {
        apply_ops(apply_op(v, ops[0]), ops.drop_first())
    }
}

/// Whether the request is refused in state `v`.
pub open spec fn op_refused(v: BazaarView, op: BazaarOp) -> bool {
    match op {
        BazaarOp::ListNft { caller, nft_contract, token_id, price } => v.spec_list_nft(
            caller,
            nft_contract,
            token_id,
            price,
        ).1 is Err,
        BazaarOp::Purchase { caller, listing_id, paid_amount } => v.spec_purchase(
            caller,
            listing_id,
            paid_amount,
        ).1 is Err,
        BazaarOp::EditPrice { caller, listing_id, new_price } => v.spec_edit_price(
            caller,
            listing_id,
            new_price,
        ).1 is Err,
        BazaarOp::Cancel { caller, listing_id } => v.spec_cancel(caller, listing_id).1 is Err,
        BazaarOp::EmergencyCancel { caller, listing_id } => v.spec_emergency_cancel(
            caller,
            listing_id,
        ).1 is Err,
        BazaarOp::UpdatePlatformFee { caller, new_fee_bps } => v.spec_update_platform_fee(
            caller,
            new_fee_bps,
        ).1 is Err,
        BazaarOp::SetPaused { caller, state } => v.spec_set_paused(caller, state).1 is Err,
        BazaarOp::TransferOwnership { caller, new_admin } => v.spec_transfer_ownership(
            caller,
            new_admin,
        ).1 is Err,
    }
}

/// The caller the request names, as an authenticated identity would be.
pub open spec fn op_caller(op: BazaarOp) -> u128 {
    match op {
        BazaarOp::ListNft { caller, .. } => caller,
        BazaarOp::Purchase { caller, .. } => caller,
        BazaarOp::EditPrice { caller, .. } => caller,
        BazaarOp::Cancel { caller, .. } => caller,
        BazaarOp::EmergencyCancel { caller, .. } => caller,
        BazaarOp::UpdatePlatformFee { caller, .. } => caller,
        BazaarOp::SetPaused { caller, .. } => caller,
        BazaarOp::TransferOwnership { caller, .. } => caller,
    }
}

/// A refused request leaves the whole marketplace unchanged: no record, no
/// role and no event survives a failed call.
pub proof fn lemma_refused_request_changes_nothing(v: BazaarView, op: BazaarOp)
    requires
        op_refused(v, op),
    ensures
        apply_op(v, op) == v,
{
}

/// Every request by an authenticated (nonzero) caller preserves the
/// marketplace's well-formedness: the fee rate stays capped and every stored
/// record keeps its positional id, positive price, real lister, terminal
/// flags in step, and a buyer only once sold.
pub proof fn lemma_requests_preserve_wellformedness(v: BazaarView, op: BazaarOp)
    requires
        v.inv(),
        v.listings.len() < u128::MAX,
        op_caller(op) != crate::bazaar::NO_IDENTITY,
    ensures
        apply_op(v, op).inv(),
{
    let v2 = apply_op(v, op);
    assert forall|i: int| 0 <= i < v2.listings.len() implies {
        let l = #[trigger] v2.listings[i];
        &&& l.listing_id == i + 1
        &&& l.price > 0
        &&& l.lister != crate::bazaar::NO_IDENTITY
        &&& l.finalized == l.sold
        &&& (!l.sold ==> l.buyer == crate::bazaar::NO_IDENTITY)
    } by {
        if i < v.listings.len() {
            assert(v.listings[i].listing_id == i + 1);
            match op {
                BazaarOp::Purchase { listing_id, .. }
                | BazaarOp::EditPrice { listing_id, .. }
                | BazaarOp::Cancel { listing_id, .. }
                | BazaarOp::EmergencyCancel { listing_id, .. } => {
                    if v.created(listing_id) {
                        assert(v.listings[listing_id - 1].listing_id == listing_id);
                    }
                },
                _ => {},
            }
        }
    }
}

/// No request ever removes a listing record, and only a creation adds one:
/// the ledger only grows, one record at a time.
pub proof fn lemma_op_keeps_history(v: BazaarView, op: BazaarOp)
    ensures
        apply_op(v, op).listings.len() >= v.listings.len(),
        apply_op(v, op).listings.len() <= v.listings.len() + 1,
{
}

/// Listing ids are strictly increasing across repeated creations, whatever
/// requests (purchases, cancellations, edits, admin changes) come between
/// them: the second creation returns a strictly larger id than the first.
pub proof fn lemma_listing_ids_strictly_increase(
    v: BazaarView,
    caller1: u128,
    nft_contract1: u128,
    token_id1: u128,
    price1: u128,
    between: Seq<BazaarOp>,
    caller2: u128,
    nft_contract2: u128,
    token_id2: u128,
    price2: u128,
)
    requires
        v.listings.len() + between.len() + 2 <= u128::MAX,
    ensures
        ({
            let (v1, first) = v.spec_list_nft(caller1, nft_contract1, token_id1, price1);
            let v2 = apply_ops(v1, between);
            let second = v2.spec_list_nft(caller2, nft_contract2, token_id2, price2).1;
            first matches Ok(first_id) ==> (second matches Ok(second_id) ==> second_id
                > first_id)
        }),
{
    let (v1, first) = v.spec_list_nft(caller1, nft_contract1, token_id1, price1);
    lemma_ops_keep_history(v1, between);
    let v2 = apply_ops(v1, between);
    let second = v2.spec_list_nft(caller2, nft_contract2, token_id2, price2).1;
    if first is Ok && second is Ok {
        assert(v1.listings.len() == v.listings.len() + 1);
        assert(v.listings.len() + 1 <= v2.listings.len() <= v.listings.len() + 1
            + between.len());
        assert(first == Ok::<u128, BazaarError>((v.listings.len() + 1) as u128));
        assert(second == Ok::<u128, BazaarError>((v2.listings.len() + 1) as u128));
        assert((v2.listings.len() + 1) as u128 > (v.listings.len() + 1) as u128);
    }
}

/// [`lemma_op_keeps_history`], extended over a whole request sequence.
pub proof fn lemma_ops_keep_history(v: BazaarView, ops: Seq<BazaarOp>)
    ensures
        apply_ops(v, ops).listings.len() >= v.listings.len(),
        apply_ops(v, ops).listings.len() <= v.listings.len() + ops.len(),
    decreases ops.len(),
{
    if ops.len() > 0 {
        lemma_op_keeps_history(v, ops[0]);
        lemma_ops_keep_history(apply_op(v, ops[0]), ops.drop_first());
    }
}

} // verus!
