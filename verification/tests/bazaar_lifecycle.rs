//! The listing lifecycle: creation, purchase, edits, cancellation, the admin
//! operations, and the query surface.

use nft_bazaar::bazaar::{BazaarError, BazaarEvent, NFTBazaar};
use nft_bazaar::fees::fee_split;

const ADMIN: u128 = 0xAD;
const ALICE: u128 = 0xA11CE;
const BOB: u128 = 0xB0B;

fn initialized(fee_bps: u128) -> NFTBazaar {
    let mut m = NFTBazaar::new();
    m.initialize(ADMIN, fee_bps).expect("fee rate within the cap");
    m
}

#[test]
fn fee_cap_refused_and_rate_unchanged() {
    let mut m = NFTBazaar::new();
    assert_eq!(m.initialize(ADMIN, 1001), Err(BazaarError::InvalidFee));
    assert_eq!(m.get_fee_bps(), 0);

    let mut m = initialized(250);
    assert_eq!(m.update_platform_fee(ADMIN, 1001), Err(BazaarError::FeeTooHigh));
    assert_eq!(m.get_fee_bps(), 250);
    assert_eq!(m.update_platform_fee(ADMIN, 10_000), Err(BazaarError::FeeTooHigh));
    assert_eq!(m.get_fee_bps(), 250);

    assert_eq!(m.update_platform_fee(ALICE, 100), Err(BazaarError::NotAdmin));
    assert_eq!(m.get_fee_bps(), 250);
    assert_eq!(m.update_platform_fee(ADMIN, 1000), Ok(()));
    assert_eq!(m.get_fee_bps(), 1000);
}

#[test]
fn zero_price_refused() {
    let mut m = initialized(250);
    assert_eq!(m.list_nft(ALICE, 77, 5, 0), Err(BazaarError::InvalidPrice));
    assert_eq!(m.get_total_listings(), 0);

    let id = m.list_nft(ALICE, 77, 5, 1000).unwrap();
    assert_eq!(m.edit_price(ALICE, id, 0), Err(BazaarError::InvalidPrice));
    assert_eq!(m.get_listing(id).5, 1000);
}

#[test]
fn created_listing_reads_back_fully() {
    let mut m = initialized(250);
    let id = m.list_nft(ALICE, 77, 5, 1000).unwrap();
    assert_eq!(id, 1);
    assert_eq!(m.get_listing(id), (1, 77, 5, ALICE, 0, 1000, false));
}

#[test]
fn never_created_id_reads_as_zero_record() {
    let m = initialized(250);
    assert_eq!(m.get_listing(42), (0, 0, 0, 0, 0, 0, false));
    assert!(m.get_active_listings().is_empty());
}

#[test]
fn operations_on_a_never_created_id_store_nothing() {
    let mut m = initialized(250);
    assert_eq!(m.purchase(BOB, 9, 100), Err(BazaarError::WrongPayment));
    assert_eq!(m.edit_price(BOB, 9, 100), Err(BazaarError::NotOwner));
    assert_eq!(m.cancel(BOB, 9), Err(BazaarError::NotOwner));
    // The zero record is unsold at price zero, so an exact zero payment is
    // accepted, and the admin override never checks the ledger; neither call
    // stores anything, and the id keeps reading as the zero record.
    assert_eq!(m.purchase(BOB, 9, 0), Ok(()));
    assert_eq!(m.emergency_cancel(ADMIN, 9), Ok(()));
    assert_eq!(m.get_listing(9), (0, 0, 0, 0, 0, 0, false));
    assert_eq!(m.get_total_listings(), 0);
}

#[test]
fn wrong_payment_refused_and_listing_stays_unsold() {
    let mut m = initialized(250);
    let id = m.list_nft(ALICE, 77, 5, 1000).unwrap();
    assert_eq!(m.purchase(BOB, id, 999), Err(BazaarError::WrongPayment));
    assert_eq!(m.purchase(BOB, id, 1001), Err(BazaarError::WrongPayment));
    assert!(!m.get_listing(id).6);
}

#[test]
fn purchase_succeeds_exactly_once() {
    let mut m = initialized(250);
    let id = m.list_nft(ALICE, 77, 5, 1000).unwrap();
    assert_eq!(m.purchase(BOB, id, 1000), Ok(()));
    assert_eq!(m.get_listing(id), (1, 77, 5, ALICE, BOB, 1000, true));
    assert_eq!(m.purchase(BOB, id, 1000), Err(BazaarError::AlreadySold));
    assert_eq!(m.purchase(ALICE, id, 1000), Err(BazaarError::AlreadySold));
}

#[test]
fn fee_math_is_exact_floor_division() {
    assert_eq!(fee_split(10_000, 250), (250, 9750));
    assert_eq!(fee_split(10_001, 250), (250, 9751));
    assert_eq!(fee_split(39, 250), (0, 39));
    assert_eq!(fee_split(0, 250), (0, 0));
    assert_eq!(fee_split(u128::MAX, 1000), (u128::MAX / 10, u128::MAX - u128::MAX / 10));
}

#[test]
fn unauthorized_cancel_changes_nothing() {
    let mut m = initialized(250);
    let id = m.list_nft(ALICE, 77, 5, 1000).unwrap();
    assert_eq!(m.cancel(BOB, id), Err(BazaarError::NotOwner));
    assert_eq!(m.emergency_cancel(BOB, id), Err(BazaarError::NotAdmin));
    assert_eq!(m.get_listing(id), (1, 77, 5, ALICE, 0, 1000, false));
}

#[test]
fn cancel_is_terminal_and_admin_can_override() {
    let mut m = initialized(250);
    let id = m.list_nft(ALICE, 77, 5, 1000).unwrap();
    assert_eq!(m.cancel(ALICE, id), Ok(()));
    assert_eq!(m.purchase(BOB, id, 1000), Err(BazaarError::AlreadySold));
    assert_eq!(m.cancel(ALICE, id), Err(BazaarError::AlreadySold));

    let other = m.list_nft(ALICE, 77, 6, 500).unwrap();
    assert_eq!(m.emergency_cancel(ADMIN, other), Ok(()));
    assert_eq!(m.purchase(BOB, other, 500), Err(BazaarError::AlreadySold));
}

#[test]
fn pause_blocks_trading_but_not_edits_or_cancels() {
    let mut m = initialized(250);
    let id = m.list_nft(ALICE, 77, 5, 1000).unwrap();
    let cancelled = m.list_nft(ALICE, 77, 6, 700).unwrap();

    assert_eq!(m.set_paused(ALICE, true), Err(BazaarError::NotAdmin));
    assert_eq!(m.set_paused(ADMIN, true), Ok(()));

    assert_eq!(m.list_nft(ALICE, 77, 7, 900), Err(BazaarError::Paused));
    assert_eq!(m.purchase(BOB, id, 1000), Err(BazaarError::Paused));
    assert_eq!(m.edit_price(ALICE, id, 1500), Ok(()));
    assert_eq!(m.cancel(ALICE, cancelled), Ok(()));

    assert_eq!(m.set_paused(ADMIN, false), Ok(()));
    assert_eq!(m.purchase(BOB, id, 1500), Ok(()));
}

#[test]
fn active_listings_skip_sold_ids_in_ascending_order() {
    let mut m = initialized(250);
    for token in 1..=5u128 {
        m.list_nft(ALICE, 77, token, 100 * token).unwrap();
    }
    assert_eq!(m.purchase(BOB, 3, 300), Ok(()));
    assert_eq!(m.get_active_listings(), vec![1, 2, 4, 5]);
}

#[test]
fn listing_ids_strictly_increase_despite_cancels() {
    let mut m = initialized(250);
    let first = m.list_nft(ALICE, 77, 1, 100).unwrap();
    assert_eq!(m.cancel(ALICE, first), Ok(()));
    let second = m.list_nft(ALICE, 77, 2, 100).unwrap();
    assert_eq!(m.emergency_cancel(ADMIN, second), Ok(()));
    let third = m.list_nft(BOB, 88, 9, 400).unwrap();
    assert_eq!((first, second, third), (1, 2, 3));
    assert_eq!(m.get_total_listings(), 3);
}

#[test]
fn ownership_transfer_moves_the_admin_role() {
    let mut m = initialized(250);
    assert_eq!(m.transfer_ownership(ALICE, BOB), Err(BazaarError::NotAdmin));
    assert_eq!(m.transfer_ownership(ADMIN, ALICE), Ok(()));
    assert_eq!(m.get_admin(), ALICE);
    assert_eq!(m.set_paused(ADMIN, true), Err(BazaarError::NotAdmin));
    assert_eq!(m.set_paused(ALICE, true), Ok(()));
    assert!(m.is_paused());
}

#[test]
fn each_success_emits_exactly_one_event() {
    let mut m = initialized(250);
    let id = m.list_nft(ALICE, 77, 5, 1000).unwrap();
    assert_eq!(m.edit_price(ALICE, id, 2000), Ok(()));
    assert_eq!(m.purchase(BOB, id, 2000), Ok(()));
    assert_eq!(m.list_nft(ALICE, 77, 6, 100), Ok(2));
    assert_eq!(m.cancel(ALICE, 2), Ok(()));
    assert_eq!(m.update_platform_fee(ADMIN, 300), Ok(()));

    let events = m.get_events();
    assert_eq!(events.len(), 6);
    assert_eq!(
        events[0],
        BazaarEvent::ListingCreated { listing_id: 1, nft_contract: 77, token_id: 5, lister: ALICE, price: 1000 }
    );
    assert_eq!(
        events[1],
        BazaarEvent::PriceUpdated { listing_id: 1, old_price: 1000, new_price: 2000 }
    );
    assert_eq!(
        events[2],
        BazaarEvent::ListingSold {
            listing_id: 1,
            nft_contract: 77,
            token_id: 5,
            lister: ALICE,
            buyer: BOB,
            price: 2000,
        }
    );
    assert_eq!(events[4], BazaarEvent::ListingCancelled { listing_id: 2, lister: ALICE });
    assert_eq!(events[5], BazaarEvent::FeeUpdated { old_fee: 250, new_fee: 300 });
}

#[test]
fn reinitialization_resets_the_ledger_and_reassigns_admin() {
    let mut m = initialized(250);
    m.list_nft(ALICE, 77, 5, 1000).unwrap();
    assert_eq!(m.initialize(BOB, 100), Ok(()));
    assert_eq!(m.get_total_listings(), 0);
    assert_eq!(m.get_admin(), BOB);
    assert_eq!(m.get_fee_bps(), 100);
}

#[test]
fn failed_purchase_before_initialization_matches_zero_state() {
    let mut m = NFTBazaar::new();
    assert_eq!(m.purchase(BOB, 1, 5), Err(BazaarError::WrongPayment));
    assert_eq!(m.list_nft(ALICE, 77, 5, 1000), Ok(1));
}
