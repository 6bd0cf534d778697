//! The marketplace ledger and its listing lifecycle state machine.
//!
//! The whole marketplace is one explicit value, [`NFTBazaar`]: admin identity,
//! platform fee rate, pause switch, the ledger of listings, and the log of
//! emitted events. Every operation takes the authenticated caller identity
//! (and, for purchases, the attached payment) as explicit arguments and either
//! fails with a [`BazaarError`], leaving the state untouched, or performs one
//! transition and appends exactly one event.
//!
//! Identities and 256-bit chain quantities are modelled as plain `u128`
//! values. The zero identity is the unset sentinel: it marks the buyer of an
//! unsold listing and the fields of a never-created listing, so authenticated
//! callers are required to be nonzero.
//!
//! The abstract model of a marketplace value is [`BazaarView`]; each operation
//! states its exact behaviour as equality with a pure transition function on
//! that model (`spec_initialize`, `spec_purchase`, ...).

use vstd::prelude::*;

use crate::fees::{fee_split, MAX_FEE_BPS};

verus! {

/// The unset identity sentinel.
pub const NO_IDENTITY: u128 = 0;

/// One listing record. Once created it is never deleted; it is mutated only
/// by a purchase (buyer and terminal flags), a price edit (price only), or a
/// cancellation (terminal flags only).
#[derive(Clone, Copy, PartialEq, Eq, Structural, Debug)]
pub struct Listing {
    /// Positive, unique, equal to the record's position in the ledger plus one.
    pub listing_id: u128,
    /// The listed asset's contract.
    pub nft_contract: u128,
    /// The listed asset's token within its contract.
    pub token_id: u128,
    /// Identity of the party that created the listing.
    pub lister: u128,
    /// Identity of the buyer; the unset sentinel until sold, then permanent.
    pub buyer: u128,
    /// Asking price in the smallest currency unit; always positive.
    pub price: u128,
    /// True once the listing is terminal (sold or cancelled); irreversible.
    pub sold: bool,
    /// True exactly when the listing is terminal; tracks `sold`.
    pub finalized: bool,
}

/// The reason an operation was refused. No write survives a refused call.
#[derive(Clone, Copy, PartialEq, Eq, Structural, Debug)]
pub enum BazaarError {
    /// `initialize` was given a fee rate above [`MAX_FEE_BPS`].
    InvalidFee,
    /// `list_nft` or `purchase` was called while the marketplace is paused.
    Paused,
    /// A listing was given a price of zero.
    InvalidPrice,
    /// The listing is already terminal (sold or cancelled).
    AlreadySold,
    /// The attached payment does not equal the asking price exactly.
    WrongPayment,
    /// The caller is not the listing's lister.
    NotOwner,
    /// The caller is not the marketplace admin.
    NotAdmin,
    /// `update_platform_fee` was given a rate above [`MAX_FEE_BPS`].
    FeeTooHigh,
}

/// One event, appended to the log by each successful transition.
#[derive(Clone, Copy, PartialEq, Eq, Structural, Debug)]
pub enum BazaarEvent {
    ListingCreated { listing_id: u128, nft_contract: u128, token_id: u128, lister: u128, price: u128 },
    ListingSold { listing_id: u128, nft_contract: u128, token_id: u128, lister: u128, buyer: u128, price: u128 },
    PriceUpdated { listing_id: u128, old_price: u128, new_price: u128 },
    ListingCancelled { listing_id: u128, lister: u128 },
    EmergencyDelisting { listing_id: u128, admin: u128 },
    FeeUpdated { old_fee: u128, new_fee: u128 },
    PauseToggled { paused: bool },
    OwnershipTransferred { old_admin: u128, new_admin: u128 },
}

/// The record that a never-created listing id reads as.
pub open spec fn zero_listing() -> Listing {
    Listing {
        listing_id: 0,
        nft_contract: 0,
        token_id: 0,
        lister: NO_IDENTITY,
        buyer: NO_IDENTITY,
        price: 0,
        sold: false,
        finalized: false,
    }
}

/// The abstract state of a marketplace: what the contracts speak about.
#[verifier::ext_equal]
pub struct BazaarView {
    pub admin: u128,
    pub platform_fee_bps: u128,
    pub paused: bool,
    /// The ledger: the listing with id `i + 1` sits at position `i`.
    pub listings: Seq<Listing>,
    /// Every event emitted so far, oldest first.
    pub events: Seq<BazaarEvent>,
}

impl BazaarView {
    /// How many listings were ever created; ids run from 1 to this count.
    pub open spec fn total_listings(self) -> int {
        self.listings.len() as int
    }

    /// Whether `listing_id` was ever assigned by a creation.
    pub open spec fn created(self, listing_id: u128) -> bool {
        1 <= listing_id <= self.listings.len()
    }

    /// The record stored under `listing_id`; the zero record if never created.
    pub open spec fn listing_rec(self, listing_id: u128) -> Listing {
        if self.created(listing_id) {
            self.listings[listing_id as int - 1]
        } else {
            zero_listing()
        }
    }

    /// Well-formedness of the marketplace state: the fee rate is capped, and
    /// every stored record has its positional id, a positive price, a real
    /// lister, terminal flags in step, and a buyer only once sold.
    pub open spec fn inv(self) -> bool {
        &&& self.platform_fee_bps <= MAX_FEE_BPS
        &&& forall|i: int|
            0 <= i < self.listings.len() ==> {
                let l = #[trigger] self.listings[i];
                &&& l.listing_id == i + 1
                &&& l.price > 0
                &&& l.lister != NO_IDENTITY
                &&& l.finalized == l.sold
                &&& (!l.sold ==> l.buyer == NO_IDENTITY)
            }
    }

    /// `self` with one more event appended to the log.
    pub open spec fn with_event(self, e: BazaarEvent) -> BazaarView {
        BazaarView { events: self.events.push(e), ..self }
    }

    /// One-time setup (not guarded against repetition): cap the fee rate,
    /// make the caller admin, and reset counter and pause switch.
    pub open spec fn spec_initialize(self, caller: u128, fee_bps: u128) -> (BazaarView, Result<
        (),
        BazaarError,
    >) {
        if fee_bps > MAX_FEE_BPS {
            (self, Err(BazaarError::InvalidFee))
        } else {
            (
                BazaarView {
                    admin: caller,
                    platform_fee_bps: fee_bps,
                    paused: false,
                    listings: Seq::empty(),
                    events: self.events,
                },
                Ok(()),
            )
        }
    }

    /// Create a listing: allocate the next id, store the full record, and
    /// emit `ListingCreated`.
    pub open spec fn spec_list_nft(
        self,
        caller: u128,
        nft_contract: u128,
        token_id: u128,
        price: u128,
    ) -> (BazaarView, Result<u128, BazaarError>) {
        if self.paused {
            (self, Err(BazaarError::Paused))
        } else if price == 0 {
            (self, Err(BazaarError::InvalidPrice))
        } else {
            let new_id = (self.listings.len() + 1) as u128;
            let rec = Listing {
                listing_id: new_id,
                nft_contract,
                token_id,
                lister: caller,
                buyer: NO_IDENTITY,
                price,
                sold: false,
                finalized: false,
            };
            (
                BazaarView { listings: self.listings.push(rec), ..self }.with_event(
                    BazaarEvent::ListingCreated {
                        listing_id: new_id,
                        nft_contract,
                        token_id,
                        lister: caller,
                        price,
                    },
                ),
                Ok(new_id),
            )
        }
    }

    /// Purchase: exact payment only, first come first served, and the record
    /// becomes terminal with the buyer set before `ListingSold` is emitted.
    /// A never-created id reads as the zero record, so its checks run against
    /// that record and a success against it stores nothing.
    pub open spec fn spec_purchase(self, caller: u128, listing_id: u128, paid_amount: u128) -> (
        BazaarView,
        Result<(), BazaarError>,
    ) {
        let rec = self.listing_rec(listing_id);
        if self.paused {
            (self, Err(BazaarError::Paused))
        } else if rec.sold {
            (self, Err(BazaarError::AlreadySold))
        } else if paid_amount != rec.price {
            (self, Err(BazaarError::WrongPayment))
        } else {
            let sold_rec = Listing { buyer: caller, sold: true, finalized: true, ..rec };
            let stored = if self.created(listing_id) {
                self.listings.update(listing_id as int - 1, sold_rec)
            } else {
                self.listings
            };
            (
                BazaarView { listings: stored, ..self }.with_event(
                    BazaarEvent::ListingSold {
                        listing_id,
                        nft_contract: rec.nft_contract,
                        token_id: rec.token_id,
                        lister: rec.lister,
                        buyer: caller,
                        price: rec.price,
                    },
                ),
                Ok(()),
            )
        }
    }

    /// Price edit: lister only, pre-sale only, positive prices only.
    pub open spec fn spec_edit_price(self, caller: u128, listing_id: u128, new_price: u128) -> (
        BazaarView,
        Result<(), BazaarError>,
    ) {
        let rec = self.listing_rec(listing_id);
        if caller != rec.lister {
            (self, Err(BazaarError::NotOwner))
        } else if rec.sold {
            (self, Err(BazaarError::AlreadySold))
        } else if new_price == 0 {
            (self, Err(BazaarError::InvalidPrice))
        } else {
            let stored = if self.created(listing_id) {
                self.listings.update(listing_id as int - 1, Listing { price: new_price, ..rec })
            } else {
                self.listings
            };
            (
                BazaarView { listings: stored, ..self }.with_event(
                    BazaarEvent::PriceUpdated { listing_id, old_price: rec.price, new_price },
                ),
                Ok(()),
            )
        }
    }

    /// Cancellation by the lister: the record becomes terminal with no buyer.
    pub open spec fn spec_cancel(self, caller: u128, listing_id: u128) -> (BazaarView, Result<
        (),
        BazaarError,
    >) {
        let rec = self.listing_rec(listing_id);
        if caller != rec.lister {
            (self, Err(BazaarError::NotOwner))
        } else if rec.sold {
            (self, Err(BazaarError::AlreadySold))
        } else {
            let stored = if self.created(listing_id) {
                self.listings.update(
                    listing_id as int - 1,
                    Listing { sold: true, finalized: true, ..rec },
                )
            } else {
                self.listings
            };
            (
                BazaarView { listings: stored, ..self }.with_event(
                    BazaarEvent::ListingCancelled { listing_id, lister: caller },
                ),
                Ok(()),
            )
        }
    }

    /// Admin override: force the record terminal with no further checks.
    /// A never-created id stays unstored and keeps reading as the zero record.
    pub open spec fn spec_emergency_cancel(self, caller: u128, listing_id: u128) -> (
        BazaarView,
        Result<(), BazaarError>,
    ) {
        if caller != self.admin {
            (self, Err(BazaarError::NotAdmin))
        } else {
            let rec = self.listing_rec(listing_id);
            let stored = if self.created(listing_id) {
                self.listings.update(
                    listing_id as int - 1,
                    Listing { sold: true, finalized: true, ..rec },
                )
            } else {
                self.listings
            };
            (
                BazaarView { listings: stored, ..self }.with_event(
                    BazaarEvent::EmergencyDelisting { listing_id, admin: caller },
                ),
                Ok(()),
            )
        }
    }

    /// Admin-only fee change, capped at [`MAX_FEE_BPS`].
    pub open spec fn spec_update_platform_fee(self, caller: u128, new_fee_bps: u128) -> (
        BazaarView,
        Result<(), BazaarError>,
    ) {
        if caller != self.admin {
            (self, Err(BazaarError::NotAdmin))
        } else if new_fee_bps > MAX_FEE_BPS {
            (self, Err(BazaarError::FeeTooHigh))
        } else {
            (
                BazaarView { platform_fee_bps: new_fee_bps, ..self }.with_event(
                    BazaarEvent::FeeUpdated {
                        old_fee: self.platform_fee_bps,
                        new_fee: new_fee_bps,
                    },
                ),
                Ok(()),
            )
        }
    }

    /// Admin-only pause switch; no automatic recovery.
    pub open spec fn spec_set_paused(self, caller: u128, state: bool) -> (BazaarView, Result<
        (),
        BazaarError,
    >) {
        if caller != self.admin {
            (self, Err(BazaarError::NotAdmin))
        } else {
            (
                BazaarView { paused: state, ..self }.with_event(
                    BazaarEvent::PauseToggled { paused: state },
                ),
                Ok(()),
            )
        }
    }

    /// Admin-only handover of the admin role.
    pub open spec fn spec_transfer_ownership(self, caller: u128, new_admin: u128) -> (
        BazaarView,
        Result<(), BazaarError>,
    ) {
        if caller != self.admin {
            (self, Err(BazaarError::NotAdmin))
        } else {
            (
                BazaarView { admin: new_admin, ..self }.with_event(
                    BazaarEvent::OwnershipTransferred { old_admin: caller, new_admin },
                ),
                Ok(()),
            )
        }
    }
}

/// The ids of the unsold listings in `listings`, in ledger (ascending) order.
pub open spec fn active_ids(listings: Seq<Listing>) -> Seq<u128>
    decreases listings.len(),
{
    if listings.len() == 0 {
        Seq::empty()
    } else {
        let prefix = active_ids(listings.drop_last());
        if listings.last().sold {
            prefix
        } else {
            prefix.push(listings.last().listing_id)
        }
    }
}

/// The marketplace singleton. See the module documentation.
pub struct NFTBazaar {
    admin: u128,
    platform_fee_bps: u128,
    paused: bool,
    listings: Vec<Listing>,
    events: Vec<BazaarEvent>,
}

impl View for NFTBazaar {
    type V = BazaarView;

    closed spec fn view(&self) -> BazaarView {
        BazaarView {
            admin: self.admin,
            platform_fee_bps: self.platform_fee_bps,
            paused: self.paused,
            listings: self.listings@,
            events: self.events@,
        }
    }
}

impl NFTBazaar {
    /// A marketplace that no one has initialized yet: no admin, no fee, no
    /// listings, not paused.
    pub fn new() -> (r: NFTBazaar)
        ensures
            r@.admin == NO_IDENTITY,
            r@.platform_fee_bps == 0,
            !r@.paused,
            r@.listings == Seq::<Listing>::empty(),
            r@.events == Seq::<BazaarEvent>::empty(),
            r@.inv(),
    {
        NFTBazaar {
            admin: NO_IDENTITY,
            platform_fee_bps: 0,
            paused: false,
            listings: Vec::new(),
            events: Vec::new(),
        }
    }

    /// One-time setup with the platform fee rate; the caller becomes admin.
    /// Deliberately not guarded against repetition: calling it again resets
    /// the ledger and hands the admin role to the new caller.
    pub fn initialize(&mut self, caller: u128, fee_bps: u128) -> (r: Result<(), BazaarError>)
        requires
            old(self)@.inv(),
            caller != NO_IDENTITY,
        ensures
            final(self)@.inv(),
            (final(self)@, r) == old(self)@.spec_initialize(caller, fee_bps),
    {
        if fee_bps > MAX_FEE_BPS {
            return Err(BazaarError::InvalidFee);
        }
        self.admin = caller;
        self.platform_fee_bps = fee_bps;
        self.paused = false;
        self.listings = Vec::new();
        proof {
            assert(self@ =~= old(self)@.spec_initialize(caller, fee_bps).0);
        }
        Ok(())
    }

    /// The stored record under `listing_id`, or the zero record if that id
    /// was never created.
    fn read_listing(&self, listing_id: u128) -> (rec: Listing)
        ensures
            rec == self@.listing_rec(listing_id),
    {
        if 1 <= listing_id && listing_id <= self.listings.len() as u128 {
            self.listings[(listing_id - 1) as usize]
        } else {
            Listing {
                listing_id: 0,
                nft_contract: 0,
                token_id: 0,
                lister: NO_IDENTITY,
                buyer: NO_IDENTITY,
                price: 0,
                sold: false,
                finalized: false,
            }
        }
    }

    /// Create a listing for the asset `(nft_contract, token_id)` at `price`
    /// and return its freshly allocated id, the next value of the strictly
    /// increasing counter. Refused while paused, and for a zero price.
    pub fn list_nft(&mut self, caller: u128, nft_contract: u128, token_id: u128, price: u128) -> (r:
        Result<u128, BazaarError>)
        requires
            old(self)@.inv(),
            caller != NO_IDENTITY,
        ensures
            final(self)@.inv(),
            (final(self)@, r) == old(self)@.spec_list_nft(caller, nft_contract, token_id, price),
    {
        if self.paused {
            return Err(BazaarError::Paused);
        }
        if price == 0 {
            return Err(BazaarError::InvalidPrice);
        }
        let new_id = self.listings.len() as u128 + 1;
        let rec = Listing {
            listing_id: new_id,
            nft_contract,
            token_id,
            lister: caller,
            buyer: NO_IDENTITY,
            price,
            sold: false,
            finalized: false,
        };
        self.listings.push(rec);
        self.events.push(
            BazaarEvent::ListingCreated { listing_id: new_id, nft_contract, token_id, lister: caller, price },
        );
        proof {
            assert(self@ =~= old(self)@.spec_list_nft(caller, nft_contract, token_id, price).0);
        }
        Ok(new_id)
    }

    /// Purchase the listing against an exact attached payment. On success the
    /// caller is recorded as buyer, the record is terminal, and the platform
    /// fee and seller revenue are computed (for bookkeeping; the core moves
    /// no funds) before `ListingSold` is emitted.
    pub fn purchase(&mut self, caller: u128, listing_id: u128, paid_amount: u128) -> (r: Result<
        (),
        BazaarError,
    >)
        requires
            old(self)@.inv(),
            caller != NO_IDENTITY,
        ensures
            final(self)@.inv(),
            (final(self)@, r) == old(self)@.spec_purchase(caller, listing_id, paid_amount),
    {
        if self.paused {
            return Err(BazaarError::Paused);
        }
        let rec = self.read_listing(listing_id);
        if rec.sold {
            return Err(BazaarError::AlreadySold);
        }
        if paid_amount != rec.price {
            return Err(BazaarError::WrongPayment);
        }
        let (_fee, _seller_revenue) = fee_split(rec.price, self.platform_fee_bps);
        if 1 <= listing_id && listing_id <= self.listings.len() as u128 {
            let i = (listing_id - 1) as usize;
            self.listings[i].buyer = caller;
            self.listings[i].sold = true;
            self.listings[i].finalized = true;
        }
        self.events.push(
            BazaarEvent::ListingSold {
                listing_id,
                nft_contract: rec.nft_contract,
                token_id: rec.token_id,
                lister: rec.lister,
                buyer: caller,
                price: rec.price,
            },
        );
        proof {
            assert(self@ =~= old(self)@.spec_purchase(caller, listing_id, paid_amount).0);
        }
        Ok(())
    }

    /// Change the asking price: lister only, pre-sale only, positive only.
    pub fn edit_price(&mut self, caller: u128, listing_id: u128, new_price: u128) -> (r: Result<
        (),
        BazaarError,
    >)
        requires
            old(self)@.inv(),
            caller != NO_IDENTITY,
        ensures
            final(self)@.inv(),
            (final(self)@, r) == old(self)@.spec_edit_price(caller, listing_id, new_price),
    {
        let rec = self.read_listing(listing_id);
        if caller != rec.lister {
            return Err(BazaarError::NotOwner);
        }
        if rec.sold {
            return Err(BazaarError::AlreadySold);
        }
        if new_price == 0 {
            return Err(BazaarError::InvalidPrice);
        }
        if 1 <= listing_id && listing_id <= self.listings.len() as u128 {
            let i = (listing_id - 1) as usize;
            self.listings[i].price = new_price;
        }
        self.events.push(
            BazaarEvent::PriceUpdated { listing_id, old_price: rec.price, new_price },
        );
        proof {
            assert(self@ =~= old(self)@.spec_edit_price(caller, listing_id, new_price).0);
        }
        Ok(())
    }

    /// Cancel the listing: lister only, and only before it is terminal. The
    /// record stays in the ledger, terminal with no buyer.
    pub fn cancel(&mut self, caller: u128, listing_id: u128) -> (r: Result<(), BazaarError>)
        requires
            old(self)@.inv(),
            caller != NO_IDENTITY,
        ensures
            final(self)@.inv(),
            (final(self)@, r) == old(self)@.spec_cancel(caller, listing_id),
    {
        let rec = self.read_listing(listing_id);
        if caller != rec.lister {
            return Err(BazaarError::NotOwner);
        }
        if rec.sold {
            return Err(BazaarError::AlreadySold);
        }
        if 1 <= listing_id && listing_id <= self.listings.len() as u128 {
            let i = (listing_id - 1) as usize;
            self.listings[i].sold = true;
            self.listings[i].finalized = true;
        }
        self.events.push(BazaarEvent::ListingCancelled { listing_id, lister: caller });
        proof {
            assert(self@ =~= old(self)@.spec_cancel(caller, listing_id).0);
        }
        Ok(())
    }

    /// Admin override: force the listing terminal regardless of its state.
    pub fn emergency_cancel(&mut self, caller: u128, listing_id: u128) -> (r: Result<
        (),
        BazaarError,
    >)
        requires
            old(self)@.inv(),
            caller != NO_IDENTITY,
        ensures
            final(self)@.inv(),
            (final(self)@, r) == old(self)@.spec_emergency_cancel(caller, listing_id),
    {
        if caller != self.admin {
            return Err(BazaarError::NotAdmin);
        }
        if 1 <= listing_id && listing_id <= self.listings.len() as u128 {
            let i = (listing_id - 1) as usize;
            self.listings[i].sold = true;
            self.listings[i].finalized = true;
        }
        self.events.push(BazaarEvent::EmergencyDelisting { listing_id, admin: caller });
        proof {
            assert(self@ =~= old(self)@.spec_emergency_cancel(caller, listing_id).0);
        }
        Ok(())
    }

    /// Admin-only change of the platform fee rate, capped at [`MAX_FEE_BPS`].
    pub fn update_platform_fee(&mut self, caller: u128, new_fee_bps: u128) -> (r: Result<
        (),
        BazaarError,
    >)
        requires
            old(self)@.inv(),
            caller != NO_IDENTITY,
        ensures
            final(self)@.inv(),
            (final(self)@, r) == old(self)@.spec_update_platform_fee(caller, new_fee_bps),
    {
        if caller != self.admin {
            return Err(BazaarError::NotAdmin);
        }
        if new_fee_bps > MAX_FEE_BPS {
            return Err(BazaarError::FeeTooHigh);
        }
        let old_fee = self.platform_fee_bps;
        self.platform_fee_bps = new_fee_bps;
        self.events.push(BazaarEvent::FeeUpdated { old_fee, new_fee: new_fee_bps });
        proof {
            assert(self@ =~= old(self)@.spec_update_platform_fee(caller, new_fee_bps).0);
        }
        Ok(())
    }

    /// Admin-only pause switch. While paused, creation and purchase are
    /// blocked; edits, cancellations and admin operations stay permitted.
    pub fn set_paused(&mut self, caller: u128, state: bool) -> (r: Result<(), BazaarError>)
        requires
            old(self)@.inv(),
            caller != NO_IDENTITY,
        ensures
            final(self)@.inv(),
            (final(self)@, r) == old(self)@.spec_set_paused(caller, state),
    {
        if caller != self.admin {
            return Err(BazaarError::NotAdmin);
        }
        self.paused = state;
        self.events.push(BazaarEvent::PauseToggled { paused: state });
        proof {
            assert(self@ =~= old(self)@.spec_set_paused(caller, state).0);
        }
        Ok(())
    }

    /// Admin-only handover of the admin role to `new_admin`.
    pub fn transfer_ownership(&mut self, caller: u128, new_admin: u128) -> (r: Result<
        (),
        BazaarError,
    >)
        requires
            old(self)@.inv(),
            caller != NO_IDENTITY,
        ensures
            final(self)@.inv(),
            (final(self)@, r) == old(self)@.spec_transfer_ownership(caller, new_admin),
    {
        if caller != self.admin {
            return Err(BazaarError::NotAdmin);
        }
        self.admin = new_admin;
        self.events.push(
            BazaarEvent::OwnershipTransferred { old_admin: caller, new_admin },
        );
        proof {
            assert(self@ =~= old(self)@.spec_transfer_ownership(caller, new_admin).0);
        }
        Ok(())
    }

    /// Read-only snapshot of a listing as the tuple `(listing_id,
    /// nft_contract, token_id, lister, buyer, price, sold)`. A never-created
    /// id yields the zero-valued record; no failure.
    pub fn get_listing(&self, listing_id: u128) -> (r: (u128, u128, u128, u128, u128, u128, bool))
        ensures
            r == ({
                let rec = self@.listing_rec(listing_id);
                (
                    rec.listing_id,
                    rec.nft_contract,
                    rec.token_id,
                    rec.lister,
                    rec.buyer,
                    rec.price,
                    rec.sold,
                )
            }),
    {
        let rec = self.read_listing(listing_id);
        (rec.listing_id, rec.nft_contract, rec.token_id, rec.lister, rec.buyer, rec.price, rec.sold)
    }

    /// The ids of all unsold listings, in ascending id order, by a full scan
    /// of the ledger.
    pub fn get_active_listings(&self) -> (ids: Vec<u128>)
        ensures
            ids@ == active_ids(self@.listings),
    {
        let mut ids: Vec<u128> = Vec::new();
        let n = self.listings.len();
        let mut i: usize = 0;
        while i < n
            invariant
                i <= n,
                n == self.listings@.len(),
                ids@ == active_ids(self.listings@.take(i as int)),
            decreases n - i,
        {
            let rec = self.listings[i];
            if !rec.sold {
                ids.push(rec.listing_id);
            }
            proof {
                let taken = self.listings@.take(i + 1);
                assert(taken.drop_last() =~= self.listings@.take(i as int));
                assert(taken.last() == self.listings@[i as int]);
            }
            i += 1;
        }
        proof {
            assert(self.listings@.take(n as int) =~= self.listings@);
        }
        ids
    }

    /// The current platform fee rate in basis points.
    pub fn get_fee_bps(&self) -> (r: u128)
        ensures
            r == self@.platform_fee_bps,
    {
        self.platform_fee_bps
    }

    /// How many listings were ever created (terminal ones included).
    pub fn get_total_listings(&self) -> (r: u128)
        ensures
            r == self@.total_listings(),
    {
        self.listings.len() as u128
    }

    /// The current admin identity.
    pub fn get_admin(&self) -> (r: u128)
        ensures
            r == self@.admin,
    {
        self.admin
    }

    /// Whether the marketplace is paused.
    pub fn is_paused(&self) -> (r: bool)
        ensures
            r == self@.paused,
    {
        self.paused
    }

    /// The events emitted so far, oldest first.
    pub fn get_events(&self) -> (r: &Vec<BazaarEvent>)
        ensures
            r@ == self@.events,
    {
        &self.events
    }

}

} // verus!
