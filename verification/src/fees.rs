//! Platform-fee arithmetic.
//!
//! Fees are quoted in basis points (10000 basis points = 100%) and applied
//! with truncating integer division: `fee = floor(price * fee_bps / 10000)`.
//! The seller receives exactly the remainder, `price - fee`.

use vstd::prelude::*;

verus! {

use vstd::arithmetic::div_mod::lemma_fundamental_div_mod;

/// The largest platform fee rate the marketplace accepts, in basis points (10%).
pub const MAX_FEE_BPS: u128 = 1000;

/// Basis points in the whole: 10000 basis points = 100%.
pub const BPS_DENOMINATOR: u128 = 10000;

/// The platform fee on `price` at rate `fee_bps`, with truncating division.
pub open spec fn spec_fee(price: int, fee_bps: int) -> int {
    price * fee_bps / (BPS_DENOMINATOR as int)
}

/// The fee never exceeds the price while the rate is at most 100%, and the
/// product `price * fee_bps` splits around the denominator, which lets the
/// fee be computed without overflowing the price's own integer width.
proof fn lemma_fee_decomposition(price: int, fee_bps: int)
    requires
        0 <= price,
        0 <= fee_bps <= BPS_DENOMINATOR,
    ensures
        spec_fee(price, fee_bps) == (price / 10000) * fee_bps + (price % 10000) * fee_bps / 10000,
        0 <= spec_fee(price, fee_bps) <= price,
        (price / 10000) * fee_bps <= price,
{
    let q = price / 10000;
    let r = price % 10000;
    lemma_fundamental_div_mod(price, 10000);
    assert(price == 10000 * q + r);
    assert(price * fee_bps == 10000 * (q * fee_bps) + r * fee_bps) by (nonlinear_arith)
        requires price == 10000 * q + r;
    assert(0 <= q * fee_bps) by (nonlinear_arith)
        requires 0 <= q, 0 <= fee_bps;
    assert(0 <= r * fee_bps) by (nonlinear_arith)
        requires 0 <= r, 0 <= fee_bps;
    assert(r * fee_bps / 10000 + q * fee_bps == (r * fee_bps + q * fee_bps * 10000) / 10000) by {
        vstd::arithmetic::div_mod::lemma_hoist_over_denominator(r * fee_bps, q * fee_bps, 10000);
    }
    assert(r * fee_bps + q * fee_bps * 10000 == 10000 * (q * fee_bps) + r * fee_bps) by (nonlinear_arith);
    assert(price * fee_bps <= price * 10000) by (nonlinear_arith)
        requires 0 <= price, fee_bps <= 10000;
    assert(price * fee_bps / 10000 <= price * 10000 / 10000) by {
        vstd::arithmetic::div_mod::lemma_div_is_ordered(
            price * fee_bps,
            price * 10000,
            10000,
        );
    }
    assert(price * 10000 / 10000 == price) by (nonlinear_arith);
    assert(0 <= price * fee_bps) by (nonlinear_arith)
        requires 0 <= price, 0 <= fee_bps;
    assert(0 <= price * fee_bps / 10000) by {
        vstd::arithmetic::div_mod::lemma_div_pos_is_pos(price * fee_bps, 10000);
    }
    assert(q * fee_bps <= q * fee_bps + r * fee_bps / 10000);
}

/// Split a sale price into the platform fee and the seller's revenue.
///
/// The fee is `floor(price * fee_bps / 10000)`; the seller's revenue is the
/// exact remainder. The rate may be anything up to 100%.
pub fn fee_split(price: u128, fee_bps: u128) -> (r: (u128, u128))
    requires
        fee_bps <= BPS_DENOMINATOR,
    ensures
        r.0 == spec_fee(price as int, fee_bps as int),
        r.0 <= price,
        r.1 == price - r.0,
{
    proof {
        lemma_fee_decomposition(price as int, fee_bps as int);
    }
    let q = price / 10000;
    let rem = price % 10000;
    proof {
        assert(q * fee_bps <= price) by (nonlinear_arith)
            requires
                q == price as int / 10000,
                0 <= fee_bps <= 10000,
                (price as int / 10000) * fee_bps <= price as int;
        assert(rem * fee_bps <= 9999 * 10000) by (nonlinear_arith)
            requires rem <= 9999, fee_bps <= 10000;
    }
    let fee = q * fee_bps + (rem * fee_bps) / 10000;
    (fee, price - fee)
}

} // verus!
