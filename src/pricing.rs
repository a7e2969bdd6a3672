use vstd::prelude::*;

use crate::book::Book;
use crate::events::Side;

verus! {

/// Ticks of the full notional: what a YES share and a NO share are worth together.
pub const NOTIONAL_TICKS: u16 = 1000;

/// `v` clamped to `[lo, hi]`.
pub open spec fn clamp(v: int, lo: int, hi: int) -> int {
    if v < lo {
        lo
    } else if v > hi {
        hi
    } else {
        v
    }
}

/// Highest bid that still leaves `margin` ticks per completed pair against the
/// opposite ask; 0 when the opposite ask is unknown.
pub open spec fn max_bid_for(opposite_ask: Option<u16>, margin: u16) -> int {
    match opposite_ask {
        None => 0,
        Some(a) => clamp(NOTIONAL_TICKS - a - margin, 0, NOTIONAL_TICKS as int),
    }
}

/// The highest price worth bidding on `side`: `1000 - opposite ask - margin`,
/// clamped to `[0, 1000]`, or 0 without an opposite ask to hedge against.
pub fn calc_max_bid(side: Side, book: &Book, margin_ticks: u16) -> (r: u16)
    ensures
        r == max_bid_for(book.spec_best_ask(side.spec_opposite()), margin_ticks),
        r <= NOTIONAL_TICKS,
{
    let opposite_ask = match book.opposite_ask(side) {
        Some(ask) => ask,
        None => return 0,
    };
    NOTIONAL_TICKS.saturating_sub(opposite_ask).saturating_sub(margin_ticks)
}

} // verus!
