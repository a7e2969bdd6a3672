use vstd::prelude::*;

use crate::events::Side;
use crate::fixed::{Fixed, SCALE};
use crate::position::Position;

verus! {

/// Length class of a market epoch.
#[derive(Debug, Clone, Copy, PartialEq, Eq, Structural)]
pub enum MarketDuration {
    FiveMin,
    FifteenMin,
}

impl MarketDuration {
    pub open spec fn spec_total_secs(self) -> int {
        match self {
            MarketDuration::FiveMin => 300,
            MarketDuration::FifteenMin => 900,
        }
    }

    /// Length of the epoch in seconds.
    pub fn total_secs(&self) -> (r: i64)
        ensures
            r == self.spec_total_secs(),
    {
        match self {
            MarketDuration::FiveMin => 300,
            MarketDuration::FifteenMin => 900,
        }
    }
}

/// Order size in whole shares for a five-minute market with `t` seconds left.
pub open spec fn size_5m(t: int) -> int {
    if t > 180 {
        12
    } else if t > 120 {
        11
    } else if t > 60 {
        9
    } else {
        7
    }
}

/// Order size in whole shares for a fifteen-minute market with `t` seconds left.
pub open spec fn size_15m(t: int) -> int {
    if t > 540 {
        24
    } else if t > 360 {
        20
    } else if t > 180 {
        16
    } else {
        12
    }
}

pub open spec fn size_for(t: int, duration: MarketDuration) -> int {
    match duration {
        MarketDuration::FiveMin => size_5m(t),
        MarketDuration::FifteenMin => size_15m(t),
    }
}

/// How far the position leans toward `side`: the net position for YES, its
/// negation for NO.
pub open spec fn exposure(position: Position, side: Side) -> int {
    match side {
        Side::Yes => position.spec_net(),
        Side::No => -position.spec_net(),
    }
}

/// Order size for the time left; it only shrinks as the end nears.
pub fn calc_size(time_remaining_secs: i64, duration: MarketDuration) -> (r: Fixed)
    ensures
        r@ == size_for(time_remaining_secs as int, duration) * SCALE,
{
    match duration {
        MarketDuration::FiveMin => calc_size_5m(time_remaining_secs),
        MarketDuration::FifteenMin => calc_size_15m(time_remaining_secs),
    }
}

/// Size tiers of a five-minute market: 12 above 180 s, 11 above 120 s, 9 above
/// 60 s, then 7.
pub fn calc_size_5m(time_remaining_secs: i64) -> (r: Fixed)
    ensures
        r@ == size_5m(time_remaining_secs as int) * SCALE,
{
    if time_remaining_secs > 180 {
        Fixed::from_int(12)
    } else if time_remaining_secs > 120 {
        Fixed::from_int(11)
    } else if time_remaining_secs > 60 {
        Fixed::from_int(9)
    } else {
        Fixed::from_int(7)
    }
}

/// Size tiers of a fifteen-minute market: 24 above 540 s, 20 above 360 s, 16
/// above 180 s, then 12.
pub fn calc_size_15m(time_remaining_secs: i64) -> (r: Fixed)
    ensures
        r@ == size_15m(time_remaining_secs as int) * SCALE,
{
    if time_remaining_secs > 540 {
        Fixed::from_int(24)
    } else if time_remaining_secs > 360 {
        Fixed::from_int(20)
    } else if time_remaining_secs > 180 {
        Fixed::from_int(16)
    } else {
        Fixed::from_int(12)
    }
}

/// Quoting on `side` is allowed while the position leans toward it by strictly less
/// than `max_position`.
pub fn can_place(side: Side, position: &Position, max_position: Fixed) -> (r: bool)
    requires
        position.wf(),
    ensures
        r == (exposure(*position, side) < max_position@),
{
    let net = position.net_position();
    let side_exposure = match side {
        Side::Yes => net,
        Side::No => net.negate(),
    };
    side_exposure.lt(&max_position)
}

/// The size for the time left, or 0 at the position limit of `side`.
pub fn calc_size_with_limit(
    side: Side,
    position: &Position,
    time_remaining_secs: i64,
    duration: MarketDuration,
    max_position: Fixed,
) -> (r: Fixed)
    requires
        position.wf(),
    ensures
        exposure(*position, side) < max_position@ ==> r@ == size_for(
            time_remaining_secs as int,
            duration,
        ) * SCALE,
        exposure(*position, side) >= max_position@ ==> r@ == 0,
{
    if !can_place(side, position, max_position) {
        return Fixed::zero();
    }
    calc_size(time_remaining_secs, duration)
}

/// Sizes never grow as time runs out.
pub proof fn lemma_size_non_increasing(duration: MarketDuration, earlier: int, later: int)
    requires
        later <= earlier,
    ensures
        size_for(later, duration) <= size_for(earlier, duration),
{
}

} // verus!
