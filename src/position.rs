use vstd::prelude::*;

use crate::events::Side;
use crate::fixed::{Fixed, SCALE, abs_int, div_trunc, fits_i64, min_int};

verus! {

/// Ticks paid out per share of the winning side at settlement.
pub const PAYOUT_TICKS: i64 = 1000;

/// Inventory and cost basis per side. Quantities are shares; costs are in
/// ticks times shares. Only fills change it, and only upward.
#[derive(Debug, Clone)]
pub struct Position {
    pub qty_yes: Fixed,
    pub qty_no: Fixed,
    pub cost_yes: Fixed,
    pub cost_no: Fixed,
}

/// Worst-case settlement result in ticks: the matched pairs redeem at the payout,
/// and all that was paid is lost.
pub open spec fn min_pnl_of(qty_yes: int, qty_no: int, cost_yes: int, cost_no: int) -> int {
    min_int(qty_yes, qty_no) * PAYOUT_TICKS - (cost_yes + cost_no)
}

impl Position {
    /// The position that holds nothing.
    pub open spec fn empty() -> Position {
        Position {
            qty_yes: Fixed { micros: 0 },
            qty_no: Fixed { micros: 0 },
            cost_yes: Fixed { micros: 0 },
            cost_no: Fixed { micros: 0 },
        }
    }

    /// Quantities and costs are never negative.
    pub open spec fn wf(&self) -> bool {
        &&& self.qty_yes@ >= 0
        &&& self.qty_no@ >= 0
        &&& self.cost_yes@ >= 0
        &&& self.cost_no@ >= 0
    }

    pub open spec fn spec_qty(&self, side: Side) -> int {
        match side {
            Side::Yes => self.qty_yes@,
            Side::No => self.qty_no@,
        }
    }

    pub open spec fn spec_cost(&self, side: Side) -> int {
        match side {
            Side::Yes => self.cost_yes@,
            Side::No => self.cost_no@,
        }
    }

    pub open spec fn spec_net(&self) -> int {
        self.qty_yes@ - self.qty_no@
    }

    pub open spec fn spec_min_pnl(&self) -> int {
        min_pnl_of(self.qty_yes@, self.qty_no@, self.cost_yes@, self.cost_no@)
    }

    /// The state after a fill of `size` shares on `side` at `price` ticks.
    pub open spec fn filled(self, side: Side, price: u16, size: int) -> Position {
        match side {
            Side::Yes => Position {
                qty_yes: Fixed { micros: (self.qty_yes@ + size) as i64 },
                cost_yes: Fixed { micros: (self.cost_yes@ + size * price) as i64 },
                ..self
            },
            Side::No => Position {
                qty_no: Fixed { micros: (self.qty_no@ + size) as i64 },
                cost_no: Fixed { micros: (self.cost_no@ + size * price) as i64 },
                ..self
            },
        }
    }

    /// A fill of `size` shares on `side` at `price` keeps every amount in range.
    pub open spec fn fill_fits(&self, side: Side, price: u16, size: int) -> bool {
        &&& fits_i64(self.spec_qty(side) + size)
        &&& fits_i64(self.spec_cost(side) + size * price)
    }

    /// The empty position.
    pub fn new() -> (r: Position)
        ensures
            r == Position::empty(),
            r.wf(),
            r.qty_yes@ == 0,
            r.qty_no@ == 0,
            r.cost_yes@ == 0,
            r.cost_no@ == 0,
    {
        Position {
            qty_yes: Fixed::zero(),
            qty_no: Fixed::zero(),
            cost_yes: Fixed::zero(),
            cost_no: Fixed::zero(),
        }
    }

    /// Average price paid per YES share, in ticks; none while no YES share is held.
    pub fn avg_price_yes(&self) -> (r: Option<Fixed>)
        requires
            self.wf(),
            self.qty_yes@ > 0 ==> fits_i64(div_trunc(self.cost_yes@ * SCALE, self.qty_yes@)),
        ensures
            self.qty_yes@ > 0 ==> r == Some(
                Fixed { micros: div_trunc(self.cost_yes@ * SCALE, self.qty_yes@) as i64 },
            ),
            self.qty_yes@ == 0 ==> r is None,
    {
        if self.qty_yes.is_positive() {
            Some(self.cost_yes.ratio(&self.qty_yes))
        } else {
            None
        }
    }

    /// Average price paid per NO share, in ticks; none while no NO share is held.
    pub fn avg_price_no(&self) -> (r: Option<Fixed>)
        requires
            self.wf(),
            self.qty_no@ > 0 ==> fits_i64(div_trunc(self.cost_no@ * SCALE, self.qty_no@)),
        ensures
            self.qty_no@ > 0 ==> r == Some(
                Fixed { micros: div_trunc(self.cost_no@ * SCALE, self.qty_no@) as i64 },
            ),
            self.qty_no@ == 0 ==> r is None,
    {
        if self.qty_no.is_positive() {
            Some(self.cost_no.ratio(&self.qty_no))
        } else {
            None
        }
    }

    /// YES quantity minus NO quantity: positive when heavy on YES.
    pub fn net_position(&self) -> (r: Fixed)
        requires
            self.wf(),
        ensures
            r@ == self.spec_net(),
    {
        self.qty_yes.minus(&self.qty_no)
    }

    /// Absolute difference between the two quantities.
    pub fn imbalance(&self) -> (r: Fixed)
        requires
            self.wf(),
        ensures
            r@ == abs_int(self.spec_net()),
    {
        self.qty_yes.minus(&self.qty_no).abs()
    }

    /// Sum of the two average prices; none unless both sides are held.
    pub fn pair_cost(&self) -> (r: Option<Fixed>)
        requires
            self.wf(),
            self.qty_yes@ > 0 ==> fits_i64(div_trunc(self.cost_yes@ * SCALE, self.qty_yes@)),
            self.qty_no@ > 0 ==> fits_i64(div_trunc(self.cost_no@ * SCALE, self.qty_no@)),
            self.qty_yes@ > 0 && self.qty_no@ > 0 ==> fits_i64(
                div_trunc(self.cost_yes@ * SCALE, self.qty_yes@) + div_trunc(
                    self.cost_no@ * SCALE,
                    self.qty_no@,
                ),
            ),
        ensures
            self.qty_yes@ > 0 && self.qty_no@ > 0 ==> r == Some(
                Fixed {
                    micros: (div_trunc(self.cost_yes@ * SCALE, self.qty_yes@) + div_trunc(
                        self.cost_no@ * SCALE,
                        self.qty_no@,
                    )) as i64,
                },
            ),
            self.qty_yes@ == 0 || self.qty_no@ == 0 ==> r is None,
    {
        match (self.avg_price_yes(), self.avg_price_no()) {
            (Some(y), Some(n)) => Some(y.plus(&n)),
            _ => None,
        }
    }

    /// Guaranteed settlement result in ticks: `min(qty_yes, qty_no) * 1000` minus
    /// the total cost of both sides.
    pub fn min_pnl_ticks(&self) -> (r: Fixed)
        requires
            self.wf(),
            fits_i64(min_int(self.qty_yes@, self.qty_no@) * PAYOUT_TICKS),
            fits_i64(self.cost_yes@ + self.cost_no@),
            fits_i64(self.spec_min_pnl()),
        ensures
            r@ == self.spec_min_pnl(),
    {
        let min_qty = self.qty_yes.min(&self.qty_no);
        let payout = min_qty.times(PAYOUT_TICKS);
        let total_cost = self.cost_yes.plus(&self.cost_no);
        payout.minus(&total_cost)
    }

    /// The guaranteed settlement result in dollars, rounded toward zero to the
    /// nearest millionth.
    pub fn min_pnl_usd(&self) -> (r: Fixed)
        requires
            self.wf(),
            fits_i64(min_int(self.qty_yes@, self.qty_no@) * PAYOUT_TICKS),
            fits_i64(self.cost_yes@ + self.cost_no@),
            fits_i64(self.spec_min_pnl()),
        ensures
            r@ == div_trunc(self.spec_min_pnl(), PAYOUT_TICKS as int),
    {
        self.min_pnl_ticks().div_int(PAYOUT_TICKS)
    }

    /// Adds a fill: the side's quantity grows by `size`, its cost by `price * size`.
    pub fn apply_fill(&mut self, side: Side, price_ticks: u16, size: Fixed)
        requires
            old(self).wf(),
            size@ >= 0,
            old(self).fill_fits(side, price_ticks, size@),
        ensures
            final(self).wf(),
            *final(self) == old(self).filled(side, price_ticks, size@),
            final(self).spec_qty(side) == old(self).spec_qty(side) + size@,
            final(self).spec_cost(side) == old(self).spec_cost(side) + size@ * price_ticks,
            final(self).spec_qty(side.spec_opposite()) == old(self).spec_qty(side.spec_opposite()),
            final(self).spec_cost(side.spec_opposite()) == old(self).spec_cost(
                side.spec_opposite(),
            ),
    {
        proof {
            assert(0 <= size@ * price_ticks) by (nonlinear_arith)
                requires
                    0 <= size@,
            ;
        }
        let cost = size.times(price_ticks as i64);
        match side {
            Side::Yes => {
                self.qty_yes = self.qty_yes.plus(&size);
                self.cost_yes = self.cost_yes.plus(&cost);
            },
            Side::No => {
                self.qty_no = self.qty_no.plus(&size);
                self.cost_no = self.cost_no.plus(&cost);
            },
        }
    }

    pub fn qty(&self, side: Side) -> (r: Fixed)
        ensures
            r@ == self.spec_qty(side),
    {
        match side {
            Side::Yes => self.qty_yes,
            Side::No => self.qty_no,
        }
    }

    /// No share is held on either side.
    pub fn is_empty(&self) -> (r: bool)
        ensures
            r == (self.qty_yes@ == 0 && self.qty_no@ == 0),
    {
        self.qty_yes.is_zero() && self.qty_no.is_zero()
    }

    /// Shares are held on both sides.
    pub fn has_both_sides(&self) -> (r: bool)
        ensures
            r == (self.qty_yes@ > 0 && self.qty_no@ > 0),
    {
        self.qty_yes.is_positive() && self.qty_no.is_positive()
    }

    /// Back to the empty position, as on a market rollover.
    pub fn reset(&mut self)
        ensures
            *final(self) == Position::empty(),
            final(self).wf(),
            final(self).qty_yes@ == 0,
            final(self).qty_no@ == 0,
            final(self).cost_yes@ == 0,
            final(self).cost_no@ == 0,
    {
        self.qty_yes = Fixed::zero();
        self.qty_no = Fixed::zero();
        self.cost_yes = Fixed::zero();
        self.cost_no = Fixed::zero();
    }
}

impl Default for Position {
    fn default() -> (r: Position)
        ensures
            r == Position::empty(),
            r.wf(),
            r.qty_yes@ == 0,
            r.qty_no@ == 0,
            r.cost_yes@ == 0,
            r.cost_no@ == 0,
    {
        Position::new()
    }
}

/// The position after a sequence of fills, each `(side, price, size)`, in order.
pub open spec fn after_fills(start: Position, fills: Seq<(Side, u16, int)>) -> Position
    decreases fills.len(),
{
    if fills.len() == 0 {
        start
    } else {
        let f = fills.last();
        after_fills(start, fills.drop_last()).filled(f.0, f.1, f.2)
    }
}

/// Total size filled on `side`.
pub open spec fn filled_qty(fills: Seq<(Side, u16, int)>, side: Side) -> int
    decreases fills.len(),
{
    if fills.len() == 0 {
        0
    } else {
        let f = fills.last();
        filled_qty(fills.drop_last(), side) + if f.0 == side {
            f.2
        } else {
            0
        }
    }
}

/// Total cost, price times size, filled on `side`.
pub open spec fn filled_cost(fills: Seq<(Side, u16, int)>, side: Side) -> int
    decreases fills.len(),
{
    if fills.len() == 0 {
        0
    } else {
        let f = fills.last();
        filled_cost(fills.drop_last(), side) + if f.0 == side {
            f.2 * f.1
        } else {
            0
        }
    }
}

proof fn lemma_fill_totals_grow(fills: Seq<(Side, u16, int)>, side: Side)
    requires
        forall|j: int| 0 <= j < fills.len() ==> (#[trigger] fills[j]).2 >= 0,
    ensures
        0 <= filled_qty(fills.drop_last(), side) <= filled_qty(fills, side) || fills.len() == 0,
        0 <= filled_cost(fills.drop_last(), side) <= filled_cost(fills, side) || fills.len() == 0,
        filled_qty(fills, side) >= 0,
        filled_cost(fills, side) >= 0,
    decreases fills.len(),
{
    if fills.len() > 0 {
        let t = fills.drop_last();
        assert forall|j: int| 0 <= j < t.len() implies (#[trigger] t[j]).2 >= 0 by {
            assert(t[j] == fills[j]);
        }
        lemma_fill_totals_grow(t, side);
        let f = fills.last();
        assert(f.2 * f.1 >= 0) by (nonlinear_arith)
            requires
                f.2 >= 0,
                f.1 >= 0,
        ;
    }
}

/// Starting from the empty position, any sequence of fills that stays in range
/// holds on each side the sum of what was filled there, so the guaranteed result is
/// `min(qty_yes, qty_no) * 1000 - (cost_yes + cost_no)` over those sums.
pub proof fn lemma_min_pnl_after_fills(fills: Seq<(Side, u16, int)>)
    requires
        forall|j: int| 0 <= j < fills.len() ==> (#[trigger] fills[j]).2 >= 0,
        fits_i64(filled_qty(fills, Side::Yes)),
        fits_i64(filled_qty(fills, Side::No)),
        fits_i64(filled_cost(fills, Side::Yes)),
        fits_i64(filled_cost(fills, Side::No)),
    ensures
        ({
            let p = after_fills(Position::empty(), fills);
            &&& p.wf()
            &&& p.qty_yes@ == filled_qty(fills, Side::Yes)
            &&& p.qty_no@ == filled_qty(fills, Side::No)
            &&& p.cost_yes@ == filled_cost(fills, Side::Yes)
            &&& p.cost_no@ == filled_cost(fills, Side::No)
            &&& p.spec_min_pnl() == min_int(
                filled_qty(fills, Side::Yes),
                filled_qty(fills, Side::No),
            ) * PAYOUT_TICKS - (filled_cost(fills, Side::Yes) + filled_cost(fills, Side::No))
        }),
    decreases fills.len(),
{
    lemma_fill_totals_grow(fills, Side::Yes);
    lemma_fill_totals_grow(fills, Side::No);
    if fills.len() > 0 {
        let t = fills.drop_last();
        assert forall|j: int| 0 <= j < t.len() implies (#[trigger] t[j]).2 >= 0 by {
            assert(t[j] == fills[j]);
        }
        lemma_min_pnl_after_fills(t);
    }
}

} // verus!
