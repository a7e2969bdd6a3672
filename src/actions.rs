use vstd::prelude::*;

use crate::events::Side;
use crate::fixed::Fixed;

verus! {

/// An order action for the exchange, produced by reconciliation and carried out once.
#[derive(Debug, Clone, PartialEq, Eq)]
pub enum Action {
    /// Rest a limit order (maker) at `price` ticks.
    Place { side: Side, price: u16, size: Fixed },
    /// Cancel one resting order.
    Cancel { order_id: String },
    /// Cancel every resting order on both sides.
    CancelAll,
    /// Cross the spread (taker), paying at most `max_price` ticks.
    Take { side: Side, size: Fixed, max_price: u16 },
}

impl Action {
    pub fn place(side: Side, price: u16, size: Fixed) -> (r: Action)
        ensures
            r == (Action::Place { side, price, size }),
    {
        Action::Place { side, price, size }
    }

    pub fn cancel(order_id: &str) -> (r: Action)
        ensures
            r matches Action::Cancel { order_id: id } && id@ == order_id@,
    {
        Action::Cancel { order_id: order_id.to_owned() }
    }

    pub fn cancel_all() -> (r: Action)
        ensures
            r == Action::CancelAll,
    {
        Action::CancelAll
    }

    pub fn take(side: Side, size: Fixed, max_price: u16) -> (r: Action)
        ensures
            r == (Action::Take { side, size, max_price }),
    {
        Action::Take { side, size, max_price }
    }

    pub fn is_place(&self) -> (r: bool)
        ensures
            r == (self is Place),
    {
        match self {
            Action::Place { .. } => true,
            _ => false,
        }
    }

    /// A cancel of one order or of all of them.
    pub fn is_cancel(&self) -> (r: bool)
        ensures
            r == (self is Cancel || self is CancelAll),
    {
        match self {
            Action::Cancel { .. } => true,
            Action::CancelAll => true,
            _ => false,
        }
    }

    pub fn is_take(&self) -> (r: bool)
        ensures
            r == (self is Take),
    {
        match self {
            Action::Take { .. } => true,
            _ => false,
        }
    }
}

} // verus!
