use vstd::prelude::*;

use crate::events::Side;

verus! {

/// Best bid and ask per side, in ticks (1000 ticks is the full notional).
#[derive(Debug, Clone)]
pub struct Book {
    pub yes_bid: Option<u16>,
    pub yes_ask: Option<u16>,
    pub no_bid: Option<u16>,
    pub no_ask: Option<u16>,
    /// Time of the last update, in milliseconds.
    pub last_update_ms: i64,
}

impl Book {
    pub open spec fn spec_best_ask(&self, side: Side) -> Option<u16> {
        match side {
            Side::Yes => self.yes_ask,
            Side::No => self.no_ask,
        }
    }

    pub open spec fn spec_best_bid(&self, side: Side) -> Option<u16> {
        match side {
            Side::Yes => self.yes_bid,
            Side::No => self.no_bid,
        }
    }

    pub open spec fn spec_is_synced(&self) -> bool {
        self.yes_ask.is_some() && self.no_ask.is_some()
    }

    /// The book with every quote absent.
    pub open spec fn is_empty_book(&self) -> bool {
        &&& self.yes_bid.is_none()
        &&& self.yes_ask.is_none()
        &&& self.no_bid.is_none()
        &&& self.no_ask.is_none()
        &&& self.last_update_ms == 0
    }

    pub fn new() -> (r: Book)
        ensures
            r.is_empty_book(),
    {
        Book { yes_bid: None, yes_ask: None, no_bid: None, no_ask: None, last_update_ms: 0 }
    }

    /// Both sides have an ask; no quoting before that.
    pub fn is_synced(&self) -> (r: bool)
        ensures
            r == self.spec_is_synced(),
            r == (self.spec_best_ask(Side::Yes).is_some() && self.spec_best_ask(Side::No).is_some()),
    {
        self.yes_ask.is_some() && self.no_ask.is_some()
    }

    /// Overwrites one side's bid and ask and the update time; the other side stays.
    pub fn update(&mut self, side: Side, bid: u16, ask: u16, timestamp_ms: i64)
        ensures
            final(self).spec_best_bid(side) == Some(bid),
            final(self).spec_best_ask(side) == Some(ask),
            final(self).spec_best_bid(side.spec_opposite()) == old(self).spec_best_bid(
                side.spec_opposite(),
            ),
            final(self).spec_best_ask(side.spec_opposite()) == old(self).spec_best_ask(
                side.spec_opposite(),
            ),
            final(self).last_update_ms == timestamp_ms,
    {
        match side {
            Side::Yes => {
                self.yes_bid = Some(bid);
                self.yes_ask = Some(ask);
            },
            Side::No => {
                self.no_bid = Some(bid);
                self.no_ask = Some(ask);
            },
        }
        self.last_update_ms = timestamp_ms;
    }

    pub fn best_ask(&self, side: Side) -> (r: Option<u16>)
        ensures
            r == self.spec_best_ask(side),
    {
        match side {
            Side::Yes => self.yes_ask,
            Side::No => self.no_ask,
        }
    }

    pub fn best_bid(&self, side: Side) -> (r: Option<u16>)
        ensures
            r == self.spec_best_bid(side),
    {
        match side {
            Side::Yes => self.yes_bid,
            Side::No => self.no_bid,
        }
    }

    /// The other side's ask, which prices a bid on this side.
    pub fn opposite_ask(&self, side: Side) -> (r: Option<u16>)
        ensures
            r == self.spec_best_ask(side.spec_opposite()),
    {
        match side {
            Side::Yes => self.no_ask,
            Side::No => self.yes_ask,
        }
    }

    /// Clears every quote, as on a market rollover.
    pub fn reset(&mut self)
        ensures
            final(self).is_empty_book(),
    {
        self.yes_bid = None;
        self.yes_ask = None;
        self.no_bid = None;
        self.no_ask = None;
        self.last_update_ms = 0;
    }
}

impl Default for Book {
    fn default() -> (r: Book)
        ensures
            r.is_empty_book(),
    {
        Book::new()
    }
}

} // verus!
