use vstd::arithmetic::div_mod::lemma_div_is_ordered;
use vstd::prelude::*;

verus! {

/// Identity of the contract pair of one epoch; set once when the epoch starts.
#[derive(Debug, Clone)]
pub struct Market {
    /// Condition identifier.
    pub market_id: String,
    /// Token identifier of the YES outcome.
    pub token_id_yes: String,
    /// Token identifier of the NO outcome.
    pub token_id_no: String,
    pub slug: String,
    /// Expiry time in milliseconds.
    pub end_timestamp_ms: i64,
}

/// Whole seconds from `now_ms` until `end_ms`, rounded toward zero, and 0 once the
/// end has passed.
pub open spec fn secs_until(end_ms: int, now_ms: int) -> int {
    if end_ms - now_ms <= 0 {
        0
    } else {
        (end_ms - now_ms) / 1000
    }
}

impl Market {
    pub fn new(
        market_id: String,
        token_id_yes: String,
        token_id_no: String,
        slug: String,
        end_timestamp_ms: i64,
    ) -> (r: Market)
        ensures
            r.market_id@ == market_id@,
            r.token_id_yes@ == token_id_yes@,
            r.token_id_no@ == token_id_no@,
            r.slug@ == slug@,
            r.end_timestamp_ms == end_timestamp_ms,
    {
        Market { market_id, token_id_yes, token_id_no, slug, end_timestamp_ms }
    }

    /// Seconds left until expiry; 0 once the market has ended.
    pub fn time_remaining_secs(&self, now_ms: i64) -> (r: i64)
        ensures
            r == secs_until(self.end_timestamp_ms as int, now_ms as int),
            r >= 0,
    {
        let diff: i128 = self.end_timestamp_ms as i128 - now_ms as i128;
        if diff <= 0 {
            0
        } else {
            (diff / 1000) as i64
        }
    }
}

/// Time remaining never grows as the clock moves forward.
pub proof fn lemma_time_remaining_non_increasing(end_ms: int, earlier_ms: int, later_ms: int)
    requires
        earlier_ms <= later_ms,
    ensures
        secs_until(end_ms, later_ms) <= secs_until(end_ms, earlier_ms),
{
    if end_ms - later_ms > 0 {
        lemma_div_is_ordered(end_ms - later_ms, end_ms - earlier_ms, 1000);
    }
}

} // verus!
