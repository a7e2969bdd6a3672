use vstd::prelude::*;
use vstd::string::StrSliceExecFns;

use crate::events::Side;

verus! {

/// Event type of the messages that carry a best bid and ask.
pub const BEST_BID_ASK: &'static str = "best_bid_ask";

/// Highest price a quote may carry, in ticks.
pub const MAX_QUOTE_TICKS: u64 = 1000;

pub open spec fn is_digit(c: char) -> bool {
    '0' <= c && c <= '9'
}

pub open spec fn digit_value(c: char) -> int {
    (c as int) - ('0' as int)
}

pub open spec fn all_digits(s: Seq<char>) -> bool {
    forall|i: int| 0 <= i < s.len() ==> is_digit(#[trigger] s[i])
}

/// Value of a string of decimal digits.
pub open spec fn digits_value(s: Seq<char>) -> int
    decreases s.len(),
{
    if s.len() == 0 {
        0
    } else {
        digits_value(s.drop_last()) * 10 + digit_value(s.last())
    }
}

/// Thousandths given by the digits after a decimal point; digits past the third
/// are dropped.
pub open spec fn frac_ticks(f: Seq<char>) -> int {
    if f.len() >= 3 {
        digits_value(f.take(3))
    } else if f.len() == 2 {
        digits_value(f) * 10
    } else if f.len() == 1 {
        digits_value(f) * 100
    } else {
        0
    }
}

/// Index of the first '.', or -1.
pub open spec fn first_dot(s: Seq<char>) -> int
    decreases s.len(),
{
    if s.len() == 0 {
        -1
    } else {
        let k = first_dot(s.drop_last());
        if k >= 0 {
            k
        } else if s.last() == '.' {
            s.len() - 1
        } else {
            -1
        }
    }
}

/// The digits before the first '.', or the whole text without one.
pub open spec fn whole_part(s: Seq<char>) -> Seq<char> {
    if first_dot(s) < 0 {
        s
    } else {
        s.take(first_dot(s))
    }
}

/// The text after the first '.', or nothing without one.
pub open spec fn frac_part(s: Seq<char>) -> Seq<char> {
    if first_dot(s) < 0 {
        Seq::empty()
    } else {
        s.skip(first_dot(s) + 1)
    }
}

pub open spec fn ticks_parts(whole: Seq<char>, frac: Seq<char>) -> Option<int> {
    if whole.len() > 0 && all_digits(whole) && all_digits(frac) {
        let v = digits_value(whole) * 1000 + frac_ticks(frac);
        if v <= MAX_QUOTE_TICKS {
            Some(v)
        } else {
            None
        }
    } else {
        None
    }
}

/// Ticks of a decimal price such as "0.49": digits, then optionally a point and
/// more digits, read in thousandths of the notional with digits past the third
/// decimal dropped. None for any other text or above the notional.
pub open spec fn ticks_of(s: Seq<char>) -> Option<int> {
    ticks_parts(whole_part(s), frac_part(s))
}

proof fn lemma_frac_ticks_nonneg(f: Seq<char>)
    requires
        all_digits(f),
    ensures
        frac_ticks(f) >= 0,
{
    if f.len() >= 3 {
        lemma_digits_value_grows(f, 3);
    } else {
        lemma_digits_value_grows(f, f.len() as int);
        assert(f.take(f.len() as int) =~= f);
    }
}

proof fn lemma_first_dot(s: Seq<char>)
    ensures
        -1 <= first_dot(s) < s.len(),
        first_dot(s) >= 0 ==> s[first_dot(s)] == '.',
        forall|j: int|
            0 <= j < s.len() && (first_dot(s) < 0 || j < first_dot(s)) ==> #[trigger] s[j] != '.',
    decreases s.len(),
{
    if s.len() > 0 {
        lemma_first_dot(s.drop_last());
        assert forall|j: int| 0 <= j < s.len() - 1 implies s.drop_last()[j] == #[trigger] s[j] by {}
    }
}

proof fn lemma_digits_value_grows(s: Seq<char>, i: int)
    requires
        all_digits(s),
        0 <= i <= s.len(),
    ensures
        0 <= digits_value(s.take(i)) <= digits_value(s),
    decreases s.len(),
{
    if i < s.len() {
        let t = s.drop_last();
        assert(all_digits(t)) by {
            assert forall|j: int| 0 <= j < t.len() implies is_digit(#[trigger] t[j]) by {
                assert(t[j] == s[j]);
            }
        }
        lemma_digits_value_grows(t, i);
        lemma_digits_value_grows(t, t.len() as int);
        assert(t.take(i) =~= s.take(i));
        assert(t.take(t.len() as int) =~= t);
        assert(is_digit(s[s.len() - 1]));
    } else {
        assert(s.take(i) =~= s);
        if s.len() > 0 {
            let t = s.drop_last();
            assert(all_digits(t)) by {
                assert forall|j: int| 0 <= j < t.len() implies is_digit(#[trigger] t[j]) by {
                    assert(t[j] == s[j]);
                }
            }
            lemma_digits_value_grows(t, t.len() as int);
            assert(t.take(t.len() as int) =~= t);
            assert(is_digit(s[s.len() - 1]));
        }
    }
}

/// Reads a decimal price in ticks; see `ticks_of`.
pub fn parse_ticks(s: &str) -> (r: Option<u16>)
    ensures
        match ticks_of(s@) {
            Some(v) => r == Some(v as u16),
            None => r is None,
        },
{
    let n = s.unicode_len();
    proof {
        lemma_first_dot(s@);
    }
    let mut k: usize = 0;
    while k < n && s.get_char(k) != '.'
        invariant
            n == s@.len(),
            0 <= k <= n,
            forall|j: int| 0 <= j < k ==> s@[j] != '.',
        decreases n - k,
    {
        k += 1;
    }
    let ghost dot = first_dot(s@);
    let ghost whole = whole_part(s@);
    let ghost frac = frac_part(s@);
    proof {
        if k < n {
            assert(dot == k);
        } else {
            assert(dot < 0);
        }
        assert(whole =~= s@.take(k as int));
    }
    if k == 0 {
        return None;
    }
    let mut whole_val: u64 = 0;
    let mut i: usize = 0;
    while i < k
        invariant
            n == s@.len(),
            0 < k <= n,
            0 <= i <= k,
            whole =~= s@.take(k as int),
            ticks_of(s@) == ticks_parts(whole, frac),
            k < n ==> dot == k && frac =~= s@.skip(k + 1),
            k == n ==> frac.len() == 0,
            all_digits(whole.take(i as int)),
            whole_val == digits_value(whole.take(i as int)),
            whole_val <= 1,
        decreases k - i,
    {
        let c = s.get_char(i);
        proof {
            assert(whole.take(i as int + 1).drop_last() =~= whole.take(i as int));
            assert(whole[i as int] == c);
        }
        if c < '0' || c > '9' {
            proof {
                assert(!is_digit(whole[i as int]));
            }
            return None;
        }
        let d = (c as u32 - '0' as u32) as u64;
        whole_val = whole_val * 10 + d;
        proof {
            assert forall|j: int| 0 <= j < i + 1 implies is_digit(#[trigger] whole.take(i as int + 1)[j]) by {
                if j < i {
                    assert(whole.take(i as int + 1)[j] == whole.take(i as int)[j]);
                }
            }
        }
        i += 1;
        if whole_val > 1 {
            proof {
                if all_digits(whole) && all_digits(frac) {
                    lemma_digits_value_grows(whole, i as int);
                    lemma_frac_ticks_nonneg(frac);
                }
            }
            return None;
        }
    }
    proof {
        assert(whole.take(k as int) =~= whole);
    }
    let mut frac_val: u64 = 0;
    let mut flen: usize = 0;
    if k < n {
        let mut j: usize = k + 1;
        while j < n
            invariant
                n == s@.len(),
                0 < k < n,
                k + 1 <= j <= n,
                dot == k,
                frac =~= s@.skip(k + 1),
                ticks_of(s@) == ticks_parts(whole, frac),
                whole.len() > 0,
                all_digits(whole),
                whole_val == digits_value(whole),
                whole_val <= 1,
                all_digits(frac.take(j - k - 1)),
                frac_val == digits_value(frac.take(if j - k - 1 < 3 { j - k - 1 } else { 3 })),
                j - k - 1 == 0 ==> frac_val == 0,
                j - k - 1 == 1 ==> frac_val < 10,
                j - k - 1 == 2 ==> frac_val < 100,
                frac_val < 1000,
            decreases n - j,
        {
            let c = s.get_char(j);
            let ghost f = (j - k - 1) as int;
            proof {
                assert(frac[f] == c);
                assert(frac.take(f + 1).drop_last() =~= frac.take(f));
            }
            if c < '0' || c > '9' {
                proof {
                    assert(!is_digit(frac[f]));
                }
                return None;
            }
            if j - k - 1 < 3 {
                let d = (c as u32 - '0' as u32) as u64;
                frac_val = frac_val * 10 + d;
            }
            proof {
                assert forall|x: int| 0 <= x < f + 1 implies is_digit(#[trigger] frac.take(f + 1)[x]) by {
                    if x < f {
                        assert(frac.take(f + 1)[x] == frac.take(f)[x]);
                    }
                }
            }
            j += 1;
        }
        flen = n - k - 1;
        proof {
            assert(frac.take(flen as int) =~= frac);
        }
    } else {
        proof {
            assert(frac.len() == 0);
        }
    }
    proof {
        if flen < 3 {
            assert(frac.take(flen as int) =~= frac);
        }
    }
    let frac_ticks_val: u64 = if flen >= 3 {
        frac_val
    } else if flen == 2 {
        frac_val * 10
    } else if flen == 1 {
        frac_val * 100
    } else {
        0
    };
    let total = whole_val * 1000 + frac_ticks_val;
    if total > MAX_QUOTE_TICKS {
        return None;
    }
    Some(total as u16)
}

/// A best bid and ask for one side, in ticks.
#[derive(Debug, Clone, Copy, PartialEq, Eq, Structural)]
pub struct Quote {
    pub side: Side,
    pub bid: u16,
    pub ask: u16,
}

/// The book feed of one market: the two token identifiers it follows.
pub struct PolymarketFeed {
    yes_token: String,
    no_token: String,
}

pub open spec fn text_of(o: Option<&str>) -> Option<Seq<char>> {
    match o {
        Some(t) => Some(t@),
        None => None,
    }
}

pub open spec fn price_of(o: Option<&str>) -> Option<int> {
    match o {
        Some(t) => ticks_of(t@),
        None => None,
    }
}

/// The side whose token is `id`.
pub open spec fn side_for(yes: Seq<char>, no: Seq<char>, id: Seq<char>) -> Option<Side> {
    if id == yes {
        Some(Side::Yes)
    } else if id == no {
        Some(Side::No)
    } else {
        None
    }
}

/// The quote a message carries: only a best-bid/ask message for one of the two
/// tokens with both prices readable gives one. A missing asset reads as empty.
pub open spec fn decode_spec(
    yes: Seq<char>,
    no: Seq<char>,
    event_type: Option<&str>,
    asset_id: Option<&str>,
    best_bid: Option<&str>,
    best_ask: Option<&str>,
) -> Option<Quote> {
    if text_of(event_type) != Some(BEST_BID_ASK@) {
        None
    } else {
        let id = match text_of(asset_id) {
            Some(a) => a,
            None => Seq::empty(),
        };
        match (side_for(yes, no, id), price_of(best_bid), price_of(best_ask)) {
            (Some(side), Some(b), Some(a)) => Some(Quote { side, bid: b as u16, ask: a as u16 }),
            _ => None,
        }
    }
}

fn read_price(o: Option<&str>) -> (r: Option<u16>)
    ensures
        match price_of(o) {
            Some(v) => r == Some(v as u16),
            None => r is None,
        },
{
    match o {
        Some(t) => parse_ticks(t),
        None => None,
    }
}

impl PolymarketFeed {
    pub closed spec fn yes(&self) -> Seq<char> {
        self.yes_token@
    }

    pub closed spec fn no(&self) -> Seq<char> {
        self.no_token@
    }

    pub fn new(yes_token: String, no_token: String) -> (r: PolymarketFeed)
        ensures
            r.yes() == yes_token@,
            r.no() == no_token@,
    {
        PolymarketFeed { yes_token, no_token }
    }

    /// The token identifiers to subscribe to: YES, then NO.
    pub fn subscription_ids(&self) -> (r: Vec<String>)
        ensures
            r@.len() == 2,
            r@[0]@ == self.yes(),
            r@[1]@ == self.no(),
    {
        let mut ids: Vec<String> = Vec::new();
        ids.push(self.yes_token.clone());
        ids.push(self.no_token.clone());
        ids
    }

    /// The side whose token is `asset_id`.
    pub fn side_of(&self, asset_id: &str) -> (r: Option<Side>)
        ensures
            r == side_for(self.yes(), self.no(), asset_id@),
    {
        let id = asset_id.to_owned();
        if id == self.yes_token {
            Some(Side::Yes)
        } else if id == self.no_token {
            Some(Side::No)
        } else {
            None
        }
    }

    /// The quote that a message's fields carry, if any.
    pub fn decode(
        &self,
        event_type: Option<&str>,
        asset_id: Option<&str>,
        best_bid: Option<&str>,
        best_ask: Option<&str>,
    ) -> (r: Option<Quote>)
        ensures
            r == decode_spec(self.yes(), self.no(), event_type, asset_id, best_bid, best_ask),
    {
        let wanted = BEST_BID_ASK.to_owned();
        let is_quote = match event_type {
            Some(t) => t.to_owned() == wanted,
            None => false,
        };
        if !is_quote {
            return None;
        }
        let side = match asset_id {
            Some(a) => self.side_of(a),
            None => self.side_of(""),
        };
        proof {
            if asset_id is None {
                assert(""@ =~= Seq::<char>::empty()) by {
                    reveal_strlit("");
                }
            }
        }
        let bid = read_price(best_bid);
        let ask = read_price(best_ask);
        match (side, bid, ask) {
            (Some(side), Some(b), Some(a)) => Some(Quote { side, bid: b, ask: a }),
            _ => None,
        }
    }
}

/// The last quote passed on for each side, so that only changes go downstream.
/// Both start at a zero bid and ask.
pub struct QuoteFilter {
    pub last_yes: (u16, u16),
    pub last_no: (u16, u16),
}

impl QuoteFilter {
    pub open spec fn last_of(&self, side: Side) -> (u16, u16) {
        match side {
            Side::Yes => self.last_yes,
            Side::No => self.last_no,
        }
    }

    pub fn new() -> (r: QuoteFilter)
        ensures
            r.last_yes == (0u16, 0u16),
            r.last_no == (0u16, 0u16),
    {
        QuoteFilter { last_yes: (0, 0), last_no: (0, 0) }
    }

    /// Records the quote as its side's last; true when it differs from the
    /// previous one of that side.
    pub fn observe(&mut self, q: Quote) -> (changed: bool)
        ensures
            changed == (old(self).last_of(q.side) != (q.bid, q.ask)),
            final(self).last_of(q.side) == (q.bid, q.ask),
            final(self).last_of(q.side.spec_opposite()) == old(self).last_of(q.side.spec_opposite()),
    {
        match q.side {
            Side::Yes => {
                let changed = !(self.last_yes.0 == q.bid && self.last_yes.1 == q.ask);
                self.last_yes = (q.bid, q.ask);
                changed
            },
            Side::No => {
                let changed = !(self.last_no.0 == q.bid && self.last_no.1 == q.ask);
                self.last_no = (q.bid, q.ask);
                changed
            },
        }
    }
}

} // verus!
