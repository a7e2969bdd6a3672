use vstd::prelude::*;

use crate::actions::Action;
use crate::book::Book;
use crate::events::Side;
use crate::fixed::{Fixed, SCALE, abs_int, min_int};
use crate::market::{Market, secs_until};
use crate::orders::{OrderTracker, StandingOrder, size_at};
use crate::position::Position;
use crate::pricing::{calc_max_bid, max_bid_for};
use crate::sizing::{MarketDuration, calc_size_with_limit, exposure, size_for};

verus! {

/// No rung is quoted below this price, in ticks.
pub const MIN_RUNG_PRICE: u16 = 100;

/// A rebalancing take never pays more than this, in ticks.
pub const TAKE_PRICE_CEILING: u16 = 600;

/// Tuning of the quoting strategy. Inventory-skew pricing (bidding less on the
/// side already held in excess) has no agreed formula yet and is not modelled.
#[derive(Debug, Clone)]
pub struct StrategyConfig {
    /// Profit kept per completed pair, in ticks.
    pub margin_ticks: u16,
    /// Largest net position allowed toward one side, in shares.
    pub max_position: Fixed,
    /// Smallest order worth placing, in shares.
    pub min_order_size: Fixed,
    /// Number of price levels of the ladder.
    pub ladder_rungs: u16,
    /// Ticks between two rungs.
    pub rung_spacing: u16,
    pub duration: MarketDuration,
    /// Imbalance, in shares, above which a take rebalances the position.
    pub rebalance_threshold: Fixed,
    /// Largest size of one rebalancing take, in shares.
    pub max_take_size: Fixed,
    /// When set, no bid is made on a side whose own ask is unknown or below this
    /// many ticks (a side that is crashing). Off by default: the threshold is
    /// still an open question.
    pub crash_floor_ticks: Option<u16>,
}

impl Default for StrategyConfig {
    fn default() -> (r: StrategyConfig)
        ensures
            r.margin_ticks == 5,
            r.max_position@ == 150 * SCALE,
            r.min_order_size@ == 5 * SCALE,
            r.ladder_rungs == 3,
            r.rung_spacing == 10,
            r.duration == MarketDuration::FiveMin,
            r.rebalance_threshold@ == 30 * SCALE,
            r.max_take_size@ == 12 * SCALE,
            r.crash_floor_ticks is None,
    {
        StrategyConfig {
            margin_ticks: 5,
            max_position: Fixed::from_int(150),
            min_order_size: Fixed::from_int(5),
            ladder_rungs: 3,
            rung_spacing: 10,
            duration: MarketDuration::FiveMin,
            rebalance_threshold: Fixed::from_int(30),
            max_take_size: Fixed::from_int(12),
            crash_floor_ticks: None,
        }
    }
}

/// One price level of a ladder.
#[derive(Debug, Clone, Copy, PartialEq, Eq, Structural)]
pub struct Rung {
    pub price: u16,
    pub size: Fixed,
}

/// The target quotes of one side: rungs from the top price downward, one per price.
#[derive(Debug, Clone)]
pub struct Ladder {
    pub rungs: Vec<Rung>,
}

/// The first `count` rungs below `top`, `spacing` apart, each of `size`; a rung
/// under the floor is left out, and with no spacing all rungs share the top price
/// and make one. Empty when `top` or `size` is zero.
pub open spec fn ladder_spec(top: u16, size: Fixed, count: int, spacing: u16) -> Seq<Rung>
    decreases count,
{
    if count <= 0 || top == 0 || size@ == 0 {
        Seq::empty()
    } else {
        let prev = ladder_spec(top, size, count - 1, spacing);
        let price = top - (count - 1) * spacing;
        if price >= MIN_RUNG_PRICE && (spacing > 0 || count == 1) {
            prev.push(Rung { price: price as u16, size })
        } else {
            prev
        }
    }
}

pub open spec fn has_rung(rungs: Seq<Rung>, price: u16) -> bool {
    exists|j: int| 0 <= j < rungs.len() && (#[trigger] rungs[j]).price == price
}

/// A Cancel for each order, in order, whose price has no rung.
pub open spec fn cancels_for(orders: Seq<StandingOrder>, rungs: Seq<Rung>) -> Seq<Action>
    decreases orders.len(),
{
    if orders.len() == 0 {
        Seq::empty()
    } else {
        let prev = cancels_for(orders.drop_last(), rungs);
        if has_rung(rungs, orders.last().price) {
            prev
        } else {
            prev.push(Action::Cancel { order_id: orders.last().order_id })
        }
    }
}

/// A Place for each rung, in order, whose resting size falls short of it by a
/// positive amount of at least `min_order`; the Place is for the shortfall.
pub open spec fn places_for(
    side: Side,
    rungs: Seq<Rung>,
    orders: Seq<StandingOrder>,
    min_order: int,
) -> Seq<Action>
    decreases rungs.len(),
{
    if rungs.len() == 0 {
        Seq::empty()
    } else {
        let prev = places_for(side, rungs.drop_last(), orders, min_order);
        let r = rungs.last();
        let short = r.size@ - size_at(orders, r.price);
        if short > 0 && short >= min_order {
            prev.push(Action::Place { side, price: r.price, size: Fixed { micros: short as i64 } })
        } else {
            prev
        }
    }
}

/// Size to quote on `side`: the tier size, or 0 at the position limit.
pub open spec fn quote_size(position: Position, side: Side, secs_left: int, config: StrategyConfig) -> int {
    if exposure(position, side) < config.max_position@ {
        size_for(secs_left, config.duration) * SCALE
    } else {
        0
    }
}

/// Bidding on `side` is suppressed by the crash filter.
pub open spec fn crash_suppressed(side: Side, book: Book, floor: Option<u16>) -> bool {
    match floor {
        None => false,
        Some(f) => match book.spec_best_ask(side) {
            None => true,
            Some(a) => a < f,
        },
    }
}

/// The top price of the ladder of `side`.
pub open spec fn top_bid(side: Side, book: Book, config: StrategyConfig) -> u16 {
    if crash_suppressed(side, book, config.crash_floor_ticks) {
        0
    } else {
        max_bid_for(book.spec_best_ask(side.spec_opposite()), config.margin_ticks) as u16
    }
}

/// The target ladder of `side`.
pub open spec fn ideal_for(
    side: Side,
    book: Book,
    position: Position,
    secs_left: int,
    config: StrategyConfig,
) -> Seq<Rung> {
    ladder_spec(
        top_bid(side, book, config),
        Fixed { micros: quote_size(position, side, secs_left, config) as i64 },
        config.ladder_rungs as int,
        config.rung_spacing,
    )
}

/// The actions of one side: cancels of stale rungs, then top-ups of short ones.
pub open spec fn side_plan(
    side: Side,
    book: Book,
    position: Position,
    orders: OrderTracker,
    secs_left: int,
    config: StrategyConfig,
) -> Seq<Action> {
    let ideal = ideal_for(side, book, position, secs_left, config);
    cancels_for(orders.orders_of(side), ideal) + places_for(
        side,
        ideal,
        orders.orders_of(side),
        config.min_order_size@,
    )
}

/// The side with fewer shares (YES when both hold as many).
pub open spec fn lighter_side(position: Position) -> Side {
    if position.spec_net() > 0 {
        Side::No
    } else {
        Side::Yes
    }
}

/// A take on the lighter side when the imbalance exceeds the threshold: a third of
/// the imbalance, at most the largest take, up to the lighter side's ask; none
/// without that ask or when it is above the ceiling.
pub open spec fn rebalance_for(position: Position, book: Book, config: StrategyConfig) -> Option<
    Action,
> {
    let imbalance = abs_int(position.spec_net());
    if imbalance <= config.rebalance_threshold@ {
        None
    } else {
        let light = lighter_side(position);
        let size = min_int(imbalance / 3, config.max_take_size@);
        match book.spec_best_ask(light) {
            None => None,
            Some(ask) => if ask > TAKE_PRICE_CEILING {
                None
            } else {
                Some(Action::Take { side: light, size: Fixed { micros: size as i64 }, max_price: ask })
            },
        }
    }
}

pub open spec fn option_seq(a: Option<Action>) -> Seq<Action> {
    match a {
        Some(x) => seq![x],
        None => Seq::empty(),
    }
}

/// Everything reconciliation emits: the YES side, the NO side, then the rebalance.
pub open spec fn plan(
    book: Book,
    position: Position,
    orders: OrderTracker,
    secs_left: int,
    config: StrategyConfig,
) -> Seq<Action> {
    side_plan(Side::Yes, book, position, orders, secs_left, config) + side_plan(
        Side::No,
        book,
        position,
        orders,
        secs_left,
        config,
    ) + option_seq(rebalance_for(position, book, config))
}

impl Ladder {
    pub fn len(&self) -> (r: usize)
        ensures
            r == self.rungs@.len(),
    {
        self.rungs.len()
    }

    pub fn is_empty(&self) -> (r: bool)
        ensures
            r == (self.rungs@.len() == 0),
    {
        self.rungs.len() == 0
    }

    /// Size of the rung at `price`.
    pub fn get(&self, price: u16) -> (r: Option<Fixed>)
        ensures
            r is Some <==> has_rung(self.rungs@, price),
            r matches Some(z) ==> exists|j: int|
                0 <= j < self.rungs@.len() && (#[trigger] self.rungs@[j]).price == price
                    && self.rungs@[j].size == z,
    {
        let n = self.rungs.len();
        let mut i: usize = 0;
        while i < n
            invariant
                n == self.rungs@.len(),
                0 <= i <= n,
                forall|j: int| 0 <= j < i ==> (#[trigger] self.rungs@[j]).price != price,
            decreases n - i,
        {
            if self.rungs[i].price == price {
                return Some(self.rungs[i].size);
            }
            i += 1;
        }
        None
    }

    /// There is a rung at `price`.
    pub fn contains_key(&self, price: u16) -> (r: bool)
        ensures
            r == has_rung(self.rungs@, price),
    {
        self.get(price).is_some()
    }
}

/// Builds the target ladder below `top_price`: `config.ladder_rungs` rungs,
/// `config.rung_spacing` ticks apart, each of `size`, none below the floor.
pub fn build_ladder(top_price: u16, size: Fixed, config: &StrategyConfig) -> (r: Ladder)
    ensures
        r.rungs@ == ladder_spec(top_price, size, config.ladder_rungs as int, config.rung_spacing),
        forall|i: int, j: int|
            0 <= i < j < r.rungs@.len() ==> (#[trigger] r.rungs@[i]).price > (#[trigger] r.rungs@[j]).price,
{
    proof {
        lemma_ladder_descending(top_price, size, config.ladder_rungs as int, config.rung_spacing);
    }
    let mut rungs: Vec<Rung> = Vec::new();
    if top_price == 0 || size.is_zero() {
        proof {
            lemma_ladder_empty(top_price, size, config.ladder_rungs as int, config.rung_spacing);
        }
        return Ladder { rungs };
    }
    let count = config.ladder_rungs;
    let spacing = config.rung_spacing;
    let mut i: u16 = 0;
    while i < count
        invariant
            0 <= i <= count,
            count == config.ladder_rungs,
            spacing == config.rung_spacing,
            top_price != 0,
            size@ != 0,
            rungs@ == ladder_spec(top_price, size, i as int, spacing),
        decreases count - i,
    {
        proof {
            assert((i as int) * (spacing as int) <= 65535 * 65535) by (nonlinear_arith)
                requires
                    i <= 65535,
                    spacing <= 65535,
            ;
        }
        let offset: u32 = i as u32 * spacing as u32;
        if offset <= top_price as u32 && top_price as u32 - offset >= MIN_RUNG_PRICE as u32 && (
        spacing > 0 || i == 0) {
            rungs.push(Rung { price: (top_price as u32 - offset) as u16, size });
        }
        i += 1;
    }
    Ladder { rungs }
}

/// The crash filter: with a floor set, a side whose own ask is unknown or below it
/// gets no bid.
pub fn crash_filtered(side: Side, book: &Book, floor: Option<u16>) -> (r: bool)
    ensures
        r == crash_suppressed(side, *book, floor),
{
    match floor {
        None => false,
        Some(f) => match book.best_ask(side) {
            None => true,
            Some(a) => a < f,
        },
    }
}

/// The rebalancing take, if the position calls for one.
pub fn check_rebalance(position: &Position, book: &Book, config: &StrategyConfig) -> (r: Option<
    Action,
>)
    requires
        position.wf(),
    ensures
        r == rebalance_for(*position, *book, *config),
{
    let imbalance = position.imbalance();
    if imbalance.le(&config.rebalance_threshold) {
        return None;
    }
    let light = if position.net_position().is_positive() {
        Side::No
    } else {
        Side::Yes
    };
    let take_size = imbalance.div_int(3).min(&config.max_take_size);
    let max_price = match book.best_ask(light) {
        Some(ask) => ask,
        None => return None,
    };
    if max_price > TAKE_PRICE_CEILING {
        return None;
    }
    Some(Action::take(light, take_size, max_price))
}

/// Appends a Cancel for each resting order of the side whose price has no rung.
fn push_cancels(actions: &mut Vec<Action>, resting: &Vec<StandingOrder>, ideal: &Ladder)
    ensures
        final(actions)@ == old(actions)@ + cancels_for(resting@, ideal.rungs@),
{
    let n = resting.len();
    let mut i: usize = 0;
    while i < n
        invariant
            n == resting@.len(),
            0 <= i <= n,
            actions@ == old(actions)@ + cancels_for(resting@.take(i as int), ideal.rungs@),
        decreases n - i,
    {
        proof {
            assert(resting@.take(i as int + 1).drop_last() =~= resting@.take(i as int));
        }
        if !ideal.contains_key(resting[i].price) {
            let order_id = resting[i].order_id.clone();
            actions.push(Action::Cancel { order_id });
            proof {
                assert(actions@ =~= old(actions)@ + cancels_for(
                    resting@.take(i as int + 1),
                    ideal.rungs@,
                ));
            }
        }
        i += 1;
    }
    proof {
        assert(resting@.take(n as int) =~= resting@);
    }
}

/// Appends a Place for the shortfall of each rung that is short by at least the
/// smallest order size.
fn push_places(
    actions: &mut Vec<Action>,
    side: Side,
    orders: &OrderTracker,
    ideal: &Ladder,
    min_order_size: Fixed,
)
    requires
        orders.wf(),
        forall|j: int| 0 <= j < ideal.rungs@.len() ==> 0 <= (#[trigger] ideal.rungs@[j]).size@ <= 24 * SCALE,
    ensures
        final(actions)@ == old(actions)@ + places_for(
            side,
            ideal.rungs@,
            orders.orders_of(side),
            min_order_size@,
        ),
{
    let n = ideal.rungs.len();
    let mut i: usize = 0;
    while i < n
        invariant
            n == ideal.rungs@.len(),
            0 <= i <= n,
            orders.wf(),
            forall|j: int| 0 <= j < ideal.rungs@.len() ==> 0 <= (#[trigger] ideal.rungs@[j]).size@ <= 24 * SCALE,
            actions@ == old(actions)@ + places_for(
                side,
                ideal.rungs@.take(i as int),
                orders.orders_of(side),
                min_order_size@,
            ),
        decreases n - i,
    {
        proof {
            assert(ideal.rungs@.take(i as int + 1).drop_last() =~= ideal.rungs@.take(i as int));
        }
        let rung = ideal.rungs[i];
        let resting = orders.total_size_at_price(side, rung.price);
        proof {
            crate::orders::lemma_size_at_bounded(orders.orders_of(side), rung.price);
        }
        let short = rung.size.minus(&resting);
        if short.is_positive() && min_order_size.le(&short) {
            actions.push(Action::place(side, rung.price, short));
            proof {
                assert(actions@ =~= old(actions)@ + places_for(
                    side,
                    ideal.rungs@.take(i as int + 1),
                    orders.orders_of(side),
                    min_order_size@,
                ));
            }
        }
        i += 1;
    }
    proof {
        assert(ideal.rungs@.take(n as int) =~= ideal.rungs@);
    }
}

proof fn lemma_ladder_sizes(top: u16, size: Fixed, count: int, spacing: u16)
    ensures
        forall|j: int|
            0 <= j < ladder_spec(top, size, count, spacing).len() ==> (#[trigger] ladder_spec(
                top,
                size,
                count,
                spacing,
            )[j]).size == size,
    decreases count,
{
    if count > 0 {
        lemma_ladder_sizes(top, size, count - 1, spacing);
        let prev = ladder_spec(top, size, count - 1, spacing);
        let cur = ladder_spec(top, size, count, spacing);
        assert forall|j: int| 0 <= j < cur.len() implies (#[trigger] cur[j]).size == size by {
            if j < prev.len() {
                assert(cur[j] == prev[j]);
            }
        }
    }
}

/// Appends the actions of one side: cancels of stale rungs, then top-ups.
fn plan_side(
    actions: &mut Vec<Action>,
    side: Side,
    book: &Book,
    position: &Position,
    orders: &OrderTracker,
    secs_left: i64,
    config: &StrategyConfig,
)
    requires
        position.wf(),
        orders.wf(),
    ensures
        final(actions)@ == old(actions)@ + side_plan(
            side,
            *book,
            *position,
            *orders,
            secs_left as int,
            *config,
        ),
{
    let max_bid = if crash_filtered(side, book, config.crash_floor_ticks) {
        0
    } else {
        calc_max_bid(side, book, config.margin_ticks)
    };
    let size = calc_size_with_limit(side, position, secs_left, config.duration, config.max_position);
    let ideal = build_ladder(max_bid, size, config);
    proof {
        lemma_ladder_sizes(max_bid, size, config.ladder_rungs as int, config.rung_spacing);
        assert(size == Fixed { micros: quote_size(*position, side, secs_left as int, *config) as i64 });
    }
    let resting = orders.all_orders(side);
    push_cancels(actions, &resting, &ideal);
    push_places(actions, side, orders, &ideal, config.min_order_size);
    proof {
        assert(actions@ =~= old(actions)@ + side_plan(
            side,
            *book,
            *position,
            *orders,
            secs_left as int,
            *config,
        ));
    }
}

/// The actions that move the resting orders toward the target ladders: for each
/// side, a Cancel for every order at a price the ladder no longer holds, then a
/// Place for each rung short by at least the smallest order size; last, a take
/// on the lighter side when the inventory is too lopsided. The market's time left
/// is taken at `now_ms`.
pub fn reconcile(
    book: &Book,
    position: &Position,
    orders: &OrderTracker,
    market: &Market,
    config: &StrategyConfig,
    now_ms: i64,
) -> (r: Vec<Action>)
    requires
        position.wf(),
        orders.wf(),
    ensures
        r@ == plan(
            *book,
            *position,
            *orders,
            secs_until(market.end_timestamp_ms as int, now_ms as int),
            *config,
        ),
{
    let secs_left = market.time_remaining_secs(now_ms);
    let mut actions: Vec<Action> = Vec::new();
    plan_side(&mut actions, Side::Yes, book, position, orders, secs_left, config);
    plan_side(&mut actions, Side::No, book, position, orders, secs_left, config);
    match check_rebalance(position, book, config) {
        Some(take) => actions.push(take),
        None => {},
    }
    proof {
        assert(actions@ =~= plan(*book, *position, *orders, secs_left as int, *config));
    }
    actions
}

/// Prices of a built ladder strictly fall from the first rung to the last, so no
/// price holds two rungs.
pub proof fn lemma_ladder_descending(top: u16, size: Fixed, count: int, spacing: u16)
    ensures
        forall|i: int, j: int|
            0 <= i < j < ladder_spec(top, size, count, spacing).len() ==> (#[trigger] ladder_spec(
                top,
                size,
                count,
                spacing,
            )[i]).price > (#[trigger] ladder_spec(top, size, count, spacing)[j]).price,
        forall|j: int|
            0 <= j < ladder_spec(top, size, count, spacing).len() ==> (#[trigger] ladder_spec(
                top,
                size,
                count,
                spacing,
            )[j]).price >= top - (count - 1) * spacing,
        spacing == 0 ==> ladder_spec(top, size, count, spacing).len() <= 1,
    decreases count,
{
    if count > 0 && top != 0 && size@ != 0 {
        lemma_ladder_descending(top, size, count - 1, spacing);
        let prev = ladder_spec(top, size, count - 1, spacing);
        let cur = ladder_spec(top, size, count, spacing);
        assert((count - 1) * spacing == (count - 2) * spacing + spacing) by (nonlinear_arith);
        assert(spacing * (count - 1) >= 0) by (nonlinear_arith)
            requires
                count >= 1,
        ;
        if cur.len() > prev.len() {
            assert forall|j: int| 0 <= j < prev.len() implies #[trigger] cur[j] == prev[j] by {}
            assert(spacing == 0 ==> count == 1);
            if spacing == 0 {
                assert(count - 1 == 0);
                assert(prev.len() == 0);
            }
        }
    }
}

proof fn lemma_ladder_empty(top: u16, size: Fixed, count: int, spacing: u16)
    requires
        top == 0 || size@ == 0,
    ensures
        ladder_spec(top, size, count, spacing) == Seq::<Rung>::empty(),
    decreases count,
{
}

} // verus!
