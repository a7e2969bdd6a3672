use vstd::prelude::*;

use crate::events::Side;
use crate::fixed::{Fixed, fits_i64};

verus! {

/// A resting order of ours.
#[derive(Debug, Clone)]
pub struct StandingOrder {
    pub order_id: String,
    /// Price in ticks.
    pub price: u16,
    /// What is left to fill; shrinks on partial fills.
    pub remaining_size: Fixed,
    /// Size when placed.
    pub original_size: Fixed,
}

/// Sum of the remaining sizes of a list of orders.
pub open spec fn sum_remaining(s: Seq<StandingOrder>) -> int
    decreases s.len(),
{
    if s.len() == 0 {
        0
    } else {
        sum_remaining(s.drop_last()) + s.last().remaining_size@
    }
}

/// The orders of a list that rest at `price`, in list order.
pub open spec fn at_price(s: Seq<StandingOrder>, price: u16) -> Seq<StandingOrder>
    decreases s.len(),
{
    if s.len() == 0 {
        s
    } else if s.last().price == price {
        at_price(s.drop_last(), price).push(s.last())
    } else {
        at_price(s.drop_last(), price)
    }
}

/// Total remaining size resting at `price`.
pub open spec fn size_at(s: Seq<StandingOrder>, price: u16) -> int {
    sum_remaining(at_price(s, price))
}

/// Index of the first order with identifier `id`, or -1 when there is none.
pub open spec fn index_of_id(s: Seq<StandingOrder>, id: Seq<char>) -> int
    decreases s.len(),
{
    if s.len() == 0 {
        -1
    } else {
        let k = index_of_id(s.drop_last(), id);
        if k >= 0 {
            k
        } else if s.last().order_id@ == id {
            s.len() - 1
        } else {
            -1
        }
    }
}

pub open spec fn has_id(s: Seq<StandingOrder>, id: Seq<char>) -> bool {
    exists|j: int| 0 <= j < s.len() && (#[trigger] s[j]).order_id@ == id
}

pub open spec fn has_price(s: Seq<StandingOrder>, price: u16) -> bool {
    exists|j: int| 0 <= j < s.len() && (#[trigger] s[j]).price == price
}

/// The list without the first order with identifier `id`.
pub open spec fn without_id(s: Seq<StandingOrder>, id: Seq<char>) -> Seq<StandingOrder> {
    let k = index_of_id(s, id);
    if k < 0 {
        s
    } else {
        s.remove(k)
    }
}

/// The list without any order at `price`, in list order.
pub open spec fn without_price(s: Seq<StandingOrder>, price: u16) -> Seq<StandingOrder>
    decreases s.len(),
{
    if s.len() == 0 {
        s
    } else if s.last().price == price {
        without_price(s.drop_last(), price)
    } else {
        without_price(s.drop_last(), price).push(s.last())
    }
}

/// The order with `filled` taken off what remains of it.
pub open spec fn reduced(o: StandingOrder, filled: int) -> StandingOrder {
    StandingOrder { remaining_size: Fixed { micros: (o.remaining_size@ - filled) as i64 }, ..o }
}

/// The list after a fill of `filled` on the first order with identifier `id`: the
/// order shrinks, and leaves once nothing remains of it.
pub open spec fn after_fill(s: Seq<StandingOrder>, id: Seq<char>, filled: int) -> Seq<
    StandingOrder,
> {
    let k = index_of_id(s, id);
    if k < 0 {
        s
    } else if s[k].remaining_size@ - filled > 0 {
        s.update(k, reduced(s[k], filled))
    } else {
        s.remove(k)
    }
}

/// Every order has something left, and the total fits in an amount.
pub open spec fn side_wf(s: Seq<StandingOrder>) -> bool {
    &&& forall|j: int| 0 <= j < s.len() ==> (#[trigger] s[j]).remaining_size@ > 0
    &&& sum_remaining(s) <= i64::MAX
}

pub proof fn lemma_index_of_id(s: Seq<StandingOrder>, id: Seq<char>)
    ensures
        -1 <= index_of_id(s, id) < s.len(),
        index_of_id(s, id) >= 0 ==> s[index_of_id(s, id)].order_id@ == id,
        forall|j: int|
            0 <= j < s.len() && (index_of_id(s, id) < 0 || j < index_of_id(s, id)) ==> (#[trigger] s[j]).order_id@
                != id,
        index_of_id(s, id) >= 0 <==> has_id(s, id),
    decreases s.len(),
{
    if s.len() > 0 {
        lemma_index_of_id(s.drop_last(), id);
        assert forall|j: int| 0 <= j < s.len() - 1 implies s.drop_last()[j] == #[trigger] s[j] by {}
        if has_id(s, id) {
            let j = choose|j: int| 0 <= j < s.len() && (#[trigger] s[j]).order_id@ == id;
            if j < s.len() - 1 {
                assert(s.drop_last()[j] == s[j]);
            }
        }
        if index_of_id(s.drop_last(), id) >= 0 {
            let k = index_of_id(s.drop_last(), id);
            assert(s.drop_last()[k] == s[k]);
        }
    }
}

pub proof fn lemma_sum_at_least_len(s: Seq<StandingOrder>)
    requires
        forall|j: int| 0 <= j < s.len() ==> (#[trigger] s[j]).remaining_size@ > 0,
    ensures
        sum_remaining(s) >= s.len(),
    decreases s.len(),
{
    if s.len() > 0 {
        assert forall|j: int| 0 <= j < s.len() - 1 implies (#[trigger] s.drop_last()[j]).remaining_size@ > 0 by {
            assert(s.drop_last()[j] == s[j]);
        }
        lemma_sum_at_least_len(s.drop_last());
    }
}

/// A prefix of a list of positive orders sums to no more than the list.
pub proof fn lemma_sum_prefix(s: Seq<StandingOrder>, k: int)
    requires
        0 <= k <= s.len(),
        forall|j: int| 0 <= j < s.len() ==> (#[trigger] s[j]).remaining_size@ > 0,
    ensures
        sum_remaining(s.take(k)) <= sum_remaining(s),
    decreases s.len(),
{
    if k < s.len() {
        assert forall|j: int| 0 <= j < s.len() - 1 implies (#[trigger] s.drop_last()[j]).remaining_size@ > 0 by {
            assert(s.drop_last()[j] == s[j]);
        }
        lemma_sum_prefix(s.drop_last(), k);
        assert(s.drop_last().take(k) =~= s.take(k));
    } else {
        assert(s.take(k) =~= s);
    }
}

/// The orders at one price sum to no more than the whole list.
pub proof fn lemma_size_at_bounded(s: Seq<StandingOrder>, price: u16)
    requires
        forall|j: int| 0 <= j < s.len() ==> (#[trigger] s[j]).remaining_size@ > 0,
    ensures
        0 <= size_at(s, price) <= sum_remaining(s),
    decreases s.len(),
{
    if s.len() > 0 {
        assert forall|j: int| 0 <= j < s.len() - 1 implies (#[trigger] s.drop_last()[j]).remaining_size@ > 0 by {
            assert(s.drop_last()[j] == s[j]);
        }
        lemma_size_at_bounded(s.drop_last(), price);
        if s.last().price == price {
            assert(at_price(s, price).drop_last() =~= at_price(s.drop_last(), price));
        }
    }
}

/// Removing one order takes exactly its remaining size off the sum.
pub proof fn lemma_sum_remove(s: Seq<StandingOrder>, k: int)
    requires
        0 <= k < s.len(),
    ensures
        sum_remaining(s.remove(k)) == sum_remaining(s) - s[k].remaining_size@,
    decreases s.len(),
{
    if k == s.len() - 1 {
        assert(s.remove(k) =~= s.drop_last());
    } else {
        lemma_sum_remove(s.drop_last(), k);
        assert(s.remove(k).drop_last() =~= s.drop_last().remove(k));
    }
}

/// Replacing one order changes the sum by the difference of the two.
pub proof fn lemma_sum_update(s: Seq<StandingOrder>, k: int, o: StandingOrder)
    requires
        0 <= k < s.len(),
    ensures
        sum_remaining(s.update(k, o)) == sum_remaining(s) - s[k].remaining_size@
            + o.remaining_size@,
    decreases s.len(),
{
    if k == s.len() - 1 {
        assert(s.update(k, o).drop_last() =~= s.drop_last());
    } else {
        lemma_sum_update(s.drop_last(), k, o);
        assert(s.update(k, o).drop_last() =~= s.drop_last().update(k, o));
    }
}

pub proof fn lemma_sum_push(s: Seq<StandingOrder>, o: StandingOrder)
    ensures
        sum_remaining(s.push(o)) == sum_remaining(s) + o.remaining_size@,
{
    assert(s.push(o).drop_last() =~= s);
}

/// Splitting a list by price loses nothing: what stays and what leaves sum to the
/// whole, and every order that stays was in the list.
pub proof fn lemma_without_price(s: Seq<StandingOrder>, price: u16)
    ensures
        sum_remaining(without_price(s, price)) + size_at(s, price) == sum_remaining(s),
        forall|j: int|
            0 <= j < without_price(s, price).len() ==> exists|i: int|
                0 <= i < s.len() && s[i] == #[trigger] without_price(s, price)[j],
        forall|j: int|
            0 <= j < without_price(s, price).len() ==> (#[trigger] without_price(s, price)[j]).price
                != price,
    decreases s.len(),
{
    if s.len() > 0 {
        let t = s.drop_last();
        lemma_without_price(t, price);
        if s.last().price == price {
            lemma_sum_push(at_price(t, price), s.last());
            assert forall|j: int| 0 <= j < without_price(s, price).len() implies exists|i: int|
                0 <= i < s.len() && s[i] == #[trigger] without_price(s, price)[j] by {
                let i = choose|i: int| 0 <= i < t.len() && t[i] == without_price(t, price)[j];
                assert(s[i] == t[i]);
            }
        } else {
            lemma_sum_push(without_price(t, price), s.last());
            assert forall|j: int| 0 <= j < without_price(s, price).len() implies exists|i: int|
                0 <= i < s.len() && s[i] == #[trigger] without_price(s, price)[j] by {
                if j == without_price(s, price).len() - 1 {
                    assert(s[s.len() - 1] == without_price(s, price)[j]);
                } else {
                    let i = choose|i: int| 0 <= i < t.len() && t[i] == without_price(t, price)[j];
                    assert(s[i] == t[i]);
                }
            }
        }
    }
}

/// A copy of an order, identical to it.
fn dup(o: &StandingOrder) -> (r: StandingOrder)
    ensures
        r == *o,
{
    StandingOrder {
        order_id: o.order_id.clone(),
        price: o.price,
        remaining_size: o.remaining_size,
        original_size: o.original_size,
    }
}

/// Position of the first order with identifier `id`.
fn find_index(list: &Vec<StandingOrder>, id: &String) -> (r: Option<usize>)
    ensures
        match r {
            Some(k) => k < list@.len() && k as int == index_of_id(list@, id@),
            None => index_of_id(list@, id@) < 0,
        },
{
    proof {
        lemma_index_of_id(list@, id@);
    }
    let n = list.len();
    let mut i: usize = 0;
    while i < n
        invariant
            n == list@.len(),
            0 <= i <= n,
            forall|j: int| 0 <= j < i ==> (#[trigger] list@[j]).order_id@ != id@,
            -1 <= index_of_id(list@, id@) < list@.len(),
            index_of_id(list@, id@) >= 0 ==> list@[index_of_id(list@, id@)].order_id@ == id@,
            forall|j: int|
                0 <= j < list@.len() && (index_of_id(list@, id@) < 0 || j < index_of_id(list@, id@))
                    ==> (#[trigger] list@[j]).order_id@ != id@,
            index_of_id(list@, id@) >= 0 <==> has_id(list@, id@),
        decreases n - i,
    {
        if list[i].order_id == *id {
            return Some(i);
        }
        i += 1;
    }
    None
}

fn add_to(list: &mut Vec<StandingOrder>, order_id: String, price: u16, size: Fixed)
    requires
        side_wf(old(list)@),
        size@ > 0,
        sum_remaining(old(list)@) + size@ <= i64::MAX,
    ensures
        side_wf(final(list)@),
        final(list)@ == old(list)@.push(
            StandingOrder { order_id, price, remaining_size: size, original_size: size },
        ),
{
    let o = StandingOrder { order_id, price, remaining_size: size, original_size: size };
    proof {
        lemma_sum_push(list@, o);
    }
    list.push(o);
}

fn remove_id_from(list: &mut Vec<StandingOrder>, order_id: &str) -> (r: Option<StandingOrder>)
    requires
        side_wf(old(list)@),
    ensures
        side_wf(final(list)@),
        final(list)@ == without_id(old(list)@, order_id@),
        index_of_id(old(list)@, order_id@) < 0 ==> r is None,
        index_of_id(old(list)@, order_id@) >= 0 ==> r == Some(
            old(list)@[index_of_id(old(list)@, order_id@)],
        ),
{
    let id = order_id.to_owned();
    match find_index(list, &id) {
        Some(k) => {
            proof {
                lemma_sum_remove(list@, k as int);
                lemma_sum_at_least_len(list@);
            }
            let removed = list.remove(k);
            assert forall|j: int| 0 <= j < list@.len() implies (#[trigger] list@[j]).remaining_size@ > 0 by {
                if j >= k {
                    assert(list@[j] == old(list)@[j + 1]);
                } else {
                    assert(list@[j] == old(list)@[j]);
                }
            }
            Some(removed)
        },
        None => None,
    }
}

fn fill_in(list: &mut Vec<StandingOrder>, order_id: &str, filled: Fixed)
    requires
        side_wf(old(list)@),
        filled@ >= 0,
    ensures
        side_wf(final(list)@),
        final(list)@ == after_fill(old(list)@, order_id@, filled@),
{
    let id = order_id.to_owned();
    match find_index(list, &id) {
        Some(k) => {
            let o = dup(&list[k]);
            proof {
                lemma_sum_at_least_len(list@);
                lemma_sum_remove(list@, k as int);
            }
            let rest = o.remaining_size.minus(&filled);
            if rest.is_positive() {
                let updated = StandingOrder { remaining_size: rest, ..o };
                proof {
                    lemma_sum_update(list@, k as int, updated);
                    assert(updated == reduced(old(list)@[k as int], filled@));
                }
                list[k] = updated;
                assert forall|j: int| 0 <= j < list@.len() implies (#[trigger] list@[j]).remaining_size@ > 0 by {
                    if j != k {
                        assert(list@[j] == old(list)@[j]);
                    }
                }
            } else {
                list.remove(k);
                assert forall|j: int| 0 <= j < list@.len() implies (#[trigger] list@[j]).remaining_size@ > 0 by {
                    if j >= k {
                        assert(list@[j] == old(list)@[j + 1]);
                    } else {
                        assert(list@[j] == old(list)@[j]);
                    }
                }
            }
        },
        None => {},
    }
}

fn remove_price_from(list: &mut Vec<StandingOrder>, price: u16) -> (r: Vec<StandingOrder>)
    requires
        side_wf(old(list)@),
    ensures
        side_wf(final(list)@),
        final(list)@ == without_price(old(list)@, price),
        r@ == at_price(old(list)@, price),
{
    let mut kept: Vec<StandingOrder> = Vec::new();
    let mut removed: Vec<StandingOrder> = Vec::new();
    let n = list.len();
    let mut i: usize = 0;
    while i < n
        invariant
            n == list@.len(),
            0 <= i <= n,
            kept@ == without_price(list@.take(i as int), price),
            removed@ == at_price(list@.take(i as int), price),
        decreases n - i,
    {
        let o = dup(&list[i]);
        proof {
            assert(list@.take(i as int + 1).drop_last() =~= list@.take(i as int));
        }
        if o.price == price {
            removed.push(o);
        } else {
            kept.push(o);
        }
        i += 1;
    }
    proof {
        assert(list@.take(n as int) =~= list@);
        lemma_without_price(list@, price);
        lemma_size_at_bounded(list@, price);
        assert forall|j: int| 0 <= j < kept@.len() implies (#[trigger] kept@[j]).remaining_size@ > 0 by {
            let i = choose|i: int| 0 <= i < list@.len() && list@[i] == without_price(list@, price)[j];
        }
    }
    *list = kept;
    removed
}

fn contains_price(v: &Vec<u16>, p: u16) -> (r: bool)
    ensures
        r == v@.contains(p),
{
    let mut j: usize = 0;
    while j < v.len()
        invariant
            0 <= j <= v@.len(),
            forall|k: int| 0 <= k < j ==> v@[k] != p,
        decreases v@.len() - j,
    {
        if v[j] == p {
            return true;
        }
        j += 1;
    }
    false
}

/// Resting orders of both sides. Each side is a list in order of arrival; the orders
/// at one price are those of the list at that price, in the same order.
pub struct OrderTracker {
    yes_orders: Vec<StandingOrder>,
    no_orders: Vec<StandingOrder>,
}

impl OrderTracker {
    /// The resting orders of a side, in order of arrival.
    pub closed spec fn orders_of(&self, side: Side) -> Seq<StandingOrder> {
        match side {
            Side::Yes => self.yes_orders@,
            Side::No => self.no_orders@,
        }
    }

    /// No order has nothing left (so no price holds an empty list), and each side's
    /// total fits in an amount.
    pub open spec fn wf(&self) -> bool {
        side_wf(self.orders_of(Side::Yes)) && side_wf(self.orders_of(Side::No))
    }

    /// The two sides are as given.
    pub open spec fn holds(&self, side: Side, this: Seq<StandingOrder>, other: Seq<StandingOrder>) -> bool {
        self.orders_of(side) == this && self.orders_of(side.spec_opposite()) == other
    }

    fn side_list(&self, side: Side) -> (r: &Vec<StandingOrder>)
        ensures
            r@ == self.orders_of(side),
    {
        match side {
            Side::Yes => &self.yes_orders,
            Side::No => &self.no_orders,
        }
    }

    pub fn new() -> (r: OrderTracker)
        ensures
            r.wf(),
            r.orders_of(Side::Yes).len() == 0,
            r.orders_of(Side::No).len() == 0,
    {
        OrderTracker { yes_orders: Vec::new(), no_orders: Vec::new() }
    }

    /// Records a new order behind those already at its price.
    pub fn add(&mut self, side: Side, order_id: String, price: u16, size: Fixed)
        requires
            old(self).wf(),
            size@ > 0,
            sum_remaining(old(self).orders_of(side)) + size@ <= i64::MAX,
        ensures
            final(self).wf(),
            final(self).holds(
                side,
                old(self).orders_of(side).push(
                    StandingOrder { order_id, price, remaining_size: size, original_size: size },
                ),
                old(self).orders_of(side.spec_opposite()),
            ),
    {
        match side {
            Side::Yes => add_to(&mut self.yes_orders, order_id, price, size),
            Side::No => add_to(&mut self.no_orders, order_id, price, size),
        }
    }

    /// Removes the first order of the side with this identifier and returns it.
    pub fn remove_by_id(&mut self, side: Side, order_id: &str) -> (r: Option<StandingOrder>)
        requires
            old(self).wf(),
        ensures
            final(self).wf(),
            final(self).holds(
                side,
                without_id(old(self).orders_of(side), order_id@),
                old(self).orders_of(side.spec_opposite()),
            ),
            !has_id(old(self).orders_of(side), order_id@) ==> r is None,
            has_id(old(self).orders_of(side), order_id@) ==> r == Some(
                old(self).orders_of(side)[index_of_id(old(self).orders_of(side), order_id@)],
            ),
    {
        proof {
            lemma_index_of_id(self.orders_of(side), order_id@);
        }
        match side {
            Side::Yes => remove_id_from(&mut self.yes_orders, order_id),
            Side::No => remove_id_from(&mut self.no_orders, order_id),
        }
    }

    /// Removes every order of the side at `price` and returns them in order.
    pub fn remove_at_price(&mut self, side: Side, price: u16) -> (r: Vec<StandingOrder>)
        requires
            old(self).wf(),
        ensures
            final(self).wf(),
            final(self).holds(
                side,
                without_price(old(self).orders_of(side), price),
                old(self).orders_of(side.spec_opposite()),
            ),
            r@ == at_price(old(self).orders_of(side), price),
    {
        match side {
            Side::Yes => remove_price_from(&mut self.yes_orders, price),
            Side::No => remove_price_from(&mut self.no_orders, price),
        }
    }

    /// Takes a fill off the first order with this identifier; the order leaves
    /// once nothing remains of it. An unknown identifier changes nothing.
    pub fn update_fill(&mut self, side: Side, order_id: &str, filled_size: Fixed)
        requires
            old(self).wf(),
            filled_size@ >= 0,
        ensures
            final(self).wf(),
            final(self).holds(
                side,
                after_fill(old(self).orders_of(side), order_id@, filled_size@),
                old(self).orders_of(side.spec_opposite()),
            ),
    {
        match side {
            Side::Yes => fill_in(&mut self.yes_orders, order_id, filled_size),
            Side::No => fill_in(&mut self.no_orders, order_id, filled_size),
        }
    }

    /// The orders of the side at `price`, in order of arrival.
    pub fn orders_at_price(&self, side: Side, price: u16) -> (r: Vec<StandingOrder>)
        ensures
            r@ == at_price(self.orders_of(side), price),
    {
        let list = self.side_list(side);
        let mut out: Vec<StandingOrder> = Vec::new();
        let n = list.len();
        let mut i: usize = 0;
        while i < n
            invariant
                n == list@.len(),
                0 <= i <= n,
                out@ == at_price(list@.take(i as int), price),
            decreases n - i,
        {
            proof {
                assert(list@.take(i as int + 1).drop_last() =~= list@.take(i as int));
            }
            if list[i].price == price {
                out.push(dup(&list[i]));
            }
            i += 1;
        }
        proof {
            assert(list@.take(n as int) =~= list@);
        }
        out
    }

    /// Sum of what remains of the orders of the side at `price`.
    pub fn total_size_at_price(&self, side: Side, price: u16) -> (r: Fixed)
        requires
            self.wf(),
        ensures
            r@ == size_at(self.orders_of(side), price),
    {
        let list = self.side_list(side);
        let mut total = Fixed::zero();
        let n = list.len();
        let mut i: usize = 0;
        while i < n
            invariant
                n == list@.len(),
                0 <= i <= n,
                side_wf(list@),
                total@ == size_at(list@.take(i as int), price),
            decreases n - i,
        {
            proof {
                let t = list@.take(i as int + 1);
                assert(t.drop_last() =~= list@.take(i as int));
                assert forall|j: int| 0 <= j < t.len() implies (#[trigger] t[j]).remaining_size@ > 0 by {
                    assert(t[j] == list@[j]);
                }
                lemma_size_at_bounded(t, price);
                lemma_sum_prefix(list@, i as int + 1);
                if list@[i as int].price == price {
                    lemma_sum_push(at_price(list@.take(i as int), price), list@[i as int]);
                }
            }
            if list[i].price == price {
                total = total.plus(&list[i].remaining_size);
            }
            i += 1;
        }
        proof {
            assert(list@.take(n as int) =~= list@);
        }
        total
    }

    /// The prices at which the side has orders, each once.
    pub fn prices(&self, side: Side) -> (r: Vec<u16>)
        ensures
            r@.no_duplicates(),
            forall|p: u16| r@.contains(p) <==> has_price(self.orders_of(side), p),
    {
        let list = self.side_list(side);
        let mut out: Vec<u16> = Vec::new();
        let n = list.len();
        let mut i: usize = 0;
        while i < n
            invariant
                n == list@.len(),
                0 <= i <= n,
                out@.no_duplicates(),
                forall|p: u16| out@.contains(p) <==> has_price(list@.take(i as int), p),
            decreases n - i,
        {
            let p = list[i].price;
            let seen = contains_price(&out, p);
            proof {
                let t = list@.take(i as int);
                let t1 = list@.take(i as int + 1);
                assert forall|q: u16| has_price(t1, q) <==> (has_price(t, q) || q == p) by {
                    if has_price(t1, q) {
                        let k = choose|k: int| 0 <= k < t1.len() && (#[trigger] t1[k]).price == q;
                        if k < i {
                            assert(t[k] == t1[k]);
                        }
                    }
                    if has_price(t, q) {
                        let k = choose|k: int| 0 <= k < t.len() && (#[trigger] t[k]).price == q;
                        assert(t1[k] == t[k]);
                    }
                    if q == p {
                        assert(t1[i as int].price == q);
                    }
                }
            }
            let ghost before = out@;
            if !seen {
                out.push(p);
                proof {
                    assert forall|q: u16| out@.contains(q) <==> (before.contains(q) || q == p) by {
                        if before.contains(q) {
                            let k = choose|k: int| 0 <= k < before.len() && before[k] == q;
                            assert(out@[k] == q);
                        }
                        if q == p {
                            assert(out@[before.len() as int] == q);
                        }
                    }
                }
            } else {
                assert(before.contains(p));
            }
            proof {
                let t1 = list@.take(i as int + 1);
                assert forall|q: u16| out@.contains(q) <==> has_price(t1, q) by {
                    if !seen {
                        assert(out@.contains(q) <==> (before.contains(q) || q == p));
                    }
                }
            }
            i += 1;
        }
        proof {
            assert(list@.take(n as int) =~= list@);
        }
        out
    }

    /// Every order of the side, in order of arrival.
    pub fn all_orders(&self, side: Side) -> (r: Vec<StandingOrder>)
        ensures
            r@ == self.orders_of(side),
    {
        let list = self.side_list(side);
        let mut out: Vec<StandingOrder> = Vec::new();
        let n = list.len();
        let mut i: usize = 0;
        while i < n
            invariant
                n == list@.len(),
                0 <= i <= n,
                out@ == list@.take(i as int),
            decreases n - i,
        {
            out.push(dup(&list[i]));
            proof {
                assert(out@ =~= list@.take(i as int + 1));
            }
            i += 1;
        }
        proof {
            assert(list@.take(n as int) =~= list@);
        }
        out
    }

    /// The identifiers of every order of the side, in order of arrival.
    pub fn all_order_ids(&self, side: Side) -> (r: Vec<String>)
        ensures
            r@.len() == self.orders_of(side).len(),
            forall|j: int| 0 <= j < r@.len() ==> (#[trigger] r@[j])@ == self.orders_of(side)[j].order_id@,
    {
        let list = self.side_list(side);
        let mut out: Vec<String> = Vec::new();
        let n = list.len();
        let mut i: usize = 0;
        while i < n
            invariant
                n == list@.len(),
                0 <= i <= n,
                out@.len() == i,
                forall|j: int| 0 <= j < i ==> (#[trigger] out@[j])@ == list@[j].order_id@,
            decreases n - i,
        {
            out.push(list[i].order_id.clone());
            i += 1;
        }
        out
    }

    /// Number of orders of the side.
    pub fn count(&self, side: Side) -> (r: usize)
        ensures
            r == self.orders_of(side).len(),
    {
        self.side_list(side).len()
    }

    /// Number of orders of both sides.
    pub fn total_count(&self) -> (r: usize)
        requires
            self.orders_of(Side::Yes).len() + self.orders_of(Side::No).len() <= usize::MAX,
        ensures
            r == self.orders_of(Side::Yes).len() + self.orders_of(Side::No).len(),
    {
        self.count(Side::Yes) + self.count(Side::No)
    }

    /// The highest price at which the side has an order.
    pub fn top_price(&self, side: Side) -> (r: Option<u16>)
        ensures
            r is None <==> self.orders_of(side).len() == 0,
            r matches Some(p) ==> has_price(self.orders_of(side), p) && forall|j: int|
                0 <= j < self.orders_of(side).len() ==> (#[trigger] self.orders_of(side)[j]).price <= p,
    {
        let list = self.side_list(side);
        let n = list.len();
        if n == 0 {
            return None;
        }
        let mut best = list[0].price;
        let mut i: usize = 1;
        while i < n
            invariant
                n == list@.len(),
                1 <= i <= n,
                has_price(list@, best),
                forall|j: int| 0 <= j < i ==> (#[trigger] list@[j]).price <= best,
            decreases n - i,
        {
            if list[i].price > best {
                best = list[i].price;
            }
            i += 1;
        }
        Some(best)
    }

    /// The lowest price at which the side has an order.
    pub fn bottom_price(&self, side: Side) -> (r: Option<u16>)
        ensures
            r is None <==> self.orders_of(side).len() == 0,
            r matches Some(p) ==> has_price(self.orders_of(side), p) && forall|j: int|
                0 <= j < self.orders_of(side).len() ==> (#[trigger] self.orders_of(side)[j]).price >= p,
    {
        let list = self.side_list(side);
        let n = list.len();
        if n == 0 {
            return None;
        }
        let mut best = list[0].price;
        let mut i: usize = 1;
        while i < n
            invariant
                n == list@.len(),
                1 <= i <= n,
                has_price(list@, best),
                forall|j: int| 0 <= j < i ==> (#[trigger] list@[j]).price >= best,
            decreases n - i,
        {
            if list[i].price < best {
                best = list[i].price;
            }
            i += 1;
        }
        Some(best)
    }

    /// Sum of what remains of every order of the side.
    pub fn total_exposure(&self, side: Side) -> (r: Fixed)
        requires
            self.wf(),
        ensures
            r@ == sum_remaining(self.orders_of(side)),
    {
        let list = self.side_list(side);
        let mut total = Fixed::zero();
        let n = list.len();
        let mut i: usize = 0;
        while i < n
            invariant
                n == list@.len(),
                0 <= i <= n,
                side_wf(list@),
                total@ == sum_remaining(list@.take(i as int)),
            decreases n - i,
        {
            proof {
                let t = list@.take(i as int + 1);
                assert(t.drop_last() =~= list@.take(i as int));
                lemma_sum_prefix(list@, i as int + 1);
                assert forall|j: int| 0 <= j < list@.take(i as int).len() implies (#[trigger] list@.take(i as int)[j]).remaining_size@ > 0 by {
                    assert(list@.take(i as int)[j] == list@[j]);
                }
                lemma_sum_at_least_len(list@.take(i as int));
            }
            total = total.plus(&list[i].remaining_size);
            i += 1;
        }
        proof {
            assert(list@.take(n as int) =~= list@);
        }
        total
    }

    /// The side has at least one order.
    pub fn has_orders(&self, side: Side) -> (r: bool)
        ensures
            r == (self.orders_of(side).len() > 0),
    {
        self.side_list(side).len() > 0
    }

    /// The price of the first order of the side with this identifier.
    pub fn find_price_by_id(&self, side: Side, order_id: &str) -> (r: Option<u16>)
        ensures
            !has_id(self.orders_of(side), order_id@) ==> r is None,
            has_id(self.orders_of(side), order_id@) ==> r == Some(
                self.orders_of(side)[index_of_id(self.orders_of(side), order_id@)].price,
            ),
    {
        proof {
            lemma_index_of_id(self.orders_of(side), order_id@);
        }
        let list = self.side_list(side);
        let id = order_id.to_owned();
        match find_index(list, &id) {
            Some(k) => Some(list[k].price),
            None => None,
        }
    }

    /// Drops every order of one side.
    pub fn clear(&mut self, side: Side)
        requires
            old(self).wf(),
        ensures
            final(self).wf(),
            final(self).holds(side, Seq::empty(), old(self).orders_of(side.spec_opposite())),
    {
        match side {
            Side::Yes => self.yes_orders.clear(),
            Side::No => self.no_orders.clear(),
        }
    }

    /// Drops every order of both sides.
    pub fn clear_all(&mut self)
        ensures
            final(self).wf(),
            final(self).orders_of(Side::Yes).len() == 0,
            final(self).orders_of(Side::No).len() == 0,
    {
        self.yes_orders.clear();
        self.no_orders.clear();
    }
}

impl Default for OrderTracker {
    fn default() -> (r: OrderTracker)
        ensures
            r.wf(),
            r.orders_of(Side::Yes).len() == 0,
            r.orders_of(Side::No).len() == 0,
    {
        OrderTracker::new()
    }
}

/// Adding an order under an identifier that the side does not hold, then removing
/// by that identifier, leaves the side exactly as it was (the other side is never
/// touched by either call).
pub proof fn lemma_add_remove_round_trip(
    tracker: OrderTracker,
    side: Side,
    order_id: String,
    price: u16,
    size: Fixed,
)
    requires
        tracker.wf(),
        !has_id(tracker.orders_of(side), order_id@),
    ensures
        without_id(
            tracker.orders_of(side).push(
                StandingOrder { order_id, price, remaining_size: size, original_size: size },
            ),
            order_id@,
        ) == tracker.orders_of(side),
{
    let s = tracker.orders_of(side);
    let o = StandingOrder { order_id, price, remaining_size: size, original_size: size };
    let t = s.push(o);
    lemma_index_of_id(s, order_id@);
    assert(t.drop_last() =~= s);
    assert(index_of_id(t, order_id@) == s.len());
    assert(t.remove(s.len() as int) =~= s);
}

/// A positive fill on a held order either leaves that order in place with strictly
/// less remaining, or removes it once nothing remains; in both cases every order
/// left on the side still has something remaining.
pub proof fn lemma_fill_shrinks_or_removes(tracker: OrderTracker, side: Side, order_id: &str, filled: Fixed)
    requires
        tracker.wf(),
        has_id(tracker.orders_of(side), order_id@),
        filled@ > 0,
    ensures
        ({
            let s = tracker.orders_of(side);
            let k = index_of_id(s, order_id@);
            let t = after_fill(s, order_id@, filled@);
            &&& 0 <= k < s.len()
            &&& s[k].remaining_size@ - filled@ > 0 ==> t.len() == s.len() && t[k].order_id
                == s[k].order_id && t[k].remaining_size@ == s[k].remaining_size@ - filled@
                && t[k].remaining_size@ < s[k].remaining_size@
            &&& s[k].remaining_size@ - filled@ <= 0 ==> t == s.remove(k) && t.len() == s.len()
                - 1
            &&& forall|j: int| 0 <= j < t.len() ==> (#[trigger] t[j]).remaining_size@ > 0
        }),
{
    let s = tracker.orders_of(side);
    lemma_index_of_id(s, order_id@);
    let k = index_of_id(s, order_id@);
    let t = after_fill(s, order_id@, filled@);
    if s[k].remaining_size@ - filled@ > 0 {
        assert forall|j: int| 0 <= j < t.len() implies (#[trigger] t[j]).remaining_size@ > 0 by {
            if j != k {
                assert(t[j] == s[j]);
            }
        }
    } else {
        assert forall|j: int| 0 <= j < t.len() implies (#[trigger] t[j]).remaining_size@ > 0 by {
            if j >= k {
                assert(t[j] == s[j + 1]);
            } else {
                assert(t[j] == s[j]);
            }
        }
    }
}

} // verus!
