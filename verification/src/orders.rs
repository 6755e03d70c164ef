//! Order bookkeeping: building the complementary YES/NO limit orders for a
//! batch of quotes, batching them for submission, tracking what the exchange
//! accepted, applying reconciliation updates, and marking cancellations.
//!
//! Signing and submitting orders is transport and lives outside the library;
//! it receives [`OrderIntent`] batches and hands back [`PlacementResult`]s.

use vstd::prelude::*;

use vstd::pervasive::VecAdditionalExecFns;

use crate::fixed::{Dec, AMOUNT_MAX, DEC_SCALE};
use crate::quoter::Quote;

verus! {

/// Which side of the book an order rests on.
#[derive(Clone, Copy, Debug, PartialEq, Eq, Structural)]
pub enum Side {
    Buy,
    Sell,
}

/// Lifecycle of a tracked order. `Filled` and `Cancelled` are terminal.
#[derive(Clone, Copy, Debug, PartialEq, Eq, Structural)]
pub enum OrderStatus {
    Open,
    PartiallyFilled,
    Filled,
    Cancelled,
}

/// An order the bot has placed on the exchange. `accounted` records how much
/// of `filled` has already been folded into the inventory, so that repeated
/// reconciliation passes never double-count a fill.
#[derive(Debug)]
pub struct TrackedOrder {
    pub order_id: String,
    pub token_id: String,
    pub side: Side,
    pub price: Dec,
    pub size: Dec,
    pub filled: Dec,
    pub accounted: Dec,
    pub status: OrderStatus,
}

impl Clone for TrackedOrder {
    /// A clone carries exactly the same fields.
    fn clone(&self) -> (res: Self)
        ensures
            res == *self,
    {
        TrackedOrder {
            order_id: self.order_id.clone(),
            token_id: self.token_id.clone(),
            side: self.side,
            price: self.price,
            size: self.size,
            filled: self.filled,
            accounted: self.accounted,
            status: self.status,
        }
    }
}

impl TrackedOrder {
    /// Price within `[0, 1]`; size, fill and accounted fill within amounts.
    pub open spec fn wf(&self) -> bool {
        &&& 0 <= self.price@ <= DEC_SCALE as int
        &&& 0 <= self.size@ <= AMOUNT_MAX as int
        &&& 0 <= self.filled@ <= AMOUNT_MAX as int
        &&& 0 <= self.accounted@ <= AMOUNT_MAX as int
    }

    /// Whether the order still rests on the book.
    pub open spec fn is_active(&self) -> bool {
        self.status is Open || self.status is PartiallyFilled
    }
}

/// A limit order the library wants on the book, before signing.
#[derive(Debug)]
pub struct OrderIntent {
    pub token_id: String,
    pub side: Side,
    pub price: Dec,
    pub size: Dec,
}

impl Clone for OrderIntent {
    /// A clone carries exactly the same fields.
    fn clone(&self) -> (res: Self)
        ensures
            res == *self,
    {
        OrderIntent {
            token_id: self.token_id.clone(),
            side: self.side,
            price: self.price,
            size: self.size,
        }
    }
}

/// What the exchange answered for one submitted order.
#[derive(Debug)]
pub struct PlacementResult {
    pub success: bool,
    pub order_id: String,
    pub error_msg: Option<String>,
}

/// All quotes carry prices in `[0, 1]` and sizes within amounts.
pub open spec fn quotes_wf(quotes: Seq<Quote>) -> bool {
    forall|i: int|
        0 <= i < quotes.len() ==> {
            &&& 0 <= (#[trigger] quotes[i]).bid_price@ <= DEC_SCALE as int
            &&& 0 <= quotes[i].ask_price@ <= DEC_SCALE as int
            &&& 0 <= quotes[i].size@ <= AMOUNT_MAX as int
        }
}

/// The up-to-four order intents for one quote: buy and sell YES at bid and
/// ask, and the complementary NO orders, skipping prices that leave `(0, 1)`.
pub open spec fn intents_of_quote(yes_id: String, no_id: String, q: Quote) -> Seq<OrderIntent> {
    let s: int = DEC_SCALE as int;
    let yes_orders = seq![
        OrderIntent { token_id: yes_id, side: Side::Buy, price: q.bid_price, size: q.size },
        OrderIntent { token_id: yes_id, side: Side::Sell, price: q.ask_price, size: q.size },
    ];
    let with_no_bid = if s - q.ask_price@ > 0 {
        yes_orders.push(
            OrderIntent {
                token_id: no_id,
                side: Side::Buy,
                price: Dec { atoms: (s - q.ask_price@) as i128 },
                size: q.size,
            },
        )
    } else {
        yes_orders
    };
    if s - q.bid_price@ < s {
        with_no_bid.push(
            OrderIntent {
                token_id: no_id,
                side: Side::Sell,
                price: Dec { atoms: (s - q.bid_price@) as i128 },
                size: q.size,
            },
        )
    } else {
        with_no_bid
    }
}

/// The intents for the first `n` quotes, in order.
pub open spec fn intents_upto(yes_id: String, no_id: String, quotes: Seq<Quote>, n: int) -> Seq<
    OrderIntent,
>
    decreases n,
{
    if n <= 0 {
        Seq::empty()
    } else {
        intents_upto(yes_id, no_id, quotes, n - 1) + intents_of_quote(yes_id, no_id, quotes[n - 1])
    }
}

/// Build the limit-order intents for a batch of quotes: for each quote a YES
/// bid and ask, plus the complementary NO bid at `1 - ask` and NO ask at
/// `1 - bid` when those stay inside `(0, 1)`.
pub fn build_order_intents(token_yes_id: &String, token_no_id: &String, quotes: &Vec<Quote>) -> (r:
    Vec<OrderIntent>)
    requires
        quotes_wf(quotes@),
    ensures
        r@ == intents_upto(*token_yes_id, *token_no_id, quotes@, quotes@.len() as int),
{
    let mut out: Vec<OrderIntent> = Vec::new();
    let mut i: usize = 0;
    let n = quotes.len();
    while i < n
        invariant
            quotes_wf(quotes@),
            n == quotes@.len(),
            0 <= i <= n,
            out@ == intents_upto(*token_yes_id, *token_no_id, quotes@, i as int),
        decreases n - i,
    {
        let q = &quotes[i];
        let one = Dec::one();
        out.push(
            OrderIntent {
                token_id: token_yes_id.clone(),
                side: Side::Buy,
                price: q.bid_price,
                size: q.size,
            },
        );
        out.push(
            OrderIntent {
                token_id: token_yes_id.clone(),
                side: Side::Sell,
                price: q.ask_price,
                size: q.size,
            },
        );
        let no_bid_price = one.sub(q.ask_price);
        if no_bid_price.gt(&Dec::zero()) {
            out.push(
                OrderIntent {
                    token_id: token_no_id.clone(),
                    side: Side::Buy,
                    price: no_bid_price,
                    size: q.size,
                },
            );
        }
        let no_ask_price = one.sub(q.bid_price);
        if no_ask_price.lt(&one) {
            out.push(
                OrderIntent {
                    token_id: token_no_id.clone(),
                    side: Side::Sell,
                    price: no_ask_price,
                    size: q.size,
                },
            );
        }
        i = i + 1;
        proof {
            assert(out@ =~= intents_upto(*token_yes_id, *token_no_id, quotes@, i as int));
        }
    }
    out
}

/// The batches flattened back into one list, in order.
pub open spec fn flatten_batches(batches: Seq<Vec<OrderIntent>>) -> Seq<OrderIntent>
    decreases batches.len(),
{
    if batches.len() == 0 {
        Seq::empty()
    } else {
        flatten_batches(batches.drop_last()) + batches.last()@
    }
}

/// Split intents into submission batches of at most 15 orders, preserving
/// order: every batch but the last holds exactly 15.
pub fn batch_intents(intents: Vec<OrderIntent>) -> (r: Vec<Vec<OrderIntent>>)
    ensures
        flatten_batches(r@) == intents@,
        forall|i: int| 0 <= i < r@.len() ==> 0 < (#[trigger] r@[i])@.len() <= 15,
        forall|i: int| 0 <= i < r@.len() - 1 ==> (#[trigger] r@[i])@.len() == 15,
{
    let ghost orig = intents@;
    let mut rest = intents;
    let mut batches: Vec<Vec<OrderIntent>> = Vec::new();
    let mut current: Vec<OrderIntent> = Vec::new();
    while rest.len() > 0
        invariant
            flatten_batches(batches@) + current@ + rest@ =~= orig,
            current@.len() < 15,
            forall|i: int| 0 <= i < batches@.len() ==> (#[trigger] batches@[i])@.len() == 15,
            rest@.len() > 0 ==> true,
        decreases rest@.len(), 15int - current@.len(),
    {
        let x = rest.remove(0);
        current.push(x);
        if current.len() == 15 {
            let ghost old_batches = batches@;
            let full = current;
            batches.push(full);
            current = Vec::new();
            proof {
                assert(batches@.drop_last() =~= old_batches);
                assert(flatten_batches(batches@) =~= flatten_batches(old_batches)
                    + batches@.last()@);
            }
        }
        proof {
            assert(flatten_batches(batches@) + current@ + rest@ =~= orig);
        }
    }
    if current.len() > 0 {
        let ghost old_batches = batches@;
        batches.push(current);
        proof {
            assert(batches@.drop_last() =~= old_batches);
            assert(flatten_batches(batches@) =~= flatten_batches(old_batches) + batches@.last()@);
        }
    }
    proof {
        assert(flatten_batches(batches@) =~= orig);
    }
    batches
}

/// Split order ids into cancellation batches of at most 20, preserving
/// order: every batch but the last holds exactly 20.
pub open spec fn flatten_id_batches(batches: Seq<Vec<String>>) -> Seq<String>
    decreases batches.len(),
{
    if batches.len() == 0 {
        Seq::empty()
    } else {
        flatten_id_batches(batches.drop_last()) + batches.last()@
    }
}

/// Split order ids into cancellation batches of at most 20 ids each.
pub fn batch_cancel_ids(ids: Vec<String>) -> (r: Vec<Vec<String>>)
    ensures
        flatten_id_batches(r@) == ids@,
        forall|i: int| 0 <= i < r@.len() ==> 0 < (#[trigger] r@[i])@.len() <= 20,
        forall|i: int| 0 <= i < r@.len() - 1 ==> (#[trigger] r@[i])@.len() == 20,
{
    let ghost orig = ids@;
    let mut rest = ids;
    let mut batches: Vec<Vec<String>> = Vec::new();
    let mut current: Vec<String> = Vec::new();
    while rest.len() > 0
        invariant
            flatten_id_batches(batches@) + current@ + rest@ =~= orig,
            current@.len() < 20,
            forall|i: int| 0 <= i < batches@.len() ==> (#[trigger] batches@[i])@.len() == 20,
        decreases rest@.len(),
    {
        let x = rest.remove(0);
        current.push(x);
        if current.len() == 20 {
            let ghost old_batches = batches@;
            let full = current;
            batches.push(full);
            current = Vec::new();
            proof {
                assert(batches@.drop_last() =~= old_batches);
                assert(flatten_id_batches(batches@) =~= flatten_id_batches(old_batches)
                    + batches@.last()@);
            }
        }
        proof {
            assert(flatten_id_batches(batches@) + current@ + rest@ =~= orig);
        }
    }
    if current.len() > 0 {
        let ghost old_batches = batches@;
        batches.push(current);
        proof {
            assert(batches@.drop_last() =~= old_batches);
            assert(flatten_id_batches(batches@) =~= flatten_id_batches(old_batches)
                + batches@.last()@);
        }
    }
    proof {
        assert(flatten_id_batches(batches@) =~= orig);
    }
    batches
}

/// The tracked orders accepted among the first `n` submissions: one open
/// order per successful placement, carrying the exchange's order id and the
/// intent's terms, with nothing filled yet.
pub open spec fn tracked_upto(
    intents: Seq<OrderIntent>,
    results: Seq<PlacementResult>,
    n: int,
) -> Seq<TrackedOrder>
    decreases n,
{
    if n <= 0 {
        Seq::empty()
    } else {
        let prev = tracked_upto(intents, results, n - 1);
        if results[n - 1].success {
            prev.push(
                TrackedOrder {
                    order_id: results[n - 1].order_id,
                    token_id: intents[n - 1].token_id,
                    side: intents[n - 1].side,
                    price: intents[n - 1].price,
                    size: intents[n - 1].size,
                    filled: Dec { atoms: 0 },
                    accounted: Dec { atoms: 0 },
                    status: OrderStatus::Open,
                },
            )
        } else {
            prev
        }
    }
}

/// Turn the exchange's per-order placement answers into tracked orders:
/// accepted orders become open tracked orders, rejected ones are dropped.
pub fn apply_placement_results(
    intents: &Vec<OrderIntent>,
    results: &Vec<PlacementResult>,
) -> (r: Vec<TrackedOrder>)
    requires
        intents@.len() == results@.len(),
    ensures
        r@ == tracked_upto(intents@, results@, results@.len() as int),
{
    let mut out: Vec<TrackedOrder> = Vec::new();
    let mut i: usize = 0;
    let n = results.len();
    while i < n
        invariant
            intents@.len() == results@.len(),
            n == results@.len(),
            0 <= i <= n,
            out@ == tracked_upto(intents@, results@, i as int),
        decreases n - i,
    {
        if results[i].success {
            out.push(
                TrackedOrder {
                    order_id: results[i].order_id.clone(),
                    token_id: intents[i].token_id.clone(),
                    side: intents[i].side,
                    price: intents[i].price,
                    size: intents[i].size,
                    filled: Dec::zero(),
                    accounted: Dec::zero(),
                    status: OrderStatus::Open,
                },
            );
        }
        i = i + 1;
    }
    out
}

/// Fold one reconciliation answer from the exchange into a tracked order:
/// record the matched size and move to `Filled` once everything matched, to
/// `PartiallyFilled` on a partial match, else leave the status alone.
pub fn apply_order_update(order: &mut TrackedOrder, size_matched: Dec, original_size: Dec)
    requires
        0 <= size_matched@ <= AMOUNT_MAX as int,
    ensures
        final(order).order_id == old(order).order_id,
        final(order).token_id == old(order).token_id,
        final(order).side == old(order).side,
        final(order).price == old(order).price,
        final(order).size == old(order).size,
        final(order).accounted == old(order).accounted,
        final(order).filled == size_matched,
        final(order).status == if size_matched@ >= original_size@ {
            OrderStatus::Filled
        } else if size_matched@ > 0 {
            OrderStatus::PartiallyFilled
        } else {
            old(order).status
        },
{
    order.filled = size_matched;
    if size_matched.ge(&original_size) {
        order.status = OrderStatus::Filled;
    } else if size_matched.gt(&Dec::zero()) {
        order.status = OrderStatus::PartiallyFilled;
    }
}

/// Whether some id in the list reads the same as `id`.
pub open spec fn contains_id(ids: Seq<String>, id: String) -> bool {
    exists|k: int| 0 <= k < ids.len() && ids[k]@ == id@
}

/// One order after a cancellation of `ids`: an active order named in the
/// list becomes `Cancelled`, everything else is untouched.
pub open spec fn cancel_one(o: TrackedOrder, ids: Seq<String>) -> TrackedOrder {
    if o.is_active() && contains_id(ids, o.order_id) {
        TrackedOrder {
            order_id: o.order_id,
            token_id: o.token_id,
            side: o.side,
            price: o.price,
            size: o.size,
            filled: o.filled,
            accounted: o.accounted,
            status: OrderStatus::Cancelled,
        }
    } else {
        o
    }
}

/// The tracked list after a cancellation of `ids`.
pub open spec fn cancel_spec(orders: Seq<TrackedOrder>, ids: Seq<String>) -> Seq<TrackedOrder> {
    Seq::new(orders.len(), |i: int| cancel_one(orders[i], ids))
}

/// Mark the named orders cancelled: every active tracked order whose id
/// appears in `ids` moves to `Cancelled`; terminal and unnamed orders are
/// untouched.
pub fn mark_cancelled(orders: &mut Vec<TrackedOrder>, ids: &Vec<String>)
    ensures
        final(orders)@ == cancel_spec(old(orders)@, ids@),
{
    let ghost orig = orders@;
    let mut i: usize = 0;
    let n = orders.len();
    while i < n
        invariant
            n == orders@.len() == orig.len(),
            0 <= i <= n,
            forall|k: int| 0 <= k < i ==> orders@[k] == cancel_one(orig[k], ids@),
            forall|k: int| i <= k < n ==> orders@[k] == orig[k],
        decreases n - i,
    {
        let active = match orders[i].status {
            OrderStatus::Open => true,
            OrderStatus::PartiallyFilled => true,
            OrderStatus::Filled => false,
            OrderStatus::Cancelled => false,
        };
        if active && id_list_contains(ids, &orders[i].order_id) {
            let o = orders[i].clone();
            orders.set(
                i,
                TrackedOrder {
                    order_id: o.order_id,
                    token_id: o.token_id,
                    side: o.side,
                    price: o.price,
                    size: o.size,
                    filled: o.filled,
                    accounted: o.accounted,
                    status: OrderStatus::Cancelled,
                },
            );
        }
        i = i + 1;
    }
    proof {
        assert(orders@ =~= cancel_spec(orig, ids@));
    }
}

/// Whether the id list holds a string reading the same as `id`.
pub(crate) fn id_list_contains(ids: &Vec<String>, id: &String) -> (r: bool)
    ensures
        r == contains_id(ids@, *id),
{
    let mut k: usize = 0;
    let n = ids.len();
    while k < n
        invariant
            n == ids@.len(),
            0 <= k <= n,
            forall|j: int| 0 <= j < k ==> ids@[j]@ != id@,
        decreases n - k,
    {
        if ids[k].eq(id) {
            return true;
        }
        k = k + 1;
    }
    false
}

/// Cancelling the same ids a second time changes nothing: the first pass
/// already moved every named active order to `Cancelled`.
pub proof fn lemma_cancel_idempotent(orders: Seq<TrackedOrder>, ids: Seq<String>)
    ensures
        cancel_spec(cancel_spec(orders, ids), ids) == cancel_spec(orders, ids),
{
    let once = cancel_spec(orders, ids);
    assert forall|i: int| 0 <= i < once.len() implies cancel_spec(once, ids)[i] == once[i] by {
        assert(once[i] == cancel_one(orders[i], ids));
    }
    assert(cancel_spec(once, ids) =~= once);
}

} // verus!
