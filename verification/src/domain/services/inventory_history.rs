use crate::domain::entities::inventory_transaction::InventoryTransactionView;
use crate::domain::entities::InventoryTransaction;
use crate::domain::value_objects::transaction_date::{date_precedes, lemma_date_order};
use crate::domain::value_objects::{
    InventoryBalance, InventoryType, ProductCode, Quantity, TransactionDate,
};
use crate::error::DomainError;
use crate::text::{chars_of, lemma_lex_transitive, lemma_lex_trichotomy, lex_less, lex_order};
use vstd::prelude::*;

verus! {

/// One line of the ledger: a stock event, and the stock of its product before and
/// after it.
#[derive(Debug, Clone)]
pub struct InventoryHistoryRecord {
    pub date: TransactionDate,
    pub inventory_type: InventoryType,
    pub product_code: ProductCode,
    pub product_name: String,
    /// The stock of the product before the event.
    pub base_quantity: InventoryBalance,
    /// By how much the event moves the stock, without sign.
    pub change_quantity: Quantity,
    /// The stock of the product after the event.
    pub balance: InventoryBalance,
}

/// A ledger line as plain values.
pub struct InventoryHistoryRecordView {
    pub date: Seq<char>,
    pub inventory_type: InventoryType,
    pub product_code: Seq<char>,
    pub product_name: Seq<char>,
    pub base_quantity: int,
    pub change_quantity: int,
    pub balance: int,
}

impl View for InventoryHistoryRecord {
    type V = InventoryHistoryRecordView;

    open spec fn view(&self) -> InventoryHistoryRecordView {
        InventoryHistoryRecordView {
            date: self.date@,
            inventory_type: self.inventory_type,
            product_code: self.product_code@,
            product_name: self.product_name@,
            base_quantity: self.base_quantity@,
            change_quantity: self.change_quantity@,
            balance: self.balance@,
        }
    }
}

/// The events as plain values, in the same order.
pub open spec fn transaction_views(transactions: Seq<InventoryTransaction>) -> Seq<
    InventoryTransactionView,
> {
    transactions.map_values(|t: InventoryTransaction| t@)
}

/// The ledger lines as plain values, in the same order.
pub open spec fn record_views(records: Seq<InventoryHistoryRecord>) -> Seq<
    InventoryHistoryRecordView,
> {
    records.map_values(|r: InventoryHistoryRecord| r@)
}

/// Whether event `a` comes before event `b` in the ledger: it has the earlier date,
/// or the same date and the product code that comes first in lexical order.
pub open spec fn comes_before(a: InventoryTransactionView, b: InventoryTransactionView) -> bool {
    date_precedes(a.date, b.date) || (a.date == b.date && lex_less(
        a.product_code,
        b.product_code,
    ))
}

/// `ordered` with the event `t` put in behind every event that does not come after
/// it.
pub open spec fn insert_in_order(
    ordered: Seq<InventoryTransactionView>,
    t: InventoryTransactionView,
) -> Seq<InventoryTransactionView>
    decreases ordered.len(),
{
    if ordered.len() > 0 && comes_before(t, ordered.last()) {
        insert_in_order(ordered.drop_last(), t).push(ordered.last())
    } else {
        ordered.push(t)
    }
}

/// The events in the order of the ledger: by date, then by product code; events of
/// one date and one product in the order in which they were given.
pub open spec fn chronological(events: Seq<InventoryTransactionView>) -> Seq<
    InventoryTransactionView,
>
    decreases events.len(),
{
    if events.len() == 0 {
        events
    } else {
        insert_in_order(chronological(events.drop_last()), events.last())
    }
}

/// By how much an event moves the stock: up for production and purchase, down for
/// sales.
pub open spec fn stock_change(t: InventoryTransactionView) -> int {
    match t.inventory_type {
        InventoryType::Production => t.quantity,
        InventoryType::Purchase => t.quantity,
        InventoryType::Sales => -t.quantity,
    }
}

/// The stock of a product after `events`, from a stock of zero.
pub open spec fn stock_after(events: Seq<InventoryTransactionView>, product_code: Seq<char>) -> int
    decreases events.len(),
{
    if events.len() == 0 {
        0
    } else {
        stock_after(events.drop_last(), product_code) + if events.last().product_code
            == product_code {
            stock_change(events.last())
        } else {
            0
        }
    }
}

/// The ledger line of the event `events[i]`, where `events` are in the order of the
/// ledger.
pub open spec fn ledger_line(
    events: Seq<InventoryTransactionView>,
    i: int,
) -> InventoryHistoryRecordView {
    let t = events[i];
    let base = stock_after(events.take(i), t.product_code);
    InventoryHistoryRecordView {
        date: t.date,
        inventory_type: t.inventory_type,
        product_code: t.product_code,
        product_name: t.product_name,
        base_quantity: base,
        change_quantity: t.quantity,
        balance: base + stock_change(t),
    }
}

/// The ledger of `events` taken in the order given: one line for each event.
pub open spec fn ledger(events: Seq<InventoryTransactionView>) -> Seq<InventoryHistoryRecordView> {
    Seq::new(events.len(), |i: int| ledger_line(events, i))
}

/// The inventory history of the transactions: the ledger of the transactions in
/// chronological order.
pub open spec fn history_of(transactions: Seq<InventoryTransactionView>) -> Seq<
    InventoryHistoryRecordView,
> {
    ledger(chronological(transactions))
}

/// Putting an event in at place `p` is putting it in order, where the events from `p`
/// on come after it and the event before `p` does not.
proof fn lemma_insert_at(
    ordered: Seq<InventoryTransactionView>,
    t: InventoryTransactionView,
    p: int,
)
    requires
        0 <= p <= ordered.len(),
        forall|k: int| p <= k < ordered.len() ==> comes_before(t, #[trigger] ordered[k]),
        p > 0 ==> !comes_before(t, ordered[p - 1]),
    ensures
        insert_in_order(ordered, t) == ordered.insert(p, t),
    decreases ordered.len() - p,
{
    if p < ordered.len() {
        lemma_insert_at(ordered.drop_last(), t, p);
        assert(ordered.drop_last().insert(p, t).push(ordered.last()) =~= ordered.insert(p, t));
    } else {
        assert(ordered.push(t) =~= ordered.insert(p, t));
    }
}

/// Whether two events have the same date and the same product code.
pub open spec fn same_key(a: InventoryTransactionView, b: InventoryTransactionView) -> bool {
    a.date == b.date && a.product_code == b.product_code
}

/// Whether no event of `events` comes before an event that stands before it.
pub open spec fn is_in_order(events: Seq<InventoryTransactionView>) -> bool {
    forall|i: int, j: int|
        0 <= i < j < events.len() ==> !comes_before(#[trigger] events[j], #[trigger] events[i])
}

/// The order of the ledger is a strict order of events by date and product code: no
/// event comes before itself, of two events with different keys exactly one comes
/// before the other, and an event that comes before a second that comes before a
/// third comes before the third.
pub proof fn lemma_event_order(
    a: InventoryTransactionView,
    b: InventoryTransactionView,
    c: InventoryTransactionView,
)
    ensures
        !comes_before(a, a),
        comes_before(a, b) || same_key(a, b) || comes_before(b, a),
        !(comes_before(a, b) && comes_before(b, a)),
        !(comes_before(a, b) && same_key(a, b)),
        comes_before(a, b) && comes_before(b, c) ==> comes_before(a, c),
        !comes_before(b, a) && !comes_before(c, b) ==> !comes_before(c, a),
{
    lemma_date_order(a.date, b.date, c.date);
    lemma_date_order(b.date, a.date, c.date);
    lemma_date_order(a.date, a.date, a.date);
    lemma_date_order(c.date, b.date, a.date);
    lemma_date_order(c.date, a.date, b.date);
    lemma_date_order(b.date, c.date, a.date);
    lemma_lex_trichotomy(a.product_code, a.product_code);
    lemma_lex_trichotomy(a.product_code, b.product_code);
    lemma_lex_trichotomy(b.product_code, c.product_code);
    lemma_lex_trichotomy(a.product_code, c.product_code);
    if lex_less(a.product_code, b.product_code) && lex_less(b.product_code, c.product_code) {
        lemma_lex_transitive(a.product_code, b.product_code, c.product_code);
    }
    if lex_less(c.product_code, b.product_code) && lex_less(b.product_code, a.product_code) {
        lemma_lex_transitive(c.product_code, b.product_code, a.product_code);
    }
}

/// The place at which `insert_in_order` puts the event `t`.
pub open spec fn place_in_order(
    ordered: Seq<InventoryTransactionView>,
    t: InventoryTransactionView,
) -> int
    decreases ordered.len(),
{
    if ordered.len() > 0 && comes_before(t, ordered.last()) {
        place_in_order(ordered.drop_last(), t)
    } else {
        ordered.len() as int
    }
}

/// `insert_in_order` puts the event in at `place_in_order`: behind it stand the
/// events that come after it, and before it an event that does not.
pub proof fn lemma_place_in_order(
    ordered: Seq<InventoryTransactionView>,
    t: InventoryTransactionView,
)
    ensures
        0 <= place_in_order(ordered, t) <= ordered.len(),
        insert_in_order(ordered, t) == ordered.insert(place_in_order(ordered, t), t),
        forall|k: int|
            place_in_order(ordered, t) <= k < ordered.len() ==> comes_before(
                t,
                #[trigger] ordered[k],
            ),
        place_in_order(ordered, t) > 0 ==> !comes_before(
            t,
            ordered[place_in_order(ordered, t) - 1],
        ),
    decreases ordered.len(),
{
    if ordered.len() > 0 && comes_before(t, ordered.last()) {
        lemma_place_in_order(ordered.drop_last(), t);
        let p = place_in_order(ordered.drop_last(), t);
        assert forall|k: int| p <= k < ordered.len() implies comes_before(
            t,
            #[trigger] ordered[k],
        ) by {
            if k < ordered.len() - 1 {
                assert(ordered.drop_last()[k] == ordered[k]);
            }
        }
        if p > 0 {
            assert(ordered.drop_last()[p - 1] == ordered[p - 1]);
        }
    }
    lemma_insert_at(ordered, t, place_in_order(ordered, t));
}

/// Putting an event in order keeps the events in order.
pub proof fn lemma_insert_keeps_order(
    ordered: Seq<InventoryTransactionView>,
    t: InventoryTransactionView,
)
    requires
        is_in_order(ordered),
    ensures
        is_in_order(insert_in_order(ordered, t)),
{
    lemma_place_in_order(ordered, t);
    let p = place_in_order(ordered, t);
    let result = ordered.insert(p, t);
    assert forall|i: int, j: int| 0 <= i < j < result.len() implies !comes_before(
        #[trigger] result[j],
        #[trigger] result[i],
    ) by {
        if j == p {
            // the event before which nothing that comes after `t` stands
            assert(result[i] == ordered[i]);
            lemma_event_order(ordered[i], ordered[p - 1], t);
            if i < p - 1 {
                assert(!comes_before(ordered[p - 1], ordered[i]));
            }
        } else if i == p {
            assert(result[j] == ordered[j - 1]);
            lemma_event_order(t, ordered[j - 1], t);
        } else {
            let oi = if i < p {
                i
            } else {
                i - 1
            };
            let oj = if j < p {
                j
            } else {
                j - 1
            };
            assert(result[i] == ordered[oi]);
            assert(result[j] == ordered[oj]);
        }
    }
}

/// The events in chronological order are in order: none comes before an event that
/// stands before it.
pub proof fn lemma_chronological_is_in_order(events: Seq<InventoryTransactionView>)
    ensures
        is_in_order(chronological(events)),
        chronological(events).len() == events.len(),
    decreases events.len(),
{
    if events.len() > 0 {
        lemma_chronological_is_in_order(events.drop_last());
        lemma_insert_keeps_order(chronological(events.drop_last()), events.last());
        lemma_place_in_order(chronological(events.drop_last()), events.last());
    }
}

/// The events in chronological order are the events given, each as often as it was
/// given.
pub proof fn lemma_chronological_is_permutation(events: Seq<InventoryTransactionView>)
    ensures
        chronological(events).to_multiset() == events.to_multiset(),
    decreases events.len(),
{
    broadcast use vstd::seq_lib::group_to_multiset_ensures;

    if events.len() > 0 {
        let before = chronological(events.drop_last());
        lemma_chronological_is_permutation(events.drop_last());
        lemma_place_in_order(before, events.last());
        assert(events =~= events.drop_last().push(events.last()));
        assert(before.insert(place_in_order(before, events.last()), events.last()).to_multiset()
            =~= before.to_multiset().insert(events.last()));
        assert(events.drop_last().push(events.last()).to_multiset()
            =~= events.drop_last().to_multiset().insert(events.last()));
    } else {
        assert(chronological(events) =~= events);
    }
}

/// The events of `events` that have the date and the product code of `key`, in the
/// order in which they stand in `events`.
pub open spec fn events_of_key(
    events: Seq<InventoryTransactionView>,
    key: InventoryTransactionView,
) -> Seq<InventoryTransactionView>
    decreases events.len(),
{
    if events.len() == 0 {
        events
    } else if same_key(events.last(), key) {
        events_of_key(events.drop_last(), key).push(events.last())
    } else {
        events_of_key(events.drop_last(), key)
    }
}

/// Chronological order is stable: the events of one date and one product stand in
/// chronological order as they stood in the events given.
pub proof fn lemma_chronological_is_stable(
    events: Seq<InventoryTransactionView>,
    key: InventoryTransactionView,
)
    ensures
        events_of_key(chronological(events), key) == events_of_key(events, key),
    decreases events.len(),
{
    if events.len() > 0 {
        let before = chronological(events.drop_last());
        let t = events.last();
        lemma_chronological_is_stable(events.drop_last(), key);
        lemma_insert_keeps_key_order(before, t, key);
        assert(before.push(t).drop_last() =~= before);
    }
}

/// Putting an event in order puts it behind the events of its date and product, and
/// leaves the events of every date and product as they stood.
proof fn lemma_insert_keeps_key_order(
    ordered: Seq<InventoryTransactionView>,
    t: InventoryTransactionView,
    key: InventoryTransactionView,
)
    ensures
        events_of_key(insert_in_order(ordered, t), key) == events_of_key(ordered.push(t), key),
    decreases ordered.len(),
{
    if ordered.len() > 0 && comes_before(t, ordered.last()) {
        let last = ordered.last();
        let rest = ordered.drop_last();
        lemma_insert_keeps_key_order(rest, t, key);
        lemma_event_order(t, last, key);
        let inserted = insert_in_order(rest, t);
        assert(inserted.push(last).drop_last() =~= inserted);
        assert(rest.push(t).drop_last() =~= rest);
        assert(ordered.push(t).drop_last() =~= ordered);
        assert(!(same_key(t, key) && same_key(last, key)));
        assert(events_of_key(inserted.push(last), key) == if same_key(last, key) {
            events_of_key(inserted, key).push(last)
        } else {
            events_of_key(inserted, key)
        });
        assert(events_of_key(rest.push(t), key) == if same_key(t, key) {
            events_of_key(rest, key).push(t)
        } else {
            events_of_key(rest, key)
        });
        assert(events_of_key(ordered.push(t), key) == if same_key(t, key) {
            events_of_key(ordered, key).push(t)
        } else {
            events_of_key(ordered, key)
        });
        assert(events_of_key(ordered, key) == if same_key(last, key) {
            events_of_key(rest, key).push(last)
        } else {
            events_of_key(rest, key)
        });
    }
}

/// Events that are in order are their own chronological order: putting the ledger's
/// events in order a second time changes nothing.
pub proof fn lemma_chronological_of_ordered(events: Seq<InventoryTransactionView>)
    requires
        is_in_order(events),
    ensures
        chronological(events) == events,
    decreases events.len(),
{
    if events.len() > 0 {
        let before = events.drop_last();
        assert forall|i: int, j: int| 0 <= i < j < before.len() implies !comes_before(
            #[trigger] before[j],
            #[trigger] before[i],
        ) by {
            assert(before[i] == events[i]);
            assert(before[j] == events[j]);
        }
        lemma_chronological_of_ordered(before);
        if before.len() > 0 {
            assert(before.last() == events[events.len() - 2]);
            assert(events.last() == events[events.len() - 1]);
        }
        assert(before.push(events.last()) =~= events);
    }
}

/// The history of transactions that are put in chronological order first is the
/// history of the transactions as given: the history does not depend on whether the
/// transactions were sorted before.
pub proof fn lemma_history_of_sorted(transactions: Seq<InventoryTransactionView>)
    ensures
        history_of(chronological(transactions)) == history_of(transactions),
{
    lemma_chronological_is_in_order(transactions);
    lemma_chronological_of_ordered(chronological(transactions));
}

/// The history is determined by the transactions: computed twice from the same
/// transactions, however they were ordered when given the first time, it is the same.
pub proof fn lemma_history_is_determined(
    transactions: Seq<InventoryTransactionView>,
    first: Seq<InventoryHistoryRecordView>,
    second: Seq<InventoryHistoryRecordView>,
)
    requires
        first == history_of(transactions),
        second == history_of(transactions),
    ensures
        first == second,
        first.len() == transactions.len(),
{
    lemma_chronological_is_in_order(transactions);
}

/// In every line of a ledger the balance is the base quantity raised, for production
/// and purchase, or lowered, for sales, by the change quantity, which is the event's
/// quantity.
pub proof fn lemma_ledger_line_balance(events: Seq<InventoryTransactionView>, i: int)
    requires
        0 <= i < events.len(),
    ensures
        ledger(events)[i].change_quantity == events[i].quantity,
        ledger(events)[i].balance == ledger(events)[i].base_quantity + match events[i]
            .inventory_type {
            InventoryType::Sales => -ledger(events)[i].change_quantity,
            _ => ledger(events)[i].change_quantity,
        },
{
}

/// The base quantity of a ledger line is the balance of the line before it for the
/// same product, and zero where there is no line before it for that product.
pub proof fn lemma_ledger_line_base(events: Seq<InventoryTransactionView>, j: int, i: int)
    requires
        0 <= i < events.len(),
        -1 <= j < i,
        j >= 0 ==> events[j].product_code == events[i].product_code,
        forall|k: int| j < k < i ==> (#[trigger] events[k]).product_code != events[i].product_code,
    ensures
        j >= 0 ==> ledger(events)[i].base_quantity == ledger(events)[j].balance,
        j < 0 ==> ledger(events)[i].base_quantity == 0,
{
    lemma_ledger_base_from(events, j, i, events[i].product_code);
}

/// An event for another product leaves the stock of a product as it was.
proof fn lemma_stock_skips(events: Seq<InventoryTransactionView>, k: int, code: Seq<char>)
    requires
        0 <= k < events.len(),
        events[k].product_code != code,
    ensures
        stock_after(events.take(k + 1), code) == stock_after(events.take(k), code),
{
    assert(events.take(k + 1).drop_last() =~= events.take(k));
    assert(events.take(k + 1).last() == events[k]);
}

/// The stock of a product before place `i` is its stock after the event at `j`, where
/// no event between them is for the product; zero where there is no such `j`.
proof fn lemma_ledger_base_from(
    events: Seq<InventoryTransactionView>,
    j: int,
    i: int,
    code: Seq<char>,
)
    requires
        0 <= i <= events.len(),
        -1 <= j < i,
        j >= 0 ==> events[j].product_code == code,
        forall|k: int| j < k < i ==> (#[trigger] events[k]).product_code != code,
    ensures
        j >= 0 ==> stock_after(events.take(i), code) == stock_after(events.take(j), code)
            + stock_change(events[j]),
        j < 0 ==> stock_after(events.take(i), code) == 0,
    decreases i - j,
{
    if i == j + 1 {
        if j >= 0 {
            assert(events.take(i).drop_last() =~= events.take(j));
            assert(events.take(i).last() == events[j]);
        } else {
            assert(events.take(0).len() == 0);
        }
    } else {
        lemma_stock_skips(events, i - 1, code);
        lemma_ledger_base_from(events, j, i - 1, code);
    }
}

/// Two runs of events merged into one: the events of both, those of each run in their
/// order, each event of `right` behind the events of `left` that do not come after
/// it.
pub open spec fn merge_in_order(
    left: Seq<InventoryTransactionView>,
    right: Seq<InventoryTransactionView>,
) -> Seq<InventoryTransactionView>
    decreases left.len() + right.len(),
{
    if left.len() == 0 {
        right
    } else if right.len() == 0 {
        left
    } else if comes_before(right.last(), left.last()) {
        merge_in_order(left.drop_last(), right).push(left.last())
    } else {
        merge_in_order(left, right.drop_last()).push(right.last())
    }
}

/// Putting an event in order in a merged run is merging with the run in which the
/// event was put in order.
proof fn lemma_insert_into_merged(
    left: Seq<InventoryTransactionView>,
    right: Seq<InventoryTransactionView>,
    t: InventoryTransactionView,
)
    ensures
        insert_in_order(merge_in_order(left, right), t) == merge_in_order(
            left,
            insert_in_order(right, t),
        ),
    decreases left.len() + right.len(),
{
    let merged = merge_in_order(left, right);
    if right.len() == 0 {
        lemma_insert_is_merge(left, t);
        assert(insert_in_order(right, t) =~= seq![t]);
    } else if left.len() == 0 {
    } else {
        let a = left.last();
        let b = right.last();
        let put = insert_in_order(right, t);
        if comes_before(t, b) {
            assert(put == insert_in_order(right.drop_last(), t).push(b));
            assert(put.last() == b);
            assert(put.drop_last() =~= insert_in_order(right.drop_last(), t));
            if comes_before(b, a) {
                lemma_event_order(t, b, a);
                lemma_insert_into_merged(left.drop_last(), right, t);
                assert(merged.drop_last() =~= merge_in_order(left.drop_last(), right));
            } else {
                lemma_insert_into_merged(left, right.drop_last(), t);
                assert(merged.drop_last() =~= merge_in_order(left, right.drop_last()));
            }
        } else {
            assert(put == right.push(t));
            assert(put.last() == t);
            assert(put.drop_last() =~= right);
            if comes_before(t, a) {
                lemma_event_order(a, b, t);
                lemma_event_order(b, t, a);
                assert(comes_before(b, a));
                lemma_insert_into_merged(left.drop_last(), right, t);
                assert(merged.drop_last() =~= merge_in_order(left.drop_last(), right));
            } else {
                assert(merged.last() == a || merged.last() == b);
            }
        }
    }
}

/// Putting an event in order in a run is merging the run with the event alone.
proof fn lemma_insert_is_merge(left: Seq<InventoryTransactionView>, t: InventoryTransactionView)
    ensures
        insert_in_order(left, t) == merge_in_order(left, seq![t]),
    decreases left.len(),
{
    let alone = seq![t];
    assert(alone.last() == t);
    assert(alone.drop_last() =~= Seq::<InventoryTransactionView>::empty());
    if left.len() > 0 {
        if comes_before(t, left.last()) {
            lemma_insert_is_merge(left.drop_last(), t);
        } else {
            assert(merge_in_order(left, alone.drop_last()) == left);
        }
    } else {
        assert(left.push(t) =~= alone);
    }
}

/// The chronological order of events given in two parts is the two parts, each in
/// chronological order, merged.
pub proof fn lemma_chronological_of_parts(
    first: Seq<InventoryTransactionView>,
    second: Seq<InventoryTransactionView>,
)
    ensures
        chronological(first + second) == merge_in_order(
            chronological(first),
            chronological(second),
        ),
    decreases second.len(),
{
    if second.len() == 0 {
        assert(first + second =~= first);
        let ordered = chronological(first);
        assert(merge_in_order(ordered, chronological(second)) == ordered);
    } else {
        let all = first + second;
        assert(all.drop_last() =~= first + second.drop_last());
        assert(all.last() == second.last());
        lemma_chronological_of_parts(first, second.drop_last());
        lemma_insert_into_merged(
            chronological(first),
            chronological(second.drop_last()),
            second.last(),
        );
    }
}

/// The last event of two merged runs is the last of `left` where the last of `right`
/// comes before it, and else the last of `right`; before it stands what is left,
/// merged.
proof fn lemma_merge_last(
    left: Seq<InventoryTransactionView>,
    right: Seq<InventoryTransactionView>,
)
    requires
        left.len() > 0 || right.len() > 0,
    ensures
        merge_in_order(left, right) == if right.len() == 0 || (left.len() > 0 && comes_before(
            right.last(),
            left.last(),
        )) {
            merge_in_order(left.drop_last(), right).push(left.last())
        } else {
            merge_in_order(left, right.drop_last()).push(right.last())
        },
{
    if right.len() == 0 {
        assert(merge_in_order(left.drop_last(), right) == left.drop_last());
        assert(left.drop_last().push(left.last()) =~= left);
    } else if left.len() == 0 {
        assert(merge_in_order(left, right.drop_last()) == right.drop_last());
        assert(right.drop_last().push(right.last()) =~= right);
    }
}

/// A run followed by the events taken from its end, which were taken last first, is
/// the run without its last event followed by the events taken with that event.
proof fn lemma_taken_back(
    run: Seq<InventoryTransactionView>,
    taken: Seq<InventoryTransactionView>,
)
    ensures
        taken.len() == 0 ==> run + taken.reverse() == run,
        taken.len() > 0 ==> run.push(taken.last()) + taken.drop_last().reverse() == run
            + taken.reverse(),
{
    if taken.len() == 0 {
        assert(run + taken.reverse() =~= run);
    } else {
        assert(run.push(taken.last()) + taken.drop_last().reverse() =~= run + taken.reverse());
    }
}

/// The stock of one product while the ledger is built.
struct Stock {
    product_code: ProductCode,
    level: i128,
}

/// The stock that `stocks` holds for a product: the level of the last entry for the
/// product, zero where there is no entry.
spec fn level_of(stocks: Seq<Stock>, product_code: Seq<char>) -> int
    decreases stocks.len(),
{
    if stocks.len() == 0 {
        0
    } else if stocks.last().product_code@ == product_code {
        stocks.last().level as int
    } else {
        level_of(stocks.drop_last(), product_code)
    }
}

/// A new level for the product of entry `k`, where no later entry is for that
/// product, changes the stock held for that product and for no other.
proof fn lemma_level_after_update(
    stocks: Seq<Stock>,
    k: int,
    entry: Stock,
    product_code: Seq<char>,
)
    requires
        0 <= k < stocks.len(),
        entry.product_code@ == stocks[k].product_code@,
        forall|l: int|
            k < l < stocks.len() ==> (#[trigger] stocks[l]).product_code@ != entry.product_code@,
    ensures
        level_of(stocks.update(k, entry), product_code) == if product_code
            == entry.product_code@ {
            entry.level as int
        } else {
            level_of(stocks, product_code)
        },
    decreases stocks.len(),
{
    let updated = stocks.update(k, entry);
    if k == stocks.len() - 1 {
        assert(updated.drop_last() =~= stocks.drop_last());
    } else {
        assert(updated.last() == stocks.last());
        assert(updated.drop_last() =~= stocks.drop_last().update(k, entry));
        assert forall|l: int| k < l < stocks.drop_last().len() implies (
        #[trigger] stocks.drop_last()[l]).product_code@ != entry.product_code@ by {
            assert(stocks.drop_last()[l] == stocks[l]);
        }
        lemma_level_after_update(stocks.drop_last(), k, entry, product_code);
    }
}

/// Where no entry is for a product, the stock held for it is zero.
proof fn lemma_level_without_entry(stocks: Seq<Stock>, product_code: Seq<char>)
    requires
        forall|l: int|
            0 <= l < stocks.len() ==> (#[trigger] stocks[l]).product_code@ != product_code,
    ensures
        level_of(stocks, product_code) == 0,
    decreases stocks.len(),
{
    if stocks.len() > 0 {
        assert forall|l: int| 0 <= l < stocks.drop_last().len() implies (
        #[trigger] stocks.drop_last()[l]).product_code@ != product_code by {
            assert(stocks.drop_last()[l] == stocks[l]);
        }
        lemma_level_without_entry(stocks.drop_last(), product_code);
    }
}

/// The place of the last entry for the product, if there is one.
fn find_stock(stocks: &Vec<Stock>, product_code: &ProductCode) -> (r: Option<usize>)
    ensures
        match r {
            Some(k) => k < stocks@.len() && stocks@[k as int].product_code@ == product_code@
                && level_of(stocks@, product_code@) == stocks@[k as int].level && forall|l: int|
                k < l < stocks@.len() ==> (#[trigger] stocks@[l]).product_code@ != product_code@,
            None => level_of(stocks@, product_code@) == 0,
        },
{
    let mut k: usize = stocks.len();
    assert(stocks@.take(k as int) =~= stocks@);
    while k > 0
        invariant
            k <= stocks@.len(),
            level_of(stocks@, product_code@) == level_of(stocks@.take(k as int), product_code@),
            forall|l: int|
                k <= l < stocks@.len() ==> (#[trigger] stocks@[l]).product_code@ != product_code@,
        decreases k,
    {
        k -= 1;
        assert(stocks@.take(k + 1).last() == stocks@[k as int]);
        assert(stocks@.take(k + 1).drop_last() =~= stocks@.take(k as int));
        if stocks[k].product_code.same_as(product_code) {
            return Some(k);
        }
    }
    None
}

/// Builds the inventory ledger.
pub struct InventoryHistoryService;

impl InventoryHistoryService {
    /// Whether event `a` comes before event `b` in the ledger.
    pub fn precedes(a: &InventoryTransaction, b: &InventoryTransaction) -> (r: bool)
        ensures
            r == comes_before(a@, b@),
    {
        let dates = a.date.order(&b.date);
        if dates != 0 {
            return dates < 0;
        }
        let code_a = chars_of(a.product_code.value());
        let code_b = chars_of(b.product_code.value());
        lex_order(&code_a, &code_b) < 0
    }

    /// Two runs of events merged into one.
    fn merge(left: Vec<InventoryTransaction>, right: Vec<InventoryTransaction>) -> (merged: Vec<
        InventoryTransaction,
    >)
        ensures
            transaction_views(merged@) == merge_in_order(
                transaction_views(left@),
                transaction_views(right@),
            ),
    {
        let ghost all = merge_in_order(transaction_views(left@), transaction_views(right@));
        let mut left = left;
        let mut right = right;
        // the events from the last to the first
        let mut backwards: Vec<InventoryTransaction> = Vec::new();
        proof {
            lemma_taken_back(all, Seq::empty());
        }
        while left.len() > 0 || right.len() > 0
            invariant
                all == merge_in_order(transaction_views(left@), transaction_views(right@))
                    + transaction_views(backwards@).reverse(),
            decreases left@.len() + right@.len(),
        {
            let ghost left_before = transaction_views(left@);
            let ghost right_before = transaction_views(right@);
            let ghost taken = transaction_views(backwards@);
            let from_left = if right.len() == 0 {
                true
            } else if left.len() == 0 {
                false
            } else {
                Self::precedes(&right[right.len() - 1], &left[left.len() - 1])
            };
            let last = if from_left {
                left.pop()
            } else {
                right.pop()
            };
            match last {
                Some(event) => {
                    proof {
                        if from_left {
                            assert(transaction_views(left@) =~= left_before.drop_last());
                            assert(event@ == left_before.last());
                        } else {
                            assert(transaction_views(right@) =~= right_before.drop_last());
                            assert(event@ == right_before.last());
                        }
                        lemma_merge_last(left_before, right_before);
                        assert(taken.push(event@).drop_last() =~= taken);
                        lemma_taken_back(
                            merge_in_order(transaction_views(left@), transaction_views(right@)),
                            taken.push(event@),
                        );
                        assert(transaction_views(backwards@.push(event)) =~= taken.push(event@));
                    }
                    backwards.push(event);
                },
                None => {},
            }
        }
        let mut merged: Vec<InventoryTransaction> = Vec::new();
        let ghost taken = transaction_views(backwards@);
        proof {
            assert(merge_in_order(transaction_views(left@), transaction_views(right@)).len() == 0);
            assert(all =~= taken.reverse());
            assert(taken.reverse() =~= transaction_views(merged@) + taken.reverse());
        }
        while backwards.len() > 0
            invariant
                all == transaction_views(merged@) + transaction_views(backwards@).reverse(),
            decreases backwards@.len(),
        {
            let ghost done = transaction_views(merged@);
            let ghost left_over = transaction_views(backwards@);
            match backwards.pop() {
                Some(event) => {
                    proof {
                        assert(transaction_views(backwards@) =~= left_over.drop_last());
                        assert(event@ == left_over.last());
                        lemma_taken_back(done, left_over);
                        assert(transaction_views(merged@.push(event)) =~= done.push(event@));
                    }
                    merged.push(event);
                },
                None => {},
            }
        }
        assert(all =~= transaction_views(merged@));
        merged
    }

    /// The events in the order of the ledger.
    pub fn sort_chronologically(transactions: Vec<InventoryTransaction>) -> (sorted: Vec<
        InventoryTransaction,
    >)
        ensures
            transaction_views(sorted@) == chronological(transaction_views(transactions@)),
        decreases transactions@.len(),
    {
        let ghost given = transaction_views(transactions@);
        let n = transactions.len();
        if n <= 1 {
            proof {
                if n == 1 {
                    assert(given.drop_last() =~= Seq::<InventoryTransactionView>::empty());
                    assert(chronological(given.drop_last()).len() == 0);
                    assert(chronological(given) =~= given);
                }
            }
            return transactions;
        }
        let mut first = transactions;
        let second = first.split_off(n / 2);
        proof {
            let first_part = transaction_views(first@);
            let second_part = transaction_views(second@);
            assert(given =~= first_part + second_part);
            lemma_chronological_of_parts(first_part, second_part);
        }
        let first = Self::sort_chronologically(first);
        let second = Self::sort_chronologically(second);
        Self::merge(first, second)
    }

    /// The inventory history of the transactions.
    ///
    /// The transactions are put in order by date and then by product code, those of
    /// one date and one product staying in the order given. Each then gives one line:
    /// the stock of its product before it, from zero at the start; the quantity by
    /// which it moves the stock; and the stock after it, which production and
    /// purchase raise and sales lower, below zero where more is sold than is there.
    pub fn create_history(transactions: Vec<InventoryTransaction>) -> (r: Result<
        Vec<InventoryHistoryRecord>,
        DomainError,
    >)
        ensures
            r is Ok,
            record_views(r->Ok_0@) == history_of(transaction_views(transactions@)),
    {
        let sorted = Self::sort_chronologically(transactions);
        let n = sorted.len();
        let ghost events = transaction_views(sorted@);
        let mut stocks: Vec<Stock> = Vec::new();
        let mut records: Vec<InventoryHistoryRecord> = Vec::new();
        assert(events.take(0) =~= Seq::<InventoryTransactionView>::empty());
        for t in it: sorted.into_iter()
            invariant
                it.seq() == sorted@,
                n == sorted@.len(),
                events == transaction_views(sorted@),
                records@.len() == it.index(),
                forall|k: int|
                    0 <= k < records@.len() ==> (#[trigger] records@[k])@ == ledger_line(events, k),
                forall|code: Seq<char>|
                    stock_after(events.take(it.index() as int), code) == #[trigger] level_of(
                        stocks@,
                        code,
                    ),
                forall|k: int|
                    0 <= k < stocks@.len() ==> -it.index() * i64::MAX <= (
                    #[trigger] stocks@[k]).level <= it.index() * i64::MAX,
        {
            let ghost i = it.index() as int;
            let quantity = t.quantity.value();
            let change: i128 = match t.inventory_type {
                InventoryType::Production => quantity as i128,
                InventoryType::Purchase => quantity as i128,
                InventoryType::Sales => -(quantity as i128),
            };
            let found = find_stock(&stocks, &t.product_code);
            let base: i128 = match found {
                Some(k) => stocks[k].level,
                None => 0,
            };
            proof {
                assert(events[i] == t@);
                assert(base == stock_after(events.take(i), t@.product_code));
                assert(change == stock_change(t@));
                assert(i < n);
                assert(-(i + 1) * i64::MAX <= base + change <= (i + 1) * i64::MAX)
                    by (nonlinear_arith)
                    requires
                        -i * i64::MAX <= base <= i * i64::MAX,
                        -i64::MAX <= change <= i64::MAX,
                ;
                assert((i + 1) * i64::MAX <= 0xffff_ffff_ffff_ffff * 0x7fff_ffff_ffff_ffff)
                    by (nonlinear_arith)
                    requires
                        0 <= i + 1 <= 0xffff_ffff_ffff_ffff,
                        i64::MAX == 0x7fff_ffff_ffff_ffff,
                ;
            }
            let balance: i128 = base + change;
            let entry = Stock { product_code: t.product_code.clone(), level: balance };
            proof {
                let upto = events.take(i + 1);
                assert(upto.drop_last() =~= events.take(i));
                assert(upto.last() == t@);
                let after = match found {
                    Some(k) => stocks@.update(k as int, entry),
                    None => stocks@.push(entry),
                };
                assert forall|code: Seq<char>| stock_after(upto, code) == #[trigger] level_of(
                    after,
                    code,
                ) by {
                    assert(stock_after(events.take(i), code) == level_of(stocks@, code));
                    assert(stock_after(upto, code) == stock_after(events.take(i), code) + if t@
                        .product_code == code {
                        stock_change(t@)
                    } else {
                        0
                    });
                    match found {
                        Some(k) => {
                            lemma_level_after_update(stocks@, k as int, entry, code);
                        },
                        None => {
                            assert(after.drop_last() =~= stocks@);
                            assert(after.last() == entry);
                        },
                    }
                }
                assert forall|k: int| 0 <= k < after.len() implies -(i + 1) * i64::MAX <= (
                #[trigger] after[k]).level <= (i + 1) * i64::MAX by {
                    if after[k] != entry {
                        assert(after[k] == stocks@[k]);
                        assert(-(i + 1) * i64::MAX <= -i * i64::MAX && i * i64::MAX <= (i + 1)
                            * i64::MAX) by (nonlinear_arith)
                            requires
                                0 <= i,
                        ;
                    }
                }
            }
            match found {
                Some(k) => {
                    stocks.set(k, entry);
                },
                None => {
                    stocks.push(entry);
                },
            }
            let record = InventoryHistoryRecord {
                date: t.date,
                inventory_type: t.inventory_type,
                product_code: t.product_code,
                product_name: t.product_name,
                base_quantity: InventoryBalance::new(base)?,
                change_quantity: t.quantity,
                balance: InventoryBalance::new(balance)?,
            };
            assert(record@ == ledger_line(events, i));
            records.push(record);
        }
        assert(record_views(records@) =~= ledger(events));
        Ok(records)
    }
}

} // verus!
