use vstd::prelude::*;
use crate::item::ItemRef;
use crate::player::Slot;
use crate::level_manager::Requerimiento;

verus! {

/// How many items of kind `k` the slot holds.
pub open spec fn slot_kind_count(slot: Slot, k: u32) -> int {
    match slot {
        Some((it, c)) => if it.kind == k {
            c as int
        } else {
            0
        },
        None => 0,
    }
}

/// How many items of kind `k` the first `n` slots hold.
pub open spec fn kind_count(inv: Seq<Slot>, k: u32, n: int) -> int
    decreases n,
{
    if n <= 0 {
        0
    } else {
        kind_count(inv, k, n - 1) + slot_kind_count(inv[n - 1], k)
    }
}

/// How many items of kind `k` the first `n` lines of an order ask for.
pub open spec fn kind_need(reqs: Seq<Requerimiento>, k: u32, n: int) -> int
    decreases n,
{
    if n <= 0 {
        0
    } else {
        kind_need(reqs, k, n - 1) + (if reqs[n - 1].item.kind == k {
            reqs[n - 1].necesidad as int
        } else {
            0
        })
    }
}

/// How many items of kind `k` the whole inventory holds.
pub open spec fn total_count(inv: Seq<Slot>, k: u32) -> int {
    kind_count(inv, k, inv.len() as int)
}

/// How many items of kind `k` the whole order asks for.
pub open spec fn total_need(reqs: Seq<Requerimiento>, k: u32) -> int {
    kind_need(reqs, k, reqs.len() as int)
}

/// The inventory holds, of every kind the order names, at least as many
/// items as the order asks for in all.
pub open spec fn order_fulfillable(inv: Seq<Slot>, reqs: Seq<Requerimiento>) -> bool {
    forall|j: int|
        0 <= j < reqs.len() ==> total_count(inv, #[trigger] reqs[j].item.kind) >= total_need(
            reqs,
            reqs[j].item.kind,
        )
}

pub open spec fn min(a: int, b: int) -> int {
    if a <= b {
        a
    } else {
        b
    }
}

pub open spec fn max(a: int, b: int) -> int {
    if a >= b {
        a
    } else {
        b
    }
}

/// How many items an order takes from slot `i`: the slots of each kind are
/// emptied front to back until the order's total for that kind is met.
pub open spec fn slot_use(inv: Seq<Slot>, reqs: Seq<Requerimiento>, i: int) -> int {
    match inv[i] {
        Some((it, c)) => min(
            c as int,
            max(0, total_need(reqs, it.kind) - kind_count(inv, it.kind, i)),
        ),
        None => 0,
    }
}

/// The slot after `u` items are taken from it (emptied when none is left).
pub open spec fn consume(slot: Slot, u: int) -> Slot {
    match slot {
        Some((it, c)) => if u == 0 {
            slot
        } else if c - u > 0 {
            Some((it, (c - u) as u16))
        } else {
            None
        },
        None => None,
    }
}

/// The inventory after an order is served from it.
pub open spec fn after_order(inv: Seq<Slot>, reqs: Seq<Requerimiento>) -> Seq<Slot> {
    Seq::new(inv.len(), |i: int| consume(inv[i], slot_use(inv, reqs, i)))
}

/// How much of line `j` is covered when `t` items of its kind have been
/// handed to the order: the lines of one kind are covered in order.
pub open spec fn req_fill(reqs: Seq<Requerimiento>, j: int, t: int) -> int {
    min(reqs[j].necesidad as int, max(0, t - kind_need(reqs, reqs[j].item.kind, j)))
}

/// The running total of an order's needs of one kind never decreases.
pub proof fn lemma_kind_need_mono(reqs: Seq<Requerimiento>, k: u32, a: int, b: int)
    requires
        0 <= a <= b,
    ensures
        0 <= kind_need(reqs, k, a) <= kind_need(reqs, k, b),
    decreases b,
{
    if a < b {
        lemma_kind_need_mono(reqs, k, a, b - 1);
    } else if b > 0 {
        lemma_kind_need_mono(reqs, k, 0, b - 1);
    }
}

/// Item counts are never negative.
pub proof fn lemma_kind_count_nonneg(inv: Seq<Slot>, k: u32, n: int)
    ensures
        kind_count(inv, k, n) >= 0,
    decreases n,
{
    if n > 0 {
        lemma_kind_count_nonneg(inv, k, n - 1);
    }
}

/// Where the running total of an order's needs of kind `k` first passes
/// `t`, there is a line of kind `k`.
pub proof fn lemma_crossing(reqs: Seq<Requerimiento>, k: u32, t: int, n: int) -> (j: int)
    requires
        0 <= t < kind_need(reqs, k, n),
        n <= reqs.len(),
    ensures
        0 <= j < n,
        reqs[j].item.kind == k,
        kind_need(reqs, k, j) <= t < kind_need(reqs, k, j + 1),
    decreases n,
{
    if t < kind_need(reqs, k, n - 1) {
        lemma_crossing(reqs, k, t, n - 1)
    } else {
        n - 1
    }
}

/// Every line of an order is covered, once each kind has received all the
/// inventory holds of it up to the order's total, exactly when the order is
/// fulfillable.
pub proof fn lemma_all_filled_iff_fulfillable(inv: Seq<Slot>, reqs: Seq<Requerimiento>)
    ensures
        (forall|j: int|
            0 <= j < reqs.len() ==> #[trigger] req_fill(
                reqs,
                j,
                min(total_count(inv, reqs[j].item.kind), total_need(reqs, reqs[j].item.kind)),
            ) >= reqs[j].necesidad) <==> order_fulfillable(inv, reqs),
{
    let m = reqs.len() as int;
    if order_fulfillable(inv, reqs) {
        assert forall|j: int| 0 <= j < m implies #[trigger] req_fill(
            reqs,
            j,
            min(total_count(inv, reqs[j].item.kind), total_need(reqs, reqs[j].item.kind)),
        ) >= reqs[j].necesidad by {
            let k = reqs[j].item.kind;
            assert(total_count(inv, reqs[j].item.kind) >= total_need(reqs, reqs[j].item.kind));
            lemma_kind_need_mono(reqs, k, j + 1, m);
            assert(kind_need(reqs, k, j + 1) == kind_need(reqs, k, j) + reqs[j].necesidad);
        }
    } else {
        let j0 = choose|j: int|
            0 <= j < m && !(total_count(inv, #[trigger] reqs[j].item.kind) >= total_need(
                reqs,
                reqs[j].item.kind,
            ));
        let k = reqs[j0].item.kind;
        let c = total_count(inv, k);
        lemma_kind_count_nonneg(inv, k, inv.len() as int);
        let j = lemma_crossing(reqs, k, c, m);
        lemma_kind_need_mono(reqs, k, j + 1, m);
        assert(req_fill(reqs, j, min(total_count(inv, reqs[j].item.kind), total_need(reqs, reqs[j].item.kind))) < reqs[j].necesidad);
    }
}

/// Serving an order takes from each kind exactly what the order asks for
/// (or all there is, when that is less) and leaves the other kinds alone.
pub proof fn lemma_order_consumes_exactly(inv: Seq<Slot>, reqs: Seq<Requerimiento>, k: u32)
    ensures
        total_count(after_order(inv, reqs), k) == total_count(inv, k) - min(
            total_count(inv, k),
            total_need(reqs, k),
        ),
{
    lemma_consumes_prefix(inv, reqs, k, inv.len() as int);
}

proof fn lemma_consumes_prefix(inv: Seq<Slot>, reqs: Seq<Requerimiento>, k: u32, n: int)
    requires
        0 <= n <= inv.len(),
    ensures
        kind_count(after_order(inv, reqs), k, n) == kind_count(inv, k, n) - min(
            kind_count(inv, k, n),
            total_need(reqs, k),
        ),
    decreases n,
{
    lemma_kind_need_mono(reqs, k, 0, reqs.len() as int);
    lemma_kind_count_nonneg(inv, k, n);
    if n > 0 {
        lemma_consumes_prefix(inv, reqs, k, n - 1);
        lemma_kind_count_nonneg(inv, k, n - 1);
        let after = after_order(inv, reqs);
        assert(after[n - 1] == consume(inv[n - 1], slot_use(inv, reqs, n - 1)));
        match inv[n - 1] {
            Some((it, c)) => {
                lemma_kind_count_nonneg(inv, it.kind, n - 1);
                lemma_kind_need_mono(reqs, it.kind, 0, reqs.len() as int);
            },
            None => {},
        }
    }
}

/// An order that can be served takes, of every kind it names, exactly the
/// total it asks for.
pub proof fn lemma_fulfilled_order_takes_its_total(
    inv: Seq<Slot>,
    reqs: Seq<Requerimiento>,
    j: int,
)
    requires
        order_fulfillable(inv, reqs),
        0 <= j < reqs.len(),
    ensures
        total_count(after_order(inv, reqs), reqs[j].item.kind) == total_count(
            inv,
            reqs[j].item.kind,
        ) - total_need(reqs, reqs[j].item.kind),
{
    lemma_order_consumes_exactly(inv, reqs, reqs[j].item.kind);
}

/// Two inventories agree slot by slot on what matters to orders: the same
/// slots are empty, and the others hold items of the same name in the same
/// counts (the item instances may differ).
pub open spec fn same_names_and_counts(a: Seq<Slot>, b: Seq<Slot>) -> bool {
    &&& a.len() == b.len()
    &&& forall|i: int|
        0 <= i < a.len() ==> match (#[trigger] a[i], b[i]) {
            (None, None) => true,
            (Some((x, c)), Some((y, d))) => x.kind == y.kind && c == d,
            _ => false,
        }
}

proof fn lemma_same_kind_counts(a: Seq<Slot>, b: Seq<Slot>, k: u32, n: int)
    requires
        same_names_and_counts(a, b),
        0 <= n <= a.len(),
    ensures
        kind_count(a, k, n) == kind_count(b, k, n),
    decreases n,
{
    if n > 0 {
        lemma_same_kind_counts(a, b, k, n - 1);
        assert(match (a[n - 1], b[n - 1]) {
            (None, None) => true,
            (Some((x, c)), Some((y, d))) => x.kind == y.kind && c == d,
            _ => false,
        });
    }
}

/// Serving an order looks only at item names and counts: two inventories
/// that agree on them slot by slot are both served or both refused, give
/// up the same number of items from each slot, and agree again afterwards.
pub proof fn lemma_names_and_counts_decide(a: Seq<Slot>, b: Seq<Slot>, reqs: Seq<Requerimiento>)
    requires
        same_names_and_counts(a, b),
    ensures
        order_fulfillable(a, reqs) == order_fulfillable(b, reqs),
        forall|i: int| 0 <= i < a.len() ==> #[trigger] slot_use(a, reqs, i) == slot_use(b, reqs, i),
        same_names_and_counts(after_order(a, reqs), after_order(b, reqs)),
{
    let n = a.len() as int;
    assert forall|j: int| 0 <= j < reqs.len() implies total_count(a, #[trigger] reqs[j].item.kind)
        == total_count(b, reqs[j].item.kind) by {
        lemma_same_kind_counts(a, b, reqs[j].item.kind, n);
    }
    assert forall|i: int| 0 <= i < n implies #[trigger] slot_use(a, reqs, i) == slot_use(b, reqs, i) by {
        assert(match (a[i], b[i]) {
            (None, None) => true,
            (Some((x, c)), Some((y, d))) => x.kind == y.kind && c == d,
            _ => false,
        });
        match a[i] {
            Some((x, c)) => {
                lemma_same_kind_counts(a, b, x.kind, i);
            },
            None => {},
        }
    }
    let aa = after_order(a, reqs);
    let bb = after_order(b, reqs);
    assert forall|i: int| 0 <= i < aa.len() implies match (#[trigger] aa[i], bb[i]) {
        (None, None) => true,
        (Some((x, c)), Some((y, d))) => x.kind == y.kind && c == d,
        _ => false,
    } by {
        assert(match (a[i], b[i]) {
            (None, None) => true,
            (Some((x, c)), Some((y, d))) => x.kind == y.kind && c == d,
            _ => false,
        });
        assert(slot_use(a, reqs, i) == slot_use(b, reqs, i));
    }
}

} // verus!
