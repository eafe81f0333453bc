//! The order in which the history is listed: pinned rows first, then newer
//! before older, rows of equal standing in the order of their arrival.

use crate::item::{views, ClipItem, ClipItemView};
use vstd::prelude::*;
use vstd::relations::{sorted_by, total_ordering};
use vstd::seq_lib::{lemma_sorted_unique, to_multiset_build, to_multiset_insert};

verus! {

/// The order on row positions: position `a` is listed no later than `b`.
pub open spec fn lists_first(rows: Seq<ClipItemView>) -> spec_fn(int, int) -> bool {
    |a: int, b: int|
        {
            let x = rows[a];
            let y = rows[b];
            if x.pinned != y.pinned {
                x.pinned
            } else if x.created_at != y.created_at {
                y.created_at.is_before(x.created_at)
            } else {
                a <= b
            }
        }
}

/// The positions `0, 1, .. n - 1`.
pub open spec fn positions(n: nat) -> Seq<int> {
    Seq::new(n, |i: int| i)
}

/// The row positions in listing order.
pub open spec fn listing_order(rows: Seq<ClipItemView>) -> Seq<int> {
    positions(rows.len()).sort_by(lists_first(rows))
}

/// The rows in listing order.
pub open spec fn listing(rows: Seq<ClipItemView>) -> Seq<ClipItemView> {
    listing_order(rows).map_values(|i: int| rows[i])
}

/// The part of a result list that a limit and an offset select: a negative
/// limit selects everything after the offset, a negative offset counts as
/// none.
pub open spec fn window<T>(s: Seq<T>, limit: int, offset: int) -> Seq<T> {
    let start = if offset <= 0 {
        0
    } else if offset >= s.len() {
        s.len() as int
    } else {
        offset
    };
    let end = if limit < 0 || start + limit >= s.len() {
        s.len() as int
    } else {
        start + limit
    };
    s.subrange(start, end)
}

/// The listing order is a total order on positions.
pub proof fn lemma_lists_first_total(rows: Seq<ClipItemView>)
    ensures
        total_ordering(lists_first(rows)),
{
    let leq = lists_first(rows);
    assert forall|x: int, y: int| #[trigger] leq(x, y) && #[trigger] leq(y, x) implies x == y by {}
    assert forall|x: int, y: int, z: int| #[trigger] leq(x, y) && #[trigger] leq(y, z) implies leq(
        x,
        z,
    ) by {}
    assert forall|x: int, y: int| #[trigger] leq(x, y) || #[trigger] leq(y, x) by {}
}

/// The listing holds every row exactly once, ordered by the listing order.
pub proof fn lemma_listing_order(rows: Seq<ClipItemView>)
    ensures
        sorted_by(listing_order(rows), lists_first(rows)),
        listing_order(rows).to_multiset() == positions(rows.len()).to_multiset(),
        listing_order(rows).len() == rows.len(),
        forall|k: int|
            0 <= k < rows.len() ==> 0 <= #[trigger] listing_order(rows)[k] < rows.len(),
        listing(rows).len() == rows.len(),
{
    lemma_lists_first_total(rows);
    let base = positions(rows.len());
    base.lemma_sort_by_ensures(lists_first(rows));
    let order = listing_order(rows);
    broadcast use vstd::seq_lib::group_to_multiset_ensures;

    assert(order.to_multiset().len() == base.to_multiset().len());
    assert forall|k: int| 0 <= k < order.len() implies 0 <= #[trigger] order[k] < rows.len() by {
        let v = order[k];
        assert(order.contains(v));
        if !base.contains(v) {
            assert(!order.contains(v));
        }
        let j = choose|j: int| 0 <= j < base.len() && base[j] == v;
        assert(base[j] == j);
    }
}

/// Whether the row at position `a` is listed no later than the row at `b`.
pub fn listed_first(rows: &Vec<ClipItem>, a: usize, b: usize) -> (first: bool)
    requires
        a < rows.len(),
        b < rows.len(),
    ensures
        first == lists_first(views(rows@))(a as int, b as int),
{
    let x = &rows[a];
    let y = &rows[b];
    if x.pinned != y.pinned {
        x.pinned
    } else if x.created_at.secs != y.created_at.secs || x.created_at.nanos != y.created_at.nanos {
        y.created_at.before(&x.created_at)
    } else {
        a <= b
    }
}

/// The positions of the rows in listing order.
pub fn order_rows(rows: &Vec<ClipItem>) -> (order: Vec<usize>)
    ensures
        order@.map_values(|i: usize| i as int) == listing_order(views(rows@)),
        order@.len() == rows@.len(),
        forall|k: int| 0 <= k < order@.len() ==> #[trigger] order@[k] < rows@.len(),
{
    let ghost table = views(rows@);
    let ghost leq = lists_first(table);
    let n = rows.len();
    let mut order: Vec<usize> = Vec::new();
    let ghost mut mirror: Seq<int> = Seq::empty();
    proof {
        lemma_lists_first_total(table);
        assert(mirror =~= positions(0));
    }
    let mut i: usize = 0;
    while i < n
        invariant
            n == rows.len(),
            table == views(rows@),
            leq == lists_first(table),
            total_ordering(leq),
            i <= n,
            order@.len() == i,
            mirror.len() == i,
            forall|k: int| 0 <= k < i ==> #[trigger] mirror[k] == order@[k] as int,
            forall|k: int| 0 <= k < i ==> 0 <= #[trigger] mirror[k] < i,
            forall|k: int| 0 <= k < i ==> #[trigger] order@[k] < i,
            sorted_by(mirror, leq),
            mirror.to_multiset() == positions(i as nat).to_multiset(),
        decreases n - i,
    {
        let mut p: usize = 0;
        while p < order.len() && !listed_first(rows, i, order[p])
            invariant
                n == rows.len(),
                table == views(rows@),
                leq == lists_first(table),
                total_ordering(leq),
                i < n,
                order@.len() == i,
                mirror.len() == i,
                p <= i,
                forall|k: int| 0 <= k < i ==> #[trigger] mirror[k] == order@[k] as int,
                forall|k: int| 0 <= k < i ==> 0 <= #[trigger] mirror[k] < i,
                forall|k: int| 0 <= k < i ==> #[trigger] order@[k] < i,
                forall|k: int| 0 <= k < p ==> leq(#[trigger] mirror[k], i as int),
            decreases i - p,
        {
            assert(leq(mirror[p as int], i as int) || leq(i as int, mirror[p as int]));
            p += 1;
        }
        let ghost prev = mirror;
        order.insert(p, i);
        proof {
            mirror = prev.insert(p as int, i as int);
            assert forall|a: int, b: int| 0 <= a < b < mirror.len() implies leq(
                mirror[a],
                mirror[b],
            ) by {
                if b < p {
                    assert(leq(prev[a], prev[b]));
                } else if b == p {
                    assert(leq(prev[a], i as int));
                } else if a < p {
                    assert(leq(prev[a], prev[b - 1]));
                } else if a == p {
                    assert(leq(i as int, prev[p as int]));
                    assert(p == b - 1 || leq(prev[p as int], prev[b - 1]));
                } else {
                    assert(leq(prev[a - 1], prev[b - 1]));
                }
            }
            to_multiset_insert(prev, p as int, i as int);
            to_multiset_build(positions(i as nat), i as int);
            assert(positions((i + 1) as nat) =~= positions(i as nat).push(i as int));
        }
        i += 1;
    }
    proof {
        lemma_listing_order(table);
        lemma_sorted_unique(mirror, listing_order(table), leq);
        assert(order@.map_values(|i: usize| i as int) =~= mirror);
    }
    order
}

} // verus!
