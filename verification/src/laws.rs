//! Properties of capture, retention and search that hold for every table.

use crate::clipboard::{captured, touched_row};
use crate::clipboard_monitor::{ClipboardContentView, MonitorView};
use crate::db::{
    distinct_ids, holds, lemma_filter_distinct, retained, selected, survives, Retention,
};
use crate::fingerprint::{image_fingerprint, text_fingerprint};
use crate::format::{ellipsis, shortened};
use crate::item::ClipItemView;
use crate::listing::{lemma_listing_order, listing, listing_order, lists_first, window};
use crate::tags::{
    ascending, lemma_text_less_asymmetric, suggestions, tag_precedes, MAX_SUGGESTIONS,
};
use crate::text::text_less;
use crate::item::ContentType;
use crate::query::{
    accepts, answers, lemma_name_names_kind, lemma_tag_prefixes_agree, lemma_type_prefix,
    named_kind, routed, QueryView,
};
use crate::text::lowercase;
use crate::time::Timestamp;
use vstd::prelude::*;

verus! {

/// Exactly one row of the table carries the id.
pub open spec fn stored_once(rows: Seq<ClipItemView>, id: Seq<char>) -> bool {
    exists|k: int|
        0 <= k < rows.len() && #[trigger] rows[k].id == id && forall|j: int|
            0 <= j < rows.len() && j != k ==> rows[j].id != id
}

/// After a capture the content is stored exactly once, and ids stay
/// distinct.
pub proof fn lemma_capture_stores_once(rows: Seq<ClipItemView>, fresh: ClipItemView)
    requires
        distinct_ids(rows),
    ensures
        stored_once(captured(rows, fresh), fresh.id),
        distinct_ids(captured(rows, fresh)),
        captured(rows, fresh).len() == rows.len() + if holds(rows, fresh.id) {
            0int
        } else {
            1int
        },
{
    let after = captured(rows, fresh);
    if holds(rows, fresh.id) {
        let k = choose|k: int| 0 <= k < rows.len() && rows[k].id == fresh.id;
        assert(after[k].id == fresh.id);
        assert forall|j: int| 0 <= j < after.len() && j != k implies after[j].id != fresh.id by {
            if j < k {
                assert(rows[j].id != rows[k].id);
            } else {
                assert(rows[k].id != rows[j].id);
            }
        }
        assert forall|i: int, j: int| 0 <= i < j < after.len() implies after[i].id
            != after[j].id by {
            assert(rows[i].id != rows[j].id);
        }
    } else {
        let k = rows.len() as int;
        assert(after[k].id == fresh.id);
        assert forall|i: int, j: int| 0 <= i < j < after.len() implies after[i].id
            != after[j].id by {
            if j < rows.len() {
                assert(rows[i].id != rows[j].id);
            }
        }
    }
}

/// Capturing the same content twice yields one row for it, and the second
/// capture changes nothing but that row's time of last use.
pub proof fn lemma_capture_twice(
    rows: Seq<ClipItemView>,
    first: ClipItemView,
    second: ClipItemView,
)
    requires
        distinct_ids(rows),
        first.id == second.id,
    ensures
        ({
            let once = captured(rows, first);
            let twice = captured(once, second);
            &&& twice.len() == once.len()
            &&& stored_once(twice, first.id)
            &&& forall|k: int|
                0 <= k < once.len() ==> #[trigger] twice[k] == if once[k].id == first.id {
                    touched_row(once[k], second.last_used_at)
                } else {
                    once[k]
                }
        }),
{
    let once = captured(rows, first);
    lemma_capture_stores_once(rows, first);
    let k = choose|k: int|
        0 <= k < once.len() && #[trigger] once[k].id == first.id && forall|j: int|
            0 <= j < once.len() && j != k ==> once[j].id != first.id;
    assert(holds(once, second.id));
    lemma_capture_stores_once(once, second);
}

/// Equal content has equal fingerprints: a fingerprint depends on nothing
/// but the content.
pub proof fn lemma_fingerprint_deterministic(
    text: Seq<char>,
    same_text: Seq<char>,
    data: Seq<u8>,
    same_data: Seq<u8>,
)
    requires
        text == same_text,
        data == same_data,
    ensures
        text_fingerprint(text) == text_fingerprint(same_text),
        image_fingerprint(data) == image_fingerprint(same_data),
{
}

/// Content that the monitor has just taken in is no news when it is read
/// again, whatever was read on other channels in between.
pub proof fn lemma_seen_content_is_no_news(
    state: MonitorView,
    content: ClipboardContentView,
    between: ClipboardContentView,
)
    requires
        between.channel() != content.channel(),
    ensures
        !state.after(content).is_news(content),
        !state.after(content).after(between).is_news(content),
{
}

/// A reading changes nothing on the channels on which it does not arrive.
pub proof fn lemma_channels_are_independent(
    state: MonitorView,
    content: ClipboardContentView,
    other: crate::clipboard_monitor::Channel,
)
    requires
        content.channel() != Some(other),
    ensures
        state.after(content).last(other) == state.last(other),
{
}

/// The listing shows every row once, pinned rows before the others, and
/// among rows of the same standing no older row before a newer one.
pub proof fn lemma_listing_is_ordered(rows: Seq<ClipItemView>, i: int, j: int)
    requires
        0 <= i < j < rows.len(),
    ensures
        listing(rows).len() == rows.len(),
        listing(rows)[j].pinned ==> listing(rows)[i].pinned,
        listing(rows)[i].pinned == listing(rows)[j].pinned ==> !listing(
            rows,
        )[i].created_at.is_before(listing(rows)[j].created_at),
{
    lemma_listing_order(rows);
    let order = listing_order(rows);
    assert(lists_first(rows)(order[i], order[j]));
}

/// The tag index is in dictionary order once letter case is set aside: no
/// tag comes before a tag whose lower-case form sorts before its own.
pub proof fn lemma_index_sorted_without_case(index: Seq<Seq<char>>, i: int, j: int)
    requires
        ascending(index),
        0 <= i < j < index.len(),
    ensures
        !text_less(lowercase(index[j]), lowercase(index[i])),
        index[i] != index[j],
{
    assert(tag_precedes(index[i], index[j]));
    if lowercase(index[i]) != lowercase(index[j]) {
        lemma_text_less_asymmetric(lowercase(index[i]), lowercase(index[j]));
    } else {
        crate::tags::lemma_text_less_irreflexive(lowercase(index[i]));
        crate::tags::lemma_text_less_irreflexive(index[i]);
    }
}

/// A tag search suggests ten tags at most, each of them a tag of the index
/// that holds the query text.
pub proof fn lemma_suggestions_capped(index: Seq<Seq<char>>, query: Seq<char>)
    ensures
        suggestions(index, query).len() <= MAX_SUGGESTIONS,
        forall|k: int|
            0 <= k < suggestions(index, query).len() ==> index.contains(
                #[trigger] suggestions(index, query)[k],
            ) && crate::tags::suggests(query)(suggestions(index, query)[k]),
{
    let hits = index.filter(crate::tags::suggests(query));
    assert forall|k: int| 0 <= k < suggestions(index, query).len() implies index.contains(
        #[trigger] suggestions(index, query)[k],
    ) && crate::tags::suggests(query)(suggestions(index, query)[k]) by {
        assert(suggestions(index, query)[k] == hits[k]);
        lemma_filter_members(index, crate::tags::suggests(query), k);
        index.lemma_filter_pred(crate::tags::suggests(query), k);
    }
}

/// A window holds at most `limit` rows, where the limit is not negative,
/// and never more than there are.
pub proof fn lemma_window_len<T>(rows: Seq<T>, limit: int, offset: int)
    ensures
        window(rows, limit, offset).len() <= rows.len(),
        limit >= 0 ==> window(rows, limit, offset).len() <= limit,
{
}

/// A text of at most `cap` characters is its own preview; a longer one is
/// cut to `cap` characters and the ellipsis, whatever its length.
pub proof fn lemma_shortened(text: Seq<char>, cap: nat)
    ensures
        text.len() <= cap ==> shortened(text, cap) == text,
        text.len() > cap ==> shortened(text, cap) == text.take(cap as int) + ellipsis(),
        text.len() > cap ==> shortened(text, cap).len() == cap + 3,
{
}

/// No retention policy removes a pinned row, whatever its age.
pub proof fn lemma_pinned_rows_survive(rows: Seq<ClipItemView>, policy: Retention, at: int)
    requires
        0 <= at < rows.len(),
        rows[at].pinned,
    ensures
        retained(rows, policy).contains(rows[at]),
{
    rows.lemma_filter_contains(survives(policy), at);
}

/// A retention policy removes exactly the rows that are not pinned and
/// fall in its window: those rows are gone, all others stay, and nothing
/// else appears.
pub proof fn lemma_retention_exact(rows: Seq<ClipItemView>, policy: Retention)
    requires
        distinct_ids(rows),
    ensures
        forall|k: int|
            0 <= k < rows.len() ==> (retained(rows, policy).contains(#[trigger] rows[k])
                <==> !policy.removes(rows[k])),
        forall|k: int|
            0 <= k < retained(rows, policy).len() ==> rows.contains(
                #[trigger] retained(rows, policy)[k],
            ),
        distinct_ids(retained(rows, policy)),
{
    let kept = retained(rows, policy);
    lemma_filter_distinct(rows, survives(policy));
    assert forall|k: int| 0 <= k < rows.len() implies (kept.contains(#[trigger] rows[k])
        <==> !policy.removes(rows[k])) by {
        if !policy.removes(rows[k]) {
            rows.lemma_filter_contains(survives(policy), k);
        }
        if kept.contains(rows[k]) {
            let j = choose|j: int| 0 <= j < kept.len() && kept[j] == rows[k];
            rows.lemma_filter_pred(survives(policy), j);
        }
    }
}

/// The window of a retention by range is half open: a row created at
/// `start` falls in it (where the window is not empty), a row created at
/// `end` does not.
pub proof fn lemma_window_bounds(start: Timestamp, end: Timestamp)
    ensures
        !(Retention::Between { start, end }).covers(end),
        start.is_before(end) ==> (Retention::Between { start, end }).covers(start),
{
}

/// A row that was created at the end of the window of a retention by range
/// is retained.
pub proof fn lemma_row_at_end_is_retained(
    rows: Seq<ClipItemView>,
    start: Timestamp,
    end: Timestamp,
    at: int,
)
    requires
        0 <= at < rows.len(),
        rows[at].created_at == end,
    ensures
        retained(rows, Retention::Between { start, end }).contains(rows[at]),
{
    rows.lemma_filter_contains(survives(Retention::Between { start, end }), at);
}

/// A search for a tag finds the same rows whether the query is written with
/// `tag:` or with `#` in front of the tag.
pub proof fn lemma_tag_queries_agree(
    rows: Seq<ClipItemView>,
    tag: Seq<char>,
    limit: int,
    offset: int,
)
    ensures
        window(selected(rows, routed("tag:"@ + tag)), limit, offset) == window(
            selected(rows, routed("#"@ + tag)),
            limit,
            offset,
        ),
{
    lemma_tag_prefixes_agree(tag);
}

/// Every row that a search returns answers the query, and is a row of the
/// table.
pub proof fn lemma_results_answer(
    rows: Seq<ClipItemView>,
    query: QueryView,
    limit: int,
    offset: int,
)
    ensures
        forall|k: int|
            0 <= k < window(selected(rows, query), limit, offset).len() ==> answers(
                query,
                #[trigger] window(selected(rows, query), limit, offset)[k],
            ) && rows.contains(window(selected(rows, query), limit, offset)[k]),
{
    let all = selected(rows, query);
    let shown = window(all, limit, offset);
    lemma_listing_order(rows);
    assert forall|k: int| 0 <= k < shown.len() implies answers(query, #[trigger] shown[k])
        && rows.contains(shown[k]) by {
        let start = if offset <= 0 {
            0
        } else if offset >= all.len() {
            all.len() as int
        } else {
            offset
        };
        let j = start + k;
        assert(shown[k] == all[j]);
        listing(rows).lemma_filter_pred(accepts(query), j);
        lemma_filter_members(listing(rows), accepts(query), j);
        let i = choose|i: int| 0 <= i < listing(rows).len() && listing(rows)[i] == all[j];
        let at = crate::listing::listing_order(rows)[i];
        assert(rows[at] == all[j]);
    }
}

/// A selected row is one of the rows it was selected from.
pub proof fn lemma_filter_members<T>(rows: Seq<T>, pred: spec_fn(T) -> bool, at: int)
    requires
        0 <= at < rows.filter(pred).len(),
    ensures
        rows.contains(rows.filter(pred)[at]),
    decreases rows.len(),
{
    reveal(Seq::filter);
    if rows.len() > 0 {
        let front = rows.drop_last();
        if at < front.filter(pred).len() {
            lemma_filter_members(front, pred, at);
            let j = choose|j: int| 0 <= j < front.len() && front[j] == front.filter(pred)[at];
            assert(rows[j] == rows.filter(pred)[at]);
        } else {
            assert(rows[rows.len() - 1] == rows.filter(pred)[at]);
        }
    }
}

/// A search by kind returns rows of that kind only: every row found goes by
/// the name that the query gives, letter case aside.
pub proof fn lemma_kind_results(rows: Seq<ClipItemView>, kind: Seq<char>, limit: int, offset: int)
    ensures
        forall|k: int|
            0 <= k < window(selected(rows, QueryView::Kind(kind)), limit, offset).len() ==> (
            #[trigger] window(
                selected(rows, QueryView::Kind(kind)),
                limit,
                offset,
            )[k]).content_type.name() == lowercase(kind),
{
    lemma_results_answer(rows, QueryView::Kind(kind), limit, offset);
}

/// A search with a query that starts with `type:` returns rows of one kind
/// only, the kind that the rest of the query names, and no row where the
/// rest names no kind.
pub proof fn lemma_type_query_results(
    rows: Seq<ClipItemView>,
    rest: Seq<char>,
    limit: int,
    offset: int,
)
    ensures
        forall|k: int|
            0 <= k < window(selected(rows, routed("type:"@ + rest)), limit, offset).len()
                ==> named_kind(rest) == Some(
                (#[trigger] window(
                    selected(rows, routed("type:"@ + rest)),
                    limit,
                    offset,
                )[k]).content_type,
            ),
{
    lemma_type_prefix(rest);
    lemma_results_answer(rows, routed("type:"@ + rest), limit, offset);
}

/// The query `type:image` returns image rows only: the images of the
/// listing, in its order, as many as the limit allows.
pub proof fn lemma_type_image_query(rows: Seq<ClipItemView>, limit: int)
    ensures
        routed("type:image"@) == QueryView::OfType(ContentType::Image),
        forall|k: int|
            0 <= k < window(selected(rows, routed("type:image"@)), limit, 0).len() ==> (
            #[trigger] window(
                selected(rows, routed("type:image"@)),
                limit,
                0,
            )[k]).content_type == ContentType::Image,
        0 <= limit <= selected(rows, QueryView::OfType(ContentType::Image)).len() ==> window(
            selected(rows, routed("type:image"@)),
            limit,
            0,
        ).len() == limit,
        limit < 0 || limit >= selected(rows, QueryView::OfType(ContentType::Image)).len()
            ==> window(selected(rows, routed("type:image"@)), limit, 0) == selected(
            rows,
            QueryView::OfType(ContentType::Image),
        ),
{
    reveal_strlit("type:");
    reveal_strlit("image");
    reveal_strlit("type:image");
    assert("type:image"@ =~= "type:"@ + "image"@);
    lemma_type_prefix("image"@);
    lemma_name_names_kind(ContentType::Image);
    lemma_results_answer(rows, QueryView::OfType(ContentType::Image), limit, 0);
    let all = selected(rows, QueryView::OfType(ContentType::Image));
    assert(all.skip(0) =~= all);
}

/// Selecting keeps the order: of two selected rows, the earlier one
/// stood earlier among the rows that they were selected from.
pub proof fn lemma_filter_keeps_order<T>(rows: Seq<T>, pred: spec_fn(T) -> bool, i: int, j: int)
    requires
        0 <= i < j < rows.filter(pred).len(),
    ensures
        exists|a: int, b: int|
            0 <= a < b < rows.len() && #[trigger] rows[a] == rows.filter(pred)[i]
                && #[trigger] rows[b] == rows.filter(pred)[j],
    decreases rows.len(),
{
    reveal(Seq::filter);
    if rows.len() > 0 {
        let front = rows.drop_last();
        let kept = front.filter(pred);
        if j < kept.len() {
            lemma_filter_keeps_order(front, pred, i, j);
            let (a, b) = choose|a: int, b: int|
                0 <= a < b < front.len() && #[trigger] front[a] == kept[i] && #[trigger] front[b]
                    == kept[j];
            assert(rows[a] == rows.filter(pred)[i] && rows[b] == rows.filter(pred)[j]);
        } else {
            lemma_filter_members(front, pred, i);
            let a = choose|a: int| 0 <= a < front.len() && front[a] == kept[i];
            let b = rows.len() - 1;
            assert(rows[a] == rows.filter(pred)[i] && rows[b] == rows.filter(pred)[j]);
        }
    }
}

/// The rows that a search returns stand in listing order: pinned rows
/// before the others, and among rows of the same standing no older row
/// before a newer one.
pub proof fn lemma_results_ordered(
    rows: Seq<ClipItemView>,
    query: QueryView,
    limit: int,
    offset: int,
    i: int,
    j: int,
)
    requires
        0 <= i < j < window(selected(rows, query), limit, offset).len(),
    ensures
        window(selected(rows, query), limit, offset)[j].pinned ==> window(
            selected(rows, query),
            limit,
            offset,
        )[i].pinned,
        window(selected(rows, query), limit, offset)[i].pinned == window(
            selected(rows, query),
            limit,
            offset,
        )[j].pinned ==> !window(selected(rows, query), limit, offset)[i].created_at.is_before(
            window(selected(rows, query), limit, offset)[j].created_at,
        ),
{
    let all = selected(rows, query);
    let shown = window(all, limit, offset);
    let start = if offset <= 0 {
        0
    } else if offset >= all.len() {
        all.len() as int
    } else {
        offset
    };
    assert(shown[i] == all[start + i] && shown[j] == all[start + j]);
    lemma_listing_order(rows);
    lemma_filter_keeps_order(listing(rows), accepts(query), start + i, start + j);
    let (a, b) = choose|a: int, b: int|
        0 <= a < b < listing(rows).len() && #[trigger] listing(rows)[a] == all[start + i]
            && #[trigger] listing(rows)[b] == all[start + j];
    lemma_listing_is_ordered(rows, a, b);
}

/// The listing shows every row of a table with distinct ids exactly once:
/// its ids are distinct, and a row is in the listing exactly when it is in
/// the table.
pub proof fn lemma_listing_is_permutation(rows: Seq<ClipItemView>)
    requires
        distinct_ids(rows),
    ensures
        distinct_ids(listing(rows)),
        listing(rows).len() == rows.len(),
        forall|row: ClipItemView| listing(rows).contains(row) <==> rows.contains(row),
{
    lemma_listing_order(rows);
    let order = listing_order(rows);
    let all = crate::listing::positions(rows.len());
    assert(all.no_duplicates());
    all.lemma_multiset_has_no_duplicates();
    order.lemma_multiset_has_no_duplicates_conv();
    assert forall|i: int, j: int| 0 <= i < j < listing(rows).len() implies listing(rows)[i].id
        != listing(rows)[j].id by {
        let a = order[i];
        let b = order[j];
        assert(a != b);
        if a < b {
            assert(rows[a].id != rows[b].id);
        } else {
            assert(rows[b].id != rows[a].id);
        }
    }
    assert forall|row: ClipItemView| listing(rows).contains(row) <==> rows.contains(row) by {
        if listing(rows).contains(row) {
            let k = choose|k: int| 0 <= k < listing(rows).len() && listing(rows)[k] == row;
            assert(rows[order[k]] == row);
        }
        if rows.contains(row) {
            let at = choose|at: int| 0 <= at < rows.len() && rows[at] == row;
            assert(all[at] == at);
            assert(all.contains(at));
            vstd::seq_lib::to_multiset_contains(all, at);
            vstd::seq_lib::to_multiset_contains(order, at);
            let k = choose|k: int| 0 <= k < order.len() && order[k] == at;
            assert(listing(rows)[k] == row);
        }
    }
}

/// A row is among the selected rows exactly when it is among the rows and
/// passes the test.
pub proof fn lemma_filter_is_exact<T>(rows: Seq<T>, pred: spec_fn(T) -> bool, row: T)
    ensures
        rows.filter(pred).contains(row) <==> rows.contains(row) && pred(row),
{
    if rows.filter(pred).contains(row) {
        let k = choose|k: int| 0 <= k < rows.filter(pred).len() && rows.filter(pred)[k] == row;
        lemma_filter_members(rows, pred, k);
        rows.lemma_filter_pred(pred, k);
    }
    if rows.contains(row) && pred(row) {
        let at = choose|at: int| 0 <= at < rows.len() && rows[at] == row;
        rows.lemma_filter_contains(pred, at);
    }
}

/// A search finds as many rows as the table holds rows that answer the
/// query: up to the limit, none is left out and none comes twice.
pub proof fn lemma_selected_count(rows: Seq<ClipItemView>, query: QueryView)
    requires
        distinct_ids(rows),
    ensures
        selected(rows, query).len() == rows.filter(accepts(query)).len(),
{
    let pred = accepts(query);
    let found = selected(rows, query);
    let answering = rows.filter(pred);
    lemma_listing_is_permutation(rows);
    lemma_filter_distinct(listing(rows), pred);
    lemma_filter_distinct(rows, pred);
    assert(found.no_duplicates()) by {
        assert forall|i: int, j: int| 0 <= i < found.len() && 0 <= j < found.len() && i
            != j implies found[i] != found[j] by {
            if i < j {
                assert(found[i].id != found[j].id);
            } else {
                assert(found[j].id != found[i].id);
            }
        }
    }
    assert(answering.no_duplicates()) by {
        assert forall|i: int, j: int| 0 <= i < answering.len() && 0 <= j < answering.len() && i
            != j implies answering[i] != answering[j] by {
            if i < j {
                assert(answering[i].id != answering[j].id);
            } else {
                assert(answering[j].id != answering[i].id);
            }
        }
    }
    assert(found.to_set() =~= answering.to_set()) by {
        assert forall|row: ClipItemView|
            found.to_set().contains(row) <==> answering.to_set().contains(row) by {
            lemma_filter_is_exact(listing(rows), pred, row);
            lemma_filter_is_exact(rows, pred, row);
        }
    }
    found.unique_seq_to_set();
    answering.unique_seq_to_set();
}

/// With a limit of `limit` rows and no offset, a search returns the first
/// `limit` of the rows that answer the query, or all of them where the
/// table holds no more.
pub proof fn lemma_results_count(rows: Seq<ClipItemView>, query: QueryView, limit: int)
    requires
        distinct_ids(rows),
        0 <= limit,
    ensures
        window(selected(rows, query), limit, 0).len() == if limit <= rows.filter(
            accepts(query),
        ).len() {
            limit
        } else {
            rows.filter(accepts(query)).len() as int
        },
{
    lemma_selected_count(rows, query);
}

} // verus!
