//! The history store: one row per fingerprint, with insert-or-touch,
//! tagging, pinning, deletion and time-windowed retention.

use crate::item::{opt_view, texts, views, ClipItem, ClipItemView, ContentType};
use crate::listing::{lemma_listing_order, listing, listing_order, order_rows, window};
use crate::query::{accepts, answers_row, needle, route, routed, Query, QueryView};
use crate::tags::{is_tag_index, suggest, suggestions, tag_index};
use crate::time::{clock_now, Timestamp};
use vstd::prelude::*;

verus! {

/// No two rows share an id.
pub open spec fn distinct_ids(rows: Seq<ClipItemView>) -> bool {
    forall|i: int, j: int| 0 <= i < j < rows.len() ==> rows[i].id != rows[j].id
}

/// Some row carries the id.
pub open spec fn holds(rows: Seq<ClipItemView>, id: Seq<char>) -> bool {
    exists|i: int| 0 <= i < rows.len() && rows[i].id == id
}

/// The row that carries the id, if there is one.
pub open spec fn row_with(rows: Seq<ClipItemView>, id: Seq<char>) -> Option<ClipItemView> {
    if holds(rows, id) {
        Some(rows[choose|i: int| 0 <= i < rows.len() && rows[i].id == id])
    } else {
        None
    }
}

/// In a table with distinct ids, a row is the row that carries its id.
pub proof fn lemma_row_with(rows: Seq<ClipItemView>, at: int)
    requires
        distinct_ids(rows),
        0 <= at < rows.len(),
    ensures
        row_with(rows, rows[at].id) == Some(rows[at]),
{
    let id = rows[at].id;
    let i = choose|i: int| 0 <= i < rows.len() && rows[i].id == id;
    if i < at {
        assert(rows[i].id != rows[at].id);
    } else if at < i {
        assert(rows[at].id != rows[i].id);
    }
}

/// A stored row after a new capture of the same content: only the time of
/// last use and the content are taken from the capture.
pub open spec fn refreshed(row: ClipItemView, item: ClipItemView) -> ClipItemView {
    ClipItemView { last_used_at: item.last_used_at, content: item.content, ..row }
}

/// The table after an insert-or-touch of `item`.
pub open spec fn upserted(rows: Seq<ClipItemView>, item: ClipItemView) -> Seq<ClipItemView> {
    if holds(rows, item.id) {
        rows.map_values(
            |row: ClipItemView|
                if row.id == item.id {
                    refreshed(row, item)
                } else {
                    row
                },
        )
    } else {
        rows.push(item)
    }
}

/// The table after the tags of the row `id` are replaced.
pub open spec fn retagged(rows: Seq<ClipItemView>, id: Seq<char>, tags: Seq<Seq<char>>) -> Seq<
    ClipItemView,
> {
    rows.map_values(
        |row: ClipItemView|
            if row.id == id {
                ClipItemView { tags: tags, ..row }
            } else {
                row
            },
    )
}

/// The table after the pin flag of the row `id` is set.
pub open spec fn repinned(rows: Seq<ClipItemView>, id: Seq<char>, pinned: bool) -> Seq<
    ClipItemView,
> {
    rows.map_values(
        |row: ClipItemView|
            if row.id == id {
                ClipItemView { pinned: pinned, ..row }
            } else {
                row
            },
    )
}

/// The test that every row but the row `id` passes.
pub open spec fn other_than(id: Seq<char>) -> spec_fn(ClipItemView) -> bool {
    |row: ClipItemView| row.id != id
}

/// The table without the row `id`.
pub open spec fn without(rows: Seq<ClipItemView>, id: Seq<char>) -> Seq<ClipItemView> {
    rows.filter(other_than(id))
}

/// A retention policy: which rows are due for removal.
#[derive(Clone, Copy, Debug)]
pub enum Retention {
    /// Rows created more than this many days before the given instant.
    OlderThan { now: Timestamp, days: i64 },
    /// Rows created strictly before the instant.
    Before(Timestamp),
    /// Rows created in the half-open window from `start` up to `end`.
    Between { start: Timestamp, end: Timestamp },
}

impl Retention {
    /// The creation time falls in the policy's window.
    pub open spec fn covers(self, created_at: Timestamp) -> bool {
        match self {
            Retention::OlderThan { now, days } => created_at.is_older_than(now, days as int),
            Retention::Before(instant) => created_at.is_before(instant),
            Retention::Between { start, end } => !created_at.is_before(start)
                && created_at.is_before(end),
        }
    }

    /// The policy removes the row: it is not pinned and falls in the window.
    pub open spec fn removes(self, row: ClipItemView) -> bool {
        !row.pinned && self.covers(row.created_at)
    }
}

/// The test that the rows surviving a retention policy pass.
pub open spec fn survives(policy: Retention) -> spec_fn(ClipItemView) -> bool {
    |row: ClipItemView| !policy.removes(row)
}

/// The rows that survive a retention policy.
pub open spec fn retained(rows: Seq<ClipItemView>, policy: Retention) -> Seq<ClipItemView> {
    rows.filter(survives(policy))
}

/// Selecting rows keeps their ids distinct.
pub proof fn lemma_filter_distinct(rows: Seq<ClipItemView>, pred: spec_fn(ClipItemView) -> bool)
    requires
        distinct_ids(rows),
    ensures
        distinct_ids(rows.filter(pred)),
        forall|k: int|
            0 <= k < rows.filter(pred).len() ==> rows.contains(#[trigger] rows.filter(pred)[k]),
    decreases rows.len(),
{
    reveal(Seq::filter);
    if rows.len() > 0 {
        let front = rows.drop_last();
        lemma_filter_distinct(front, pred);
        let kept = front.filter(pred);
        assert forall|k: int| 0 <= k < kept.len() implies rows.contains(#[trigger] kept[k])
            && kept[k].id != rows.last().id by {
            let j = choose|j: int| 0 <= j < front.len() && front[j] == kept[k];
            assert(rows[j] == kept[k]);
        }
        if pred(rows.last()) {
            assert(rows.filter(pred) == kept.push(rows.last()));
            assert(rows[rows.len() - 1] == rows.last());
        }
    }
}

/// What a removal drops: the rows that a retention policy covers, or the
/// row with a given id.
enum Removal<'a> {
    Policy(&'a Retention),
    Row(&'a str),
}

impl<'a> Removal<'a> {
    /// The test that the rows left in the table pass.
    spec fn keeps(self) -> spec_fn(ClipItemView) -> bool {
        match self {
            Removal::Policy(policy) => survives(*policy),
            Removal::Row(id) => other_than(id@),
        }
    }

    /// Whether the removal drops the row.
    fn drops(&self, row: &ClipItem) -> (gone: bool)
        ensures
            gone == !(self.keeps())(row@),
    {
        match self {
            Removal::Policy(policy) => removes_row(policy, row),
            Removal::Row(id) => crate::text::same_text(row.id.as_str(), id),
        }
    }
}

/// Whether the policy removes the row.
pub fn removes_row(policy: &Retention, row: &ClipItem) -> (b: bool)
    ensures
        b == policy.removes(row@),
{
    if row.pinned {
        return false;
    }
    match policy {
        Retention::OlderThan { now, days } => row.created_at.older_than(now, *days),
        Retention::Before(instant) => row.created_at.before(instant),
        Retention::Between { start, end } => !row.created_at.before(start)
            && row.created_at.before(end),
    }
}

/// The rows of the table that a query selects, in listing order.
pub open spec fn selected(rows: Seq<ClipItemView>, query: QueryView) -> Seq<ClipItemView> {
    listing(rows).filter(accepts(query))
}

/// The query for every row selects the whole listing.
pub proof fn lemma_select_all(rows: Seq<ClipItemView>)
    ensures
        selected(rows, QueryView::All) == listing(rows),
{
    lemma_filter_all(listing(rows), accepts(QueryView::All));
}

/// A test that every row passes selects all rows.
pub proof fn lemma_filter_all<T>(rows: Seq<T>, pred: spec_fn(T) -> bool)
    requires
        forall|k: int| 0 <= k < rows.len() ==> pred(#[trigger] rows[k]),
    ensures
        rows.filter(pred) == rows,
    decreases rows.len(),
{
    reveal(Seq::filter);
    if rows.len() > 0 {
        let front = rows.drop_last();
        assert forall|k: int| 0 <= k < front.len() implies pred(#[trigger] front[k]) by {
            assert(front[k] == rows[k]);
        }
        lemma_filter_all(front, pred);
        assert(rows[rows.len() - 1] == rows.last());
        assert(front.push(rows.last()) =~= rows);
    }
}

/// The rows at the given positions.
pub open spec fn picked(rows: Seq<ClipItemView>, at: Seq<usize>) -> Seq<ClipItemView> {
    Seq::new(at.len(), |k: int| rows[at[k] as int])
}

/// The store. Rows are kept in the order in which their ids first arrived.
pub struct Database {
    rows: Vec<ClipItem>,
}

impl View for Database {
    type V = Seq<ClipItemView>;

    closed spec fn view(&self) -> Seq<ClipItemView> {
        views(self.rows@)
    }
}

impl Database {
    #[verifier::type_invariant]
    spec fn well_formed(self) -> bool {
        distinct_ids(views(self.rows@))
    }

    /// An empty store.
    pub fn new() -> (db: Database)
        ensures
            db@ == Seq::<ClipItemView>::empty(),
    {
        let db = Database { rows: Vec::new() };
        assert(db@ =~= Seq::<ClipItemView>::empty());
        db
    }

    /// Number of rows. No two of them share an id.
    pub fn len(&self) -> (n: usize)
        ensures
            n == self@.len(),
            distinct_ids(self@),
    {
        proof {
            use_type_invariant(self);
        }
        self.rows.len()
    }

    /// Position of the row with the given id.
    fn position(&self, id: &str) -> (pos: Option<usize>)
        ensures
            match pos {
                Some(p) => p < self.rows.len() && self.rows@[p as int].id@ == id@,
                None => !holds(self@, id@),
            },
    {
        let mut i: usize = 0;
        while i < self.rows.len()
            invariant
                i <= self.rows.len(),
                forall|k: int| 0 <= k < i ==> self.rows@[k].id@ != id@,
            decreases self.rows.len() - i,
        {
            if crate::text::same_text(self.rows[i].id.as_str(), id) {
                return Some(i);
            }
            i += 1;
        }
        None
    }

    /// Moves the rows out, leaving the store empty for the moment.
    fn take_rows(&mut self) -> (rows: Vec<ClipItem>)
        ensures
            rows@ == old(self).rows@,
            views(rows@) == old(self)@,
            distinct_ids(views(rows@)),
            final(self)@.len() == 0,
    {
        proof {
            use_type_invariant(&*self);
        }
        let mut rows: Vec<ClipItem> = Vec::new();
        core::mem::swap(&mut self.rows, &mut rows);
        rows
    }

    /// Puts rows into the store.
    fn put_rows(&mut self, rows: Vec<ClipItem>)
        requires
            distinct_ids(views(rows@)),
        ensures
            final(self)@ == views(rows@),
    {
        self.rows = rows;
    }

    /// Replaces the tags of the row `id`; a store without such a row is
    /// left as it is.
    pub fn update_clip_tags(&mut self, id: &str, tags: Vec<String>)
        ensures
            final(self)@ == retagged(old(self)@, id@, texts(tags@)),
            distinct_ids(final(self)@),
    {
        let found = self.position(id);
        let mut rows = self.take_rows();
        let ghost before = rows@;
        let ghost new_tags = texts(tags@);
        match found {
            Some(p) => {
                let row = &mut rows[p];
                row.tags = tags;
                assert forall|k: int| 0 <= k < before.len() implies #[trigger] views(rows@)[k]
                    == retagged(views(before), id@, new_tags)[k] by {
                    if k != p {
                        assert(views(before)[k].id != views(before)[p as int].id);
                    }
                }
                assert(views(rows@) =~= retagged(views(before), id@, new_tags));
            },
            None => {
                assert(views(rows@) =~= retagged(views(before), id@, new_tags));
            },
        }
        self.put_rows(rows);
    }

    /// Sets the pin flag of the row `id`; a store without such a row is left
    /// as it is.
    pub fn toggle_pin(&mut self, id: &str, pinned: bool)
        ensures
            final(self)@ == repinned(old(self)@, id@, pinned),
            distinct_ids(final(self)@),
    {
        let found = self.position(id);
        let mut rows = self.take_rows();
        let ghost before = rows@;
        match found {
            Some(p) => {
                let row = &mut rows[p];
                row.pinned = pinned;
                assert forall|k: int| 0 <= k < before.len() implies #[trigger] views(rows@)[k]
                    == repinned(views(before), id@, pinned)[k] by {
                    if k != p {
                        assert(views(before)[k].id != views(before)[p as int].id);
                    }
                }
                assert(views(rows@) =~= repinned(views(before), id@, pinned));
            },
            None => {
                assert(views(rows@) =~= repinned(views(before), id@, pinned));
            },
        }
        self.put_rows(rows);
    }

    /// Insert-or-touch: a row with a new id is appended as given; for an id
    /// that is already stored, only the time of last use and the content of
    /// the stored row are replaced by those of `item`.
    pub fn insert_clip(&mut self, item: &ClipItem)
        ensures
            final(self)@ == upserted(old(self)@, item@),
            final(self)@.len() == old(self)@.len() + if holds(old(self)@, item@.id) {
                0int
            } else {
                1int
            },
            distinct_ids(final(self)@),
    {
        let found = self.position(item.id.as_str());
        let mut rows = self.take_rows();
        let ghost before = rows@;
        match found {
            Some(p) => {
                let content = item.content.clone();
                let row = &mut rows[p];
                row.last_used_at = item.last_used_at;
                row.content = content;
                assert(holds(views(before), item@.id)) by {
                    assert(views(before)[p as int].id == item@.id);
                }
                assert forall|k: int| 0 <= k < before.len() implies #[trigger] views(rows@)[k]
                    == upserted(views(before), item@)[k] by {
                    if k != p {
                        assert(views(before)[k].id != views(before)[p as int].id);
                    }
                }
                assert(views(rows@) =~= upserted(views(before), item@));
            },
            None => {
                rows.push(item.clone());
                assert(views(rows@) =~= upserted(views(before), item@));
                assert forall|i: int, j: int| 0 <= i < j < rows@.len() implies views(rows@)[i].id
                    != views(rows@)[j].id by {
                    if j == before.len() {
                        assert(views(before)[i].id != item@.id);
                    } else {
                        assert(views(before)[i].id != views(before)[j].id);
                    }
                }
            },
        }
        self.put_rows(rows);
    }

    /// Carries a removal out: the rows that it keeps stay in their order.
    /// Returns how many rows were dropped.
    fn remove_rows(&mut self, removal: Removal) -> (removed: usize)
        ensures
            final(self)@ == old(self)@.filter(removal.keeps()),
            removed == old(self)@.len() - final(self)@.len(),
            distinct_ids(final(self)@),
    {
        let rows = self.take_rows();
        let ghost before = views(rows@);
        let ghost pred = removal.keeps();
        assert(before.len() == rows.len());
        let mut kept: Vec<ClipItem> = Vec::new();
        let mut removed: usize = 0;
        assert(before.take(0).filter(pred) =~= Seq::<ClipItemView>::empty()) by {
            reveal(Seq::filter);
        }
        for item in it: rows
            invariant
                views(it.seq()) == before,
                before.len() <= usize::MAX,
                pred == removal.keeps(),
                views(kept@) == before.take(it.index()).filter(pred),
                removed + kept.len() == it.index(),
        {
            let ghost i = it.index();
            proof {
                assert(i < before.len());
                assert(item@ == before[i]);
                before.lemma_take_succ_push(i);
                before.take(i).lemma_filter_push(before[i], pred);
            }
            if removal.drops(&item) {
                removed += 1;
            } else {
                kept.push(item);
                assert(views(kept@) =~= before.take(i).filter(pred).push(before[i]));
            }
        }
        proof {
            before.lemma_take_len();
            lemma_filter_distinct(before, pred);
        }
        self.put_rows(kept);
        removed
    }

    /// Removes the row `id`, if there is one.
    pub fn delete_clip(&mut self, id: &str)
        ensures
            final(self)@ == without(old(self)@, id@),
            distinct_ids(final(self)@),
    {
        let _ = self.remove_rows(Removal::Row(id));
    }

    /// Removes the rows that the policy covers, pinned rows excepted, and
    /// returns their number.
    pub fn apply_retention(&mut self, policy: &Retention) -> (removed: usize)
        ensures
            final(self)@ == retained(old(self)@, *policy),
            removed == old(self)@.len() - final(self)@.len(),
            distinct_ids(final(self)@),
    {
        self.remove_rows(Removal::Policy(policy))
    }

    /// Removes the rows, pinned ones excepted, that were created more than
    /// `days` days before the present reading of the clock.
    pub fn cleanup_old_clips(&mut self, days: i64) -> (removed: usize)
        ensures
            exists|now: Timestamp|
                final(self)@ == #[trigger] retained(
                    old(self)@,
                    Retention::OlderThan { now, days },
                ),
            removed == old(self)@.len() - final(self)@.len(),
            distinct_ids(final(self)@),
    {
        let now = clock_now();
        self.cleanup_older_than(days, now)
    }

    /// Removes the rows, pinned ones excepted, that were created more than
    /// `days` days before `now`.
    pub fn cleanup_older_than(&mut self, days: i64, now: Timestamp) -> (removed: usize)
        ensures
            final(self)@ == retained(old(self)@, Retention::OlderThan { now, days }),
            removed == old(self)@.len() - final(self)@.len(),
            distinct_ids(final(self)@),
    {
        self.apply_retention(&Retention::OlderThan { now, days })
    }

    /// Removes the rows, pinned ones excepted, that were created strictly
    /// before `before`.
    pub fn cleanup_before(&mut self, before: Timestamp) -> (removed: usize)
        ensures
            final(self)@ == retained(old(self)@, Retention::Before(before)),
            removed == old(self)@.len() - final(self)@.len(),
            distinct_ids(final(self)@),
    {
        self.apply_retention(&Retention::Before(before))
    }

    /// Removes the rows, pinned ones excepted, that were created at or after
    /// `start` and strictly before `end_exclusive`.
    pub fn cleanup_between(&mut self, start: Timestamp, end_exclusive: Timestamp) -> (removed:
        usize)
        ensures
            final(self)@ == retained(
                old(self)@,
                Retention::Between { start, end: end_exclusive },
            ),
            removed == old(self)@.len() - final(self)@.len(),
            distinct_ids(final(self)@),
    {
        self.apply_retention(&Retention::Between { start, end: end_exclusive })
    }

    /// The positions of the rows that answer the query, in listing order.
    fn hits(&self, query: &Query) -> (at: Vec<usize>)
        ensures
            picked(self@, at@) == selected(self@, query@),
            forall|k: int| 0 <= k < at@.len() ==> #[trigger] at@[k] < self.rows@.len(),
    {
        let ghost table = self@;
        let ghost pred = accepts(query@);
        let order = order_rows(&self.rows);
        let probe = needle(query);
        let mut at: Vec<usize> = Vec::new();
        proof {
            lemma_listing_order(table);
            assert(listing(table).take(0).filter(pred) =~= Seq::<ClipItemView>::empty()) by {
                reveal(Seq::filter);
            }
            assert(picked(table, at@) =~= Seq::<ClipItemView>::empty());
        }
        let mut k: usize = 0;
        while k < order.len()
            invariant
                table == self@,
                pred == accepts(query@),
                probe@ == crate::query::needle_of(query@),
                order@.map_values(|i: usize| i as int) == listing_order(table),
                order@.len() == self.rows@.len(),
                listing(table).len() == order@.len(),
                forall|j: int| 0 <= j < order@.len() ==> #[trigger] order@[j] < self.rows@.len(),
                k <= order.len(),
                picked(table, at@) == listing(table).take(k as int).filter(pred),
                forall|j: int| 0 <= j < at@.len() ==> #[trigger] at@[j] < self.rows@.len(),
            decreases order.len() - k,
        {
            let pos = order[k];
            let row = &self.rows[pos];
            proof {
                assert(order@.map_values(|i: usize| i as int)[k as int] == pos as int);
                assert(listing(table)[k as int] == row@);
                listing(table).lemma_take_succ_push(k as int);
                listing(table).take(k as int).lemma_filter_push(row@, pred);
            }
            if answers_row(query, &probe, row) {
                let ghost before = at@;
                at.push(pos);
                assert(picked(table, at@) =~= picked(table, before).push(row@));
            }
            k += 1;
        }
        proof {
            listing(table).lemma_take_len();
        }
        at
    }

    /// The rows that answer the query, in listing order, cut to the window
    /// that `limit` and `offset` describe.
    pub fn select(&self, query: &Query, limit: i64, offset: i64) -> (out: Vec<ClipItem>)
        ensures
            views(out@) == window(selected(self@, query@), limit as int, offset as int),
    {
        let at = self.hits(query);
        let ghost found = selected(self@, query@);
        assert(found.len() == at@.len()) by {
            assert(picked(self@, at@).len() == at@.len());
        }
        let total = at.len();
        let start: usize = if offset <= 0 {
            0
        } else if offset as u64 >= total as u64 {
            total
        } else {
            offset as usize
        };
        let end: usize = if limit < 0 || limit as u64 >= (total - start) as u64 {
            total
        } else {
            start + limit as usize
        };
        let mut out: Vec<ClipItem> = Vec::new();
        let mut j: usize = start;
        while j < end
            invariant
                start <= j <= end <= total,
                total == at@.len(),
                found == picked(self@, at@),
                forall|k: int| 0 <= k < at@.len() ==> #[trigger] at@[k] < self.rows@.len(),
                views(out@) == found.subrange(start as int, j as int),
            decreases end - j,
        {
            let row = self.rows[at[j]].clone();
            let ghost before = out@;
            out.push(row);
            assert(views(out@) =~= views(before).push(found[j as int]));
            assert(found.subrange(start as int, j + 1) =~= found.subrange(
                start as int,
                j as int,
            ).push(found[j as int]));
            j += 1;
        }
        out
    }

    /// Up to `limit` rows in listing order, after the first `offset`.
    pub fn get_clips(&self, limit: i64, offset: i64) -> (out: Vec<ClipItem>)
        ensures
            views(out@) == window(listing(self@), limit as int, offset as int),
    {
        proof {
            lemma_select_all(self@);
        }
        self.select(&Query::All, limit, offset)
    }

    /// Up to `limit` rows that answer the query text, in listing order.
    pub fn search_clips(&self, query: &str, limit: i64) -> (out: Vec<ClipItem>)
        ensures
            views(out@) == window(selected(self@, routed(query@)), limit as int, 0),
    {
        let q = route(query);
        self.select(&q, limit, 0)
    }

    /// Up to `limit` rows that carry the tag, letter case aside, in listing
    /// order.
    pub fn search_by_tag(&self, tag: &str, limit: i64) -> (out: Vec<ClipItem>)
        ensures
            views(out@) == window(selected(self@, QueryView::Tag(tag@)), limit as int, 0),
    {
        let q = Query::Tag(tag.to_owned());
        self.select(&q, limit, 0)
    }

    /// Up to `limit` rows of the kind that goes by the name, letter case
    /// aside, in listing order.
    pub fn search_by_content_type(&self, content_type: &str, limit: i64) -> (out: Vec<ClipItem>)
        ensures
            views(out@) == window(
                selected(self@, QueryView::Kind(content_type@)),
                limit as int,
                0,
            ),
    {
        let q = Query::Kind(content_type.to_owned());
        self.select(&q, limit, 0)
    }

    /// Up to `limit` rows of the kind, in listing order.
    pub fn get_clips_by_type(&self, content_type: ContentType, limit: i64) -> (out: Vec<ClipItem>)
        ensures
            views(out@) == window(
                selected(self@, QueryView::OfType(content_type)),
                limit as int,
                0,
            ),
    {
        self.select(&Query::OfType(content_type), limit, 0)
    }

    /// Every tag in use, once, in dictionary order with letter case set
    /// aside.
    pub fn get_all_tags(&self) -> (index: Vec<String>)
        ensures
            is_tag_index(self@, texts(index@)),
    {
        tag_index(&self.rows)
    }

    /// The first tags of the tag index, ten at most, that hold the query
    /// text, letter case aside.
    pub fn search_tags(&self, query: &str) -> (out: Vec<String>)
        ensures
            exists|index: Seq<Seq<char>>|
                is_tag_index(self@, index) && texts(out@) == #[trigger] suggestions(
                    index,
                    query@,
                ),
    {
        let index = self.get_all_tags();
        suggest(&index, query)
    }

    /// All rows, in the order in which their ids first arrived.
    pub fn rows(&self) -> (out: Vec<ClipItem>)
        ensures
            views(out@) == self@,
    {
        let mut out: Vec<ClipItem> = Vec::new();
        let mut i: usize = 0;
        while i < self.rows.len()
            invariant
                i <= self.rows.len(),
                out@.len() == i,
                forall|k: int| 0 <= k < i ==> #[trigger] out@[k]@ == self.rows@[k]@,
            decreases self.rows.len() - i,
        {
            out.push(self.rows[i].clone());
            i += 1;
        }
        assert(views(out@) =~= self@);
        out
    }

    /// Looks a row up by its fingerprint.
    pub fn get_clip_by_content_hash(&self, hash: &str) -> (found: Option<ClipItem>)
        ensures
            opt_view(found) == row_with(self@, hash@),
            found is Some <==> holds(self@, hash@),
            found matches Some(item) ==> item@.id == hash@ && self@.contains(item@),
            distinct_ids(self@),
    {
        proof {
            use_type_invariant(self);
        }
        match self.position(hash) {
            Some(p) => {
                let item = self.rows[p].clone();
                proof {
                    assert(self@[p as int] == item@);
                    lemma_row_with(self@, p as int);
                }
                Some(item)
            },
            None => None,
        }
    }
}

} // verus!
