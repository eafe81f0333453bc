//! The tag index: every tag in use, once, in dictionary order with letter
//! case set aside, and the suggestions drawn from it.

use crate::item::{texts, ClipItem, ClipItemView};
use crate::text::{
    chars_of, contains, is_infix, less_than, lowercase, same_chars, string_of, text_less,
    to_lowercase,
};
use vstd::prelude::*;

verus! {

/// How many suggestions a tag search returns at most.
pub const MAX_SUGGESTIONS: usize = 10;

/// No text sorts before itself.
pub proof fn lemma_text_less_irreflexive(a: Seq<char>)
    ensures
        !text_less(a, a),
    decreases a.len(),
{
    if a.len() > 0 {
        lemma_text_less_irreflexive(a.drop_first());
    }
}

/// Of two texts at most one sorts before the other.
pub proof fn lemma_text_less_asymmetric(a: Seq<char>, b: Seq<char>)
    requires
        text_less(a, b),
    ensures
        !text_less(b, a),
    decreases a.len(),
{
    if a.len() > 0 && b.len() > 0 && a[0] == b[0] {
        lemma_text_less_asymmetric(a.drop_first(), b.drop_first());
    }
}

/// Sorting before is transitive.
pub proof fn lemma_text_less_transitive(a: Seq<char>, b: Seq<char>, c: Seq<char>)
    requires
        text_less(a, b),
        text_less(b, c),
    ensures
        text_less(a, c),
    decreases a.len(),
{
    if a.len() > 0 && b.len() > 0 && c.len() > 0 && a[0] == b[0] && b[0] == c[0] {
        lemma_text_less_transitive(a.drop_first(), b.drop_first(), c.drop_first());
    }
}

/// Of two different texts one sorts before the other.
pub proof fn lemma_text_less_total(a: Seq<char>, b: Seq<char>)
    requires
        a != b,
    ensures
        text_less(a, b) || text_less(b, a),
    decreases a.len(),
{
    if a.len() > 0 && b.len() > 0 && a[0] == b[0] {
        if a.drop_first() == b.drop_first() {
            assert(a =~= seq![a[0]] + a.drop_first());
            assert(b =~= seq![b[0]] + b.drop_first());
        }
        lemma_text_less_total(a.drop_first(), b.drop_first());
    } else if a.len() == 0 && b.len() == 0 {
        assert(a =~= b);
    }
}

/// `a` comes strictly before `b` in the tag index: by their lower-case
/// forms, and by the tags themselves where those forms agree.
pub open spec fn tag_precedes(a: Seq<char>, b: Seq<char>) -> bool {
    if lowercase(a) != lowercase(b) {
        text_less(lowercase(a), lowercase(b))
    } else {
        text_less(a, b)
    }
}

/// Some row carries the tag.
pub open spec fn tag_used(rows: Seq<ClipItemView>, tag: Seq<char>) -> bool {
    exists|i: int, k: int|
        0 <= i < rows.len() && 0 <= k < rows[i].tags.len() && #[trigger] rows[i].tags[k] == tag
}

/// The list is in strictly ascending index order (so no tag occurs twice).
pub open spec fn ascending(index: Seq<Seq<char>>) -> bool {
    forall|i: int, j: int| 0 <= i < j < index.len() ==> tag_precedes(index[i], index[j])
}

/// `index` is the tag index of the table: exactly the tags in use, in
/// strictly ascending order.
pub open spec fn is_tag_index(rows: Seq<ClipItemView>, index: Seq<Seq<char>>) -> bool {
    &&& forall|t: Seq<char>| index.contains(t) <==> tag_used(rows, t)
    &&& ascending(index)
}

/// The test that the tags holding the text pass, letter case aside.
pub open spec fn suggests(query: Seq<char>) -> spec_fn(Seq<char>) -> bool {
    |tag: Seq<char>| is_infix(lowercase(query), lowercase(tag))
}

/// The suggestions for a query text: the first tags of the index, ten at
/// most, that hold the text.
pub open spec fn suggestions(index: Seq<Seq<char>>, query: Seq<char>) -> Seq<Seq<char>> {
    let hits = index.filter(suggests(query));
    if hits.len() <= MAX_SUGGESTIONS {
        hits
    } else {
        hits.take(MAX_SUGGESTIONS as int)
    }
}

/// Two ascending lists with the same members are the same list.
pub proof fn lemma_same_members_same_list(first: Seq<Seq<char>>, second: Seq<Seq<char>>)
    requires
        ascending(first),
        ascending(second),
        forall|t: Seq<char>| first.contains(t) <==> second.contains(t),
    ensures
        first == second,
    decreases first.len(),
{
    if first.len() == 0 {
        if second.len() > 0 {
            assert(second.contains(second[0]));
        }
        assert(first =~= second);
    } else if second.len() == 0 {
        assert(first.contains(first[0]));
    } else {
        let x = first.last();
        let y = second.last();
        assert(first.contains(x)) by {
            assert(first[first.len() - 1] == x);
        }
        assert(second.contains(y)) by {
            assert(second[second.len() - 1] == y);
        }
        let ix = choose|i: int| 0 <= i < second.len() && second[i] == x;
        let iy = choose|i: int| 0 <= i < first.len() && first[i] == y;
        if x != y {
            assert(tag_precedes(x, y));
            assert(tag_precedes(y, x));
            lemma_tag_precedes_asymmetric(x, y);
        }
        let f = first.drop_last();
        let s = second.drop_last();
        lemma_tag_precedes_irreflexive(x);
        assert forall|t: Seq<char>| f.contains(t) <==> s.contains(t) by {
            if f.contains(t) {
                let i = choose|i: int| 0 <= i < f.len() && f[i] == t;
                assert(first[i] == t);
                assert(first.contains(t));
                assert(tag_precedes(first[i], first[first.len() - 1]));
                let j = choose|j: int| 0 <= j < second.len() && second[j] == t;
                assert(s[j] == t);
            }
            if s.contains(t) {
                let i = choose|i: int| 0 <= i < s.len() && s[i] == t;
                assert(second[i] == t);
                assert(second.contains(t));
                assert(tag_precedes(second[i], second[second.len() - 1]));
                let j = choose|j: int| 0 <= j < first.len() && first[j] == t;
                assert(f[j] == t);
            }
        }
        lemma_same_members_same_list(f, s);
        assert(first =~= f.push(x));
        assert(second =~= s.push(y));
    }
}

/// No tag precedes itself.
pub proof fn lemma_tag_precedes_irreflexive(a: Seq<char>)
    ensures
        !tag_precedes(a, a),
{
    lemma_text_less_irreflexive(a);
}

/// Of two tags at most one precedes the other.
pub proof fn lemma_tag_precedes_asymmetric(a: Seq<char>, b: Seq<char>)
    requires
        tag_precedes(a, b),
    ensures
        !tag_precedes(b, a),
{
    if lowercase(a) != lowercase(b) {
        lemma_text_less_asymmetric(lowercase(a), lowercase(b));
    } else {
        lemma_text_less_asymmetric(a, b);
    }
}

/// Preceding is transitive.
pub proof fn lemma_tag_precedes_transitive(a: Seq<char>, b: Seq<char>, c: Seq<char>)
    requires
        tag_precedes(a, b),
        tag_precedes(b, c),
    ensures
        tag_precedes(a, c),
{
    let la = lowercase(a);
    let lb = lowercase(b);
    let lc = lowercase(c);
    if la != lb && lb != lc {
        lemma_text_less_transitive(la, lb, lc);
        if la == lc {
            lemma_text_less_asymmetric(la, lb);
        }
    } else if la == lb && lb == lc {
        lemma_text_less_transitive(a, b, c);
    }
}

/// Of two different tags one precedes the other.
pub proof fn lemma_tag_precedes_total(a: Seq<char>, b: Seq<char>)
    requires
        a != b,
    ensures
        tag_precedes(a, b) || tag_precedes(b, a),
{
    if lowercase(a) != lowercase(b) {
        lemma_text_less_total(lowercase(a), lowercase(b));
    } else {
        lemma_text_less_total(a, b);
    }
}

/// A table has one tag index only.
pub proof fn lemma_tag_index_unique(
    rows: Seq<ClipItemView>,
    first: Seq<Seq<char>>,
    second: Seq<Seq<char>>,
)
    requires
        is_tag_index(rows, first),
        is_tag_index(rows, second),
    ensures
        first == second,
{
    lemma_same_members_same_list(first, second);
}

/// The texts of a list of character vectors.
pub open spec fn lines(v: Seq<Vec<char>>) -> Seq<Seq<char>> {
    Seq::new(v.len(), |i: int| v[i]@)
}

/// Whether the tag `a`, with lower-case form `a_key`, comes strictly before
/// the tag `b` with lower-case form `b_key`.
fn precedes(a_key: &Vec<char>, a: &Vec<char>, b_key: &Vec<char>, b: &Vec<char>) -> (first: bool)
    requires
        a_key@ == lowercase(a@),
        b_key@ == lowercase(b@),
    ensures
        first == tag_precedes(a@, b@),
{
    if same_chars(a_key, b_key) {
        less_than(a, b)
    } else {
        less_than(a_key, b_key)
    }
}

/// Puts a tag into an ascending list, unless the list holds it already.
/// `keys` runs beside `tags` and holds the lower-case forms.
fn insert_tag(tags: &mut Vec<Vec<char>>, keys: &mut Vec<Vec<char>>, tag: Vec<char>, key: Vec<char>)
    requires
        old(tags)@.len() == old(keys)@.len(),
        forall|k: int|
            0 <= k < old(tags)@.len() ==> #[trigger] old(keys)@[k]@ == lowercase(old(tags)@[k]@),
        ascending(lines(old(tags)@)),
        key@ == lowercase(tag@),
    ensures
        final(tags)@.len() == final(keys)@.len(),
        forall|k: int|
            0 <= k < final(tags)@.len() ==> #[trigger] final(keys)@[k]@ == lowercase(
                final(tags)@[k]@,
            ),
        ascending(lines(final(tags)@)),
        forall|t: Seq<char>|
            lines(final(tags)@).contains(t) <==> (lines(old(tags)@).contains(t) || t == tag@),
{
    let ghost before = lines(tags@);
    let n = tags.len();
    let mut p: usize = 0;
    while p < n && precedes(&keys[p], &tags[p], &key, &tag)
        invariant
            n == tags@.len(),
            n == keys@.len(),
            tags@ == old(tags)@,
            keys@ == old(keys)@,
            before == lines(tags@),
            forall|k: int| 0 <= k < n ==> #[trigger] keys@[k]@ == lowercase(tags@[k]@),
            key@ == lowercase(tag@),
            p <= n,
            forall|k: int| 0 <= k < p ==> tag_precedes(#[trigger] before[k], tag@),
        decreases n - p,
    {
        assert(before[p as int] == tags@[p as int]@);
        p += 1;
    }
    if p < n && same_chars(&tags[p], &tag) {
        assert(before[p as int] == tag@);
        assert(before.contains(tag@));
        return ;
    }
    proof {
        // The tag is new, and everything from position `p` on comes after it.
        assert forall|k: int| p <= k < n implies tag_precedes(tag@, #[trigger] before[k]) by {
            assert(before[p as int] == tags@[p as int]@);
            lemma_tag_precedes_total(tag@, before[p as int]);
            if k > p {
                assert(tag_precedes(before[p as int], before[k]));
                lemma_tag_precedes_transitive(tag@, before[p as int], before[k]);
            }
        }
    }
    let ghost new_tag = tag@;
    tags.insert(p, tag);
    keys.insert(p, key);
    proof {
        let after = lines(tags@);
        assert(after =~= before.insert(p as int, new_tag));
        assert forall|i: int, j: int| 0 <= i < j < after.len() implies tag_precedes(
            after[i],
            after[j],
        ) by {
            if j < p {
                assert(tag_precedes(before[i], before[j]));
            } else if j == p {
                assert(tag_precedes(before[i], new_tag));
            } else if i < p {
                assert(tag_precedes(before[i], before[j - 1]));
            } else if i == p {
                assert(tag_precedes(new_tag, before[j - 1]));
            } else {
                assert(tag_precedes(before[i - 1], before[j - 1]));
            }
        }
        assert forall|t: Seq<char>| after.contains(t) <==> (before.contains(t) || t == new_tag) by {
            if after.contains(t) {
                let i = choose|i: int| 0 <= i < after.len() && after[i] == t;
                if i < p {
                    assert(before[i] == t);
                } else if i > p {
                    assert(before[i - 1] == t);
                }
            }
            if before.contains(t) {
                let i = choose|i: int| 0 <= i < before.len() && before[i] == t;
                if i < p {
                    assert(after[i] == t);
                } else {
                    assert(after[i + 1] == t);
                }
            }
            if t == new_tag {
                assert(after[p as int] == t);
            }
        }
    }
}

/// The tag occurs among the first `k` tags of row `i` or in an earlier row.
pub open spec fn tag_seen(rows: Seq<ClipItemView>, i: int, k: int, tag: Seq<char>) -> bool {
    exists|a: int, b: int|
        0 <= a < rows.len() && 0 <= b < rows[a].tags.len() && (a < i || (a == i && b < k))
            && #[trigger] rows[a].tags[b] == tag
}

/// The tag index of the rows.
pub fn tag_index(rows: &Vec<ClipItem>) -> (index: Vec<String>)
    ensures
        is_tag_index(crate::item::views(rows@), texts(index@)),
{
    let ghost table = crate::item::views(rows@);
    let mut tags: Vec<Vec<char>> = Vec::new();
    let mut keys: Vec<Vec<char>> = Vec::new();
    let mut i: usize = 0;
    while i < rows.len()
        invariant
            table == crate::item::views(rows@),
            i <= rows.len(),
            tags@.len() == keys@.len(),
            forall|k: int| 0 <= k < tags@.len() ==> #[trigger] keys@[k]@ == lowercase(tags@[k]@),
            ascending(lines(tags@)),
            forall|t: Seq<char>| lines(tags@).contains(t) <==> tag_seen(table, i as int, 0, t),
        decreases rows.len() - i,
    {
        let row = &rows[i];
        let mut k: usize = 0;
        while k < row.tags.len()
            invariant
                table == crate::item::views(rows@),
                i < rows.len(),
                row == &rows@[i as int],
                k <= row.tags.len(),
                tags@.len() == keys@.len(),
                forall|j: int|
                    0 <= j < tags@.len() ==> #[trigger] keys@[j]@ == lowercase(tags@[j]@),
                ascending(lines(tags@)),
                forall|t: Seq<char>|
                    lines(tags@).contains(t) <==> tag_seen(table, i as int, k as int, t),
            decreases row.tags.len() - k,
        {
            let tag = chars_of(row.tags[k].as_str());
            let key = chars_of(to_lowercase(row.tags[k].as_str()).as_str());
            let ghost before = lines(tags@);
            let ghost added = tag@;
            insert_tag(&mut tags, &mut keys, tag, key);
            proof {
                assert(table[i as int].tags[k as int] == added);
                assert forall|t: Seq<char>| lines(tags@).contains(t) <==> tag_seen(
                    table,
                    i as int,
                    k + 1,
                    t,
                ) by {
                    if tag_seen(table, i as int, k as int, t) {
                        let (a, b) = choose|a: int, b: int|
                            0 <= a < table.len() && 0 <= b < table[a].tags.len() && (a < i || (a
                                == i && b < k)) && #[trigger] table[a].tags[b] == t;
                        assert(table[a].tags[b] == t);
                    }
                    if tag_seen(table, i as int, k + 1, t) {
                        let (a, b) = choose|a: int, b: int|
                            0 <= a < table.len() && 0 <= b < table[a].tags.len() && (a < i || (a
                                == i && b < k + 1)) && #[trigger] table[a].tags[b] == t;
                        if a == i && b == k {
                            assert(t == added);
                        } else {
                            assert(table[a].tags[b] == t);
                            assert(tag_seen(table, i as int, k as int, t));
                        }
                    }
                }
            }
            k += 1;
        }
        proof {
            assert forall|t: Seq<char>| tag_seen(table, i as int, k as int, t) <==> tag_seen(
                table,
                i + 1,
                0,
                t,
            ) by {
                if tag_seen(table, i as int, k as int, t) {
                    let (a, b) = choose|a: int, b: int|
                        0 <= a < table.len() && 0 <= b < table[a].tags.len() && (a < i || (a == i
                            && b < k)) && #[trigger] table[a].tags[b] == t;
                    assert(table[a].tags[b] == t);
                }
                if tag_seen(table, i + 1, 0, t) {
                    let (a, b) = choose|a: int, b: int|
                        0 <= a < table.len() && 0 <= b < table[a].tags.len() && (a < i + 1 || (a
                            == i + 1 && b < 0)) && #[trigger] table[a].tags[b] == t;
                    assert(table[a].tags[b] == t);
                }
            }
        }
        i += 1;
    }
    proof {
        assert forall|t: Seq<char>| tag_seen(table, i as int, 0, t) <==> tag_used(table, t) by {
            if tag_seen(table, i as int, 0, t) {
                let (a, b) = choose|a: int, b: int|
                    0 <= a < table.len() && 0 <= b < table[a].tags.len() && (a < i || (a == i && b
                        < 0)) && #[trigger] table[a].tags[b] == t;
                assert(table[a].tags[b] == t);
            }
            if tag_used(table, t) {
                let (a, b) = choose|a: int, b: int|
                    0 <= a < table.len() && 0 <= b < table[a].tags.len()
                        && #[trigger] table[a].tags[b] == t;
                assert(table[a].tags[b] == t);
            }
        }
    }
    let mut index: Vec<String> = Vec::new();
    let mut j: usize = 0;
    while j < tags.len()
        invariant
            j <= tags.len(),
            index@.len() == j,
            forall|k: int| 0 <= k < j ==> #[trigger] index@[k]@ == tags@[k]@,
        decreases tags.len() - j,
    {
        index.push(string_of(&tags[j]));
        j += 1;
    }
    assert(texts(index@) =~= lines(tags@));
    index
}

/// The suggestions that a tag index holds for a query text.
pub fn suggest(index: &Vec<String>, query: &str) -> (out: Vec<String>)
    ensures
        texts(out@) == suggestions(texts(index@), query@),
{
    let ghost list = texts(index@);
    let ghost pred = suggests(query@);
    let probe = chars_of(to_lowercase(query).as_str());
    let mut out: Vec<String> = Vec::new();
    let mut i: usize = 0;
    proof {
        assert(list.take(0).filter(pred) =~= Seq::<Seq<char>>::empty()) by {
            reveal(Seq::filter);
        }
    }
    while i < index.len() && out.len() < MAX_SUGGESTIONS
        invariant
            list == texts(index@),
            pred == suggests(query@),
            probe@ == lowercase(query@),
            i <= index.len(),
            out@.len() <= MAX_SUGGESTIONS,
            texts(out@) == list.take(i as int).filter(pred),
        decreases index.len() - i,
    {
        let tag = &index[i];
        proof {
            assert(list[i as int] == tag@);
            list.lemma_take_succ_push(i as int);
            list.take(i as int).lemma_filter_push(tag@, pred);
        }
        let lowered = chars_of(to_lowercase(tag.as_str()).as_str());
        if contains(&lowered, &probe) {
            let ghost before = out@;
            out.push(tag.clone());
            assert(texts(out@) =~= texts(before).push(tag@));
        }
        i += 1;
    }
    proof {
        let hits = list.filter(pred);
        let head = list.take(i as int);
        assert(list =~= head + list.skip(i as int));
        Seq::filter_distributes_over_add(head, list.skip(i as int), pred);
        if i == index.len() {
            list.lemma_take_len();
        } else {
            assert(hits.take(MAX_SUGGESTIONS as int) =~= head.filter(pred));
        }
    }
    out
}

} // verus!
