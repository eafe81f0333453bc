//! Search over the history: what a query text asks for, and which rows
//! answer it.

use crate::item::{ClipItem, ClipItemView, ContentType};
use crate::text::{
    char_is_whitespace, chars_of, contains, is_infix, is_whitespace, lowercase, same_chars,
    slice_of, string_of, to_lowercase, trim, trimmed,
};
use vstd::prelude::*;

verus! {

/// A search request.
#[derive(Debug)]
pub enum Query {
    /// Every row.
    All,
    /// Rows that carry the tag, letter case aside.
    Tag(String),
    /// Rows whose kind goes by the name, letter case aside.
    Kind(String),
    /// Rows of the kind.
    OfType(ContentType),
    /// Rows whose preview or content holds the text, letter case aside.
    Text(String),
    /// No row.
    NoRows,
}

pub enum QueryView {
    All,
    Tag(Seq<char>),
    Kind(Seq<char>),
    OfType(ContentType),
    Text(Seq<char>),
    NoRows,
}

impl View for Query {
    type V = QueryView;

    open spec fn view(&self) -> QueryView {
        match self {
            Query::All => QueryView::All,
            Query::Tag(t) => QueryView::Tag(t@),
            Query::Kind(k) => QueryView::Kind(k@),
            Query::OfType(c) => QueryView::OfType(*c),
            Query::Text(t) => QueryView::Text(t@),
            Query::NoRows => QueryView::NoRows,
        }
    }
}

/// Some tag of the list equals `tag` once both are in lower case.
pub open spec fn has_tag(tags: Seq<Seq<char>>, tag: Seq<char>) -> bool {
    exists|k: int| 0 <= k < tags.len() && lowercase(#[trigger] tags[k]) == lowercase(tag)
}

/// The row answers the query.
pub open spec fn answers(query: QueryView, row: ClipItemView) -> bool {
    match query {
        QueryView::All => true,
        QueryView::Tag(tag) => has_tag(row.tags, tag),
        QueryView::Kind(kind) => row.content_type.name() == lowercase(kind),
        QueryView::OfType(kind) => row.content_type == kind,
        QueryView::Text(text) => is_infix(lowercase(text), lowercase(row.preview_text))
            || is_infix(lowercase(text), lowercase(row.content)),
        QueryView::NoRows => false,
    }
}

/// The test that the rows answering a query pass.
pub open spec fn accepts(query: QueryView) -> spec_fn(ClipItemView) -> bool {
    |row: ClipItemView| answers(query, row)
}

/// A character with the ASCII capitals folded onto their small letters.
pub open spec fn ascii_fold(c: char) -> u32 {
    if 'A' <= c <= 'Z' {
        (c as u32 + 32) as u32
    } else {
        c as u32
    }
}

/// `s` starts with `prefix`, ASCII letter case aside.
pub open spec fn has_prefix(s: Seq<char>, prefix: Seq<char>) -> bool {
    prefix.len() <= s.len() && forall|i: int|
        0 <= i < prefix.len() ==> ascii_fold(#[trigger] s[i]) == ascii_fold(prefix[i])
}

/// Every character of the text is white space.
pub open spec fn all_space(s: Seq<char>) -> bool {
    forall|i: int| 0 <= i < s.len() ==> is_whitespace(#[trigger] s[i])
}

/// The text is the name, ASCII letter case aside, with `lead` characters of
/// white space before it and nothing but white space after it.
pub open spec fn stands_at(text: Seq<char>, name: Seq<char>, lead: int) -> bool {
    &&& 0 <= lead
    &&& lead + name.len() <= text.len()
    &&& all_space(text.take(lead))
    &&& has_prefix(text.skip(lead), name)
    &&& all_space(text.skip(lead + name.len()))
}

/// The text names the name: it is the name, ASCII letter case aside, with
/// nothing but white space around it.
pub open spec fn names(text: Seq<char>, name: Seq<char>) -> bool {
    exists|lead: int| stands_at(text, name, lead)
}

/// The kind of content that a text names, if it names one.
pub open spec fn named_kind(text: Seq<char>) -> Option<ContentType> {
    if names(text, ContentType::Plain.name()) {
        Some(ContentType::Plain)
    } else if names(text, ContentType::Rich.name()) {
        Some(ContentType::Rich)
    } else if names(text, ContentType::Image.name()) {
        Some(ContentType::Image)
    } else if names(text, ContentType::File.name()) {
        Some(ContentType::File)
    } else {
        None
    }
}

/// What a query text asks for. A text that starts with `tag:` or `#` asks
/// for the tag that the rest of the text is, without surrounding white
/// space. A text that starts with `type:` asks for the rows of the kind
/// that the rest names, and for no row where the rest names no kind. Any
/// other text is looked for in the rows themselves.
pub open spec fn routed(query: Seq<char>) -> QueryView {
    if has_prefix(query, "tag:"@) {
        QueryView::Tag(trimmed(query.skip(4)))
    } else if has_prefix(query, "#"@) {
        QueryView::Tag(trimmed(query.skip(1)))
    } else if has_prefix(query, "type:"@) {
        match named_kind(query.skip(5)) {
            Some(kind) => QueryView::OfType(kind),
            None => QueryView::NoRows,
        }
    } else {
        QueryView::Text(query)
    }
}

/// Folds an ASCII capital onto its small letter.
pub fn fold_ascii(c: char) -> (folded: u32)
    ensures
        folded == ascii_fold(c),
{
    let code: u32 = c as u32;
    if 'A' <= c && c <= 'Z' {
        code + 32
    } else {
        code
    }
}

/// Whether `s` starts with `prefix`, ASCII letter case aside.
pub fn starts_with(s: &Vec<char>, prefix: &Vec<char>) -> (b: bool)
    ensures
        b == has_prefix(s@, prefix@),
{
    if prefix.len() > s.len() {
        return false;
    }
    let mut i: usize = 0;
    while i < prefix.len()
        invariant
            prefix.len() <= s.len(),
            i <= prefix.len(),
            forall|k: int| 0 <= k < i ==> ascii_fold(#[trigger] s@[k]) == ascii_fold(prefix@[k]),
        decreases prefix.len() - i,
    {
        if fold_ascii(s[i]) != fold_ascii(prefix[i]) {
            return false;
        }
        i += 1;
    }
    true
}

/// The rest of `s` after its first `n` characters, trimmed.
fn trimmed_rest(s: &Vec<char>, n: usize) -> (out: String)
    requires
        n <= s.len(),
    ensures
        out@ == trimmed(s@.skip(n as int)),
{
    let rest = slice_of(s, n, s.len());
    assert(s@.subrange(n as int, s.len() as int) == s@.skip(n as int));
    let kept = trim(&rest);
    string_of(&kept)
}

/// Whether every character from position `from` on is white space.
fn rest_is_space(text: &Vec<char>, from: usize) -> (b: bool)
    requires
        from <= text.len(),
    ensures
        b == all_space(text@.skip(from as int)),
{
    let mut i: usize = from;
    while i < text.len()
        invariant
            from <= i <= text.len(),
            forall|k: int| from <= k < i ==> is_whitespace(#[trigger] text@[k]),
        decreases text.len() - i,
    {
        if !char_is_whitespace(text[i]) {
            assert(text@.skip(from as int)[i - from] == text@[i as int]);
            return false;
        }
        i += 1;
    }
    assert forall|k: int| 0 <= k < text@.skip(from as int).len() implies is_whitespace(
        #[trigger] text@.skip(from as int)[k],
    ) by {
        assert(text@.skip(from as int)[k] == text@[from + k]);
    }
    true
}

/// Whether the text names the name.
pub fn names_it(text: &Vec<char>, name: &Vec<char>) -> (b: bool)
    ensures
        b == names(text@, name@),
{
    if name.len() > text.len() {
        assert forall|lead: int| !stands_at(text@, name@, lead) by {}
        return false;
    }
    let last: usize = text.len() - name.len();
    let mut lead: usize = 0;
    loop
        invariant
            last == text.len() - name.len(),
            name.len() <= text.len(),
            lead <= last,
            all_space(text@.take(lead as int)),
            forall|q: int| 0 <= q < lead ==> !stands_at(text@, name@, q),
        decreases last - lead,
    {
        let here = slice_of(text, lead, text.len());
        assert(text@.subrange(lead as int, text.len() as int) == text@.skip(lead as int));
        if starts_with(&here, name) && rest_is_space(text, lead + name.len()) {
            assert(stands_at(text@, name@, lead as int));
            return true;
        }
        if lead == last {
            assert forall|q: int| !stands_at(text@, name@, q) by {}
            return false;
        }
        if !char_is_whitespace(text[lead]) {
            assert forall|q: int| !stands_at(text@, name@, q) by {
                if q > lead && q + name.len() <= text.len() {
                    if all_space(text@.take(q)) {
                        assert(text@.take(q)[lead as int] == text@[lead as int]);
                    }
                }
            }
            return false;
        }
        assert forall|i: int| 0 <= i < lead + 1 implies is_whitespace(
            #[trigger] text@.take(lead + 1)[i],
        ) by {
            if i < lead {
                assert(text@.take(lead as int)[i] == text@[i]);
            }
        }
        lead += 1;
    }
}

/// The kind of content that a text names, if it names one.
pub fn kind_named(text: &Vec<char>) -> (kind: Option<ContentType>)
    ensures
        kind == named_kind(text@),
{
    if names_it(text, &chars_of(ContentType::Plain.as_str())) {
        Some(ContentType::Plain)
    } else if names_it(text, &chars_of(ContentType::Rich.as_str())) {
        Some(ContentType::Rich)
    } else if names_it(text, &chars_of(ContentType::Image.as_str())) {
        Some(ContentType::Image)
    } else if names_it(text, &chars_of(ContentType::File.as_str())) {
        Some(ContentType::File)
    } else {
        None
    }
}

/// Reads a query text.
pub fn route(query: &str) -> (q: Query)
    ensures
        q@ == routed(query@),
{
    let chars = chars_of(query);
    let tag_word = chars_of("tag:");
    let hash = chars_of("#");
    let type_word = chars_of("type:");
    proof {
        reveal_strlit("tag:");
        reveal_strlit("#");
        reveal_strlit("type:");
    }
    if starts_with(&chars, &tag_word) {
        Query::Tag(trimmed_rest(&chars, 4))
    } else if starts_with(&chars, &hash) {
        Query::Tag(trimmed_rest(&chars, 1))
    } else if starts_with(&chars, &type_word) {
        let rest = slice_of(&chars, 5, chars.len());
        assert(chars@.subrange(5, chars.len() as int) == chars@.skip(5));
        match kind_named(&rest) {
            Some(kind) => Query::OfType(kind),
            None => Query::NoRows,
        }
    } else {
        Query::Text(string_of(&chars))
    }
}

/// The text that a query looks for, in lower case; empty where the query
/// names no text.
pub open spec fn needle_of(query: QueryView) -> Seq<char> {
    match query {
        QueryView::Tag(t) => lowercase(t),
        QueryView::Kind(k) => lowercase(k),
        QueryView::Text(t) => lowercase(t),
        _ => Seq::<char>::empty(),
    }
}

/// Prepares the text that a query looks for.
pub fn needle(query: &Query) -> (out: Vec<char>)
    ensures
        out@ == needle_of(query@),
{
    match query {
        Query::Tag(t) => chars_of(to_lowercase(t.as_str()).as_str()),
        Query::Kind(k) => chars_of(to_lowercase(k.as_str()).as_str()),
        Query::Text(t) => chars_of(to_lowercase(t.as_str()).as_str()),
        _ => Vec::new(),
    }
}

/// Whether one of the tags equals the needle once in lower case.
fn tags_hold(tags: &Vec<String>, tag: Ghost<Seq<char>>, needle: &Vec<char>) -> (b: bool)
    requires
        needle@ == lowercase(tag@),
    ensures
        b == has_tag(crate::item::texts(tags@), tag@),
{
    let ghost list = crate::item::texts(tags@);
    let mut k: usize = 0;
    while k < tags.len()
        invariant
            k <= tags.len(),
            list == crate::item::texts(tags@),
            needle@ == lowercase(tag@),
            forall|j: int| 0 <= j < k ==> lowercase(#[trigger] list[j]) != lowercase(tag@),
        decreases tags.len() - k,
    {
        let lowered = chars_of(to_lowercase(tags[k].as_str()).as_str());
        assert(list[k as int] == tags@[k as int]@);
        if same_chars(&lowered, needle) {
            return true;
        }
        k += 1;
    }
    false
}

/// Whether the row answers the query, given the query's prepared needle.
pub fn answers_row(query: &Query, needle: &Vec<char>, row: &ClipItem) -> (b: bool)
    requires
        needle@ == needle_of(query@),
    ensures
        b == answers(query@, row@),
{
    match query {
        Query::All => true,
        Query::Tag(t) => tags_hold(&row.tags, Ghost(t@), needle),
        Query::Kind(_) => {
            let name = chars_of(row.content_type.as_str());
            same_chars(&name, needle)
        },
        Query::OfType(kind) => row.content_type == *kind,
        Query::NoRows => false,
        Query::Text(_) => {
            let preview = chars_of(to_lowercase(row.preview_text.as_str()).as_str());
            if contains(&preview, needle) {
                true
            } else {
                let content = chars_of(to_lowercase(row.content.as_str()).as_str());
                contains(&content, needle)
            }
        },
    }
}

/// A query for a tag gives the same request whether it is written with
/// `tag:` or with `#` in front.
pub proof fn lemma_tag_prefixes_agree(tag: Seq<char>)
    ensures
        routed("tag:"@ + tag) == QueryView::Tag(trimmed(tag)),
        routed("#"@ + tag) == QueryView::Tag(trimmed(tag)),
{
    reveal_strlit("tag:");
    reveal_strlit("#");
    reveal_strlit("type:");
    let long = "tag:"@ + tag;
    let short = "#"@ + tag;
    assert(long.skip(4) =~= tag);
    assert(short.skip(1) =~= tag);
    assert(has_prefix(long, "tag:"@));
    assert(has_prefix(short, "#"@));
    assert(!has_prefix(short, "tag:"@)) by {
        assert(ascii_fold(short[0]) != ascii_fold("tag:"@[0]));
    }
}

/// A query that starts with `type:` asks for the rows of the kind that
/// the rest of it names.
pub proof fn lemma_type_prefix(rest: Seq<char>)
    ensures
        routed("type:"@ + rest) == match named_kind(rest) {
            Some(kind) => QueryView::OfType(kind),
            None => QueryView::NoRows,
        },
{
    reveal_strlit("tag:");
    reveal_strlit("#");
    reveal_strlit("type:");
    let query = "type:"@ + rest;
    assert(query.skip(5) =~= rest);
    assert(has_prefix(query, "type:"@));
    assert(!has_prefix(query, "tag:"@)) by {
        assert(ascii_fold(query[1]) != ascii_fold("tag:"@[1]));
    }
    assert(!has_prefix(query, "#"@)) by {
        assert(ascii_fold(query[0]) != ascii_fold("#"@[0]));
    }
}

/// The name does not stand where one of its characters differs from the
/// text, letter case aside.
pub proof fn lemma_stands_not(text: Seq<char>, name: Seq<char>, lead: int, at: int)
    requires
        0 <= lead,
        lead + name.len() <= text.len(),
        0 <= at < name.len(),
        ascii_fold(text[lead + at]) != ascii_fold(name[at]),
    ensures
        !stands_at(text, name, lead),
{
    assert(text.skip(lead)[at] == text[lead + at]);
}

/// Every kind of content is named by its own name: a query for `image`
/// asks for images, whatever counts as white space.
pub proof fn lemma_name_names_kind(kind: ContentType)
    ensures
        named_kind(kind.name()) == Some(kind),
{
    reveal_strlit("plain");
    reveal_strlit("rich");
    reveal_strlit("image");
    reveal_strlit("file");
    let text = kind.name();
    assert(text.take(0) =~= Seq::<char>::empty());
    assert(text.skip(text.len() as int) =~= Seq::<char>::empty());
    assert(text.skip(0) =~= text);
    assert(stands_at(text, text, 0));
    let plain = "plain"@;
    let rich = "rich"@;
    let image = "image"@;
    // The name of a kind differs in its first letter from the names that
    // are tried before it, wherever they could stand in it.
    assert forall|lead: int| text != plain implies !stands_at(text, plain, lead) by {
        if text != plain && 0 <= lead && lead + plain.len() <= text.len() {
            lemma_stands_not(text, plain, lead, 0);
        }
    }
    assert forall|lead: int| text != plain && text != rich implies !stands_at(
        text,
        rich,
        lead,
    ) by {
        if text != plain && text != rich && 0 <= lead && lead + rich.len() <= text.len() {
            lemma_stands_not(text, rich, lead, 0);
        }
    }
    assert forall|lead: int| kind == ContentType::File implies !stands_at(text, image, lead) by {}
    assert(plain.len() == 5 && rich.len() == 4 && image.len() == 5);
    assert(plain[0] != rich[0] && plain[0] != image[0]);
}

} // verus!
