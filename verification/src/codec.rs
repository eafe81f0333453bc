//! Records as rows of text columns, the form in which they are persisted.

use crate::item::{
    opt_metadata, texts, ClipItem, ClipItemView, ContentType, Metadata, MetadataView,
};
use crate::json::{json_strings, json_strings_read, read_strings, write_strings};
use crate::time::Timestamp;
use vstd::prelude::*;
use vstd::string::*;

verus! {

/// The RFC 3339 text that chrono writes for the instant with the given
/// seconds since the Unix epoch and nanoseconds, in UTC; none for an instant
/// outside the range of dates that chrono represents.
pub uninterp spec fn rfc3339_text(secs: i64, nanos: u32) -> Option<Seq<char>>;

/// The instant, as seconds since the Unix epoch and nanoseconds, that chrono
/// reads from an RFC 3339 text; none where it reports an error.
pub uninterp spec fn rfc3339_instant(text: Seq<char>) -> Option<(i64, u32)>;

/// Builds the instant with `chrono::DateTime::from_timestamp` and writes it
/// with `to_rfc3339`. `from_timestamp` refuses what lies outside its range
/// of dates.
#[verifier::external_body]
fn write_rfc3339(secs: i64, nanos: u32) -> (out: Option<String>)
    ensures
        crate::item::opt_text(out) == rfc3339_text(secs, nanos),
{
    match chrono::DateTime::from_timestamp(secs, nanos) {
        Some(instant) => Some(instant.to_rfc3339()),
        None => None,
    }
}

/// Reads an instant with `chrono::DateTime::parse_from_rfc3339` and takes its
/// `timestamp` and `timestamp_subsec_nanos`. Chrono's error is mapped to
/// `None`.
#[verifier::external_body]
fn read_rfc3339(text: &str) -> (out: Option<(i64, u32)>)
    ensures
        out == rfc3339_instant(text@),
{
    match chrono::DateTime::parse_from_rfc3339(text) {
        Ok(instant) => Some((instant.timestamp(), instant.timestamp_subsec_nanos())),
        Err(_) => None,
    }
}

/// A record as it is persisted: every column is text or a number, except
/// the kind-specific extra, which stays as it is.
#[derive(Debug)]
pub struct StoredRow {
    pub id: String,
    /// The name of the kind of content.
    pub content_type: String,
    pub content: String,
    pub preview_text: String,
    /// The tags as a JSON array of strings.
    pub tags: String,
    pub source_app: String,
    /// RFC 3339, in UTC.
    pub created_at: String,
    /// RFC 3339, in UTC.
    pub last_used_at: String,
    /// Zero for a row that is not pinned.
    pub pinned: i32,
    pub metadata: Option<Metadata>,
}

pub struct StoredRowView {
    pub id: Seq<char>,
    pub content_type: Seq<char>,
    pub content: Seq<char>,
    pub preview_text: Seq<char>,
    pub tags: Seq<char>,
    pub source_app: Seq<char>,
    pub created_at: Seq<char>,
    pub last_used_at: Seq<char>,
    pub pinned: i32,
    pub metadata: Option<MetadataView>,
}

impl View for StoredRow {
    type V = StoredRowView;

    open spec fn view(&self) -> StoredRowView {
        StoredRowView {
            id: self.id@,
            content_type: self.content_type@,
            content: self.content@,
            preview_text: self.preview_text@,
            tags: self.tags@,
            source_app: self.source_app@,
            created_at: self.created_at@,
            last_used_at: self.last_used_at@,
            pinned: self.pinned,
            metadata: opt_metadata(self.metadata),
        }
    }
}

/// The instant that a column holds; `now` where the column cannot be read.
pub open spec fn instant_or(text: Seq<char>, now: Timestamp) -> Timestamp {
    match rfc3339_instant(text) {
        Some((secs, nanos)) => Timestamp { secs, nanos },
        None => now,
    }
}

/// The tags that a column holds; none where the column cannot be read.
pub open spec fn tags_or_none(text: Seq<char>) -> Seq<Seq<char>> {
    match json_strings_read(text) {
        Some(tags) => tags,
        None => Seq::<Seq<char>>::empty(),
    }
}

/// The kind that a column names; plain text where it names none.
pub open spec fn kind_or_plain(name: Seq<char>) -> ContentType {
    match ContentType::named(name) {
        Some(kind) => kind,
        None => ContentType::Plain,
    }
}

/// The record that a row holds, read at `now`. Columns that cannot be read
/// fall back: an unknown kind to plain text, unreadable tags to none, an
/// unreadable time to `now`.
pub open spec fn decoded(row: StoredRowView, now: Timestamp) -> ClipItemView {
    ClipItemView {
        id: row.id,
        content_type: kind_or_plain(row.content_type),
        content: row.content,
        preview_text: row.preview_text,
        tags: tags_or_none(row.tags),
        source_app: row.source_app,
        created_at: instant_or(row.created_at, now),
        last_used_at: instant_or(row.last_used_at, now),
        pinned: row.pinned != 0,
        metadata: row.metadata,
    }
}

/// The row that holds a record, where both of its times can be written.
pub open spec fn encoded(item: ClipItemView) -> Option<StoredRowView> {
    match (
        rfc3339_text(item.created_at.secs, item.created_at.nanos),
        rfc3339_text(item.last_used_at.secs, item.last_used_at.nanos),
    ) {
        (Some(created_at), Some(last_used_at)) => Some(
            StoredRowView {
                id: item.id,
                content_type: item.content_type.name(),
                content: item.content,
                preview_text: item.preview_text,
                tags: json_strings(item.tags),
                source_app: item.source_app,
                created_at,
                last_used_at,
                pinned: if item.pinned {
                    1
                } else {
                    0
                },
                metadata: item.metadata,
            },
        ),
        _ => None,
    }
}

/// The view of an optional row.
pub open spec fn opt_row(o: Option<StoredRow>) -> Option<StoredRowView> {
    match o {
        Some(row) => Some(row@),
        None => None,
    }
}

/// Reads the instant that a column holds.
fn read_instant(text: &str, now: Timestamp) -> (out: Timestamp)
    ensures
        out == instant_or(text@, now),
{
    match read_rfc3339(text) {
        Some((secs, nanos)) => Timestamp { secs, nanos },
        None => now,
    }
}

/// Reads the record that a row holds.
pub fn decode_row(row: StoredRow, now: Timestamp) -> (item: ClipItem)
    ensures
        item@ == decoded(row@, now),
{
    let content_type = match ContentType::from_str(row.content_type.as_str()) {
        Some(kind) => kind,
        None => ContentType::Plain,
    };
    let tags = match read_strings(row.tags.as_str()) {
        Some(tags) => tags,
        None => Vec::new(),
    };
    assert(texts(tags@) =~= tags_or_none(row.tags@));
    let created_at = read_instant(row.created_at.as_str(), now);
    let last_used_at = read_instant(row.last_used_at.as_str(), now);
    ClipItem {
        id: row.id,
        content_type,
        content: row.content,
        preview_text: row.preview_text,
        tags,
        source_app: row.source_app,
        created_at,
        last_used_at,
        pinned: row.pinned != 0,
        metadata: row.metadata,
    }
}

/// Writes the row that holds a record; none where one of its times lies
/// outside the range of dates that can be written.
pub fn encode_row(item: &ClipItem) -> (row: Option<StoredRow>)
    ensures
        opt_row(row) == encoded(item@),
{
    let created_at = match write_rfc3339(item.created_at.secs, item.created_at.nanos) {
        Some(text) => text,
        None => {
            return None;
        },
    };
    let last_used_at = match write_rfc3339(item.last_used_at.secs, item.last_used_at.nanos) {
        Some(text) => text,
        None => {
            return None;
        },
    };
    let metadata = match &item.metadata {
        Some(m) => Some(m.clone()),
        None => None,
    };
    Some(
        StoredRow {
            id: item.id.clone(),
            content_type: item.content_type.as_str().to_owned(),
            content: item.content.clone(),
            preview_text: item.preview_text.clone(),
            tags: write_strings(&item.tags),
            source_app: item.source_app.clone(),
            created_at,
            last_used_at,
            pinned: if item.pinned {
                1
            } else {
                0
            },
            metadata,
        },
    )
}

} // verus!
