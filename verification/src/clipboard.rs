//! Capture and de-duplication: turning clipboard content into stored
//! records, one per distinct content.

use crate::capture::{
    file_views, files_item, files_record, image_draft, listed_files, rich_forms, rich_item,
    rich_record, text_item, text_record, CopiedFile, ImageCapture, ImageDraft,
};
use crate::db::{
    distinct_ids, holds, repinned, retagged, row_with, selected, upserted, without, Database,
};
use crate::fingerprint::{generate_content_hash, generate_image_hash, image_fingerprint};
use crate::item::{
    clone_opt_string, opt_text, texts, views, ClipItem, ClipItemView, ContentType, Metadata,
    MetadataView,
};
use crate::listing::{listing, window};
use crate::query::routed;
use crate::time::{clock_now, Timestamp};
use vstd::prelude::*;
use vstd::string::*;

verus! {

/// A stored row after its content was captured again at `now`.
pub open spec fn touched_row(row: ClipItemView, now: Timestamp) -> ClipItemView {
    ClipItemView { last_used_at: now, ..row }
}

/// The table after the row `id` was captured again at `now`.
pub open spec fn touched(rows: Seq<ClipItemView>, id: Seq<char>, now: Timestamp) -> Seq<
    ClipItemView,
> {
    rows.map_values(
        |row: ClipItemView|
            if row.id == id {
                touched_row(row, now)
            } else {
                row
            },
    )
}

/// The table after a capture: content that is already stored has its time
/// of last use set to that of the capture and nothing else changed; new
/// content is appended as the record `fresh`.
pub open spec fn captured(rows: Seq<ClipItemView>, fresh: ClipItemView) -> Seq<ClipItemView> {
    if holds(rows, fresh.id) {
        touched(rows, fresh.id, fresh.last_used_at)
    } else {
        rows.push(fresh)
    }
}

/// The record that a capture hands back: the stored record with its new
/// time of last use, or the new record.
pub open spec fn capture_result(rows: Seq<ClipItemView>, fresh: ClipItemView) -> ClipItemView {
    match row_with(rows, fresh.id) {
        Some(row) => touched_row(row, fresh.last_used_at),
        None => fresh,
    }
}

/// Why image data cannot be had for an id.
#[derive(Clone, Copy, Debug, PartialEq, Eq, Structural)]
pub enum ClipError {
    /// No record carries the id.
    NotFound,
    /// The record is not an image.
    NotAnImage,
}

/// The thumbnail path that a record names, if it names one.
pub open spec fn recorded_thumbnail(row: ClipItemView) -> Option<Seq<char>> {
    match row.metadata {
        Some(MetadataView::Image(m)) => m.thumbnail_path,
        _ => None,
    }
}

/// The files that belong to a record: for an image, its image file and,
/// where the record names one, its thumbnail file; for anything else, none.
pub open spec fn files_of(row: Option<ClipItemView>) -> Seq<Seq<char>> {
    match row {
        Some(r) => if r.content_type == ContentType::Image {
            match recorded_thumbnail(r) {
                Some(t) => seq![r.content, t],
                None => seq![r.content],
            }
        } else {
            Seq::<Seq<char>>::empty()
        },
        None => Seq::<Seq<char>>::empty(),
    }
}

/// Where the image of a record is read from.
pub open spec fn image_source(row: Option<ClipItemView>) -> Result<Seq<char>, ClipError> {
    match row {
        Some(r) => if r.content_type == ContentType::Image {
            Ok(r.content)
        } else {
            Err(ClipError::NotAnImage)
        },
        None => Err(ClipError::NotFound),
    }
}

/// Where the thumbnail of an image is read from: the recorded thumbnail
/// file first, where there is one, and the image file as the fallback.
#[derive(Debug)]
pub struct ThumbnailSource {
    pub thumbnail: Option<String>,
    pub image: String,
}

/// Where the thumbnail of a record is read from.
pub open spec fn thumbnail_source(row: Option<ClipItemView>) -> Result<
    (Option<Seq<char>>, Seq<char>),
    ClipError,
> {
    match row {
        Some(r) => if r.content_type == ContentType::Image {
            Ok((recorded_thumbnail(r), r.content))
        } else {
            Err(ClipError::NotAnImage)
        },
        None => Err(ClipError::NotFound),
    }
}

/// Touching a stored row through the store's insert-or-touch changes its
/// time of last use and nothing else.
pub proof fn lemma_touch_is_upsert(rows: Seq<ClipItemView>, at: int, now: Timestamp)
    requires
        distinct_ids(rows),
        0 <= at < rows.len(),
    ensures
        upserted(rows, touched_row(rows[at], now)) == touched(rows, rows[at].id, now),
        distinct_ids(touched(rows, rows[at].id, now)),
        touched(rows, rows[at].id, now).len() == rows.len(),
{
    let item = touched_row(rows[at], now);
    let id = rows[at].id;
    assert(holds(rows, id));
    assert forall|k: int| 0 <= k < rows.len() implies #[trigger] upserted(rows, item)[k]
        == touched(rows, id, now)[k] by {
        if k < at {
            assert(rows[k].id != rows[at].id);
        } else if at < k {
            assert(rows[at].id != rows[k].id);
        }
    }
    assert(upserted(rows, item) =~= touched(rows, id, now));
    assert forall|i: int, j: int| 0 <= i < j < rows.len() implies touched(rows, id, now)[i].id
        != touched(rows, id, now)[j].id by {
        assert(rows[i].id != rows[j].id);
    }
}

/// The capture and de-duplication manager, with the store it writes to.
pub struct ClipboardManager {
    pub db: Database,
}

impl ClipboardManager {
    pub fn new(db: Database) -> (manager: ClipboardManager)
        ensures
            manager.db@ == db@,
    {
        ClipboardManager { db }
    }

    /// Refreshes the stored record `id`, if there is one, and hands it back.
    fn touch(&mut self, id: &str, now: Timestamp) -> (known: Option<ClipItem>)
        ensures
            known is Some <==> holds(old(self).db@, id@),
            match known {
                Some(item) => {
                    &&& row_with(old(self).db@, id@) matches Some(row)
                    &&& item@ == touched_row(row, now)
                    &&& final(self).db@ == touched(old(self).db@, id@, now)
                },
                None => final(self).db@ == old(self).db@,
            },
            distinct_ids(final(self).db@),
            distinct_ids(old(self).db@),
    {
        match self.db.get_clip_by_content_hash(id) {
            Some(existing) => {
                let ghost rows = self.db@;
                let ghost row = existing@;
                let mut updated = existing;
                updated.last_used_at = now;
                proof {
                    let at = choose|i: int| 0 <= i < rows.len() && rows[i] == row;
                    lemma_touch_is_upsert(rows, at, now);
                    assert(updated@ == touched_row(rows[at], now));
                }
                self.db.insert_clip(&updated);
                Some(updated)
            },
            None => None,
        }
    }

    /// Stores a record for new content and hands it back.
    fn store(&mut self, item: ClipItem) -> (stored: ClipItem)
        requires
            !holds(old(self).db@, item@.id),
        ensures
            stored@ == item@,
            final(self).db@ == old(self).db@.push(item@),
            distinct_ids(final(self).db@),
    {
        self.db.insert_clip(&item);
        item
    }

    /// Captures a plain text at the present reading of the clock.
    pub fn save_text_clip(&mut self, text: String, source_app: String) -> (item: ClipItem)
        ensures
            final(self).db@ == captured(
                old(self).db@,
                text_record(text@, source_app@, item@.last_used_at),
            ),
            item@ == capture_result(
                old(self).db@,
                text_record(text@, source_app@, item@.last_used_at),
            ),
    {
        let now = clock_now();
        self.save_text_clip_at(text, source_app, now)
    }

    /// Captures a plain text at `now`: a text that is already stored has its
    /// time of last use refreshed, a new one is stored with a preview of its
    /// first characters.
    pub fn save_text_clip_at(&mut self, text: String, source_app: String, now: Timestamp) -> (item:
        ClipItem)
        ensures
            final(self).db@ == captured(old(self).db@, text_record(text@, source_app@, now)),
            item@ == capture_result(old(self).db@, text_record(text@, source_app@, now)),
            item@.last_used_at == now,
            distinct_ids(final(self).db@),
    {
        let id = generate_content_hash(text.as_str());
        match self.touch(id.as_str(), now) {
            Some(known) => known,
            None => self.store(text_item(id, text, source_app, now)),
        }
    }

    /// Captures a rich text at the present reading of the clock.
    pub fn save_rich_text_clip(
        &mut self,
        html_content: Option<String>,
        rtf_content: Option<String>,
        plain_text: String,
        source_app: String,
    ) -> (item: ClipItem)
        ensures
            final(self).db@ == captured(
                old(self).db@,
                rich_record(
                    opt_text(html_content),
                    opt_text(rtf_content),
                    plain_text@,
                    source_app@,
                    item@.last_used_at,
                ),
            ),
            item@ == capture_result(
                old(self).db@,
                rich_record(
                    opt_text(html_content),
                    opt_text(rtf_content),
                    plain_text@,
                    source_app@,
                    item@.last_used_at,
                ),
            ),
    {
        let now = clock_now();
        self.save_rich_text_clip_at(html_content, rtf_content, plain_text, source_app, now)
    }

    /// Captures a rich text, given in up to three forms, at `now`. Two rich
    /// texts are the same content when all three forms agree.
    pub fn save_rich_text_clip_at(
        &mut self,
        html_content: Option<String>,
        rtf_content: Option<String>,
        plain_text: String,
        source_app: String,
        now: Timestamp,
    ) -> (item: ClipItem)
        ensures
            final(self).db@ == captured(
                old(self).db@,
                rich_record(
                    opt_text(html_content),
                    opt_text(rtf_content),
                    plain_text@,
                    source_app@,
                    now,
                ),
            ),
            item@ == capture_result(
                old(self).db@,
                rich_record(
                    opt_text(html_content),
                    opt_text(rtf_content),
                    plain_text@,
                    source_app@,
                    now,
                ),
            ),
            item@.last_used_at == now,
            distinct_ids(final(self).db@),
    {
        let all = rich_forms(&html_content, &rtf_content, plain_text.as_str());
        let id = generate_content_hash(all.as_str());
        match self.touch(id.as_str(), now) {
            Some(known) => known,
            None => self.store(
                rich_item(id, html_content, rtf_content, plain_text, source_app, now),
            ),
        }
    }

    /// Captures an image at the present reading of the clock.
    pub fn save_image_clip(
        &mut self,
        image_data: Vec<u8>,
        width: u32,
        height: u32,
        format: &str,
        source_app: String,
    ) -> (capture: ImageCapture)
        ensures
            match capture {
                ImageCapture::Known(item) => {
                    &&& row_with(old(self).db@, image_fingerprint(image_data@)) matches Some(row)
                    &&& item@ == touched_row(row, item@.last_used_at)
                    &&& final(self).db@ == touched(
                        old(self).db@,
                        image_fingerprint(image_data@),
                        item@.last_used_at,
                    )
                },
                ImageCapture::Fresh(draft) => {
                    &&& !holds(old(self).db@, image_fingerprint(image_data@))
                    &&& final(self).db@ == old(self).db@
                    &&& draft.drafted_from(image_data@, width, height, source_app@)
                },
            },
    {
        let now = clock_now();
        self.save_image_clip_at(image_data, width, height, format, source_app, now)
    }

    /// Captures an image at `now`. An image that is already stored has its
    /// time of last use refreshed. For a new image nothing is stored yet:
    /// the draft says which files to write, and `finish_image_clip` stores
    /// the record once they are written.
    pub fn save_image_clip_at(
        &mut self,
        image_data: Vec<u8>,
        width: u32,
        height: u32,
        format: &str,
        source_app: String,
        now: Timestamp,
    ) -> (capture: ImageCapture)
        ensures
            match capture {
                ImageCapture::Known(item) => {
                    &&& row_with(old(self).db@, image_fingerprint(image_data@)) matches Some(row)
                    &&& item@ == touched_row(row, now)
                    &&& final(self).db@ == touched(
                        old(self).db@,
                        image_fingerprint(image_data@),
                        now,
                    )
                },
                ImageCapture::Fresh(draft) => {
                    &&& !holds(old(self).db@, image_fingerprint(image_data@))
                    &&& final(self).db@ == old(self).db@
                    &&& draft.drafted_from(image_data@, width, height, source_app@)
                },
            },
            distinct_ids(final(self).db@),
    {
        let id = generate_image_hash(image_data.as_slice());
        match self.touch(id.as_str(), now) {
            Some(known) => ImageCapture::Known(known),
            None => ImageCapture::Fresh(
                image_draft(id, image_data, width, height, format, source_app),
            ),
        }
    }

    /// Stores the record of a drafted image at the present reading of the
    /// clock.
    pub fn finish_image_clip(
        &mut self,
        draft: ImageDraft,
        image_path: String,
        thumbnail_path: Option<String>,
    ) -> (item: ClipItem)
        ensures
            item@ == draft.record(image_path@, opt_text(thumbnail_path), item@.last_used_at),
            final(self).db@ == upserted(old(self).db@, item@),
    {
        let now = clock_now();
        self.finish_image_clip_at(draft, image_path, thumbnail_path, now)
    }

    /// Stores the record of a drafted image whose files have been written:
    /// the image at `image_path`, the thumbnail, where one was written, at
    /// `thumbnail_path`. Should the image have been stored in the meantime,
    /// the stored record is refreshed as by any insert-or-touch.
    pub fn finish_image_clip_at(
        &mut self,
        draft: ImageDraft,
        image_path: String,
        thumbnail_path: Option<String>,
        now: Timestamp,
    ) -> (item: ClipItem)
        ensures
            item@ == draft.record(image_path@, opt_text(thumbnail_path), now),
            final(self).db@ == upserted(old(self).db@, item@),
            distinct_ids(final(self).db@),
    {
        let item = draft.into_item(image_path, thumbnail_path, now);
        self.db.insert_clip(&item);
        item
    }

    /// Captures a list of copied files at the present reading of the clock.
    pub fn save_file_clip(&mut self, files: Vec<CopiedFile>, source_app: String) -> (item: ClipItem)
        ensures
            final(self).db@ == captured(
                old(self).db@,
                files_record(file_views(files@), source_app@, item@.last_used_at),
            ),
            item@ == capture_result(
                old(self).db@,
                files_record(file_views(files@), source_app@, item@.last_used_at),
            ),
    {
        let now = clock_now();
        self.save_file_clip_at(files, source_app, now)
    }

    /// Captures a list of copied files at `now`. Two lists are the same
    /// content when they name the same paths in the same order.
    pub fn save_file_clip_at(
        &mut self,
        files: Vec<CopiedFile>,
        source_app: String,
        now: Timestamp,
    ) -> (item: ClipItem)
        ensures
            final(self).db@ == captured(
                old(self).db@,
                files_record(file_views(files@), source_app@, now),
            ),
            item@ == capture_result(
                old(self).db@,
                files_record(file_views(files@), source_app@, now),
            ),
            item@.last_used_at == now,
            distinct_ids(final(self).db@),
    {
        let id = generate_content_hash(listed_files(&files).as_str());
        match self.touch(id.as_str(), now) {
            Some(known) => known,
            None => self.store(files_item(id, files, source_app, now)),
        }
    }

    /// The most recent records: up to `limit` rows in listing order.
    pub fn get_recent_clips(&self, limit: i64) -> (out: Vec<ClipItem>)
        ensures
            views(out@) == window(listing(self.db@), limit as int, 0),
    {
        self.db.get_clips(limit, 0)
    }

    /// Up to `limit` rows that answer the query text, in listing order.
    pub fn search_clips(&self, query: &str, limit: i64) -> (out: Vec<ClipItem>)
        ensures
            views(out@) == window(selected(self.db@, routed(query@)), limit as int, 0),
    {
        self.db.search_clips(query, limit)
    }

    /// Replaces the tags of the record `id`.
    pub fn update_tags(&mut self, id: &str, tags: Vec<String>)
        ensures
            final(self).db@ == retagged(old(self).db@, id@, texts(tags@)),
            distinct_ids(final(self).db@),
    {
        self.db.update_clip_tags(id, tags)
    }

    /// Sets the pin flag of the record `id`.
    pub fn toggle_pin(&mut self, id: &str, pinned: bool)
        ensures
            final(self).db@ == repinned(old(self).db@, id@, pinned),
            distinct_ids(final(self).db@),
    {
        self.db.toggle_pin(id, pinned)
    }

    /// Removes the record `id` and names the files that belonged to it, for
    /// the caller to remove: the image file first, then the thumbnail.
    pub fn delete_clip(&mut self, id: &str) -> (files: Vec<String>)
        ensures
            final(self).db@ == without(old(self).db@, id@),
            texts(files@) == files_of(row_with(old(self).db@, id@)),
            distinct_ids(final(self).db@),
    {
        let clip = self.db.get_clip_by_content_hash(id);
        let mut files: Vec<String> = Vec::new();
        match clip {
            Some(item) => {
                if item.content_type == ContentType::Image {
                    let thumbnail = thumbnail_of(&item);
                    files.push(item.content);
                    match thumbnail {
                        Some(t) => files.push(t),
                        None => {},
                    }
                }
            },
            None => {},
        }
        assert(texts(files@) =~= files_of(row_with(self.db@, id@)));
        self.db.delete_clip(id);
        files
    }

    /// Where the bytes of the image `clip_id` are read from: the path of its
    /// image file.
    pub fn get_image_data(&self, clip_id: &str) -> (source: Result<String, ClipError>)
        ensures
            match source {
                Ok(path) => image_source(row_with(self.db@, clip_id@)) == Ok::<
                    Seq<char>,
                    ClipError,
                >(path@),
                Err(e) => image_source(row_with(self.db@, clip_id@)) == Err::<
                    Seq<char>,
                    ClipError,
                >(e),
            },
    {
        match self.db.get_clip_by_content_hash(clip_id) {
            Some(item) => {
                if item.content_type == ContentType::Image {
                    Ok(item.content)
                } else {
                    Err(ClipError::NotAnImage)
                }
            },
            None => Err(ClipError::NotFound),
        }
    }

    /// Where the bytes of the thumbnail of the image `clip_id` are read
    /// from: the recorded thumbnail file, with the image file to fall back
    /// on where no thumbnail is recorded or the thumbnail cannot be read.
    pub fn get_thumbnail_data(&self, clip_id: &str) -> (source: Result<ThumbnailSource, ClipError>)
        ensures
            match source {
                Ok(from) => thumbnail_source(row_with(self.db@, clip_id@)) == Ok::<
                    (Option<Seq<char>>, Seq<char>),
                    ClipError,
                >((opt_text(from.thumbnail), from.image@)),
                Err(e) => thumbnail_source(row_with(self.db@, clip_id@)) == Err::<
                    (Option<Seq<char>>, Seq<char>),
                    ClipError,
                >(e),
            },
    {
        match self.db.get_clip_by_content_hash(clip_id) {
            Some(item) => {
                if item.content_type == ContentType::Image {
                    let thumbnail = thumbnail_of(&item);
                    Ok(ThumbnailSource { thumbnail, image: item.content })
                } else {
                    Err(ClipError::NotAnImage)
                }
            },
            None => Err(ClipError::NotFound),
        }
    }
}

impl ClipError {
    /// The message that goes with the error.
    pub open spec fn text(self) -> Seq<char> {
        match self {
            ClipError::NotFound => "Clip not found"@,
            ClipError::NotAnImage => "Clip is not an image"@,
        }
    }

    pub fn message(&self) -> (out: String)
        ensures
            out@ == self.text(),
    {
        match self {
            ClipError::NotFound => String::from_str("Clip not found"),
            ClipError::NotAnImage => String::from_str("Clip is not an image"),
        }
    }
}

/// The thumbnail path that a record names, if it names one.
fn thumbnail_of(item: &ClipItem) -> (path: Option<String>)
    ensures
        opt_text(path) == recorded_thumbnail(item@),
{
    match &item.metadata {
        Some(Metadata::Image(m)) => clone_opt_string(&m.thumbnail_path),
        _ => None,
    }
}

} // verus!
