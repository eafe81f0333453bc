//! What is stored for each kind of content: the record that a capture
//! makes of a text, a rich text, an image or a list of files.

use crate::fingerprint::{image_fingerprint, text_fingerprint};
use crate::format::{
    decimal, join, joined, shorten, shortened, size_in_units, to_decimal, write_size, KILOBYTE,
    MEGABYTE,
};
use crate::precision::{share_in_single, single_share};
use crate::item::{
    opt_text, texts, ClipItem, ClipItemView, ContentType, FileMetadata, FileMetadataView,
    ImageMetadata, ImageMetadataView, Metadata, MetadataView, RichTextMetadata,
    RichTextMetadataView,
};
use crate::json::{entry_views, json_object, json_strings, write_object, write_strings};
use crate::time::Timestamp;
use vstd::prelude::*;
use vstd::string::*;

verus! {

/// How many characters of a text go into its preview.
pub const PREVIEW_CHARS: usize = 200;

/// How many characters of the HTML form are kept as its preview.
pub const HTML_PREVIEW_CHARS: usize = 100;

/// A record as it is first stored: no tags, not pinned, created and last
/// used at the time of capture.
pub open spec fn new_record(
    id: Seq<char>,
    content_type: ContentType,
    content: Seq<char>,
    preview_text: Seq<char>,
    source_app: Seq<char>,
    now: Timestamp,
    metadata: Option<MetadataView>,
) -> ClipItemView {
    ClipItemView {
        id,
        content_type,
        content,
        preview_text,
        tags: Seq::<Seq<char>>::empty(),
        source_app,
        created_at: now,
        last_used_at: now,
        pinned: false,
        metadata,
    }
}

/// The record for a plain text captured at `now`.
pub open spec fn text_record(
    text: Seq<char>,
    source_app: Seq<char>,
    now: Timestamp,
) -> ClipItemView {
    new_record(
        text_fingerprint(text),
        ContentType::Plain,
        text,
        shortened(text, PREVIEW_CHARS as nat),
        source_app,
        now,
        None,
    )
}

/// An optional text, with nothing standing for the empty text.
pub open spec fn or_empty(text: Option<Seq<char>>) -> Seq<char> {
    match text {
        Some(t) => t,
        None => Seq::<char>::empty(),
    }
}

/// The JSON envelope that holds the three forms of a rich text: an object
/// with the HTML form under `html`, the RTF form under `rtf`, either of
/// them `null` where the form is missing, and the plain text under `plain`.
pub open spec fn rich_envelope(
    html: Option<Seq<char>>,
    rtf: Option<Seq<char>>,
    plain: Seq<char>,
) -> Seq<char> {
    json_object(seq![("html"@, html), ("rtf"@, rtf), ("plain"@, Some(plain))])
}

/// The shortened HTML form kept with a rich text.
pub open spec fn html_preview(html: Option<Seq<char>>) -> Option<Seq<char>> {
    match html {
        Some(h) => Some(shortened(h, HTML_PREVIEW_CHARS as nat)),
        None => None,
    }
}

/// The record for a rich text captured at `now`. Its fingerprint covers the
/// HTML, RTF and plain forms together.
pub open spec fn rich_record(
    html: Option<Seq<char>>,
    rtf: Option<Seq<char>>,
    plain: Seq<char>,
    source_app: Seq<char>,
    now: Timestamp,
) -> ClipItemView {
    new_record(
        text_fingerprint(or_empty(html) + or_empty(rtf) + plain),
        ContentType::Rich,
        rich_envelope(html, rtf, plain),
        "[Rich Text] "@ + shortened(plain, PREVIEW_CHARS as nat),
        source_app,
        now,
        Some(
            MetadataView::RichText(
                RichTextMetadataView {
                    has_html: html is Some,
                    has_rtf: rtf is Some,
                    html_preview: html_preview(html),
                },
            ),
        ),
    )
}

/// The longer edge of a thumbnail, in pixels.
pub const THUMBNAIL_EDGE: u32 = 200;

/// The format in which images are stored.
pub open spec fn stored_format() -> Seq<char> {
    "png"@
}

/// The shorter edge of a thumbnail: the thumbnail edge times the
/// proportion of the shorter to the longer edge of the image, computed in
/// single precision and cut to a whole number.
pub open spec fn scaled_edge(shorter: u32, longer: u32) -> u32 {
    let share = single_share(THUMBNAIL_EDGE as nat, shorter as nat, longer as nat);
    if share > u32::MAX {
        u32::MAX
    } else {
        share as u32
    }
}

/// The size of the thumbnail of an image: the longer edge is scaled to the
/// thumbnail edge and the shorter one in proportion.
pub open spec fn thumbnail_dimensions(width: u32, height: u32) -> (u32, u32) {
    if width > height {
        (THUMBNAIL_EDGE, scaled_edge(height, width))
    } else {
        (scaled_edge(width, height), THUMBNAIL_EDGE)
    }
}

/// The name of the file that holds the image `id`.
pub open spec fn image_file_name(id: Seq<char>) -> Seq<char> {
    id + ".png"@
}

/// The name of the file that holds the thumbnail of the image `id`.
pub open spec fn thumbnail_file_name(id: Seq<char>) -> Seq<char> {
    id + "_thumb.png"@
}

/// The preview of an image: its dimensions and its size in kilobytes.
pub open spec fn image_preview(width: u32, height: u32, size_bytes: u64) -> Seq<char> {
    "[Image] "@ + decimal(width as nat) + "x"@ + decimal(height as nat) + "px ("@ + size_in_units(
        size_bytes as nat,
        KILOBYTE as nat,
    ) + " KB)"@
}

/// The record for an image captured at `now` and saved at `image_path`.
pub open spec fn image_record(
    id: Seq<char>,
    width: u32,
    height: u32,
    size_bytes: u64,
    image_path: Seq<char>,
    thumbnail_path: Option<Seq<char>>,
    source_app: Seq<char>,
    now: Timestamp,
) -> ClipItemView {
    new_record(
        id,
        ContentType::Image,
        image_path,
        image_preview(width, height, size_bytes),
        source_app,
        now,
        Some(
            MetadataView::Image(
                ImageMetadataView {
                    width,
                    height,
                    format: stored_format(),
                    size_bytes,
                    thumbnail_path,
                },
            ),
        ),
    )
}

/// An image that is new to the store: what has to be written to disk
/// before its record can be stored.
#[derive(Debug)]
pub struct ImageDraft {
    /// Fingerprint of the image bytes as they were captured.
    pub id: String,
    /// Name of the image file, within the directory of images.
    pub image_file: String,
    /// Name of the thumbnail file, within the directory of thumbnails.
    pub thumbnail_file: String,
    /// The bytes to write to the image file.
    pub png_data: Vec<u8>,
    pub width: u32,
    pub height: u32,
    pub thumbnail_width: u32,
    pub thumbnail_height: u32,
    pub source_app: String,
}

impl ImageDraft {
    /// The draft is the one made for this capture.
    pub open spec fn drafted_from(
        self,
        image_data: Seq<u8>,
        width: u32,
        height: u32,
        source_app: Seq<char>,
    ) -> bool {
        &&& self.id@ == image_fingerprint(image_data)
        &&& self.image_file@ == image_file_name(self.id@)
        &&& self.thumbnail_file@ == thumbnail_file_name(self.id@)
        &&& self.png_data@ == image_data
        &&& self.width == width
        &&& self.height == height
        &&& (self.thumbnail_width, self.thumbnail_height) == thumbnail_dimensions(width, height)
        &&& self.source_app@ == source_app
    }

    /// The record that the draft becomes once its files are written.
    pub open spec fn record(
        self,
        image_path: Seq<char>,
        thumbnail_path: Option<Seq<char>>,
        now: Timestamp,
    ) -> ClipItemView {
        image_record(
            self.id@,
            self.width,
            self.height,
            self.png_data@.len() as u64,
            image_path,
            thumbnail_path,
            self.source_app@,
            now,
        )
    }
}

/// How the capture of an image went.
#[derive(Debug)]
pub enum ImageCapture {
    /// The image was stored already; this is its refreshed record.
    Known(ClipItem),
    /// The image is new; its files are to be written, then its record stored.
    Fresh(ImageDraft),
}

/// A file named on the clipboard, with what the file system says of it.
#[derive(Debug)]
pub struct CopiedFile {
    pub path: String,
    /// Size in bytes; none where the file system has no such file.
    pub size: Option<u64>,
    /// The last component of the path, where it has one.
    pub name: Option<String>,
}

pub struct CopiedFileView {
    pub path: Seq<char>,
    pub size: Option<u64>,
    pub name: Option<Seq<char>>,
}

impl View for CopiedFile {
    type V = CopiedFileView;

    open spec fn view(&self) -> CopiedFileView {
        CopiedFileView { path: self.path@, size: self.size, name: opt_text(self.name) }
    }
}

/// The views of a list of copied files.
pub open spec fn file_views(files: Seq<CopiedFile>) -> Seq<CopiedFileView> {
    Seq::new(files.len(), |i: int| files[i]@)
}

/// The test that the files found on disk pass.
pub open spec fn on_disk() -> spec_fn(CopiedFileView) -> bool {
    |file: CopiedFileView| file.size is Some
}

/// The paths of a list of files.
pub open spec fn paths_of(files: Seq<CopiedFileView>) -> Seq<Seq<char>> {
    Seq::new(files.len(), |i: int| files[i].path)
}

/// The sizes of the files added up, in 64-bit arithmetic that wraps
/// around.
pub open spec fn total_size(files: Seq<CopiedFileView>) -> u64
    decreases files.len(),
{
    if files.len() == 0 {
        0
    } else {
        wrapping_sum(total_size(files.drop_last()), or_zero(files.last().size))
    }
}

/// A size, with none counting as zero.
pub open spec fn or_zero(size: Option<u64>) -> u64 {
    match size {
        Some(n) => n,
        None => 0,
    }
}

/// The sum of two sizes in 64-bit arithmetic that wraps around.
pub open spec fn wrapping_sum(a: u64, b: u64) -> u64 {
    ((a + b) % 0x1_0000_0000_0000_0000) as u64
}

/// The name shown for a file: the last component of its path, or the whole
/// path where it has none.
pub open spec fn shown_name(file: CopiedFileView) -> Seq<char> {
    match file.name {
        Some(n) => n,
        None => file.path,
    }
}

/// The preview of a list of files found on disk: the name of a single file,
/// or the number of files and their size in megabytes.
pub open spec fn files_preview(found: Seq<CopiedFileView>) -> Seq<char> {
    if found.len() == 1 {
        "[File] "@ + shown_name(found[0])
    } else {
        "[Files] "@ + decimal(found.len()) + " items ("@ + size_in_units(
            total_size(found) as nat,
            MEGABYTE as nat,
        ) + " MB)"@
    }
}

/// The record for a list of files captured at `now`. The fingerprint covers
/// all the paths that were copied, one to a line; content, preview and extra
/// speak of the files found on disk.
pub open spec fn files_record(
    files: Seq<CopiedFileView>,
    source_app: Seq<char>,
    now: Timestamp,
) -> ClipItemView {
    let found = files.filter(on_disk());
    new_record(
        text_fingerprint(joined(paths_of(files), "\n"@)),
        ContentType::File,
        json_strings(paths_of(found)),
        files_preview(found),
        source_app,
        now,
        Some(
            MetadataView::File(
                FileMetadataView {
                    file_paths: paths_of(found),
                    total_size_bytes: total_size(found),
                },
            ),
        ),
    )
}

/// A record as it is first stored.
fn new_item(
    id: String,
    content_type: ContentType,
    content: String,
    preview_text: String,
    source_app: String,
    now: Timestamp,
    metadata: Option<Metadata>,
) -> (item: ClipItem)
    ensures
        item@ == new_record(
            id@,
            content_type,
            content@,
            preview_text@,
            source_app@,
            now,
            crate::item::opt_metadata(metadata),
        ),
{
    let item = ClipItem {
        id,
        content_type,
        content,
        preview_text,
        tags: Vec::new(),
        source_app,
        created_at: now,
        last_used_at: now,
        pinned: false,
        metadata,
    };
    assert(item@.tags =~= Seq::<Seq<char>>::empty());
    item
}

/// Makes the record for a plain text with the fingerprint `id`.
pub(crate) fn text_item(id: String, text: String, source_app: String, now: Timestamp) -> (item:
    ClipItem)
    requires
        id@ == text_fingerprint(text@),
    ensures
        item@ == text_record(text@, source_app@, now),
{
    let preview_text = shorten(text.as_str(), PREVIEW_CHARS);
    new_item(id, ContentType::Plain, text, preview_text, source_app, now, None)
}

/// The three forms of a rich text in one text, as its fingerprint covers
/// them.
pub(crate) fn rich_forms(html: &Option<String>, rtf: &Option<String>, plain: &str) -> (all: String)
    ensures
        all@ == or_empty(opt_text(*html)) + or_empty(opt_text(*rtf)) + plain@,
{
    let mut all = String::new();
    match html {
        Some(h) => all.append(h.as_str()),
        None => {},
    }
    match rtf {
        Some(r) => all.append(r.as_str()),
        None => {},
    }
    all.append(plain);
    assert(all@ =~= or_empty(opt_text(*html)) + or_empty(opt_text(*rtf)) + plain@);
    all
}

/// Makes the record for a rich text with the fingerprint `id`.
pub(crate) fn rich_item(
    id: String,
    html: Option<String>,
    rtf: Option<String>,
    plain: String,
    source_app: String,
    now: Timestamp,
) -> (item: ClipItem)
    requires
        id@ == text_fingerprint(or_empty(opt_text(html)) + or_empty(opt_text(rtf)) + plain@),
    ensures
        item@ == rich_record(opt_text(html), opt_text(rtf), plain@, source_app@, now),
{
    let content = envelope(&html, &rtf, plain.as_str());
    let preview_text = join("[Rich Text] ", shorten(plain.as_str(), PREVIEW_CHARS).as_str());
    let has_html = html.is_some();
    let has_rtf = rtf.is_some();
    let html_preview = match html {
        Some(h) => Some(shorten(h.as_str(), HTML_PREVIEW_CHARS)),
        None => None,
    };
    let metadata = RichTextMetadata { has_html, has_rtf, html_preview };
    new_item(
        id,
        ContentType::Rich,
        content,
        preview_text,
        source_app,
        now,
        Some(Metadata::RichText(metadata)),
    )
}

/// Drafts an image with the fingerprint `id`.
pub(crate) fn image_draft(
    id: String,
    image_data: Vec<u8>,
    width: u32,
    height: u32,
    format: &str,
    source_app: String,
) -> (draft: ImageDraft)
    requires
        id@ == image_fingerprint(image_data@),
    ensures
        draft.drafted_from(image_data@, width, height, source_app@),
{
    let image_file = join(id.as_str(), ".png");
    let thumbnail_file = join(id.as_str(), "_thumb.png");
    let png_data = convert_to_png(image_data, format);
    let (thumbnail_width, thumbnail_height) = thumbnail_size(width, height);
    ImageDraft {
        id,
        image_file,
        thumbnail_file,
        png_data,
        width,
        height,
        thumbnail_width,
        thumbnail_height,
        source_app,
    }
}

impl ImageDraft {
    /// Makes the record of the image, once its files are written: the image
    /// at `image_path`, the thumbnail, where one was written, at
    /// `thumbnail_path`.
    pub fn into_item(
        self,
        image_path: String,
        thumbnail_path: Option<String>,
        now: Timestamp,
    ) -> (item: ClipItem)
        ensures
            item@ == self.record(image_path@, opt_text(thumbnail_path), now),
    {
        let size_bytes = self.png_data.len() as u64;
        let mut preview_text = String::from_str("[Image] ");
        preview_text.append(to_decimal(self.width as u64).as_str());
        preview_text.append("x");
        preview_text.append(to_decimal(self.height as u64).as_str());
        preview_text.append("px (");
        preview_text.append(write_size(size_bytes, KILOBYTE).as_str());
        preview_text.append(" KB)");
        let metadata = ImageMetadata {
            width: self.width,
            height: self.height,
            format: String::from_str("png"),
            size_bytes,
            thumbnail_path,
        };
        new_item(
            self.id,
            ContentType::Image,
            image_path,
            preview_text,
            self.source_app,
            now,
            Some(Metadata::Image(metadata)),
        )
    }
}

/// The paths of the copied files, one to a line, as their fingerprint
/// covers them.
pub(crate) fn listed_files(files: &Vec<CopiedFile>) -> (listed: String)
    ensures
        listed@ == joined(paths_of(file_views(files@)), "\n"@),
{
    let all_paths = copied_paths(files);
    crate::format::join_all(&all_paths, "\n")
}

/// Makes the record for a list of copied files with the fingerprint `id`.
pub(crate) fn files_item(
    id: String,
    files: Vec<CopiedFile>,
    source_app: String,
    now: Timestamp,
) -> (item: ClipItem)
    requires
        id@ == text_fingerprint(joined(paths_of(file_views(files@)), "\n"@)),
    ensures
        item@ == files_record(file_views(files@), source_app@, now),
{
    let found = found_on_disk(&files);
    let ghost on_disk_files = file_views(files@).filter(on_disk());
    assert(found.paths@.len() == on_disk_files.len()) by {
        assert(texts(found.paths@).len() == paths_of(on_disk_files).len());
    }
    let content = write_strings(&found.paths);
    let preview_text = found_preview(&found);
    assert(preview_text@ == files_preview(on_disk_files));
    let metadata = FileMetadata { file_paths: found.paths, total_size_bytes: found.total };
    new_item(
        id,
        ContentType::File,
        content,
        preview_text,
        source_app,
        now,
        Some(Metadata::File(metadata)),
    )
}

/// Images are stored in the form in which they are handed in.
fn convert_to_png(image_data: Vec<u8>, format: &str) -> (png_data: Vec<u8>)
    ensures
        png_data@ == image_data@,
{
    image_data
}

/// The shorter edge of a thumbnail.
fn scale_edge(shorter: u32, longer: u32) -> (edge: u32)
    ensures
        edge == scaled_edge(shorter, longer),
{
    let share = share_in_single(THUMBNAIL_EDGE, shorter, longer);
    if share > u32::MAX as u128 {
        u32::MAX
    } else {
        share as u32
    }
}

/// The size of the thumbnail of an image.
pub fn thumbnail_size(width: u32, height: u32) -> (size: (u32, u32))
    ensures
        size == thumbnail_dimensions(width, height),
{
    if width > height {
        (THUMBNAIL_EDGE, scale_edge(height, width))
    } else {
        (scale_edge(width, height), THUMBNAIL_EDGE)
    }
}

/// The paths of the copied files.
fn copied_paths(files: &Vec<CopiedFile>) -> (paths: Vec<String>)
    ensures
        texts(paths@) == paths_of(file_views(files@)),
{
    let mut paths: Vec<String> = Vec::new();
    let mut i: usize = 0;
    while i < files.len()
        invariant
            i <= files.len(),
            paths@.len() == i,
            forall|k: int| 0 <= k < i ==> #[trigger] paths@[k]@ == files@[k].path@,
        decreases files.len() - i,
    {
        paths.push(files[i].path.clone());
        i += 1;
    }
    assert(texts(paths@) =~= paths_of(file_views(files@)));
    paths
}

/// What is known of the copied files that exist on disk.
struct FoundFiles {
    paths: Vec<String>,
    total: u64,
    /// The name shown for the first of them.
    first_name: Option<String>,
}

/// Appending a file appends its path.
proof fn lemma_paths_push(files: Seq<CopiedFileView>, file: CopiedFileView)
    ensures
        paths_of(files.push(file)) == paths_of(files).push(file.path),
        total_size(files.push(file)) == wrapping_sum(total_size(files), or_zero(file.size)),
{
    assert(paths_of(files.push(file)) =~= paths_of(files).push(file.path));
    assert(files.push(file).drop_last() =~= files);
}

/// Picks the copied files that exist on disk.
fn found_on_disk(files: &Vec<CopiedFile>) -> (found: FoundFiles)
    ensures
        texts(found.paths@) == paths_of(file_views(files@).filter(on_disk())),
        found.total == total_size(file_views(files@).filter(on_disk())),
        file_views(files@).filter(on_disk()).len() > 0 ==> found.first_name is Some
            && found.first_name->0@ == shown_name(file_views(files@).filter(on_disk())[0]),
{
    let ghost all = file_views(files@);
    let ghost pred = on_disk();
    let mut paths: Vec<String> = Vec::new();
    let mut total: u64 = 0;
    let mut first_name: Option<String> = None;
    proof {
        assert(all.take(0).filter(pred) =~= Seq::<CopiedFileView>::empty()) by {
            reveal(Seq::filter);
        }
        assert(texts(paths@) =~= paths_of(Seq::<CopiedFileView>::empty()));
    }
    let mut i: usize = 0;
    while i < files.len()
        invariant
            all == file_views(files@),
            pred == on_disk(),
            i <= files.len(),
            texts(paths@) == paths_of(all.take(i as int).filter(pred)),
            total == total_size(all.take(i as int).filter(pred)),
            all.take(i as int).filter(pred).len() > 0 ==> first_name is Some && first_name->0@
                == shown_name(all.take(i as int).filter(pred)[0]),
        decreases files.len() - i,
    {
        let file = &files[i];
        let ghost seen = all.take(i as int).filter(pred);
        proof {
            assert(all[i as int] == file@);
            all.lemma_take_succ_push(i as int);
            all.take(i as int).lemma_filter_push(file@, pred);
        }
        match file.size {
            Some(size) => {
                proof {
                    lemma_paths_push(seen, file@);
                }
                if paths.len() == 0 {
                    assert(seen.len() == 0) by {
                        assert(texts(paths@).len() == paths_of(seen).len());
                    }
                    first_name = Some(
                        match &file.name {
                            Some(n) => n.clone(),
                            None => file.path.clone(),
                        },
                    );
                } else {
                    assert(seen.len() > 0) by {
                        assert(texts(paths@).len() == paths_of(seen).len());
                    }
                }
                let ghost before = paths@;
                paths.push(file.path.clone());
                assert(texts(paths@) =~= texts(before).push(file@.path));
                total = total.wrapping_add(size);
            },
            None => {},
        }
        i += 1;
    }
    proof {
        all.lemma_take_len();
    }
    FoundFiles { paths, total, first_name }
}

/// Writes the preview of the files found on disk.
fn found_preview(found: &FoundFiles) -> (out: String)
    ensures
        found.paths@.len() == 1 && found.first_name is Some ==> out@ == "[File] "@
            + found.first_name->0@,
        found.paths@.len() != 1 ==> out@ == "[Files] "@ + decimal(found.paths@.len()) + " items ("@
            + size_in_units(found.total as nat, MEGABYTE as nat) + " MB)"@,
{
    if found.paths.len() == 1 {
        match &found.first_name {
            Some(name) => join("[File] ", name.as_str()),
            None => String::from_str("[File] "),
        }
    } else {
        let mut out = String::from_str("[Files] ");
        out.append(to_decimal(found.paths.len() as u64).as_str());
        out.append(" items (");
        out.append(write_size(found.total, MEGABYTE).as_str());
        out.append(" MB)");
        out
    }
}

/// Writes the JSON envelope of a rich text.
pub fn envelope(html: &Option<String>, rtf: &Option<String>, plain: &str) -> (out: String)
    ensures
        out@ == rich_envelope(opt_text(*html), opt_text(*rtf), plain@),
{
    let mut entries: Vec<(String, Option<String>)> = Vec::new();
    entries.push((String::from_str("html"), crate::item::clone_opt_string(html)));
    entries.push((String::from_str("rtf"), crate::item::clone_opt_string(rtf)));
    entries.push((String::from_str("plain"), Some(String::from_str(plain))));
    assert(entry_views(entries@) =~= seq![
        ("html"@, opt_text(*html)),
        ("rtf"@, opt_text(*rtf)),
        ("plain"@, Some(plain@)),
    ]);
    write_object(&entries)
}

} // verus!
