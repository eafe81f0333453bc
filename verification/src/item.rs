//! The content model: one record per captured clipboard snapshot.

use crate::time::Timestamp;
use vstd::prelude::*;

verus! {

/// The kind of content a record holds.
#[derive(Clone, Copy, Debug, PartialEq, Eq, Structural)]
pub enum ContentType {
    Plain,
    Rich,
    Image,
    File,
}

impl ContentType {
    /// The name under which a kind is stored and searched.
    pub open spec fn name(self) -> Seq<char> {
        match self {
            ContentType::Plain => "plain"@,
            ContentType::Rich => "rich"@,
            ContentType::Image => "image"@,
            ContentType::File => "file"@,
        }
    }

    /// The kind that a stored name denotes, if it denotes one.
    pub open spec fn named(s: Seq<char>) -> Option<ContentType> {
        if s == "plain"@ {
            Some(ContentType::Plain)
        } else if s == "rich"@ {
            Some(ContentType::Rich)
        } else if s == "image"@ {
            Some(ContentType::Image)
        } else if s == "file"@ {
            Some(ContentType::File)
        } else {
            None
        }
    }

    pub fn as_str(&self) -> (s: &'static str)
        ensures
            s@ == self.name(),
    {
        match self {
            ContentType::Plain => "plain",
            ContentType::Rich => "rich",
            ContentType::Image => "image",
            ContentType::File => "file",
        }
    }

    pub fn from_str(s: &str) -> (kind: Option<ContentType>)
        ensures
            kind == ContentType::named(s@),
    {
        if crate::text::same_text(s, "plain") {
            Some(ContentType::Plain)
        } else if crate::text::same_text(s, "rich") {
            Some(ContentType::Rich)
        } else if crate::text::same_text(s, "image") {
            Some(ContentType::Image)
        } else if crate::text::same_text(s, "file") {
            Some(ContentType::File)
        } else {
            None
        }
    }
}

/// Every kind is found again under its own name.
pub proof fn lemma_name_round_trip(kind: ContentType)
    ensures
        ContentType::named(kind.name()) == Some(kind),
{
    reveal_strlit("plain");
    reveal_strlit("rich");
    reveal_strlit("image");
    reveal_strlit("file");
    assert("plain"@.len() == 5 && "rich"@.len() == 4 && "image"@.len() == 5 && "file"@.len() == 4);
    assert("plain"@[0] == 'p' && "image"@[0] == 'i' && "rich"@[0] == 'r' && "file"@[0] == 'f');
}

/// The texts of a list of strings.
pub open spec fn texts(v: Seq<String>) -> Seq<Seq<char>> {
    Seq::new(v.len(), |i: int| v[i]@)
}

/// The text of an optional string.
pub open spec fn opt_text(o: Option<String>) -> Option<Seq<char>> {
    match o {
        Some(s) => Some(s@),
        None => None,
    }
}

/// The texts of an optional list of strings.
pub open spec fn opt_texts(o: Option<Vec<String>>) -> Option<Seq<Seq<char>>> {
    match o {
        Some(v) => Some(texts(v@)),
        None => None,
    }
}

/// A copy of a list of strings.
pub fn clone_strings(v: &Vec<String>) -> (out: Vec<String>)
    ensures
        texts(out@) == texts(v@),
        out@.len() == v@.len(),
{
    let mut out: Vec<String> = Vec::new();
    let mut i: usize = 0;
    while i < v.len()
        invariant
            i <= v.len(),
            out@.len() == i,
            forall|k: int| 0 <= k < i ==> out@[k]@ == v@[k]@,
        decreases v.len() - i,
    {
        out.push(v[i].clone());
        i += 1;
    }
    assert(texts(out@) =~= texts(v@));
    out
}

/// A copy of an optional string.
pub fn clone_opt_string(o: &Option<String>) -> (out: Option<String>)
    ensures
        opt_text(out) == opt_text(*o),
{
    match o {
        Some(s) => Some(s.clone()),
        None => None,
    }
}

/// What is recorded about a stored image.
#[derive(Debug)]
pub struct ImageMetadata {
    pub width: u32,
    pub height: u32,
    pub format: String,
    pub size_bytes: u64,
    pub thumbnail_path: Option<String>,
}

pub struct ImageMetadataView {
    pub width: u32,
    pub height: u32,
    pub format: Seq<char>,
    pub size_bytes: u64,
    pub thumbnail_path: Option<Seq<char>>,
}

impl View for ImageMetadata {
    type V = ImageMetadataView;

    open spec fn view(&self) -> ImageMetadataView {
        ImageMetadataView {
            width: self.width,
            height: self.height,
            format: self.format@,
            size_bytes: self.size_bytes,
            thumbnail_path: opt_text(self.thumbnail_path),
        }
    }
}

impl Clone for ImageMetadata {
    fn clone(&self) -> (out: Self)
        ensures
            out@ == self@,
    {
        ImageMetadata {
            width: self.width,
            height: self.height,
            format: self.format.clone(),
            size_bytes: self.size_bytes,
            thumbnail_path: clone_opt_string(&self.thumbnail_path),
        }
    }
}

/// What is recorded about a copied list of files.
#[derive(Debug)]
pub struct FileMetadata {
    pub file_paths: Vec<String>,
    pub total_size_bytes: u64,
}

pub struct FileMetadataView {
    pub file_paths: Seq<Seq<char>>,
    pub total_size_bytes: u64,
}

impl View for FileMetadata {
    type V = FileMetadataView;

    open spec fn view(&self) -> FileMetadataView {
        FileMetadataView {
            file_paths: texts(self.file_paths@),
            total_size_bytes: self.total_size_bytes,
        }
    }
}

impl Clone for FileMetadata {
    fn clone(&self) -> (out: Self)
        ensures
            out@ == self@,
    {
        FileMetadata {
            file_paths: clone_strings(&self.file_paths),
            total_size_bytes: self.total_size_bytes,
        }
    }
}

/// What is recorded about a rich-text snapshot.
#[derive(Debug)]
pub struct RichTextMetadata {
    pub has_html: bool,
    pub has_rtf: bool,
    pub html_preview: Option<String>,
}

pub struct RichTextMetadataView {
    pub has_html: bool,
    pub has_rtf: bool,
    pub html_preview: Option<Seq<char>>,
}

impl View for RichTextMetadata {
    type V = RichTextMetadataView;

    open spec fn view(&self) -> RichTextMetadataView {
        RichTextMetadataView {
            has_html: self.has_html,
            has_rtf: self.has_rtf,
            html_preview: opt_text(self.html_preview),
        }
    }
}

impl Clone for RichTextMetadata {
    fn clone(&self) -> (out: Self)
        ensures
            out@ == self@,
    {
        RichTextMetadata {
            has_html: self.has_html,
            has_rtf: self.has_rtf,
            html_preview: clone_opt_string(&self.html_preview),
        }
    }
}

/// The kind-specific extra of a record.
#[derive(Debug)]
pub enum Metadata {
    Image(ImageMetadata),
    File(FileMetadata),
    RichText(RichTextMetadata),
}

pub enum MetadataView {
    Image(ImageMetadataView),
    File(FileMetadataView),
    RichText(RichTextMetadataView),
}

impl View for Metadata {
    type V = MetadataView;

    open spec fn view(&self) -> MetadataView {
        match self {
            Metadata::Image(m) => MetadataView::Image(m@),
            Metadata::File(m) => MetadataView::File(m@),
            Metadata::RichText(m) => MetadataView::RichText(m@),
        }
    }
}

impl Clone for Metadata {
    fn clone(&self) -> (out: Self)
        ensures
            out@ == self@,
    {
        match self {
            Metadata::Image(m) => Metadata::Image(m.clone()),
            Metadata::File(m) => Metadata::File(m.clone()),
            Metadata::RichText(m) => Metadata::RichText(m.clone()),
        }
    }
}

/// The view of an optional extra.
pub open spec fn opt_metadata(o: Option<Metadata>) -> Option<MetadataView> {
    match o {
        Some(m) => Some(m@),
        None => None,
    }
}

/// One captured clipboard snapshot.
#[derive(Debug)]
pub struct ClipItem {
    /// Fingerprint of the content; the key of the record.
    pub id: String,
    pub content_type: ContentType,
    pub content: String,
    pub preview_text: String,
    pub tags: Vec<String>,
    pub source_app: String,
    pub created_at: Timestamp,
    pub last_used_at: Timestamp,
    pub pinned: bool,
    pub metadata: Option<Metadata>,
}

/// A record as a mathematical value.
pub struct ClipItemView {
    pub id: Seq<char>,
    pub content_type: ContentType,
    pub content: Seq<char>,
    pub preview_text: Seq<char>,
    pub tags: Seq<Seq<char>>,
    pub source_app: Seq<char>,
    pub created_at: Timestamp,
    pub last_used_at: Timestamp,
    pub pinned: bool,
    pub metadata: Option<MetadataView>,
}

impl View for ClipItem {
    type V = ClipItemView;

    open spec fn view(&self) -> ClipItemView {
        ClipItemView {
            id: self.id@,
            content_type: self.content_type,
            content: self.content@,
            preview_text: self.preview_text@,
            tags: texts(self.tags@),
            source_app: self.source_app@,
            created_at: self.created_at,
            last_used_at: self.last_used_at,
            pinned: self.pinned,
            metadata: opt_metadata(self.metadata),
        }
    }
}

impl Clone for ClipItem {
    fn clone(&self) -> (out: Self)
        ensures
            out@ == self@,
    {
        let metadata = match &self.metadata {
            Some(m) => Some(m.clone()),
            None => None,
        };
        ClipItem {
            id: self.id.clone(),
            content_type: self.content_type,
            content: self.content.clone(),
            preview_text: self.preview_text.clone(),
            tags: clone_strings(&self.tags),
            source_app: self.source_app.clone(),
            created_at: self.created_at,
            last_used_at: self.last_used_at,
            pinned: self.pinned,
            metadata,
        }
    }
}

/// The view of an optional record.
pub open spec fn opt_view(o: Option<ClipItem>) -> Option<ClipItemView> {
    match o {
        Some(item) => Some(item@),
        None => None,
    }
}

/// The views of a list of records.
pub open spec fn views(items: Seq<ClipItem>) -> Seq<ClipItemView> {
    Seq::new(items.len(), |i: int| items[i]@)
}

} // verus!
