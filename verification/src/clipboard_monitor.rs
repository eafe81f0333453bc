//! The clipboard monitor: one poller with a last-seen fingerprint per kind
//! of content, so that content is captured when it changes and not again
//! while it stays.

use crate::capture::{rich_record, text_record, ImageCapture, ImageDraft};
use crate::clipboard::{capture_result, captured, touched, touched_row, ClipboardManager};
use crate::db::{holds, row_with};
use crate::fingerprint::{generate_hash, generate_image_hash, image_fingerprint, text_fingerprint};
use crate::item::{ClipItem, ClipItemView};
use crate::pixels::{convert_to_png, png_of, ConvertError};
use crate::time::{clock_now, Timestamp};
use crate::format::{join, join_all, joined};
use crate::item::texts;
use crate::text::{chars_of, same_text, trim, trimmed};
use vstd::prelude::*;
use vstd::string::*;

verus! {

/// What a reading of the clipboard holds, by kind.
#[derive(Debug)]
pub enum ClipboardContent {
    Text(String),
    Image { data: Vec<u8>, width: u32, height: u32 },
    Files(Vec<String>),
    Html { html: String, text: String },
    Rtf { rtf: String, text: String },
    Empty,
}

pub enum ClipboardContentView {
    Text(Seq<char>),
    Image { data: Seq<u8>, width: u32, height: u32 },
    Files(Seq<Seq<char>>),
    Html { html: Seq<char>, text: Seq<char> },
    Rtf { rtf: Seq<char>, text: Seq<char> },
    Empty,
}

impl View for ClipboardContent {
    type V = ClipboardContentView;

    open spec fn view(&self) -> ClipboardContentView {
        match self {
            ClipboardContent::Text(t) => ClipboardContentView::Text(t@),
            ClipboardContent::Image { data, width, height } => ClipboardContentView::Image {
                data: data@,
                width: *width,
                height: *height,
            },
            ClipboardContent::Files(list) => ClipboardContentView::Files(texts(list@)),
            ClipboardContent::Html { html, text } => ClipboardContentView::Html {
                html: html@,
                text: text@,
            },
            ClipboardContent::Rtf { rtf, text } => ClipboardContentView::Rtf {
                rtf: rtf@,
                text: text@,
            },
            ClipboardContent::Empty => ClipboardContentView::Empty,
        }
    }
}

/// The channels that the monitor follows, each with a fingerprint slot of
/// its own.
#[derive(Clone, Copy, Debug, PartialEq, Eq, Structural)]
pub enum Channel {
    Text,
    Image,
    RichText,
    Files,
}

impl ClipboardContentView {
    /// The channel on which the content arrives; none for content that is
    /// empty or absent.
    pub open spec fn channel(self) -> Option<Channel> {
        match self {
            ClipboardContentView::Text(t) => if trimmed(t).len() > 0 {
                Some(Channel::Text)
            } else {
                None
            },
            ClipboardContentView::Image { .. } => Some(Channel::Image),
            ClipboardContentView::Files(list) => if list.len() > 0 {
                Some(Channel::Files)
            } else {
                None
            },
            ClipboardContentView::Html { html, .. } => if html.len() > 0 {
                Some(Channel::RichText)
            } else {
                None
            },
            ClipboardContentView::Rtf { rtf, .. } => if rtf.len() > 0 {
                Some(Channel::RichText)
            } else {
                None
            },
            ClipboardContentView::Empty => None,
        }
    }

    /// The fingerprint by which the monitor tells the content from what it
    /// saw last on the same channel.
    pub open spec fn fingerprint(self) -> Seq<char> {
        match self {
            ClipboardContentView::Text(t) => text_fingerprint(t),
            ClipboardContentView::Image { data, .. } => image_fingerprint(data),
            ClipboardContentView::Files(list) => text_fingerprint(joined(list, "\n"@)),
            ClipboardContentView::Html { html, text } => text_fingerprint(html + text),
            ClipboardContentView::Rtf { rtf, text } => text_fingerprint(rtf + text),
            ClipboardContentView::Empty => Seq::<char>::empty(),
        }
    }
}

/// The monitor: the fingerprint last seen on each channel. A fresh monitor
/// has seen nothing.
#[derive(Debug)]
pub struct ClipboardMonitor {
    last_text_hash: String,
    last_image_hash: String,
    last_files_hash: String,
    last_html_hash: String,
}

/// The state of the monitor.
pub struct MonitorView {
    pub last_text: Seq<char>,
    pub last_image: Seq<char>,
    pub last_files: Seq<char>,
    pub last_rich_text: Seq<char>,
}

impl MonitorView {
    /// The fingerprint last seen on a channel.
    pub open spec fn last(self, channel: Channel) -> Seq<char> {
        match channel {
            Channel::Text => self.last_text,
            Channel::Image => self.last_image,
            Channel::Files => self.last_files,
            Channel::RichText => self.last_rich_text,
        }
    }

    /// The state with the fingerprint of one channel replaced.
    pub open spec fn with(self, channel: Channel, fingerprint: Seq<char>) -> MonitorView {
        match channel {
            Channel::Text => MonitorView { last_text: fingerprint, ..self },
            Channel::Image => MonitorView { last_image: fingerprint, ..self },
            Channel::Files => MonitorView { last_files: fingerprint, ..self },
            Channel::RichText => MonitorView { last_rich_text: fingerprint, ..self },
        }
    }

    /// Whether a reading is news: it arrives on a channel and its
    /// fingerprint differs from the one last seen there.
    pub open spec fn is_news(self, content: ClipboardContentView) -> bool {
        match content.channel() {
            Some(channel) => content.fingerprint() != self.last(channel),
            None => false,
        }
    }

    /// The state after a reading: news is remembered on its channel, and
    /// nothing else changes.
    pub open spec fn after(self, content: ClipboardContentView) -> MonitorView {
        match content.channel() {
            Some(channel) => self.with(channel, content.fingerprint()),
            None => self,
        }
    }

    /// The state after a run of readings.
    pub open spec fn after_all(self, readings: Seq<ClipboardContentView>) -> MonitorView
        decreases readings.len(),
    {
        if readings.len() == 0 {
            self
        } else {
            self.after_all(readings.drop_last()).after(readings.last())
        }
    }
}

/// Which of a run of readings are news, each judged against the state that
/// the readings before it have left.
pub open spec fn news_flags(state: MonitorView, readings: Seq<ClipboardContentView>) -> Seq<bool> {
    Seq::new(
        readings.len(),
        |i: int| state.after_all(readings.take(i)).is_news(readings[i]),
    )
}

impl View for ClipboardMonitor {
    type V = MonitorView;

    closed spec fn view(&self) -> MonitorView {
        MonitorView {
            last_text: self.last_text_hash@,
            last_image: self.last_image_hash@,
            last_files: self.last_files_hash@,
            last_rich_text: self.last_html_hash@,
        }
    }
}

/// The views of a run of readings.
pub open spec fn content_views(readings: Seq<ClipboardContent>) -> Seq<ClipboardContentView> {
    Seq::new(readings.len(), |i: int| readings[i]@)
}

impl ClipboardMonitor {
    /// A monitor that has seen nothing yet.
    pub fn new() -> (monitor: ClipboardMonitor)
        ensures
            monitor@ == (MonitorView {
                last_text: Seq::<char>::empty(),
                last_image: Seq::<char>::empty(),
                last_files: Seq::<char>::empty(),
                last_rich_text: Seq::<char>::empty(),
            }),
    {
        ClipboardMonitor {
            last_text_hash: String::new(),
            last_image_hash: String::new(),
            last_files_hash: String::new(),
            last_html_hash: String::new(),
        }
    }

    /// Takes one reading in and says whether it is to be captured: it is
    /// when it arrives on a channel and differs from what that channel saw
    /// last. The monitor then remembers it, so that the same content is not
    /// captured again while it stays on the clipboard.
    pub fn observe(&mut self, content: &ClipboardContent) -> (news: bool)
        ensures
            news == old(self)@.is_news(content@),
            final(self)@ == old(self)@.after(content@),
    {
        match content {
            ClipboardContent::Text(text) => {
                let kept = trim(&chars_of(text.as_str()));
                if kept.len() == 0 {
                    return false;
                }
                let hash = generate_hash(text.as_str());
                let news = !same_text(hash.as_str(), self.last_text_hash.as_str());
                self.last_text_hash = hash;
                news
            },
            ClipboardContent::Image { data, width, height } => {
                let hash = generate_image_hash(data.as_slice());
                let news = !same_text(hash.as_str(), self.last_image_hash.as_str());
                self.last_image_hash = hash;
                news
            },
            ClipboardContent::Files(list) => {
                if list.len() == 0 {
                    assert(texts(list@).len() == 0);
                    return false;
                }
                assert(texts(list@).len() > 0);
                let hash = generate_hash(join_all(list, "\n").as_str());
                let news = !same_text(hash.as_str(), self.last_files_hash.as_str());
                self.last_files_hash = hash;
                news
            },
            ClipboardContent::Html { html, text } => {
                if html.as_str().unicode_len() == 0 {
                    return false;
                }
                let hash = generate_hash(join(html.as_str(), text.as_str()).as_str());
                let news = !same_text(hash.as_str(), self.last_html_hash.as_str());
                self.last_html_hash = hash;
                news
            },
            ClipboardContent::Rtf { rtf, text } => {
                if rtf.as_str().unicode_len() == 0 {
                    return false;
                }
                let hash = generate_hash(join(rtf.as_str(), text.as_str()).as_str());
                let news = !same_text(hash.as_str(), self.last_html_hash.as_str());
                self.last_html_hash = hash;
                news
            },
            ClipboardContent::Empty => false,
        }
    }

    /// One round of polling: takes the readings of all channels in, in the
    /// order in which they were made, and says for each whether it is to be
    /// captured. A reading is judged against what the readings before it
    /// have left, so that the channels do not suppress one another.
    pub fn tick(&mut self, readings: &Vec<ClipboardContent>) -> (flags: Vec<bool>)
        ensures
            flags@ == news_flags(old(self)@, content_views(readings@)),
            final(self)@ == old(self)@.after_all(content_views(readings@)),
    {
        let ghost all = content_views(readings@);
        let ghost start = self@;
        let mut flags: Vec<bool> = Vec::new();
        let mut i: usize = 0;
        assert(all.take(0) =~= Seq::<ClipboardContentView>::empty());
        while i < readings.len()
            invariant
                all == content_views(readings@),
                i <= readings.len(),
                flags@.len() == i,
                self@ == start.after_all(all.take(i as int)),
                forall|k: int|
                    0 <= k < i ==> #[trigger] flags@[k] == start.after_all(all.take(k)).is_news(
                        all[k],
                    ),
            decreases readings.len() - i,
        {
            let news = self.observe(&readings[i]);
            proof {
                assert(all.take(i + 1).drop_last() =~= all.take(i as int));
                assert(all.take(i + 1).last() == all[i as int]);
            }
            flags.push(news);
            i += 1;
        }
        assert(all.take(readings.len() as int) =~= all);
        assert(flags@ =~= news_flags(start, all));
        flags
    }
}

/// The source recorded for what the monitor captures.
pub open spec fn unknown_source() -> Seq<char> {
    "Unknown"@
}

/// What came of a reading.
#[derive(Debug)]
pub enum Observed {
    /// The reading was no news; nothing was done.
    Unchanged,
    /// The content was captured; this is its record.
    Stored(ClipItem),
    /// The content is a new image: its files are to be written, and its
    /// record stored thereafter.
    ImageDrafted(ImageDraft),
    /// The content is an image that could not be turned into a PNG file.
    ConversionFailed(ConvertError),
    /// The content is a list of files that is to be captured once the
    /// files have been looked up on disk.
    FilesSeen(Vec<String>),
}

/// The record that the monitor makes of a text or a rich text.
pub open spec fn monitored_record(content: ClipboardContentView, now: Timestamp) -> ClipItemView {
    match content {
        ClipboardContentView::Html { html, text } => rich_record(
            Some(html),
            None,
            text,
            unknown_source(),
            now,
        ),
        ClipboardContentView::Rtf { rtf, text } => rich_record(
            None,
            Some(rtf),
            text,
            unknown_source(),
            now,
        ),
        ClipboardContentView::Text(text) => text_record(text, unknown_source(), now),
        _ => text_record(Seq::<char>::empty(), unknown_source(), now),
    }
}

/// The outcome is the one that the reading calls for, given the table
/// before and after: a text or a rich text that is news is captured; an
/// image that is news is converted and then refreshed or drafted; for a
/// list of files that is news the paths are handed back; nothing else
/// touches the table.
pub open spec fn outcome_fits(
    outcome: Observed,
    news: bool,
    content: ClipboardContentView,
    bgra: bool,
    now: Timestamp,
    before: Seq<ClipItemView>,
    after: Seq<ClipItemView>,
) -> bool {
    if !news {
        outcome is Unchanged && after == before
    } else {
        match content {
            ClipboardContentView::Image { data, width, height } => match png_of(
                data,
                width,
                height,
                bgra,
            ) {
                Ok(png) => if holds(before, image_fingerprint(png)) {
                    &&& outcome matches Observed::Stored(item)
                    &&& row_with(before, image_fingerprint(png)) matches Some(row)
                    &&& item@ == touched_row(row, now)
                    &&& after == touched(before, image_fingerprint(png), now)
                } else {
                    &&& outcome matches Observed::ImageDrafted(draft)
                    &&& draft.drafted_from(png, width, height, unknown_source())
                    &&& after == before
                },
                Err(too_small) => {
                    &&& outcome matches Observed::ConversionFailed(reason)
                    &&& too_small <==> reason is BufferTooSmall
                    &&& after == before
                },
            },
            ClipboardContentView::Files(paths) => {
                &&& outcome matches Observed::FilesSeen(list)
                &&& texts(list@) == paths
                &&& after == before
            },
            _ => {
                &&& outcome matches Observed::Stored(item)
                &&& item@ == capture_result(before, monitored_record(content, now))
                &&& after == captured(before, monitored_record(content, now))
            },
        }
    }
}

impl ClipboardMonitor {
    /// Takes one reading in at `now` and, where it is news, captures it
    /// with the source recorded as unknown. `bgra` says that the platform
    /// delivers pixels in BGRA order.
    pub fn process_at(
        &mut self,
        manager: &mut ClipboardManager,
        content: ClipboardContent,
        bgra: bool,
        now: Timestamp,
    ) -> (outcome: Observed)
        ensures
            final(self)@ == old(self)@.after(content@),
            outcome_fits(
                outcome,
                old(self)@.is_news(content@),
                content@,
                bgra,
                now,
                old(manager).db@,
                final(manager).db@,
            ),
    {
        if !self.observe(&content) {
            return Observed::Unchanged;
        }
        let source = String::from_str("Unknown");
        match content {
            ClipboardContent::Text(text) => Observed::Stored(
                manager.save_text_clip_at(text, source, now),
            ),
            ClipboardContent::Html { html, text } => Observed::Stored(
                manager.save_rich_text_clip_at(Some(html), None, text, source, now),
            ),
            ClipboardContent::Rtf { rtf, text } => Observed::Stored(
                manager.save_rich_text_clip_at(None, Some(rtf), text, source, now),
            ),
            ClipboardContent::Image { data, width, height } => {
                match convert_to_png(&data, width, height, bgra) {
                    Ok(png) => match manager.save_image_clip_at(
                        png,
                        width,
                        height,
                        "png",
                        source,
                        now,
                    ) {
                        ImageCapture::Known(item) => Observed::Stored(item),
                        ImageCapture::Fresh(draft) => Observed::ImageDrafted(draft),
                    },
                    Err(reason) => Observed::ConversionFailed(reason),
                }
            },
            ClipboardContent::Files(paths) => Observed::FilesSeen(paths),
            ClipboardContent::Empty => Observed::Unchanged,
        }
    }

    /// Takes one reading in at the present reading of the clock and, where
    /// it is news, captures it.
    pub fn process(
        &mut self,
        manager: &mut ClipboardManager,
        content: ClipboardContent,
        bgra: bool,
    ) -> (outcome: Observed)
        ensures
            final(self)@ == old(self)@.after(content@),
            exists|now: Timestamp|
                outcome_fits(
                    outcome,
                    old(self)@.is_news(content@),
                    content@,
                    bgra,
                    now,
                    old(manager).db@,
                    final(manager).db@,
                ),
    {
        let now = clock_now();
        self.process_at(manager, content, bgra, now)
    }
}

} // verus!
