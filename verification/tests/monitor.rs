use fat_clip::clipboard::ClipboardManager;
use fat_clip::clipboard_monitor::{ClipboardContent, ClipboardMonitor, Observed};
use fat_clip::db::Database;
use fat_clip::item::ContentType;
use fat_clip::pixels::ConvertError;
use fat_clip::time::Timestamp;

fn text(s: &str) -> ClipboardContent {
    ClipboardContent::Text(s.to_string())
}

fn files(list: &[&str]) -> ClipboardContent {
    ClipboardContent::Files(list.iter().map(|s| s.to_string()).collect())
}

fn html(h: &str, t: &str) -> ClipboardContent {
    ClipboardContent::Html { html: h.to_string(), text: t.to_string() }
}

fn image(data: &[u8]) -> ClipboardContent {
    ClipboardContent::Image { data: data.to_vec(), width: 1, height: 1 }
}

#[test]
fn new_text_is_news_once() {
    let mut monitor = ClipboardMonitor::new();
    assert!(monitor.observe(&text("hello")));
    assert!(!monitor.observe(&text("hello")));
    assert!(!monitor.observe(&text("hello")));
    assert!(monitor.observe(&text("world")));
    assert!(monitor.observe(&text("hello")));
}

#[test]
fn blank_text_is_never_news() {
    let mut monitor = ClipboardMonitor::new();
    assert!(!monitor.observe(&text("")));
    assert!(!monitor.observe(&text("   \n\t ")));
    assert!(monitor.observe(&text("x")));
    assert!(!monitor.observe(&text(" ")));
    assert!(!monitor.observe(&text("x")));
}

#[test]
fn text_is_compared_as_it_is_not_trimmed() {
    let mut monitor = ClipboardMonitor::new();
    assert!(monitor.observe(&text("x")));
    assert!(monitor.observe(&text("x ")));
}

#[test]
fn absent_content_is_never_news() {
    let mut monitor = ClipboardMonitor::new();
    assert!(!monitor.observe(&ClipboardContent::Empty));
    assert!(!monitor.observe(&files(&[])));
    assert!(!monitor.observe(&html("", "some text")));
    assert!(!monitor.observe(&ClipboardContent::Rtf { rtf: String::new(), text: "t".to_string() }));
}

#[test]
fn channels_do_not_suppress_one_another() {
    let mut monitor = ClipboardMonitor::new();
    assert!(monitor.observe(&text("same")));
    assert!(monitor.observe(&files(&["same"])));
    assert!(monitor.observe(&image(b"same")));
    assert!(monitor.observe(&html("same", "")));
    assert!(!monitor.observe(&text("same")));
    assert!(!monitor.observe(&files(&["same"])));
    assert!(!monitor.observe(&image(b"same")));
    assert!(!monitor.observe(&html("same", "")));
    assert!(monitor.observe(&image(b"other")));
    assert!(!monitor.observe(&text("same")));
}

#[test]
fn images_are_told_apart_by_their_bytes() {
    let mut monitor = ClipboardMonitor::new();
    assert!(monitor.observe(&image(&[1, 2, 3, 4])));
    assert!(!monitor.observe(&ClipboardContent::Image { data: vec![1, 2, 3, 4], width: 2, height: 7 }));
    assert!(monitor.observe(&image(&[1, 2, 3, 5])));
    assert!(monitor.observe(&image(&[])));
}

#[test]
fn file_lists_are_told_apart_by_their_paths() {
    let mut monitor = ClipboardMonitor::new();
    assert!(monitor.observe(&files(&["/a", "/b"])));
    assert!(!monitor.observe(&files(&["/a", "/b"])));
    assert!(monitor.observe(&files(&["/b", "/a"])));
    assert!(monitor.observe(&files(&["/a"])));
    assert!(!monitor.observe(&files(&["/a"])));
}

#[test]
fn html_is_told_apart_with_its_text() {
    let mut monitor = ClipboardMonitor::new();
    assert!(monitor.observe(&html("<b>x</b>", "x")));
    assert!(!monitor.observe(&html("<b>x</b>", "x")));
    assert!(monitor.observe(&html("<b>x</b>", "y")));
    assert!(monitor.observe(&html("<i>x</i>", "y")));
}

#[test]
fn rtf_shares_the_rich_text_channel() {
    let mut monitor = ClipboardMonitor::new();
    let rtf = ClipboardContent::Rtf { rtf: "{\\rtf1 x}".to_string(), text: "x".to_string() };
    assert!(monitor.observe(&rtf));
    assert!(!monitor.observe(&rtf));
    assert!(monitor.observe(&html("{\\rtf1 x}", "y")));
    assert!(monitor.observe(&rtf));
}

#[test]
fn tick_judges_each_reading_in_turn() {
    let mut monitor = ClipboardMonitor::new();
    let readings = vec![text("t"), image(b"i"), html("<p>t</p>", "t"), files(&["/f"])];
    assert_eq!(monitor.tick(&readings), vec![true, true, true, true]);
    assert_eq!(monitor.tick(&readings), vec![false, false, false, false]);
    let next = vec![text("t"), image(b"j"), ClipboardContent::Empty, files(&["/f"]), text("u"), text("u")];
    assert_eq!(monitor.tick(&next), vec![false, true, false, false, true, false]);
    assert_eq!(monitor.tick(&Vec::new()), Vec::<bool>::new());
}

fn fresh() -> (ClipboardMonitor, ClipboardManager) {
    (ClipboardMonitor::new(), ClipboardManager::new(Database::new()))
}

#[test]
fn news_is_captured_with_unknown_source() {
    let (mut monitor, mut manager) = fresh();
    let now = Timestamp::new(10, 0);
    match monitor.process_at(&mut manager, text("hello"), false, now) {
        Observed::Stored(item) => {
            assert_eq!(item.content, "hello");
            assert_eq!(item.source_app, "Unknown");
            assert_eq!(item.content_type, ContentType::Plain);
            assert_eq!(item.created_at, now);
        }
        other => panic!("unexpected {:?}", other),
    }
    assert_eq!(manager.db.len(), 1);
    match monitor.process_at(&mut manager, text("hello"), false, Timestamp::new(20, 0)) {
        Observed::Unchanged => {}
        other => panic!("unexpected {:?}", other),
    }
    assert_eq!(manager.db.len(), 1);
    let stored = manager.db.rows();
    assert_eq!(stored[0].last_used_at, now);
}

#[test]
fn content_that_returns_is_refreshed() {
    let (mut monitor, mut manager) = fresh();
    monitor.process_at(&mut manager, text("a"), false, Timestamp::new(1, 0));
    monitor.process_at(&mut manager, text("b"), false, Timestamp::new(2, 0));
    match monitor.process_at(&mut manager, text("a"), false, Timestamp::new(3, 0)) {
        Observed::Stored(item) => {
            assert_eq!(item.created_at, Timestamp::new(1, 0));
            assert_eq!(item.last_used_at, Timestamp::new(3, 0));
        }
        other => panic!("unexpected {:?}", other),
    }
    assert_eq!(manager.db.len(), 2);
}

#[test]
fn blank_and_absent_readings_leave_the_store_alone() {
    let (mut monitor, mut manager) = fresh();
    for content in [text("  "), ClipboardContent::Empty, files(&[]), html("", "t")] {
        match monitor.process_at(&mut manager, content, false, Timestamp::new(1, 0)) {
            Observed::Unchanged => {}
            other => panic!("unexpected {:?}", other),
        }
    }
    assert_eq!(manager.db.len(), 0);
}

#[test]
fn html_news_is_captured_as_rich_text() {
    let (mut monitor, mut manager) = fresh();
    match monitor.process_at(&mut manager, html("<b>x</b>", "x"), false, Timestamp::new(1, 0)) {
        Observed::Stored(item) => {
            assert_eq!(item.content_type, ContentType::Rich);
            assert_eq!(item.preview_text, "[Rich Text] x");
            assert_eq!(item.content, "{\"html\":\"<b>x</b>\",\"plain\":\"x\",\"rtf\":null}");
        }
        other => panic!("unexpected {:?}", other),
    }
    let rtf = ClipboardContent::Rtf { rtf: "{\\rtf1}".to_string(), text: "y".to_string() };
    match monitor.process_at(&mut manager, rtf, false, Timestamp::new(2, 0)) {
        Observed::Stored(item) => {
            assert_eq!(item.content, "{\"html\":null,\"plain\":\"y\",\"rtf\":\"{\\\\rtf1}\"}");
        }
        other => panic!("unexpected {:?}", other),
    }
    assert_eq!(manager.db.len(), 2);
}

#[test]
fn image_news_is_converted_and_drafted() {
    let (mut monitor, mut manager) = fresh();
    let pixels = vec![10u8, 20, 30, 40, 50, 60, 70, 80];
    let reading = ClipboardContent::Image { data: pixels.clone(), width: 2, height: 1 };
    let draft = match monitor.process_at(&mut manager, reading, true, Timestamp::new(1, 0)) {
        Observed::ImageDrafted(draft) => draft,
        other => panic!("unexpected {:?}", other),
    };
    assert_eq!(manager.db.len(), 0);
    assert_eq!(draft.source_app, "Unknown");
    assert_eq!((draft.width, draft.height), (2, 1));
    assert_eq!((draft.thumbnail_width, draft.thumbnail_height), (200, 100));
    let decoded = image::load_from_memory(&draft.png_data).unwrap().to_rgba8();
    assert_eq!(decoded.into_raw(), vec![30, 20, 10, 40, 70, 60, 50, 80]);
    manager.finish_image_clip_at(draft, "i.png".to_string(), None, Timestamp::new(1, 0));
    let again = ClipboardContent::Image { data: pixels.clone(), width: 2, height: 1 };
    match monitor.process_at(&mut manager, again, true, Timestamp::new(2, 0)) {
        Observed::Unchanged => {}
        other => panic!("unexpected {:?}", other),
    }
    let mut other_monitor = ClipboardMonitor::new();
    let once_more = ClipboardContent::Image { data: pixels, width: 2, height: 1 };
    match other_monitor.process_at(&mut manager, once_more, true, Timestamp::new(3, 0)) {
        Observed::Stored(item) => assert_eq!(item.last_used_at, Timestamp::new(3, 0)),
        other => panic!("unexpected {:?}", other),
    }
    assert_eq!(manager.db.len(), 1);
}

#[test]
fn image_that_cannot_be_converted_is_reported() {
    let (mut monitor, mut manager) = fresh();
    let reading = ClipboardContent::Image { data: vec![1, 2, 3], width: 4, height: 4 };
    match monitor.process_at(&mut manager, reading, false, Timestamp::new(1, 0)) {
        Observed::ConversionFailed(ConvertError::BufferTooSmall) => {}
        other => panic!("unexpected {:?}", other),
    }
    assert_eq!(manager.db.len(), 0);
}

#[test]
fn file_news_hands_the_paths_back() {
    let (mut monitor, mut manager) = fresh();
    match monitor.process_at(&mut manager, files(&["/a", "/b"]), false, Timestamp::new(1, 0)) {
        Observed::FilesSeen(paths) => assert_eq!(paths, vec!["/a", "/b"]),
        other => panic!("unexpected {:?}", other),
    }
    assert_eq!(manager.db.len(), 0);
    match monitor.process(&mut manager, files(&["/a", "/b"]), false) {
        Observed::Unchanged => {}
        other => panic!("unexpected {:?}", other),
    }
    match monitor.process(&mut manager, text("clock"), false) {
        Observed::Stored(item) => assert!(item.created_at.secs > 1_600_000_000),
        other => panic!("unexpected {:?}", other),
    }
}
