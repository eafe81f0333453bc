use fat_clip::db::{Database, Retention};
use fat_clip::item::{ClipItem, ContentType};
use fat_clip::query::Query;
use fat_clip::time::Timestamp;

const DAY: i64 = 86_400;

fn at(secs: i64) -> Timestamp {
    Timestamp::new(secs, 0)
}

fn clip(id: &str, content: &str, created: i64) -> ClipItem {
    ClipItem {
        id: id.to_string(),
        content_type: ContentType::Plain,
        content: content.to_string(),
        preview_text: content.to_string(),
        tags: vec![],
        source_app: "Test".to_string(),
        created_at: at(created),
        last_used_at: at(created),
        pinned: false,
        metadata: None,
    }
}

fn kind_clip(id: &str, kind: ContentType, created: i64) -> ClipItem {
    let mut item = clip(id, id, created);
    item.content_type = kind;
    item
}

fn ids(items: &[ClipItem]) -> Vec<String> {
    items.iter().map(|c| c.id.clone()).collect()
}

fn store(items: &[ClipItem]) -> Database {
    let mut db = Database::new();
    for item in items {
        db.insert_clip(item);
    }
    db
}

#[test]
fn new_store_is_empty() {
    let db = Database::new();
    assert_eq!(db.len(), 0);
    assert!(db.get_clips(10, 0).is_empty());
    assert!(db.get_all_tags().is_empty());
    assert!(db.rows().is_empty());
}

#[test]
fn insert_appends_new_ids() {
    let db = store(&[clip("a", "x", 1), clip("b", "y", 2)]);
    assert_eq!(db.len(), 2);
    assert_eq!(ids(&db.rows()), vec!["a", "b"]);
}

#[test]
fn insert_on_known_id_touches_last_use_and_content_only() {
    let mut db = store(&[clip("a", "old", 1), clip("b", "y", 2)]);
    db.update_clip_tags("a", vec!["t".to_string()]);
    db.toggle_pin("a", true);
    let mut again = clip("a", "new", 50);
    again.preview_text = "other preview".to_string();
    again.source_app = "Other".to_string();
    again.content_type = ContentType::Rich;
    again.last_used_at = at(60);
    again.tags = vec!["ignored".to_string()];
    db.insert_clip(&again);
    assert_eq!(db.len(), 2);
    let row = db.get_clip_by_content_hash("a").unwrap();
    assert_eq!(row.content, "new");
    assert_eq!(row.last_used_at, at(60));
    assert_eq!(row.created_at, at(1));
    assert_eq!(row.preview_text, "old");
    assert_eq!(row.source_app, "Test");
    assert_eq!(row.content_type, ContentType::Plain);
    assert_eq!(row.tags, vec!["t".to_string()]);
    assert!(row.pinned);
    assert_eq!(ids(&db.rows()), vec!["a", "b"]);
}

#[test]
fn lookup_by_hash() {
    let db = store(&[clip("a", "x", 1)]);
    assert_eq!(db.get_clip_by_content_hash("a").unwrap().content, "x");
    assert!(db.get_clip_by_content_hash("A").is_none());
    assert!(db.get_clip_by_content_hash("").is_none());
}

#[test]
fn listing_is_pinned_first_then_newest_first() {
    let mut db = store(&[
        clip("old", "x", 10),
        clip("mid", "x", 20),
        clip("new", "x", 30),
        clip("pin-old", "x", 5),
        clip("pin-new", "x", 25),
    ]);
    db.toggle_pin("pin-old", true);
    db.toggle_pin("pin-new", true);
    assert_eq!(ids(&db.get_clips(10, 0)), vec!["pin-new", "pin-old", "new", "mid", "old"]);
}

#[test]
fn listing_keeps_arrival_order_among_equals() {
    let db = store(&[clip("first", "x", 7), clip("second", "x", 7), clip("third", "x", 7)]);
    assert_eq!(ids(&db.get_clips(10, 0)), vec!["first", "second", "third"]);
}

#[test]
fn listing_orders_by_nanoseconds_within_a_second() {
    let mut a = clip("a", "x", 7);
    a.created_at = Timestamp::new(7, 5);
    let mut b = clip("b", "x", 7);
    b.created_at = Timestamp::new(7, 900);
    let db = store(&[a, b]);
    assert_eq!(ids(&db.get_clips(10, 0)), vec!["b", "a"]);
}

#[test]
fn limit_and_offset_cut_a_window() {
    let db = store(&[clip("1", "x", 1), clip("2", "x", 2), clip("3", "x", 3), clip("4", "x", 4)]);
    assert_eq!(ids(&db.get_clips(2, 0)), vec!["4", "3"]);
    assert_eq!(ids(&db.get_clips(2, 1)), vec!["3", "2"]);
    assert_eq!(ids(&db.get_clips(2, 3)), vec!["1"]);
    assert_eq!(ids(&db.get_clips(2, 4)), Vec::<String>::new());
    assert_eq!(ids(&db.get_clips(2, 400)), Vec::<String>::new());
    assert_eq!(ids(&db.get_clips(0, 0)), Vec::<String>::new());
    assert_eq!(ids(&db.get_clips(100, 0)), vec!["4", "3", "2", "1"]);
    assert_eq!(ids(&db.get_clips(i64::MAX, 1)), vec!["3", "2", "1"]);
}

#[test]
fn negative_limit_means_no_limit_and_negative_offset_none() {
    let db = store(&[clip("1", "x", 1), clip("2", "x", 2), clip("3", "x", 3)]);
    assert_eq!(ids(&db.get_clips(-1, 0)), vec!["3", "2", "1"]);
    assert_eq!(ids(&db.get_clips(-1, 2)), vec!["1"]);
    assert_eq!(ids(&db.get_clips(2, -5)), vec!["3", "2"]);
    assert_eq!(ids(&db.get_clips(i64::MIN, i64::MIN)), vec!["3", "2", "1"]);
}

#[test]
fn update_tags_replaces_the_tag_set() {
    let mut db = store(&[clip("a", "x", 1), clip("b", "y", 2)]);
    db.update_clip_tags("a", vec!["one".to_string(), "two".to_string(), "one".to_string()]);
    assert_eq!(
        db.get_clip_by_content_hash("a").unwrap().tags,
        vec!["one".to_string(), "two".to_string(), "one".to_string()]
    );
    db.update_clip_tags("a", vec![]);
    assert!(db.get_clip_by_content_hash("a").unwrap().tags.is_empty());
    assert!(db.get_clip_by_content_hash("b").unwrap().tags.is_empty());
    db.update_clip_tags("missing", vec!["t".to_string()]);
    assert_eq!(db.len(), 2);
}

#[test]
fn toggle_pin_sets_the_flag() {
    let mut db = store(&[clip("a", "x", 1), clip("b", "y", 2)]);
    db.toggle_pin("a", true);
    assert!(db.get_clip_by_content_hash("a").unwrap().pinned);
    assert!(!db.get_clip_by_content_hash("b").unwrap().pinned);
    db.toggle_pin("a", false);
    assert!(!db.get_clip_by_content_hash("a").unwrap().pinned);
    db.toggle_pin("missing", true);
    assert_eq!(db.len(), 2);
}

#[test]
fn delete_removes_one_row() {
    let mut db = store(&[clip("a", "x", 1), clip("b", "y", 2), clip("c", "z", 3)]);
    db.delete_clip("b");
    assert_eq!(ids(&db.rows()), vec!["a", "c"]);
    db.delete_clip("b");
    assert_eq!(db.len(), 2);
    db.delete_clip("");
    assert_eq!(db.len(), 2);
}

#[test]
fn older_than_spares_the_pinned_row() {
    let now = 100 * DAY;
    let mut db = store(&[clip("pinned", "x", now - 40 * DAY), clip("loose", "y", now - 40 * DAY)]);
    db.toggle_pin("pinned", true);
    let removed = db.cleanup_older_than(30, at(now));
    assert_eq!(removed, 1);
    assert_eq!(ids(&db.rows()), vec!["pinned"]);
}

#[test]
fn older_than_compares_with_the_cutoff_exactly() {
    let now = 100 * DAY;
    let mut db = store(&[
        clip("at-cutoff", "x", now - 30 * DAY),
        clip("just-older", "x", now - 30 * DAY - 1),
        clip("younger", "x", now - 29 * DAY),
    ]);
    assert_eq!(db.cleanup_older_than(30, at(now)), 1);
    assert_eq!(ids(&db.rows()), vec!["at-cutoff", "younger"]);
}

#[test]
fn older_than_takes_any_number_of_days() {
    let mut db = store(&[clip("a", "x", 5), clip("b", "x", i64::MIN), clip("c", "x", i64::MAX)]);
    assert_eq!(db.cleanup_older_than(i64::MAX, at(0)), 0);
    assert_eq!(db.cleanup_older_than(i64::MIN, at(0)), 3);
    assert_eq!(db.len(), 0);
}

#[test]
fn older_than_zero_days_removes_what_lies_before_now() {
    let mut db = store(&[clip("past", "x", 5), clip("now", "x", 10), clip("future", "x", 15)]);
    assert_eq!(db.cleanup_older_than(0, at(10)), 1);
    assert_eq!(ids(&db.rows()), vec!["now", "future"]);
}

#[test]
fn cleanup_old_clips_reads_the_clock() {
    let mut db = store(&[clip("ancient", "x", 0), clip("far-future", "x", i64::MAX / 2)]);
    let mut pinned = clip("ancient-pinned", "x", 0);
    pinned.pinned = true;
    db.insert_clip(&pinned);
    assert_eq!(db.cleanup_old_clips(1), 1);
    assert_eq!(ids(&db.rows()), vec!["far-future", "ancient-pinned"]);
}

#[test]
fn before_is_strict_and_spares_pinned() {
    let mut db = store(&[clip("a", "x", 9), clip("b", "x", 10), clip("c", "x", 11), clip("p", "x", 1)]);
    db.toggle_pin("p", true);
    assert_eq!(db.cleanup_before(at(10)), 1);
    assert_eq!(ids(&db.rows()), vec!["b", "c", "p"]);
}

#[test]
fn between_is_half_open() {
    let mut db = store(&[
        clip("before", "x", 9),
        clip("start", "x", 10),
        clip("inside", "x", 15),
        clip("end", "x", 20),
        clip("after", "x", 21),
    ]);
    let mut pinned = clip("pinned-inside", "x", 15);
    pinned.pinned = true;
    db.insert_clip(&pinned);
    assert_eq!(db.cleanup_between(at(10), at(20)), 2);
    assert_eq!(ids(&db.rows()), vec!["before", "end", "after", "pinned-inside"]);
}

#[test]
fn between_with_an_empty_window_removes_nothing() {
    let mut db = store(&[clip("a", "x", 10), clip("b", "x", 15)]);
    assert_eq!(db.cleanup_between(at(10), at(10)), 0);
    assert_eq!(db.cleanup_between(at(20), at(10)), 0);
    assert_eq!(db.len(), 2);
}

#[test]
fn between_looks_at_nanoseconds() {
    let mut a = clip("a", "x", 10);
    a.created_at = Timestamp::new(10, 499);
    let mut b = clip("b", "x", 10);
    b.created_at = Timestamp::new(10, 500);
    let mut db = store(&[a, b]);
    assert_eq!(db.cleanup_between(Timestamp::new(10, 0), Timestamp::new(10, 500)), 1);
    assert_eq!(ids(&db.rows()), vec!["b"]);
}

#[test]
fn no_retention_mode_removes_pinned_rows() {
    let policies = [
        Retention::OlderThan { now: at(1_000_000), days: 1 },
        Retention::Before(at(1_000_000)),
        Retention::Between { start: at(0), end: at(1_000_000) },
    ];
    for policy in policies.iter() {
        let mut db = store(&[clip("a", "x", 1), clip("b", "x", 2), clip("c", "x", 3)]);
        db.toggle_pin("b", true);
        assert_eq!(db.apply_retention(policy), 2);
        assert_eq!(ids(&db.rows()), vec!["b"]);
    }
}

#[test]
fn select_by_kind_value() {
    let db = store(&[
        kind_clip("t", ContentType::Plain, 1),
        kind_clip("i", ContentType::Image, 2),
        kind_clip("f", ContentType::File, 3),
        kind_clip("i2", ContentType::Image, 4),
    ]);
    assert_eq!(ids(&db.get_clips_by_type(ContentType::Image, 10)), vec!["i2", "i"]);
    assert_eq!(ids(&db.get_clips_by_type(ContentType::Image, 1)), vec!["i2"]);
    assert_eq!(ids(&db.get_clips_by_type(ContentType::Rich, 10)), Vec::<String>::new());
    assert_eq!(ids(&db.select(&Query::OfType(ContentType::File), -1, 0)), vec!["f"]);
    assert_eq!(ids(&db.select(&Query::All, 2, 1)), vec!["f", "i"]);
}

#[test]
fn rows_come_back_in_arrival_order() {
    let mut db = store(&[clip("z", "x", 30), clip("a", "x", 10), clip("m", "x", 20)]);
    db.toggle_pin("a", true);
    assert_eq!(ids(&db.rows()), vec!["z", "a", "m"]);
}
