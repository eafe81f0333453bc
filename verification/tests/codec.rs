use fat_clip::codec::{decode_row, encode_row, StoredRow};
use fat_clip::item::{ClipItem, ContentType, ImageMetadata, Metadata};
use fat_clip::time::Timestamp;

fn item() -> ClipItem {
    ClipItem {
        id: "abc123".to_string(),
        content_type: ContentType::Image,
        content: "/data/images/abc123.png".to_string(),
        preview_text: "[Image] 2x2px (0.1 KB)".to_string(),
        tags: vec!["a \"quoted\" tag".to_string(), "ünï".to_string()],
        source_app: "Paint".to_string(),
        created_at: Timestamp::new(1_705_276_800, 0),
        last_used_at: Timestamp::new(1_705_276_801, 250_000_000),
        pinned: true,
        metadata: Some(Metadata::Image(ImageMetadata {
            width: 2,
            height: 2,
            format: "png".to_string(),
            size_bytes: 99,
            thumbnail_path: None,
        })),
    }
}

#[test]
fn rows_hold_text_columns() {
    let row = encode_row(&item()).unwrap();
    assert_eq!(row.id, "abc123");
    assert_eq!(row.content_type, "image");
    assert_eq!(row.content, "/data/images/abc123.png");
    assert_eq!(row.tags, "[\"a \\\"quoted\\\" tag\",\"ünï\"]");
    assert_eq!(row.created_at, "2024-01-15T00:00:00+00:00");
    assert_eq!(row.last_used_at, "2024-01-15T00:00:01.250+00:00");
    assert_eq!(row.pinned, 1);
    assert!(row.metadata.is_some());
    let mut loose = item();
    loose.pinned = false;
    loose.tags = vec![];
    let row = encode_row(&loose).unwrap();
    assert_eq!(row.pinned, 0);
    assert_eq!(row.tags, "[]");
}

#[test]
fn rows_read_back_as_they_were_written() {
    let written = item();
    let row = encode_row(&written).unwrap();
    let back = decode_row(row, Timestamp::new(0, 0));
    assert_eq!(back.id, written.id);
    assert_eq!(back.content_type, written.content_type);
    assert_eq!(back.content, written.content);
    assert_eq!(back.preview_text, written.preview_text);
    assert_eq!(back.tags, written.tags);
    assert_eq!(back.source_app, written.source_app);
    assert_eq!(back.created_at, written.created_at);
    assert_eq!(back.last_used_at, written.last_used_at);
    assert_eq!(back.pinned, written.pinned);
    match back.metadata {
        Some(Metadata::Image(meta)) => assert_eq!(meta.size_bytes, 99),
        other => panic!("unexpected metadata {:?}", other),
    }
}

#[test]
fn times_out_of_range_cannot_be_written() {
    let mut far = item();
    far.created_at = Timestamp::new(i64::MAX, 0);
    assert!(encode_row(&far).is_none());
    let mut odd = item();
    odd.last_used_at = Timestamp::new(0, 2_000_000_000);
    assert!(encode_row(&odd).is_none());
}

fn row() -> StoredRow {
    StoredRow {
        id: "k".to_string(),
        content_type: "file".to_string(),
        content: "c".to_string(),
        preview_text: "p".to_string(),
        tags: "[\"x\",\"y\"]".to_string(),
        source_app: "s".to_string(),
        created_at: "2024-01-15T01:00:00+01:00".to_string(),
        last_used_at: "2024-01-15T00:00:00.000000007Z".to_string(),
        pinned: 0,
        metadata: None,
    }
}

#[test]
fn rows_are_read_column_by_column() {
    let item = decode_row(row(), Timestamp::new(5, 5));
    assert_eq!(item.id, "k");
    assert_eq!(item.content_type, ContentType::File);
    assert_eq!(item.tags, vec!["x", "y"]);
    assert_eq!(item.created_at, Timestamp::new(1_705_276_800, 0));
    assert_eq!(item.last_used_at, Timestamp::new(1_705_276_800, 7));
    assert!(!item.pinned);
    assert!(item.metadata.is_none());
}

#[test]
fn unreadable_columns_fall_back() {
    let mut bad = row();
    bad.content_type = "video".to_string();
    bad.tags = "not json".to_string();
    bad.created_at = "yesterday".to_string();
    bad.last_used_at = String::new();
    bad.pinned = -7;
    let item = decode_row(bad, Timestamp::new(42, 1));
    assert_eq!(item.content_type, ContentType::Plain);
    assert!(item.tags.is_empty());
    assert_eq!(item.created_at, Timestamp::new(42, 1));
    assert_eq!(item.last_used_at, Timestamp::new(42, 1));
    assert!(item.pinned);
    let mut other = row();
    other.tags = "[1, 2]".to_string();
    other.content_type = "Image".to_string();
    other.pinned = 1;
    let item = decode_row(other, Timestamp::new(0, 0));
    assert!(item.tags.is_empty());
    assert_eq!(item.content_type, ContentType::Plain);
    assert!(item.pinned);
}

#[test]
fn tags_are_written_as_serde_json_writes_them() {
    let lists: Vec<Vec<String>> = vec![
        vec![],
        vec![String::new()],
        vec!["one".to_string()],
        vec!["a,b".to_string(), "c\"d".to_string(), "e\\f".to_string(), "\n\t\u{1}".to_string()],
        vec!["é".to_string(), "日本語".to_string(), "]".to_string(), "[".to_string()],
    ];
    for list in lists.iter() {
        let mut tagged = item();
        tagged.tags = list.clone();
        let row = encode_row(&tagged).unwrap();
        assert_eq!(row.tags, serde_json::to_string(list).unwrap());
        assert_eq!(decode_row(row, Timestamp::new(0, 0)).tags, *list);
    }
}
