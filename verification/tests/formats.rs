use fat_clip::capture::{envelope, thumbnail_size};
use fat_clip::fingerprint::{generate_content_hash, generate_hash, generate_image_hash, to_hex};
use fat_clip::format::{
    join, join_all, shorten, to_decimal, to_one_decimal, write_numeral, write_size, KILOBYTE,
    MEGABYTE,
};
use fat_clip::precision::{divide_to_nearest, round_to, DOUBLE_LIMIT, SINGLE_LIMIT};
use fat_clip::item::ContentType;
use fat_clip::layout::{get_database_file, get_images_dir, get_thumbnails_dir, join_path};
use fat_clip::text::{chars_of, contains, find, less_than, same_text, trim};
use std::collections::hash_map::DefaultHasher;
use std::hash::{Hash, Hasher};

#[test]
fn content_type_names() {
    assert_eq!(ContentType::Plain.as_str(), "plain");
    assert_eq!(ContentType::Rich.as_str(), "rich");
    assert_eq!(ContentType::Image.as_str(), "image");
    assert_eq!(ContentType::File.as_str(), "file");
    for kind in [ContentType::Plain, ContentType::Rich, ContentType::Image, ContentType::File] {
        assert_eq!(ContentType::from_str(kind.as_str()), Some(kind));
    }
    assert_eq!(ContentType::from_str("Plain"), None);
    assert_eq!(ContentType::from_str(""), None);
    assert_eq!(ContentType::from_str("image "), None);
}

#[test]
fn hex_numbers() {
    assert_eq!(to_hex(0), "0");
    assert_eq!(to_hex(9), "9");
    assert_eq!(to_hex(10), "a");
    assert_eq!(to_hex(255), "ff");
    assert_eq!(to_hex(256), "100");
    assert_eq!(to_hex(0xdead_beef), "deadbeef");
    assert_eq!(to_hex(u64::MAX), "ffffffffffffffff");
    for n in [1u64, 15, 16, 17, 4095, 4096, 1 << 32, (1 << 60) + 7, u64::MAX - 1] {
        assert_eq!(to_hex(n), format!("{:x}", n));
    }
}

#[test]
fn decimal_numbers() {
    assert_eq!(to_decimal(0), "0");
    assert_eq!(to_decimal(7), "7");
    assert_eq!(to_decimal(10), "10");
    assert_eq!(to_decimal(640), "640");
    assert_eq!(to_decimal(u64::MAX), "18446744073709551615");
    assert_eq!(write_numeral(5, 2), vec!['1', '0', '1']);
    assert_eq!(write_numeral(u128::MAX, 16).len(), 32);
}

fn text_digest(s: &str) -> String {
    let mut hasher = DefaultHasher::new();
    s.hash(&mut hasher);
    format!("{:x}", hasher.finish())
}

fn bytes_digest(data: &[u8]) -> String {
    let mut hasher = DefaultHasher::new();
    data.hash(&mut hasher);
    format!("{:x}", hasher.finish())
}

#[test]
fn fingerprints_are_the_standard_hash_in_hex() {
    for text in ["", "Hello World", "héllo", "a\nb", "Hello World "] {
        assert_eq!(generate_content_hash(text), text_digest(text));
        assert_eq!(generate_hash(text), text_digest(text));
    }
    for data in [&b""[..], &b"Hello World"[..], &[0u8, 1, 2, 255][..]] {
        assert_eq!(generate_image_hash(data), bytes_digest(data));
    }
}

#[test]
fn equal_content_has_equal_fingerprints() {
    let a = String::from("same content");
    let b = ["same", " ", "content"].concat();
    assert_eq!(generate_content_hash(&a), generate_content_hash(&b));
    assert_eq!(generate_content_hash(&a), generate_content_hash(&a));
    assert_ne!(generate_content_hash("same content"), generate_content_hash("same content."));
    assert_eq!(generate_image_hash(&[1, 2, 3]), generate_image_hash(&vec![1, 2, 3]));
    assert_ne!(generate_image_hash(&[1, 2, 3]), generate_image_hash(&[1, 2, 4]));
    assert_ne!(generate_content_hash("abc"), "abc");
}

#[test]
fn quantities_with_one_decimal() {
    assert_eq!(to_one_decimal(0, 1024), "0.0");
    assert_eq!(to_one_decimal(1024, 1024), "1.0");
    assert_eq!(to_one_decimal(1536, 1024), "1.5");
    assert_eq!(to_one_decimal(51, 1024), "0.0");
    assert_eq!(to_one_decimal(52, 1024), "0.1");
    assert_eq!(to_one_decimal(1023, 1024), "1.0");
    assert_eq!(to_one_decimal(1, 3), "0.3");
    assert_eq!(to_one_decimal(2, 3), "0.7");
    assert_eq!(to_one_decimal(123_456_789, 1024 * 1024), "117.7");
}

#[test]
fn halves_go_to_the_even_tenth() {
    assert_eq!(to_one_decimal(256, 1024), "0.2");
    assert_eq!(to_one_decimal(768, 1024), "0.8");
    assert_eq!(to_one_decimal(1280, 1024), "1.2");
    assert_eq!(to_one_decimal(5, 100), "0.0");
    assert_eq!(to_one_decimal(15, 100), "0.2");
    assert_eq!(to_one_decimal(25, 100), "0.2");
    assert_eq!(divide_to_nearest(5, 2), 2);
    assert_eq!(divide_to_nearest(7, 2), 4);
    assert_eq!(divide_to_nearest(7, 3), 2);
    assert_eq!(divide_to_nearest(8, 3), 3);
    assert_eq!(divide_to_nearest(0, 9), 0);
}

#[test]
fn sizes_in_kilobytes_and_megabytes() {
    assert_eq!(write_size(0, KILOBYTE), "0.0");
    assert_eq!(write_size(2048, KILOBYTE), "2.0");
    assert_eq!(write_size(1536, KILOBYTE), "1.5");
    assert_eq!(write_size(10 * 1024 * 1024, MEGABYTE), "10.0");
    assert_eq!(write_size(1_572_864, MEGABYTE), "1.5");
    assert_eq!(write_size(u64::MAX, KILOBYTE), "18014398509481984.0");
    assert_eq!(write_size(u64::MAX, MEGABYTE), "17592186044416.0");
}

#[test]
fn sizes_agree_with_double_precision_formatting() {
    let mut n: u64 = 0;
    while n < 300_000 {
        assert_eq!(write_size(n, KILOBYTE), format!("{:.1}", n as f64 / 1024.0), "{}", n);
        n += 1;
    }
    let mut samples: Vec<u64> = vec![u64::MAX, u64::MAX - 1, u64::MAX - 1023, u64::MAX - 1024];
    let mut n: u64 = 1;
    loop {
        for d in [0u64, 1, 2, 3, 255, 256, 257, 52_428, 104_857, 1_000_003] {
            samples.push(n.wrapping_sub(d));
            samples.push(n.wrapping_add(d));
            samples.push(n.wrapping_mul(3).wrapping_add(d));
            samples.push(n.wrapping_mul(5).wrapping_sub(d));
        }
        if n == 1 << 63 {
            break;
        }
        n *= 2;
    }
    let mut seed: u64 = 0x9e37_79b9_7f4a_7c15;
    for _ in 0..20_000 {
        seed ^= seed << 13;
        seed ^= seed >> 7;
        seed ^= seed << 17;
        samples.push(seed);
        samples.push(seed >> 9);
    }
    for m in samples {
        assert_eq!(write_size(m, KILOBYTE), format!("{:.1}", m as f64 / 1024.0), "{}", m);
        assert_eq!(
            write_size(m, MEGABYTE),
            format!("{:.1}", m as f64 / (1024.0 * 1024.0)),
            "{}",
            m
        );
    }
}

#[test]
fn rounding_to_limited_precision() {
    assert_eq!(round_to(0, SINGLE_LIMIT), 0);
    assert_eq!(round_to(16_777_215, SINGLE_LIMIT), 16_777_215);
    assert_eq!(round_to(16_777_216, SINGLE_LIMIT), 16_777_216);
    assert_eq!(round_to(16_777_217, SINGLE_LIMIT), 16_777_216);
    assert_eq!(round_to(16_777_218, SINGLE_LIMIT), 16_777_218);
    assert_eq!(round_to(16_777_219, SINGLE_LIMIT), 16_777_220);
    assert_eq!(round_to(u32::MAX as u128, SINGLE_LIMIT), 1 << 32);
    assert_eq!(round_to((1 << 53) + 1, DOUBLE_LIMIT), 1 << 53);
    assert_eq!(round_to((1 << 53) + 3, DOUBLE_LIMIT), (1 << 53) + 4);
    assert_eq!(round_to(u64::MAX as u128, DOUBLE_LIMIT), 1 << 64);
    let mut seed: u64 = 88_172_645_463_325_252;
    for _ in 0..20_000 {
        seed ^= seed << 13;
        seed ^= seed >> 7;
        seed ^= seed << 17;
        assert_eq!(round_to(seed as u128, DOUBLE_LIMIT) as f64, seed as f64);
        let small = (seed >> 32) as u32;
        assert_eq!(round_to(small as u128, SINGLE_LIMIT) as f32, small as f32);
        assert_eq!(round_to(small as u128, SINGLE_LIMIT), (small as f32) as u128);
    }
}

#[test]
fn shortening() {
    assert_eq!(shorten("hello", 200), "hello");
    assert_eq!(shorten("hello", 5), "hello");
    assert_eq!(shorten("hello", 4), "hell...");
    assert_eq!(shorten("hello", 0), "...");
    assert_eq!(shorten("", 0), "");
    assert_eq!(shorten("héllo wörld", 2), "hé...");
}

#[test]
fn joining() {
    assert_eq!(join("a", "b"), "ab");
    assert_eq!(join("", ""), "");
    let parts = vec!["a".to_string(), "b".to_string(), "c".to_string()];
    assert_eq!(join_all(&parts, "\n"), "a\nb\nc");
    assert_eq!(join_all(&parts[..1].to_vec(), ", "), "a");
    assert_eq!(join_all(&Vec::new(), ", "), "");
    assert_eq!(join_all(&vec![String::new(), String::new()], "-"), "-");
}

#[test]
fn thumbnails_scale_the_longer_edge_to_200() {
    assert_eq!(thumbnail_size(640, 480), (200, 150));
    assert_eq!(thumbnail_size(480, 640), (150, 200));
    assert_eq!(thumbnail_size(100, 100), (200, 200));
    assert_eq!(thumbnail_size(1000, 995), (200, 199));
    assert_eq!(thumbnail_size(800, 420), (200, 104));
    assert_eq!(thumbnail_size(3, 1), (200, 66));
    assert_eq!(thumbnail_size(1, 3), (66, 200));
    assert_eq!(thumbnail_size(10, 0), (200, 0));
    assert_eq!(thumbnail_size(0, 10), (0, 200));
    assert_eq!(thumbnail_size(0, 0), (0, 200));
    assert_eq!(thumbnail_size(u32::MAX, 1), (200, 0));
    assert_eq!(thumbnail_size(u32::MAX, u32::MAX - 1), (200, 200));
    assert_eq!(thumbnail_size(u32::MAX, u32::MAX), (200, 200));
}

#[test]
fn envelope_is_what_serde_json_writes() {
    let cases: Vec<(Option<&str>, Option<&str>, &str)> = vec![
        (Some("<p>\"q\"</p>"), None, "q"),
        (None, Some("{\\rtf1 \\b x}"), "x\ny"),
        (Some("h"), Some("r"), ""),
        (None, None, "tab\there \u{1} é"),
    ];
    for (html, rtf, plain) in cases {
        let to_value = |o: Option<&str>| match o {
            Some(s) => serde_json::Value::String(s.to_string()),
            None => serde_json::Value::Null,
        };
        let mut object = serde_json::Map::new();
        object.insert("html".to_string(), to_value(html));
        object.insert("rtf".to_string(), to_value(rtf));
        object.insert("plain".to_string(), serde_json::Value::String(plain.to_string()));
        let expected = serde_json::Value::Object(object).to_string();
        let html = html.map(|s| s.to_string());
        let rtf = rtf.map(|s| s.to_string());
        assert_eq!(envelope(&html, &rtf, plain), expected);
    }
    assert_eq!(
        envelope(&Some("a\"b".to_string()), &None, "c"),
        "{\"html\":\"a\\\"b\",\"plain\":\"c\",\"rtf\":null}"
    );
}

#[test]
fn layout_below_the_data_directory() {
    assert_eq!(
        get_images_dir("/home/u/.local/share/fat-clip", '/'),
        "/home/u/.local/share/fat-clip/images"
    );
    assert_eq!(
        get_thumbnails_dir("/home/u/.local/share/fat-clip", '/'),
        "/home/u/.local/share/fat-clip/thumbnails"
    );
    assert_eq!(get_database_file("/data", '/'), "/data/fat_clip.db");
    assert_eq!(get_images_dir("/data/", '/'), "/data/images");
    assert_eq!(get_images_dir("", '/'), "images");
    assert_eq!(join_path("/data/images", "abc.png", '/'), "/data/images/abc.png");
    assert_eq!(join_path("répertoire", "x", '/'), "répertoire/x");
}

#[test]
fn layout_takes_the_separator_of_the_platform() {
    assert_eq!(get_images_dir("C:\\Users\\u\\fat-clip", '\\'), "C:\\Users\\u\\fat-clip\\images");
    assert_eq!(get_thumbnails_dir("C:\\data\\", '\\'), "C:\\data\\thumbnails");
    assert_eq!(get_database_file("C:\\data", '\\'), "C:\\data\\fat_clip.db");
    assert_eq!(join_path("C:\\data/", "x.png", '\\'), "C:\\data/\\x.png");
    let joined = std::path::Path::new("some").join("dir").join("images");
    let by_hand = get_images_dir(
        &join_path("some", "dir", std::path::MAIN_SEPARATOR),
        std::path::MAIN_SEPARATOR,
    );
    assert_eq!(joined.to_string_lossy(), by_hand);
}

#[test]
fn text_helpers() {
    assert_eq!(chars_of("héllo"), vec!['h', 'é', 'l', 'l', 'o']);
    assert!(same_text("abc", "abc"));
    assert!(!same_text("abc", "abd"));
    assert!(!same_text("abc", "ab"));
    let t = |s: &str| trim(&chars_of(s)).into_iter().collect::<String>();
    assert_eq!(t("  a b \n"), "a b");
    assert_eq!(t("\u{a0}x\u{3000}"), "x");
    assert_eq!(t("   "), "");
    assert_eq!(t(""), "");
    assert_eq!(t("x"), "x");
    for sample in [" a ", "\t\r\n", "no", " \u{2003}mid dle\u{85}", "·x·"] {
        assert_eq!(t(sample), sample.trim(), "{:?}", sample);
    }
}

#[test]
fn searching_in_text() {
    let hay = chars_of("hello world");
    assert_eq!(find(&hay, &chars_of("world")), Some(6));
    assert_eq!(find(&hay, &chars_of("o")), Some(4));
    assert_eq!(find(&hay, &chars_of("")), Some(0));
    assert_eq!(find(&hay, &chars_of("worlds")), None);
    assert_eq!(find(&hay, &chars_of("hello world!")), None);
    assert_eq!(find(&chars_of(""), &chars_of("")), Some(0));
    assert_eq!(find(&chars_of(""), &chars_of("a")), None);
    assert!(contains(&hay, &chars_of("lo wo")));
    assert!(!contains(&hay, &chars_of("low")));
}

#[test]
fn ordering_of_texts() {
    let lt = |a: &str, b: &str| less_than(&chars_of(a), &chars_of(b));
    assert!(lt("a", "b"));
    assert!(!lt("b", "a"));
    assert!(!lt("a", "a"));
    assert!(lt("", "a"));
    assert!(!lt("", ""));
    assert!(lt("ab", "abc"));
    assert!(lt("B", "a"));
    for (a, b) in [("apple", "apply"), ("z", "é"), ("abc", "ab"), ("", "x"), ("same", "same")] {
        assert_eq!(lt(a, b), a < b, "{} {}", a, b);
    }
}

fn float_thumbnail(width: u32, height: u32) -> (u32, u32) {
    let max_size = 200u32;
    if width > height {
        let ratio = height as f32 / width as f32;
        (max_size, (max_size as f32 * ratio) as u32)
    } else {
        let ratio = width as f32 / height as f32;
        ((max_size as f32 * ratio) as u32, max_size)
    }
}

#[test]
fn thumbnails_agree_with_single_precision_arithmetic() {
    let mut differences: Vec<(u32, u32)> = Vec::new();
    for width in 0..1200u32 {
        for height in 0..1200u32 {
            if thumbnail_size(width, height) != float_thumbnail(width, height) {
                differences.push((width, height));
            }
        }
    }
    let mut seed: u64 = 0x2545_f491_4f6c_dd1d;
    for _ in 0..200_000 {
        seed ^= seed << 13;
        seed ^= seed >> 7;
        seed ^= seed << 17;
        let width = (seed >> 32) as u32 >> (seed % 23);
        let height = seed as u32 >> ((seed >> 8) % 29);
        if thumbnail_size(width, height) != float_thumbnail(width, height) {
            differences.push((width, height));
        }
    }
    assert_eq!(differences, Vec::<(u32, u32)>::new());
}
