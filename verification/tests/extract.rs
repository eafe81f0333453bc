use fat_clip::extract::{
    extract_fragment, parse_path_list, parse_uri_list, pasted_html, url_decode,
};
use fat_clip::pixels::{bgra_to_rgba, convert_to_png, ConvertError};

#[test]
fn url_decode_resolves_escapes() {
    assert_eq!(url_decode("/home/user/My%20File.txt"), "/home/user/My File.txt");
    assert_eq!(url_decode("%41%42%43"), "ABC");
    assert_eq!(url_decode("%2f%2F"), "//");
    assert_eq!(url_decode(""), "");
    assert_eq!(url_decode("plain"), "plain");
    assert_eq!(url_decode("100%25"), "100%");
    assert_eq!(url_decode("%00%7f"), "\u{0}\u{7f}");
}

#[test]
fn url_decode_leaves_the_plus_sign() {
    assert_eq!(url_decode("a+b"), "a+b");
    assert_eq!(url_decode("+"), "+");
    assert_eq!(url_decode("a%2Bb+c%20d"), "a+b+c d");
}

#[test]
fn url_decode_reads_escaped_bytes_as_utf8() {
    assert_eq!(url_decode("/tmp/caf%C3%A9.txt"), "/tmp/café.txt");
    assert_eq!(url_decode("%C3%A9"), "é");
    assert_eq!(url_decode("%c3%a9%C3%A9"), "éé");
    assert_eq!(url_decode("%C2%80"), "\u{80}");
    assert_eq!(url_decode("%DF%BF"), "\u{7ff}");
    assert_eq!(url_decode("%E0%A0%80"), "\u{800}");
    assert_eq!(url_decode("%E6%97%A5%E6%9C%AC%E8%AA%9E"), "日本語");
    assert_eq!(url_decode("%ED%9F%BF%EE%80%80"), "\u{d7ff}\u{e000}");
    assert_eq!(url_decode("%EF%BF%BF"), "\u{ffff}");
    assert_eq!(url_decode("%F0%90%80%80"), "\u{10000}");
    assert_eq!(url_decode("%F0%9F%98%80.png"), "😀.png");
    assert_eq!(url_decode("%F4%8F%BF%BF"), "\u{10ffff}");
    assert_eq!(url_decode("é%C3%A9é"), "ééé");
}

#[test]
fn url_decode_keeps_escapes_that_are_not_utf8() {
    assert_eq!(url_decode("%ff"), "%ff");
    assert_eq!(url_decode("%80"), "%80");
    assert_eq!(url_decode("%A9"), "%A9");
    assert_eq!(url_decode("%C3"), "%C3");
    assert_eq!(url_decode("%C3x"), "%C3x");
    assert_eq!(url_decode("%C3%41"), "%C3A");
    assert_eq!(url_decode("%E6%97"), "%E6%97");
    assert_eq!(url_decode("%E6%97%41"), "%E6%97A");
    assert_eq!(url_decode("%F0%9F%98"), "%F0%9F%98");
    assert_eq!(url_decode("%C0%80"), "%C0%80");
    assert_eq!(url_decode("%C1%BF"), "%C1%BF");
    assert_eq!(url_decode("%E0%9F%BF"), "%E0%9F%BF");
    assert_eq!(url_decode("%ED%A0%80"), "%ED%A0%80");
    assert_eq!(url_decode("%ED%BF%BF"), "%ED%BF%BF");
    assert_eq!(url_decode("%F0%8F%BF%BF"), "%F0%8F%BF%BF");
    assert_eq!(url_decode("%F4%90%80%80"), "%F4%90%80%80");
    assert_eq!(url_decode("%F8%88%80%80%80"), "%F8%88%80%80%80");
    assert_eq!(url_decode("%C3%A9%ff%C3%A9"), "é%ffé");
}

#[test]
fn url_decode_keeps_what_is_no_escape() {
    assert_eq!(url_decode("%"), "%");
    assert_eq!(url_decode("%zz"), "%zz");
    assert_eq!(url_decode("%4"), "%4");
    assert_eq!(url_decode("%4g"), "%4g");
    assert_eq!(url_decode("%g1rest"), "%g1rest");
    assert_eq!(url_decode("%%41"), "%A");
    assert_eq!(url_decode("%-1"), "%-1");
    assert_eq!(url_decode("%+5"), "%+5");
    assert_eq!(url_decode("% 41"), "% 41");
    assert_eq!(url_decode("%é1"), "%é1");
    assert_eq!(url_decode("%1é"), "%1é");
    assert_eq!(url_decode("%C3%"), "%C3%");
    assert_eq!(url_decode("%C3%A"), "%C3%A");
}

/// Percent-decoding written with the standard library: the escapes that
/// follow one another give bytes, and the shortest run of them that is the
/// UTF-8 encoding of one character stands for that character.
fn decode_with_std(text: &str) -> String {
    let chars: Vec<char> = text.chars().collect();
    let escape = |at: usize| -> Option<u8> {
        if at + 3 <= chars.len() && chars[at] == '%' {
            let digits: String = chars[at + 1..at + 3].iter().collect();
            if digits.chars().all(|c| c.is_ascii_hexdigit()) {
                return u8::from_str_radix(&digits, 16).ok();
            }
        }
        None
    };
    let mut out = String::new();
    let mut i = 0;
    while i < chars.len() {
        let mut bytes = Vec::new();
        while bytes.len() < 4 {
            match escape(i + 3 * bytes.len()) {
                Some(byte) => bytes.push(byte),
                None => break,
            }
        }
        let mut taken = 0;
        for width in 1..=bytes.len() {
            if let Ok(decoded) = std::str::from_utf8(&bytes[..width]) {
                out.push_str(decoded);
                taken = width;
                break;
            }
        }
        if taken == 0 {
            out.push(chars[i]);
            i += 1;
        } else {
            i += 3 * taken;
        }
    }
    out
}

#[test]
fn url_decode_agrees_with_the_standard_utf8_reader() {
    let pieces = [
        "%41", "%C3", "%A9", "%E6", "%97", "%A5", "%F0", "%9F", "%98", "%80", "%ED", "%A0", "%ff",
        "%c2", "%E0", "%F4", "%8F", "%bf", "%", "+", "x", "é", "%4", "%zz", "%25",
    ];
    let mut cases: Vec<String> = Vec::new();
    for a in pieces.iter() {
        cases.push(a.to_string());
        for b in pieces.iter() {
            cases.push(format!("{}{}", a, b));
            for c in pieces.iter() {
                cases.push(format!("{}{}{}", a, b, c));
            }
        }
    }
    cases.push("%F0%9F%98%80%F0%9F%98".to_string());
    cases.push("%E6%97%A5%E6%9C%AC%E8%AA%9E".to_string());
    for case in cases.iter() {
        assert_eq!(url_decode(case), decode_with_std(case), "{:?}", case);
    }
    let mut seed: u64 = 0x1234_5678_9abc_def1;
    for _ in 0..20_000 {
        let mut case = String::new();
        for _ in 0..5 {
            seed ^= seed << 13;
            seed ^= seed >> 7;
            seed ^= seed << 17;
            case.push_str(&format!("%{:02X}", (seed >> 24) as u8));
        }
        assert_eq!(url_decode(&case), decode_with_std(&case), "{:?}", case);
    }
}

#[test]
fn uri_list_names_files() {
    let list = "file:///home/user/a.txt\nfile:///home/user/My%20Docs/caf%C3%A9+1.txt\n";
    assert_eq!(
        parse_uri_list(list),
        vec!["/home/user/a.txt", "/home/user/My Docs/café+1.txt"]
    );
}

#[test]
fn uri_list_skips_comments_and_other_uris() {
    let list = "# copied files\r\nfile:///a\r\nhttp://example.com/x\r\n#file:///hidden\r\nfile:///b";
    assert_eq!(parse_uri_list(list), vec!["/a", "/b"]);
    assert_eq!(parse_uri_list("FILE:///a\n file:///b\nfile:/c"), Vec::<String>::new());
}

#[test]
fn uri_list_line_endings() {
    assert_eq!(parse_uri_list(""), Vec::<String>::new());
    assert_eq!(parse_uri_list("\n\n"), Vec::<String>::new());
    assert_eq!(parse_uri_list("file://"), vec![""]);
    assert_eq!(parse_uri_list("file:///a\r"), vec!["/a\r"]);
    assert_eq!(parse_uri_list("file:///a\r\n"), vec!["/a"]);
    assert_eq!(parse_uri_list("file:///a\r\r\n"), vec!["/a\r"]);
    assert_eq!(parse_uri_list("\r\nfile:///a"), vec!["/a"]);
}

#[test]
fn uri_list_agrees_with_line_splitting() {
    let samples = [
        "file:///x\nfile:///y%2Fz\r\n\r\nother\nfile://host/p+q",
        "a\rb\nfile:///c\r",
        "\n",
        "file:///only",
    ];
    for sample in samples.iter() {
        let expected: Vec<String> = sample
            .lines()
            .filter(|line| !line.starts_with('#'))
            .filter_map(|line| line.strip_prefix("file://"))
            .map(url_decode)
            .collect();
        assert_eq!(parse_uri_list(sample), expected, "{:?}", sample);
    }
}

#[test]
fn fragment_is_taken_out_of_its_wrapper() {
    let data = "Version:0.9\r\nStartHTML:0\r\n<html><body><!--StartFragment--><b>hi</b><!--EndFragment--></body></html>";
    assert_eq!(extract_fragment(data), "<b>hi</b>");
    assert_eq!(extract_fragment("<!--StartFragment--><!--EndFragment-->"), "");
}

#[test]
fn data_without_both_markers_is_kept_whole() {
    assert_eq!(extract_fragment("<p>plain</p>"), "<p>plain</p>");
    assert_eq!(extract_fragment("<!--StartFragment-->open"), "<!--StartFragment-->open");
    assert_eq!(extract_fragment("close<!--EndFragment-->"), "close<!--EndFragment-->");
    assert_eq!(extract_fragment(""), "");
}

#[test]
fn markers_in_the_wrong_order_leave_the_data_whole() {
    let data = "<!--EndFragment-->x<!--StartFragment-->";
    assert_eq!(extract_fragment(data), data);
}

#[test]
fn the_first_markers_count() {
    let data = "<!--StartFragment-->a<!--EndFragment-->b<!--StartFragment-->c<!--EndFragment-->";
    assert_eq!(extract_fragment(data), "a");
    let text = "é<!--StartFragment-->ü<!--EndFragment-->é";
    assert_eq!(extract_fragment(text), "ü");
}

#[test]
fn bgra_pixels_are_reordered() {
    assert_eq!(bgra_to_rgba(&vec![1, 2, 3, 4, 5, 6, 7, 8]), vec![3, 2, 1, 4, 7, 6, 5, 8]);
    assert_eq!(bgra_to_rgba(&vec![1, 2, 3, 4, 5, 6]), vec![3, 2, 1, 4]);
    assert_eq!(bgra_to_rgba(&vec![1, 2, 3]), Vec::<u8>::new());
    assert_eq!(bgra_to_rgba(&Vec::new()), Vec::<u8>::new());
}

fn decode(png: &[u8]) -> (u32, u32, Vec<u8>) {
    let image = image::load_from_memory_with_format(png, image::ImageFormat::Png).unwrap().to_rgba8();
    (image.width(), image.height(), image.into_raw())
}

#[test]
fn png_holds_the_pixels() {
    let pixels: Vec<u8> = vec![255, 0, 0, 255, 0, 255, 0, 255, 0, 0, 255, 128, 9, 8, 7, 6, 1, 1, 1, 1, 2, 2, 2, 2];
    let png = convert_to_png(&pixels, 3, 2, false).unwrap();
    assert_eq!(&png[..8], &[0x89, b'P', b'N', b'G', 0x0d, 0x0a, 0x1a, 0x0a]);
    assert_eq!(decode(&png), (3, 2, pixels.clone()));
    assert_ne!(png, pixels);
}

#[test]
fn png_of_bgra_pixels_is_in_rgba_order() {
    let bgra: Vec<u8> = vec![10, 20, 30, 40, 50, 60, 70, 80];
    let png = convert_to_png(&bgra, 1, 2, true).unwrap();
    assert_eq!(decode(&png), (1, 2, vec![30, 20, 10, 40, 70, 60, 50, 80]));
    let same = convert_to_png(&vec![30, 20, 10, 40, 70, 60, 50, 80], 1, 2, false).unwrap();
    assert_eq!(png, same);
}

#[test]
fn png_ignores_bytes_after_the_last_pixel() {
    let png = convert_to_png(&vec![1, 2, 3, 4, 99, 98], 1, 1, false).unwrap();
    assert_eq!(decode(&png), (1, 1, vec![1, 2, 3, 4]));
}

#[test]
fn short_buffers_are_refused() {
    match convert_to_png(&vec![1, 2, 3], 1, 1, false) {
        Err(ConvertError::BufferTooSmall) => {}
        other => panic!("unexpected {:?}", other),
    }
    match convert_to_png(&vec![0; 7], 1, 2, true) {
        Err(ConvertError::BufferTooSmall) => {}
        other => panic!("unexpected {:?}", other),
    }
    match convert_to_png(&vec![0; 64], u32::MAX, u32::MAX, false) {
        Err(ConvertError::BufferTooSmall) => {}
        other => panic!("unexpected {:?}", other),
    }
    assert_eq!(ConvertError::BufferTooSmall.message(), "Failed to create image buffer");
    assert_eq!(
        ConvertError::Encoding("bad".to_string()).message(),
        "Failed to encode PNG: bad"
    );
}

#[test]
fn pasted_html_is_recognised() {
    assert_eq!(pasted_html("  <p>hi</p>\n"), Some("<p>hi</p>".to_string()));
    assert_eq!(pasted_html("text with <html lang"), Some("text with <html lang".to_string()));
    assert_eq!(pasted_html("x <body> y"), Some("x <body> y".to_string()));
    assert_eq!(pasted_html("just text"), None);
    assert_eq!(pasted_html("a < b"), None);
    assert_eq!(pasted_html(""), None);
    assert_eq!(pasted_html("   "), None);
    assert_eq!(pasted_html("<"), Some("<".to_string()));
}

#[test]
fn path_lists_are_read_entry_by_entry() {
    assert_eq!(parse_path_list("/a/b.txt, /c d/e.png\n"), vec!["/a/b.txt", "/c d/e.png"]);
    assert_eq!(parse_path_list("{\"/a\", \"/b\"}\n"), vec!["/a", "/b"]);
    assert_eq!(parse_path_list("/only"), vec!["/only"]);
    assert_eq!(parse_path_list(""), Vec::<String>::new());
    assert_eq!(parse_path_list("\n"), Vec::<String>::new());
    assert_eq!(parse_path_list("relative, /abs, , \"\", c:/x"), vec!["/abs"]);
    assert_eq!(parse_path_list("/a,/b"), vec!["/a,/b"]);
    assert_eq!(parse_path_list("/a,  /b , /c"), vec!["/a", "/b", "/c"]);
    assert_eq!(parse_path_list("/a, "), vec!["/a"]);
}

#[test]
fn path_lists_agree_with_the_standard_splitting() {
    let samples = [
        "{\"/x y\", \"/z\"}\r\n",
        "\"/q\"\"",
        "/a, \" /b \", \"\"/c\"\"",
        ", , /k",
        "{}",
        "/m, /n,",
        " /lead, /trail ",
    ];
    for sample in samples.iter() {
        let expected: Vec<String> = sample
            .trim_matches(|c| c == '{' || c == '}' || c == '"' || c == '\n' || c == '\r')
            .split(", ")
            .map(|s| s.trim().trim_matches('"').to_string())
            .filter(|s| !s.is_empty() && s.starts_with('/'))
            .collect();
        assert_eq!(parse_path_list(sample), expected, "{:?}", sample);
    }
}
