//! Normalising what the platforms put on the clipboard as text: URI lists
//! and path lists of copied files, wrapped HTML fragments, pasted HTML.

use crate::text::{
    chars_of, contains, find, find_from, first_occurrence, is_infix, lemma_occurrence_from,
    occurrence_from, occurs_at, slice_of, string_of, strip, strip_bounds, stripped, trim, trimmed,
    Strip,
};
use vstd::prelude::*;
use vstd::string::*;
use vstd::utf8::{decode_first_scalar, is_scalar, length_of_first_scalar, valid_first_scalar};

verus! {

/// The value of a hexadecimal digit, capital or small.
pub open spec fn hex_digit_value(c: char) -> Option<u8> {
    if '0' <= c <= '9' {
        Some((c as u8 - '0' as u8) as u8)
    } else if 'a' <= c <= 'f' {
        Some((c as u8 - 'a' as u8 + 10) as u8)
    } else if 'A' <= c <= 'F' {
        Some((c as u8 - 'A' as u8 + 10) as u8)
    } else {
        None
    }
}

/// The byte that the escape at position `at` denotes: an escape is a
/// percent sign and exactly two hexadecimal digits.
pub open spec fn escape_at(s: Seq<char>, at: int) -> Option<u8> {
    if 0 <= at && at + 3 <= s.len() && s[at] == '%' {
        match (hex_digit_value(s[at + 1]), hex_digit_value(s[at + 2])) {
            (Some(high), Some(low)) => Some((high * 16 + low) as u8),
            _ => None,
        }
    } else {
        None
    }
}

/// How many characters are left from position `at` on.
pub open spec fn left_from(s: Seq<char>, at: int) -> nat {
    if 0 <= at < s.len() {
        (s.len() - at) as nat
    } else {
        0
    }
}

/// The bytes of the escapes that stand one after another from position
/// `at` on.
pub open spec fn escaped_bytes(s: Seq<char>, at: int) -> Seq<u8>
    decreases left_from(s, at),
{
    match escape_at(s, at) {
        Some(byte) => seq![byte] + escaped_bytes(s, at + 3),
        None => Seq::<u8>::empty(),
    }
}

/// Whether a byte continues the UTF-8 encoding of a character: it lies
/// between 0x80 and 0xBF and carries six bits of the character's code.
pub open spec fn is_tail(byte: u8) -> bool {
    0x80 <= byte <= 0xbf
}

/// The character's code that starts a run of bytes in UTF-8, with the
/// number of bytes that it takes; none where the run does not start with
/// the encoding of a character. A code is written in one byte (below
/// 0x80), or in a leading byte and one to three bytes that continue it, and
/// always in the shortest form; the codes from 0xD800 to 0xDFFF and those
/// above 0x10FFFF are codes of no character.
pub open spec fn first_code(bytes: Seq<u8>) -> Option<(int, int)> {
    if bytes.len() == 0 {
        None
    } else if bytes[0] <= 0x7f {
        Some((bytes[0] as int, 1))
    } else if 0xc0 <= bytes[0] <= 0xdf {
        let code = (bytes[0] - 0xc0) * 0x40 + (bytes[1] - 0x80);
        if bytes.len() >= 2 && is_tail(bytes[1]) && 0x80 <= code {
            Some((code, 2))
        } else {
            None
        }
    } else if 0xe0 <= bytes[0] <= 0xef {
        let code = (bytes[0] - 0xe0) * 0x1000 + (bytes[1] - 0x80) * 0x40 + (bytes[2] - 0x80);
        if bytes.len() >= 3 && is_tail(bytes[1]) && is_tail(bytes[2]) && 0x800 <= code && !(0xd800
            <= code <= 0xdfff) {
            Some((code, 3))
        } else {
            None
        }
    } else if 0xf0 <= bytes[0] <= 0xf7 {
        let code = (bytes[0] - 0xf0) * 0x4_0000 + (bytes[1] - 0x80) * 0x1000 + (bytes[2] - 0x80)
            * 0x40 + (bytes[3] - 0x80);
        if bytes.len() >= 4 && is_tail(bytes[1]) && is_tail(bytes[2]) && is_tail(bytes[3])
            && 0x1_0000 <= code <= 0x10_ffff {
            Some((code, 4))
        } else {
            None
        }
    } else {
        None
    }
}

/// The text from position `at` on with its URL escapes resolved.
pub open spec fn decoded_from(s: Seq<char>, at: int) -> Seq<char>
    decreases left_from(s, at),
{
    if at < 0 || at >= s.len() {
        Seq::<char>::empty()
    } else {
        match first_code(escaped_bytes(s, at)) {
            Some((code, width)) => seq![code as char] + decoded_from(s, at + 3 * width),
            None => seq![s[at]] + decoded_from(s, at + 1),
        }
    }
}

/// A text with its URL escapes resolved. Escapes that stand one after
/// another give bytes, and the bytes are read as UTF-8: the escapes that
/// make up the encoding of one character stand for that character. A
/// percent sign that starts no such encoding (no two hexadecimal digits
/// follow it, or the bytes are not the UTF-8 encoding of a character) is
/// kept as it is, and so is every other character, the plus sign among them.
pub open spec fn url_decoded(s: Seq<char>) -> Seq<char> {
    decoded_from(s, 0)
}

/// Escapes take three characters each, so a run of them ends within the
/// text.
pub proof fn lemma_escaped_bytes_fit(s: Seq<char>, at: int)
    requires
        0 <= at <= s.len(),
    ensures
        at + 3 * escaped_bytes(s, at).len() <= s.len(),
    decreases left_from(s, at),
{
    if escape_at(s, at) is Some {
        lemma_escaped_bytes_fit(s, at + 3);
    }
}

/// The reading of a first character agrees with UTF-8 as the standard
/// strings are specified: a run of bytes starts with the encoding of a
/// character exactly where `first_code` finds one, and code and width are
/// those of that encoding.
pub proof fn lemma_first_code_is_utf8(bytes: Seq<u8>)
    ensures
        first_code(bytes) is Some <==> valid_first_scalar(bytes),
        first_code(bytes) matches Some((code, width)) ==> code == decode_first_scalar(bytes)
            && width == length_of_first_scalar(bytes) && is_scalar(code as u32),
{
    if bytes.len() > 0 {
        let b0 = bytes[0];
        if b0 <= 0x7f {
            assert((b0 & 0x7f) as u32 == b0 as u32) by (bit_vector)
                requires
                    b0 <= 0x7f,
            ;
        } else if 0xc0 <= b0 <= 0xdf {
            if bytes.len() >= 2 && is_tail(bytes[1]) {
                let b1 = bytes[1];
                assert((((b0 & 0x1f) as u32) << 6) | ((b1 & 0x3f) as u32) == ((b0 - 0xc0) as u32)
                    * 0x40 + ((b1 - 0x80) as u32)) by (bit_vector)
                    requires
                        0xc0 <= b0 <= 0xdf,
                        0x80 <= b1 <= 0xbf,
                ;
            }
        } else if 0xe0 <= b0 <= 0xef {
            if bytes.len() >= 3 && is_tail(bytes[1]) && is_tail(bytes[2]) {
                let b1 = bytes[1];
                let b2 = bytes[2];
                assert((((b0 & 0x0f) as u32) << 12) | (((b1 & 0x3f) as u32) << 6) | ((b2
                    & 0x3f) as u32) == ((b0 - 0xe0) as u32) * 0x1000 + ((b1 - 0x80) as u32) * 0x40
                    + ((b2 - 0x80) as u32)) by (bit_vector)
                    requires
                        0xe0 <= b0 <= 0xef,
                        0x80 <= b1 <= 0xbf,
                        0x80 <= b2 <= 0xbf,
                ;
            }
        } else if 0xf0 <= b0 <= 0xf7 {
            if bytes.len() >= 4 && is_tail(bytes[1]) && is_tail(bytes[2]) && is_tail(bytes[3]) {
                let b1 = bytes[1];
                let b2 = bytes[2];
                let b3 = bytes[3];
                assert((((b0 & 0x07) as u32) << 18) | (((b1 & 0x3f) as u32) << 12) | (((b2
                    & 0x3f) as u32) << 6) | ((b3 & 0x3f) as u32) == ((b0 - 0xf0) as u32) * 0x4_0000
                    + ((b1 - 0x80) as u32) * 0x1000 + ((b2 - 0x80) as u32) * 0x40 + ((b3
                    - 0x80) as u32)) by (bit_vector)
                    requires
                        0xf0 <= b0 <= 0xf7,
                        0x80 <= b1 <= 0xbf,
                        0x80 <= b2 <= 0xbf,
                        0x80 <= b3 <= 0xbf,
                ;
            }
        }
    }
}

/// Converts a code to the character with that code through
/// `char::from_u32`, which gives a character for every Unicode scalar value
/// (a code up to 0x10FFFF outside the range from 0xD800 to 0xDFFF) and
/// nothing for any other number.
#[verifier::external_body]
fn char_of_code(code: u32) -> (c: Option<char>)
    ensures
        is_scalar(code) ==> c == Some(code as char),
        !is_scalar(code) ==> c is None,
{
    char::from_u32(code)
}

/// The value of a hexadecimal digit.
fn digit_value(c: char) -> (value: Option<u8>)
    ensures
        value == hex_digit_value(c),
{
    if '0' <= c && c <= '9' {
        Some(c as u8 - 48)
    } else if 'a' <= c && c <= 'f' {
        Some(c as u8 - 97 + 10)
    } else if 'A' <= c && c <= 'F' {
        Some(c as u8 - 65 + 10)
    } else {
        None
    }
}

/// Reads the byte that the escape at position `at` denotes.
fn read_escape(s: &Vec<char>, at: usize) -> (byte: Option<u8>)
    ensures
        byte == escape_at(s@, at as int),
{
    if s.len() < 3 || at > s.len() - 3 || s[at] != '%' {
        return None;
    }
    match (digit_value(s[at + 1]), digit_value(s[at + 2])) {
        (Some(high), Some(low)) => Some(high * 16 + low),
        _ => None,
    }
}

/// Reads the bytes of the escapes that stand one after another from
/// position `at` on, four of them at most: no character takes more.
fn read_escapes(s: &Vec<char>, at: usize) -> (run: Vec<u8>)
    requires
        at <= s.len(),
    ensures
        run@.len() <= 4,
        at + 3 * run@.len() <= s.len(),
        escaped_bytes(s@, at as int) == run@ + escaped_bytes(s@, at + 3 * run@.len()),
        run@.len() < 4 ==> escaped_bytes(s@, at + 3 * run@.len()).len() == 0,
{
    let mut run: Vec<u8> = Vec::new();
    let mut pos: usize = at;
    assert(escaped_bytes(s@, at as int) =~= run@ + escaped_bytes(s@, at as int));
    while run.len() < 4
        invariant
            run@.len() <= 4,
            pos == at + 3 * run@.len(),
            pos <= s.len(),
            escaped_bytes(s@, at as int) == run@ + escaped_bytes(s@, pos as int),
        ensures
            run@.len() <= 4,
            pos == at + 3 * run@.len(),
            pos <= s.len(),
            escaped_bytes(s@, at as int) == run@ + escaped_bytes(s@, pos as int),
            run@.len() < 4 ==> escaped_bytes(s@, pos as int).len() == 0,
        decreases 4 - run@.len(),
    {
        match read_escape(s, pos) {
            Some(byte) => {
                let ghost before = run@;
                run.push(byte);
                assert(run@ + escaped_bytes(s@, pos + 3) =~= before + (seq![byte] + escaped_bytes(
                    s@,
                    pos + 3,
                )));
                pos = pos + 3;
            },
            None => {
                break ;
            },
        }
    }
    run
}

/// Whether a byte continues the encoding of a character.
fn continues(byte: u8) -> (b: bool)
    ensures
        b == is_tail(byte),
{
    0x80 <= byte && byte <= 0xbf
}

/// Reads the character whose UTF-8 encoding the bytes start with, and the
/// number of bytes that it takes.
fn first_scalar(run: &Vec<u8>) -> (found: Option<(char, usize)>)
    ensures
        match found {
            Some((c, width)) => first_code(run@) matches Some((code, w)) && c == code as char
                && width == w && 1 <= width <= run@.len(),
            None => first_code(run@) is None,
        },
{
    let n = run.len();
    if n == 0 {
        return None;
    }
    let b0 = run[0];
    let (code, width): (u32, usize) = if b0 <= 0x7f {
        (b0 as u32, 1)
    } else if 0xc0 <= b0 && b0 <= 0xdf {
        if n < 2 || !continues(run[1]) {
            return None;
        }
        let code: u32 = (b0 - 0xc0) as u32 * 0x40 + (run[1] - 0x80) as u32;
        if code < 0x80 {
            return None;
        }
        (code, 2)
    } else if 0xe0 <= b0 && b0 <= 0xef {
        if n < 3 || !continues(run[1]) || !continues(run[2]) {
            return None;
        }
        let code: u32 = (b0 - 0xe0) as u32 * 0x1000 + (run[1] - 0x80) as u32 * 0x40 + (run[2]
            - 0x80) as u32;
        if code < 0x800 || (0xd800 <= code && code <= 0xdfff) {
            return None;
        }
        (code, 3)
    } else if 0xf0 <= b0 && b0 <= 0xf7 {
        if n < 4 || !continues(run[1]) || !continues(run[2]) || !continues(run[3]) {
            return None;
        }
        let code: u32 = (b0 - 0xf0) as u32 * 0x4_0000 + (run[1] - 0x80) as u32 * 0x1000 + (run[2]
            - 0x80) as u32 * 0x40 + (run[3] - 0x80) as u32;
        if code < 0x1_0000 || code > 0x10_ffff {
            return None;
        }
        (code, 4)
    } else {
        return None;
    };
    proof {
        lemma_first_code_is_utf8(run@);
    }
    match char_of_code(code) {
        Some(c) => Some((c, width)),
        None => None,
    }
}

/// Resolves the URL escapes of a text.
pub fn decode(s: &Vec<char>) -> (out: Vec<char>)
    ensures
        out@ == url_decoded(s@),
{
    let n = s.len();
    let mut out: Vec<char> = Vec::new();
    let mut i: usize = 0;
    while i < n
        invariant
            n == s.len(),
            i <= n,
            url_decoded(s@) == out@ + decoded_from(s@, i as int),
        decreases n - i,
    {
        let ghost before = out@;
        let ghost all = escaped_bytes(s@, i as int);
        let run = read_escapes(s, i);
        proof {
            // No character takes more than four bytes, so the first four
            // escapes decide.
            let rest = escaped_bytes(s@, i + 3 * run@.len());
            assert(all.len() == run@.len() + rest.len());
            assert(forall|k: int| 0 <= k < run@.len() ==> all[k] == run@[k]);
            assert(first_code(all) == first_code(run@));
        }
        match first_scalar(&run) {
            Some((c, width)) => {
                out.push(c);
                assert(out@ =~= before + seq![c]);
                i = i + 3 * width;
            },
            None => {
                out.push(s[i]);
                assert(out@ =~= before + seq![s@[i as int]]);
                i = i + 1;
            },
        }
    }
    out
}

/// Resolves the URL escapes of a text.
pub fn url_decode(s: &str) -> (out: String)
    ensures
        out@ == url_decoded(s@),
{
    string_of(&decode(&chars_of(s)))
}

/// The scheme that marks the URI of a file.
pub open spec fn file_scheme() -> Seq<char> {
    "file://"@
}

/// Where the first line of a text ends: at its first line feed, or at the
/// end of the text.
pub open spec fn line_end(s: Seq<char>) -> int
    decreases s.len(),
{
    if s.len() == 0 || s[0] == '\n' {
        0
    } else {
        1 + line_end(s.drop_first())
    }
}

/// A line without the carriage return that stood before its line feed.
pub open spec fn without_return(line: Seq<char>, ended: bool) -> Seq<char> {
    if ended && line.len() > 0 && line.last() == '\r' {
        line.drop_last()
    } else {
        line
    }
}

/// The path that a line of a URI list names: the line names a file when it
/// starts with the file scheme, and the path is the rest with its URL
/// escapes resolved. Comment lines, which start with `#`, and other URIs
/// name no file.
pub open spec fn line_path(line: Seq<char>) -> Option<Seq<char>> {
    if occurs_at(line, file_scheme(), 0) {
        Some(url_decoded(line.skip(file_scheme().len() as int)))
    } else {
        None
    }
}

/// The paths of the files that a URI list names, line by line. Lines end
/// with a line feed, or a carriage return and a line feed; the last line
/// needs no ending.
pub open spec fn uri_list_paths(s: Seq<char>) -> Seq<Seq<char>>
    decreases s.len(),
{
    if s.len() == 0 {
        Seq::<Seq<char>>::empty()
    } else {
        let n = line_end(s);
        let ended = n < s.len();
        let line = without_return(s.take(n), ended);
        let rest = if ended {
            s.skip(n + 1)
        } else {
            Seq::<char>::empty()
        };
        let here = match line_path(line) {
            Some(path) => seq![path],
            None => Seq::<Seq<char>>::empty(),
        };
        if 0 <= n <= s.len() {
            here + uri_list_paths(rest)
        } else {
            here
        }
    }
}

/// A position without a line feed before it that holds a line feed, or is
/// the end of the text, is where the first line ends.
pub proof fn lemma_line_end_is(s: Seq<char>, n: int)
    requires
        0 <= n <= s.len(),
        forall|k: int| 0 <= k < n ==> s[k] != '\n',
        n < s.len() ==> s[n] == '\n',
    ensures
        line_end(s) == n,
    decreases s.len(),
{
    if s.len() == 0 || s[0] == '\n' {
    } else {
        assert forall|k: int| 0 <= k < n - 1 implies s.drop_first()[k] != '\n' by {
            assert(s.drop_first()[k] == s[k + 1]);
        }
        lemma_line_end_is(s.drop_first(), n - 1);
    }
}

/// The paths of the files that a URI list names.
pub fn parse_uri_list(text: &str) -> (paths: Vec<String>)
    ensures
        crate::item::texts(paths@) == uri_list_paths(text@),
{
    let s = chars_of(text);
    let scheme = chars_of("file://");
    proof {
        reveal_strlit("file://");
    }
    let total = s.len();
    let mut paths: Vec<String> = Vec::new();
    let mut pos: usize = 0;
    assert(s@.skip(0) =~= s@);
    assert(crate::item::texts(paths@) =~= Seq::<Seq<char>>::empty());
    while pos < total
        invariant
            total == s.len(),
            pos <= total,
            scheme@ == file_scheme(),
            scheme@.len() == 7,
            uri_list_paths(s@) == crate::item::texts(paths@) + uri_list_paths(s@.skip(pos as int)),
        decreases total - pos,
    {
        let ghost rest = s@.skip(pos as int);
        let mut end: usize = pos;
        while end < total && s[end] != '\n'
            invariant
                total == s.len(),
                pos <= end <= total,
                forall|k: int| pos <= k < end ==> s@[k] != '\n',
            decreases total - end,
        {
            end += 1;
        }
        let ended = end < total;
        proof {
            assert forall|k: int| 0 <= k < end - pos implies rest[k] != '\n' by {
                assert(rest[k] == s@[pos + k]);
            }
            lemma_line_end_is(rest, end - pos);
            assert(rest.take(end - pos) =~= s@.subrange(pos as int, end as int));
        }
        let stop: usize = if ended && end > pos && s[end - 1] == '\r' {
            end - 1
        } else {
            end
        };
        let ghost line = without_return(rest.take(end - pos), ended);
        assert(line =~= s@.subrange(pos as int, stop as int));
        let ghost before = crate::item::texts(paths@);
        if stop - pos >= 7 && crate::text::matches_at(&s, &scheme, pos) {
            assert(line.subrange(0, 7) =~= s@.subrange(pos as int, pos + 7));
            assert(occurs_at(line, file_scheme(), 0));
            assert(line.skip(7) =~= s@.subrange(pos + 7, stop as int));
            let path = string_of(&decode(&slice_of(&s, pos + 7, stop)));
            paths.push(path);
            assert(crate::item::texts(paths@) =~= before + seq![line_path(line)->0]);
        } else {
            proof {
                if stop - pos >= 7 {
                    assert(line.subrange(0, 7) =~= s@.subrange(pos as int, pos + 7));
                }
                assert(!occurs_at(line, file_scheme(), 0));
            }
        }
        proof {
            if ended {
                assert(rest.skip(end - pos + 1) =~= s@.skip(end + 1));
            } else {
                assert(s@.skip(total as int) =~= Seq::<char>::empty());
            }
        }
        pos = if ended {
            end + 1
        } else {
            total
        };
    }
    paths
}

/// The marker before the fragment in HTML as Windows wraps it.
pub open spec fn start_marker() -> Seq<char> {
    "<!--StartFragment-->"@
}

/// The marker after the fragment in HTML as Windows wraps it.
pub open spec fn end_marker() -> Seq<char> {
    "<!--EndFragment-->"@
}

/// The HTML that wrapped data carries: what stands between the first start
/// marker and the first end marker, where both are there and the end marker
/// comes after the start marker; otherwise the data as a whole.
pub open spec fn fragment_of(data: Seq<char>) -> Seq<char> {
    match (first_occurrence(data, start_marker()), first_occurrence(data, end_marker())) {
        (Some(start), Some(end)) => if start + start_marker().len() <= end {
            data.subrange(start + start_marker().len(), end)
        } else {
            data
        },
        _ => data,
    }
}

/// Takes the HTML fragment out of its wrapper.
pub fn extract_fragment(data: &str) -> (out: String)
    ensures
        out@ == fragment_of(data@),
{
    let chars = chars_of(data);
    let opening = chars_of("<!--StartFragment-->");
    let closing = chars_of("<!--EndFragment-->");
    proof {
        reveal_strlit("<!--StartFragment-->");
        reveal_strlit("<!--EndFragment-->");
    }
    match find(&chars, &opening) {
        Some(start) => match find(&chars, &closing) {
            Some(end) => {
                assert(opening@.len() == 20 && start + 20 <= chars.len());
                if start + 20 <= end {
                    string_of(&slice_of(&chars, start + 20, end))
                } else {
                    string_of(&chars)
                }
            },
            None => string_of(&chars),
        },
        None => string_of(&chars),
    }
}

/// A text looks like HTML when it starts with an angle bracket or holds
/// the start of an `html` or `body` element.
pub open spec fn looks_like_html(text: Seq<char>) -> bool {
    (text.len() > 0 && text[0] == '<') || is_infix("<html"@, text) || is_infix("<body"@, text)
}

/// The HTML that a paste holds: the pasted text without surrounding white
/// space, where that looks like HTML.
pub open spec fn html_of_paste(pasted: Seq<char>) -> Option<Seq<char>> {
    if looks_like_html(trimmed(pasted)) {
        Some(trimmed(pasted))
    } else {
        None
    }
}

/// Takes the HTML out of a paste.
pub fn pasted_html(pasted: &str) -> (html: Option<String>)
    ensures
        crate::item::opt_text(html) == html_of_paste(pasted@),
{
    let text = trim(&chars_of(pasted));
    let looks = (text.len() > 0 && text[0] == '<') || contains(&text, &chars_of("<html"))
        || contains(&text, &chars_of("<body"));
    if looks {
        Some(string_of(&text))
    } else {
        None
    }
}

/// The pieces of a text between the occurrences of a separator, taken from
/// the left.
pub open spec fn pieces(s: Seq<char>, separator: Seq<char>) -> Seq<Seq<char>>
    decreases s.len(),
{
    match first_occurrence(s, separator) {
        Some(p) => if separator.len() > 0 && 0 <= p && p + separator.len() <= s.len() {
            seq![s.take(p)] + pieces(s.skip(p + separator.len()), separator)
        } else {
            seq![s]
        },
        None => seq![s],
    }
}

/// The path that an entry of a list names: the entry without surrounding
/// white space and quotes, where that starts with a slash.
pub open spec fn listed_path(entry: Seq<char>) -> Option<Seq<char>> {
    let path = stripped(trimmed(entry), Strip::Quotes);
    if path.len() > 0 && path[0] == '/' {
        Some(path)
    } else {
        None
    }
}

/// The paths that the entries of a list name, in their order.
pub open spec fn listed_paths(entries: Seq<Seq<char>>) -> Seq<Seq<char>>
    decreases entries.len(),
{
    if entries.len() == 0 {
        Seq::<Seq<char>>::empty()
    } else {
        let here = match listed_path(entries[0]) {
            Some(path) => seq![path],
            None => Seq::<Seq<char>>::empty(),
        };
        here + listed_paths(entries.drop_first())
    }
}

/// The separator between the entries of a list as AppleScript writes it.
pub open spec fn list_separator() -> Seq<char> {
    ", "@
}

/// The paths in a list of paths as AppleScript writes it: braces, quotes
/// and line ends around the list are dropped, and the entries stand between
/// commas followed by a space.
pub open spec fn path_list(listed: Seq<char>) -> Seq<Seq<char>> {
    listed_paths(pieces(stripped(listed, Strip::ListMarks), list_separator()))
}

/// An occurrence after the first `from` characters is an occurrence in the
/// rest of the text.
pub proof fn lemma_occurrence_in_rest(hay: Seq<char>, needle: Seq<char>, from: int)
    requires
        0 <= from <= hay.len(),
    ensures
        first_occurrence(hay.skip(from), needle) == match occurrence_from(hay, needle, from) {
            Some(p) => Some(p - from),
            None => None,
        },
{
    let rest = hay.skip(from);
    lemma_occurrence_from(hay, needle, from);
    lemma_occurrence_from(rest, needle, 0);
    assert forall|q: int| 0 <= q implies (occurs_at(rest, needle, q) <==> occurs_at(
        hay,
        needle,
        from + q,
    )) by {
        if q + needle.len() <= rest.len() {
            assert(rest.subrange(q, q + needle.len()) =~= hay.subrange(
                from + q,
                from + q + needle.len(),
            ));
        }
    }
    match occurrence_from(hay, needle, from) {
        Some(p) => {
            assert(occurs_at(rest, needle, p - from));
            match first_occurrence(rest, needle) {
                Some(r) => {
                    if r < p - from {
                        assert(occurs_at(hay, needle, from + r));
                    }
                    if p - from < r {
                        assert(!occurs_at(rest, needle, p - from));
                    }
                },
                None => {},
            }
        },
        None => {
            match first_occurrence(rest, needle) {
                Some(r) => {
                    assert(occurs_at(hay, needle, from + r));
                },
                None => {},
            }
        },
    }
}

/// Reads one entry of a list, the characters from `from` up to `to`.
fn read_entry(s: &Vec<char>, from: usize, to: usize) -> (path: Option<String>)
    requires
        from <= to <= s.len(),
    ensures
        crate::item::opt_text(path) == listed_path(s@.subrange(from as int, to as int)),
{
    let (a, b) = strip_bounds(s, from, to, Strip::WhiteSpace);
    let (c, d) = strip_bounds(s, a, b, Strip::Quotes);
    let ghost inner = s@.subrange(c as int, d as int);
    if d > c && s[c] == '/' {
        assert(inner[0] == s@[c as int]);
        Some(string_of(&slice_of(s, c, d)))
    } else {
        proof {
            if d > c {
                assert(inner[0] == s@[c as int]);
            }
        }
        None
    }
}

/// The paths in a list of paths as AppleScript writes it.
pub fn parse_path_list(listed: &str) -> (paths: Vec<String>)
    ensures
        crate::item::texts(paths@) == path_list(listed@),
{
    let body = strip(&chars_of(listed), Strip::ListMarks);
    let separator = chars_of(", ");
    proof {
        reveal_strlit(", ");
    }
    let total = body.len();
    let mut paths: Vec<String> = Vec::new();
    let mut pos: usize = 0;
    assert(body@.skip(0) =~= body@);
    assert(crate::item::texts(paths@) =~= Seq::<Seq<char>>::empty());
    loop
        invariant_except_break
            total == body.len(),
            pos <= total,
            separator@ == list_separator(),
            separator@.len() == 2,
            listed_paths(pieces(body@, separator@)) == crate::item::texts(paths@) + listed_paths(
                pieces(body@.skip(pos as int), separator@),
            ),
        ensures
            crate::item::texts(paths@) == listed_paths(pieces(body@, separator@)),
        decreases total - pos,
    {
        let ghost rest = body@.skip(pos as int);
        let ghost before = crate::item::texts(paths@);
        proof {
            lemma_occurrence_in_rest(body@, separator@, pos as int);
            lemma_occurrence_from(body@, separator@, pos as int);
        }
        match find_from(&body, &separator, pos) {
            Some(p) => {
                proof {
                    assert(rest.take(p - pos) =~= body@.subrange(pos as int, p as int));
                    assert(rest.skip(p - pos + 2) =~= body@.skip(p + 2));
                    let tail = pieces(body@.skip(p + 2), separator@);
                    assert(pieces(rest, separator@) == seq![rest.take(p - pos)] + tail);
                    assert((seq![rest.take(p - pos)] + tail).drop_first() =~= tail);
                }
                match read_entry(&body, pos, p) {
                    Some(path) => {
                        paths.push(path);
                        assert(crate::item::texts(paths@) =~= before + seq![
                            listed_path(rest.take(p - pos))->0,
                        ]);
                    },
                    None => {},
                }
                pos = p + 2;
            },
            None => {
                proof {
                    assert(rest =~= body@.subrange(pos as int, total as int));
                    assert(pieces(rest, separator@) == seq![rest]);
                    assert(seq![rest].drop_first() =~= Seq::<Seq<char>>::empty());
                    assert(listed_paths(Seq::<Seq<char>>::empty()) =~= Seq::<Seq<char>>::empty());
                    assert(listed_paths(seq![rest].drop_first()) =~= Seq::<Seq<char>>::empty());
                    assert(seq![rest][0] == rest);
                    assert(listed_paths(seq![rest]) =~= match listed_path(rest) {
                        Some(path) => seq![path],
                        None => Seq::<Seq<char>>::empty(),
                    });
                }
                match read_entry(&body, pos, total) {
                    Some(path) => {
                        paths.push(path);
                        assert(crate::item::texts(paths@) =~= before + seq![listed_path(rest)->0]);
                    },
                    None => {
                        assert(crate::item::texts(paths@) =~= before + Seq::<Seq<char>>::empty());
                    },
                }
                break ;
            },
        }
    }
    paths
}

} // verus!
