use bytes::Bytes;
use navar::fetch::parse_header;
use navar::lines::LineBuffer;
use navar::text::{drop_first_if, drop_last_if, same_bytes, same_text, split_first};

/// The characters that are trimmed.
fn white_space(c: char) -> bool {
    matches!(
        c,
        '\u{9}'..='\u{d}'
            | ' '
            | '\u{85}'
            | '\u{a0}'
            | '\u{1680}'
            | '\u{2000}'..='\u{200a}'
            | '\u{2028}'
            | '\u{2029}'
            | '\u{202f}'
            | '\u{205f}'
            | '\u{3000}'
    )
}

#[test]
fn lines_are_split_at_newlines() {
    let mut lines = LineBuffer::new();
    assert_eq!(lines.append(Bytes::from_static(b"ab")), Vec::<Vec<u8>>::new());
    assert_eq!(lines.append(Bytes::from_static(b"c\n\nd\r\ne")), vec![
        b"abc".to_vec(),
        b"".to_vec(),
        b"d\r".to_vec()
    ]);
    assert_eq!(lines.append(Bytes::new()), Vec::<Vec<u8>>::new());
    assert_eq!(lines.append(Bytes::from_static(b"\n")), vec![b"e".to_vec()]);
}

#[test]
fn lines_rebuild_the_stream() {
    let stream = b"one\ntwo\n\n\nthree";
    for cut in 0..=stream.len() {
        let mut lines = LineBuffer::new();
        let mut all = lines.append(Bytes::copy_from_slice(&stream[..cut]));
        all.extend(lines.append(Bytes::copy_from_slice(&stream[cut..])));
        assert!(all.iter().all(|line| !line.contains(&b'\n')));
        let mut rebuilt: Vec<u8> = Vec::new();
        for line in &all {
            rebuilt.extend_from_slice(line);
            rebuilt.push(b'\n');
        }
        assert_eq!(rebuilt, b"one\ntwo\n\n\n");
        assert_eq!(lines.append(Bytes::from_static(b"\n")), vec![b"three".to_vec()]);
    }
}

#[test]
fn lines_without_newline_stay_whole() {
    let mut lines = LineBuffer::new();
    for _ in 0..1000 {
        assert!(lines.append(Bytes::from_static(b"0123456789")).is_empty());
    }
    let read = lines.append(Bytes::from_static(b"\n"));
    assert_eq!(read.len(), 1);
    assert_eq!(read[0].len(), 10000);
}

#[test]
fn trimmed_characters_are_white_space() {
    for c in '\u{0}'..=char::MAX {
        assert_eq!(c.is_whitespace(), white_space(c), "{:x}", c as u32);
    }
}

#[test]
fn trimming_reaches_written_headers() {
    assert_eq!(parse_header("\u{2003}a\u{3000}:\u{85}b \u{a0}"), Some(("a", "b")));
    assert_eq!(parse_header("\u{200b}a:b\u{feff}"), Some(("\u{200b}a", "b\u{feff}")));
}

#[test]
fn one_character_is_dropped() {
    assert_eq!(drop_first_if("  x", ' '), " x");
    assert_eq!(drop_first_if("x ", ' '), "x ");
    assert_eq!(drop_first_if("", ' '), "");
    assert_eq!(drop_first_if("\u{feff}x", '\u{feff}'), "x");
    assert_eq!(drop_last_if("x\r\r", '\r'), "x\r");
    assert_eq!(drop_last_if("\rx", '\r'), "\rx");
    assert_eq!(drop_last_if("", '\r'), "");
}

#[test]
fn text_is_split_at_the_first_delimiter() {
    assert_eq!(split_first("a:b:c", ':'), ("a", Some("b:c")));
    assert_eq!(split_first(":", ':'), ("", Some("")));
    assert_eq!(split_first("abc", ':'), ("abc", None));
    assert_eq!(split_first("", ':'), ("", None));
    assert_eq!(split_first("gr\u{fc}n", '\u{fc}'), ("gr", Some("n")));
}

#[test]
fn texts_and_bytes_are_compared() {
    assert!(same_text("h\u{e9}", "h\u{e9}"));
    assert!(!same_text("h\u{e9}", "he\u{301}"));
    assert!(!same_text("a", "ab"));
    assert!(same_text("", ""));
    assert!(same_bytes(b"h2", b"h2"));
    assert!(!same_bytes(b"h2", b"h3"));
    assert!(!same_bytes(b"h2", b"h2c"));
}
