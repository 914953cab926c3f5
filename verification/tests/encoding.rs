use std::io::BufRead;
use downloadit::base64::{encode_base64, frame_data_url};
use downloadit::text::{
    decimal_i32, is_blank, join_with, lines, segments, str_contains, str_ends_with,
    str_starts_with, trim_end_cr_string, trim_string,
};

#[test]
fn base64_known_vectors() {
    assert_eq!(encode_base64(b""), "");
    assert_eq!(encode_base64(b"f"), "Zg==");
    assert_eq!(encode_base64(b"fo"), "Zm8=");
    assert_eq!(encode_base64(b"foo"), "Zm9v");
    assert_eq!(encode_base64(b"foob"), "Zm9vYg==");
    assert_eq!(encode_base64(b"fooba"), "Zm9vYmE=");
    assert_eq!(encode_base64(b"foobar"), "Zm9vYmFy");
}

#[test]
fn base64_uses_plus_and_slash() {
    assert_eq!(encode_base64(&[0xfb, 0xff]), "+/8=");
    assert_eq!(encode_base64(&[0x00, 0x00, 0x00]), "AAAA");
    assert_eq!(encode_base64(&[0xff, 0xff, 0xff]), "////");
}

#[test]
fn base64_length_and_padding_law() {
    for n in 0..20usize {
        let data: Vec<u8> = (0..n).map(|i| (i * 37 + 11) as u8).collect();
        let enc = encode_base64(&data);
        assert_eq!(enc.len(), 4 * ((n + 2) / 3));
        let pad = (3 - n % 3) % 3;
        assert!(enc.chars().rev().take(pad).all(|c| c == '='));
        assert!(enc.chars().take(enc.len() - pad).all(|c| c.is_ascii_alphanumeric() || c == '+' || c == '/'));
    }
}

#[test]
fn base64_concatenation_law() {
    let a = b"abcdef";
    let b = b"xy";
    let whole: Vec<u8> = a.iter().chain(b.iter()).copied().collect();
    assert_eq!(encode_base64(&whole), format!("{}{}", encode_base64(a), encode_base64(b)));
}

#[test]
fn base64_distinct_inputs_distinct_outputs() {
    assert_ne!(encode_base64(&[1, 2]), encode_base64(&[1, 2, 0]));
    assert_ne!(encode_base64(&[0]), encode_base64(&[0, 0]));
}

#[test]
fn frame_url_from_bytes() {
    assert_eq!(frame_data_url(Some(vec![0xff, 0xd8, 0xff])), Ok("data:image/jpeg;base64,/9j/".to_string()));
}

#[test]
fn frame_url_empty_frame() {
    assert_eq!(frame_data_url(Some(vec![])), Err("Empty frame — try again in a moment".to_string()));
}

#[test]
fn frame_url_unreadable() {
    assert_eq!(
        frame_data_url(None),
        Err("Frame capture failed — recording may still be starting".to_string())
    );
}

#[test]
fn trim_handles_unicode_white_space() {
    assert_eq!(trim_string("  a b \t\n"), "a b");
    assert_eq!(trim_string("\u{a0}\u{3000}x\u{2003}"), "x");
    assert_eq!(trim_string(" \r\n "), "");
    assert_eq!(trim_string("x\u{200b}"), "x\u{200b}");
    assert!(is_blank(" \t\u{85} "));
    assert!(!is_blank(" . "));
}

#[test]
fn lines_like_str_lines() {
    let cases = ["", "a", "a\n", "a\r\nb", "foo\r\nbar\n\nbaz\r", "\n\n", "x\r", "\r\n"];
    for c in cases {
        let expected: Vec<String> = c.lines().map(|l| l.to_string()).collect();
        assert_eq!(lines(c), expected, "input {:?}", c);
    }
}

#[test]
fn segments_like_bufread_split() {
    let cases: [&[u8]; 6] = [b"", b"a", b"a\n", b"a\n\nb", b"\n", b"x\ny\n"];
    for c in cases {
        let expected: Vec<Vec<u8>> = std::io::BufReader::new(c).split(b'\n').map(|s| s.unwrap()).collect();
        assert_eq!(segments(c), expected, "input {:?}", c);
    }
}

#[test]
fn decimal_rendering() {
    for n in [0, 7, 10, 123, -1, -45, i32::MAX, i32::MIN] {
        assert_eq!(decimal_i32(n), n.to_string());
    }
}

#[test]
fn searches() {
    assert!(str_contains("[download] 5%", "%"));
    assert!(!str_contains("abc", "abd"));
    assert!(str_contains("abc", ""));
    assert!(str_ends_with("video.mp4.part", ".part"));
    assert!(!str_ends_with("part", ".part"));
    assert!(str_starts_with("https://x", "http"));
    assert!(!str_starts_with("ht", "http"));
}

#[test]
fn carriage_returns_and_joins() {
    assert_eq!(trim_end_cr_string("abc\r\r"), "abc");
    assert_eq!(trim_end_cr_string("a\rb"), "a\rb");
    assert_eq!(join_with(&vec!["a".to_string(), "b".to_string(), "c".to_string()], " | "), "a | b | c");
    assert_eq!(join_with(&vec![], " | "), "");
}
