use green_light::number::{parse_u32, parse_u64, render, render_signed};
use green_light::text::{
    begins_with, has, is_white, same, split_at_last, split_lines, split_text, split_words,
    text_from_utf8, to_lower, trimmed, Separator,
};

const SAMPLES: [&str; 16] = [
    "", " ", "a", "a.b", ".a..b.", "a/b,c", " a b ", "\n", "a\n", "a\r\nb\r\n", "a\rb\n\n", "a\r",
    "\u{a0}x\u{3000}y\u{2028}", "\u{e9}\u{130}\u{3a3}", "x:y:z", ":",
];

#[test]
fn white_space_is_that_of_std() {
    for n in 0..=0x10ffffu32 {
        if let Some(c) = char::from_u32(n) {
            assert_eq!(is_white(c), c.is_whitespace(), "{n:x}");
        }
    }
}

#[test]
fn splitting_is_that_of_std() {
    for s in SAMPLES {
        assert_eq!(split_text(s, Separator::Dot), s.split('.').collect::<Vec<_>>());
        assert_eq!(split_text(s, Separator::Slash), s.split('/').collect::<Vec<_>>());
        assert_eq!(split_text(s, Separator::SlashOrComma), s.split(['/', ',']).collect::<Vec<_>>());
        assert_eq!(split_text(s, Separator::Newline), s.split('\n').collect::<Vec<_>>());
        assert_eq!(split_text(s, Separator::WhiteSpace), s.split(char::is_whitespace).collect::<Vec<_>>());
        assert_eq!(split_words(s), s.split_whitespace().collect::<Vec<_>>());
        assert_eq!(split_lines(s), s.lines().collect::<Vec<_>>());
    }
}

#[test]
fn searching_is_that_of_std() {
    for s in SAMPLES {
        assert_eq!(trimmed(s), s.trim());
        assert_eq!(to_lower(s), s.to_lowercase());
        let parts = s.rsplit_once(':').map(|(a, b)| (a.to_string(), b.to_string()));
        assert_eq!(split_at_last(s, ':'), parts);
        for t in SAMPLES {
            assert_eq!(same(s, t), s == t);
            assert_eq!(begins_with(s, t), s.starts_with(t));
            assert_eq!(has(s, t), s.contains(t));
        }
    }
    assert_eq!(to_lower("\u{c9}A\u{3a3}"), "\u{e9}a\u{3c2}");
}

#[test]
fn lower_case_beyond_ascii_begins_beyond_ascii() {
    for n in 0x80..=0x10ffffu32 {
        if let Some(c) = char::from_u32(n) {
            let lower = to_lower(&format!("A{c}Z"));
            let mut rest = lower.strip_prefix('a').unwrap().chars();
            match rest.next().unwrap() {
                'k' => assert_eq!(c, '\u{212a}'),
                'i' => assert_eq!((c, rest.next()), ('\u{130}', Some('\u{307}'))),
                first => assert!(first > '\u{7f}', "{n:x}"),
            }
        }
    }
}

#[test]
fn utf8_is_repaired_as_std_does() {
    for bytes in [&b"plain"[..], b"", b"\xff", b"a\xc3\xa9b", b"a\xc3", b"\xe2\x82x", b"\xed\xa0\x80"] {
        assert_eq!(text_from_utf8(bytes), String::from_utf8_lossy(bytes));
    }
}

#[test]
fn numbers_are_read_as_std_does() {
    let samples = [
        "", "0", "+0", "-0", "-1", "+", "++1", "007", "4294967295", "4294967296", " 1", "1 ", "1_0",
        "18446744073709551615", "18446744073709551616", "99999999999999999999999", "\u{0665}", "1a",
    ];
    for s in samples {
        assert_eq!(parse_u32(s), s.parse::<u32>().ok(), "{s}");
        assert_eq!(parse_u64(s), s.parse::<u64>().ok(), "{s}");
    }
}

#[test]
fn numbers_are_written_as_std_does() {
    for n in [0, 9, 10, 1024, u64::MAX] {
        assert_eq!(render(n), n.to_string());
        assert_eq!(parse_u64(&render(n)), Some(n));
    }
    for n in [0, 7, -1, i32::MAX, i32::MIN] {
        assert_eq!(render_signed(n), n.to_string());
    }
}
