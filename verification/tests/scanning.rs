use http_core::scan::{
    chars_of, decimal_string, find_char, is_whitespace_char, same_text, split_at_char,
    split_lines, split_segments, trim_str,
};

const SAMPLES: [&str; 24] = [
    "",
    "a",
    "\n",
    "\r\n",
    "\r",
    "a\n",
    "a\r\n",
    "a\r",
    "a\nb",
    "a\n\nb",
    "a\r\n\r\nb\r\n",
    "foo\nbar\n\r\nbaz\r",
    "\r\r\n",
    "a\rb\nc",
    "  padded  ",
    "\t\u{a0}x\u{2003}y\u{3000} ",
    " \t\r\n",
    "/",
    "/echo/abc",
    "//a//",
    "GET / HTTP/1.1",
    "na\u{ef}ve: caf\u{e9}\r\n\u{1f600}: \u{1f600}\n",
    "a:b:c",
    ":",
];

#[test]
fn chars_of_gives_every_character() {
    for sample in SAMPLES {
        assert_eq!(chars_of(sample), sample.chars().collect::<Vec<char>>());
    }
}

#[test]
fn whitespace_is_what_the_standard_library_calls_whitespace() {
    for code in 0..=0x10FFFFu32 {
        if let Some(c) = char::from_u32(code) {
            assert_eq!(is_whitespace_char(c), c.is_whitespace(), "U+{:04X}", code);
        }
    }
}

#[test]
fn find_char_gives_the_first_position_or_the_length() {
    assert_eq!(find_char(&chars_of("a:b:c"), ':'), 1);
    assert_eq!(find_char(&chars_of(":"), ':'), 0);
    assert_eq!(find_char(&chars_of("abc"), ':'), 3);
    assert_eq!(find_char(&chars_of(""), ':'), 0);
    assert_eq!(find_char(&chars_of("\u{e9}\u{e9}:"), ':'), 2);
}

#[test]
fn split_lines_agrees_with_the_standard_library() {
    for sample in SAMPLES {
        assert_eq!(split_lines(sample), sample.lines().collect::<Vec<&str>>(), "{:?}", sample);
    }
}

#[test]
fn split_lines_strips_terminators() {
    assert_eq!(split_lines("foo\nbar\n\r\nbaz\r"), vec!["foo", "bar", "", "baz\r"]);
    assert_eq!(split_lines("a\r\n"), split_lines("a"));
    assert_eq!(split_lines(""), Vec::<&str>::new());
    assert_eq!(split_lines("\n"), vec![""]);
}

#[test]
fn split_segments_agrees_with_the_standard_library() {
    for sample in SAMPLES {
        for c in ['/', '\n', ':', ' '] {
            assert_eq!(
                split_segments(sample, c),
                sample.split_inclusive(c).collect::<Vec<&str>>(),
                "{:?} at {:?}",
                sample,
                c
            );
        }
    }
}

#[test]
fn trim_str_agrees_with_the_standard_library() {
    for sample in SAMPLES {
        assert_eq!(trim_str(sample), sample.trim(), "{:?}", sample);
    }
    assert_eq!(trim_str("  padded  "), "padded");
    assert_eq!(trim_str(" \t\r\n"), "");
    assert_eq!(trim_str("in side"), "in side");
}

#[test]
fn split_at_char_agrees_with_the_standard_library() {
    for sample in SAMPLES {
        for c in ['/', ':', ' ', '\n'] {
            assert_eq!(split_at_char(sample, c), sample.split_once(c), "{:?} at {:?}", sample, c);
        }
    }
    assert_eq!(split_at_char("a:b:c", ':'), Some(("a", "b:c")));
    assert_eq!(split_at_char("abc", ':'), None);
    assert_eq!(split_at_char(":", ':'), Some(("", "")));
}

#[test]
fn same_text_compares_character_by_character() {
    assert!(same_text("echo/", "echo/"));
    assert!(!same_text("echo/", "echo"));
    assert!(!same_text("GET", "get"));
    assert!(same_text("", ""));
}

#[test]
fn decimal_string_writes_numbers_in_decimal() {
    assert_eq!(decimal_string(0), "0");
    assert_eq!(decimal_string(7), "7");
    assert_eq!(decimal_string(10), "10");
    assert_eq!(decimal_string(404), "404");
    assert_eq!(decimal_string(1234567890), "1234567890");
    assert_eq!(decimal_string(usize::MAX), usize::MAX.to_string());
    for n in 0..2000usize {
        assert_eq!(decimal_string(n), n.to_string());
    }
}
