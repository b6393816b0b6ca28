use tasks::text::{char_is_white_space, decimal_string, join_lines, split_lines, trim};

const SAMPLES: [&str; 30] = [
    "",
    " ",
    "a",
    " a",
    "a ",
    "  a b  ",
    "\t\n\r a\u{b}\u{c}",
    "\u{85}x\u{a0}",
    "\u{1680}\u{2000}\u{2001}\u{2002}mid dle\u{2003}\u{2004}\u{2005}",
    "\u{2006}\u{2007}\u{2008}\u{2009}\u{200a}z\u{2028}\u{2029}\u{202f}\u{205f}\u{3000}",
    "\u{200b}zero width is no white space\u{200b}",
    "\u{180e}mongolian vowel separator\u{180e}",
    "\u{feff}byte order mark\u{feff}",
    "   ",
    "\n",
    "\r\n",
    "\n\n",
    "a\n",
    "a\nb",
    "a\r\nb\r\n",
    "a\rb\n",
    "a\r",
    "a\n\r",
    "\r",
    "\r\r\n",
    "head\nbody one\nbody two\n",
    "head\n\nbody after an empty line",
    "no newline at the end",
    "h\u{e9}t\u{e9}ro\nligne \u{1f600}\r\nfin",
    "\n\nlast",
];

#[test]
fn white_space_is_what_std_says() {
    for code in 0..=0x10ffffu32 {
        if let Some(c) = char::from_u32(code) {
            assert_eq!(char_is_white_space(c), c.is_whitespace(), "U+{code:04X}");
        }
    }
}

#[test]
fn trim_is_what_std_does() {
    for sample in SAMPLES {
        assert_eq!(trim(sample), sample.trim(), "{sample:?}");
    }
}

#[test]
fn trim_removes_both_ends_only() {
    assert_eq!(trim("  buy  milk \n"), "buy  milk");
    assert_eq!(trim(""), "");
    assert_eq!(trim(" \t\r\n"), "");
    assert_eq!(trim("x"), "x");
    assert_eq!(trim("\u{3000}x y\u{2028}"), "x y");
}

#[test]
fn lines_are_what_std_gives() {
    for sample in SAMPLES {
        let expected: Vec<&str> = sample.lines().collect();
        assert_eq!(split_lines(sample), expected, "{sample:?}");
    }
}

#[test]
fn lines_end_at_line_feeds() {
    assert!(split_lines("").is_empty());
    assert_eq!(split_lines("\n"), vec![""]);
    assert_eq!(split_lines("a\nb"), vec!["a", "b"]);
    assert_eq!(split_lines("a\nb\n"), vec!["a", "b"]);
    assert_eq!(split_lines("a\r\nb\r\n"), vec!["a", "b"]);
    assert_eq!(split_lines("a\n\nb"), vec!["a", "", "b"]);
    assert_eq!(split_lines("a\r"), vec!["a\r"]);
    assert_eq!(split_lines("a\rb\n"), vec!["a\rb"]);
    assert_eq!(split_lines("\r\r\n"), vec!["\r"]);
}

#[test]
fn join_puts_one_line_feed_between_lines() {
    let lines: Vec<String> = ["head", "one", "", "two"].iter().map(|l| l.to_string()).collect();
    assert_eq!(join_lines(&lines, 0), "head\none\n\ntwo");
    assert_eq!(join_lines(&lines, 1), "one\n\ntwo");
    assert_eq!(join_lines(&lines, 3), "two");
    assert_eq!(join_lines(&lines, 4), "");
    assert_eq!(join_lines(&Vec::new(), 0), "");
}

#[test]
fn join_is_what_std_does() {
    for sample in SAMPLES {
        let lines = split_lines(sample);
        for from in 0..=lines.len() {
            assert_eq!(join_lines(&lines, from), lines[from..].join("\n"));
        }
    }
}

#[test]
fn decimal_is_what_std_prints() {
    let numbers = [
        0u64,
        1,
        9,
        10,
        11,
        99,
        100,
        101,
        1234567890,
        9_999_999_999,
        u32::MAX as u64,
        u64::MAX - 1,
        u64::MAX,
    ];
    for number in numbers {
        assert_eq!(decimal_string(number), number.to_string());
    }
    for number in 0..2000u64 {
        assert_eq!(decimal_string(number), number.to_string());
    }
}

#[test]
fn decimal_has_no_leading_zero() {
    assert_eq!(decimal_string(0), "0");
    assert_eq!(decimal_string(7), "7");
    assert_eq!(decimal_string(1000), "1000");
    assert_eq!(decimal_string(18446744073709551615), "18446744073709551615");
}
