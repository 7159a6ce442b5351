use abuse_scraping_classifier::text::{
    chars_of, contains_text, is_blank, is_white_space, parse_number, push_decimal, push_signed,
    same, split_text, strip_prefix, to_ascii_lower, trim,
};

const SAMPLES: [&str; 10] = [
    "",
    " ",
    "/",
    "a/b//c/",
    "?x=1?y",
    " \u{3000}kept \u{2028} inside\u{85}\t",
    "x-JEV-Abuse",
    "\u{200b}no space\u{200b}",
    "Grüße, Ärger",
    "\u{1f980}/\u{1f980}",
];

#[test]
fn white_space_is_that_of_unicode() {
    for u in 0..=0x10ffff {
        if let Some(c) = char::from_u32(u) {
            assert_eq!(is_white_space(c), c.is_whitespace(), "{u:x}");
        }
    }
}

#[test]
fn cutting_and_trimming() {
    for s in SAMPLES {
        for sep in ['/', '?', ',', 'a'] {
            let pieces: Vec<String> = s.split(sep).map(|p| p.to_string()).collect();
            assert_eq!(split_text(s, sep), pieces);
        }
        assert_eq!(trim(s), s.trim());
        assert_eq!(is_blank(s), s.trim().is_empty());
        assert_eq!(to_ascii_lower(s), s.to_ascii_lowercase());
        assert_eq!(chars_of(s), s.chars().collect::<Vec<char>>());
        for prefix in ["", "a", "a/b", "x-JEV-", "Grü", "\u{1f980}"] {
            assert_eq!(strip_prefix(s, prefix).as_deref(), s.strip_prefix(prefix));
        }
        for t in SAMPLES {
            assert_eq!(same(s, t), s == t);
        }
    }
    let list = vec!["a".to_string(), "b".to_string()];
    assert!(contains_text(&list, "b"));
    assert!(!contains_text(&list, "ab"));
    assert!(!contains_text(&[], ""));
}

#[test]
fn numbers_are_written_and_read() {
    for n in [0u64, 7, 10, 99, 100, 429, 1_000_000, u64::MAX] {
        let mut out = "n=".to_string();
        push_decimal(&mut out, n);
        assert_eq!(out, format!("n={n}"));
    }
    for n in [0i64, -1, 10, -10, i64::MAX, i64::MIN] {
        let mut out = String::new();
        push_signed(&mut out, n);
        assert_eq!(out, format!("{n}"));
    }
    for s in ["0", "007", "9223372036854775807", "9223372036854775808", "99999999999999999999"] {
        assert_eq!(parse_number(s), s.parse::<i64>().ok());
    }
}
