use ted::text::{escape_default, pad_right, truncate};
use ted::words::{parse_u16, same_text, split_words};

#[test]
fn truncate_cuts_after_max_chars() {
    assert_eq!(truncate("hello", 3), "hel");
    assert_eq!(truncate("hello", 5), "hello");
    assert_eq!(truncate("hello", 9), "hello");
    assert_eq!(truncate("", 0), "");
    assert_eq!(truncate("abc", 0), "");
}

#[test]
fn truncate_counts_characters_not_bytes() {
    assert_eq!(truncate("héllo", 2), "hé");
    assert_eq!(truncate("日本語", 1), "日");
    assert_eq!(truncate("日本語", 3), "日本語");
}

#[test]
fn pad_right_fills_with_spaces() {
    assert_eq!(pad_right("ab", 5), "ab   ");
    assert_eq!(pad_right("abcdef", 3), "abcdef");
    assert_eq!(pad_right("é", 3), "é  ");
    assert_eq!(pad_right("", 2), "  ");
    assert_eq!(pad_right("ab", 5), format!("{:<5}", "ab"));
}

#[test]
fn escape_default_matches_std() {
    let chars = [
        'a', 'Z', ' ', '~', '\t', '\r', '\n', '\\', '\'', '"', '\u{0}', '\u{1}', '\u{7f}', 'é',
        '日', '\u{10ffff}', '\u{1f600}', '\u{ff}',
    ];
    for c in chars {
        assert_eq!(escape_default(c), c.escape_default().to_string(), "char {:?}", c);
    }
}

#[test]
fn escape_default_examples() {
    assert_eq!(escape_default('\n'), "\\n");
    assert_eq!(escape_default('é'), "\\u{e9}");
    assert_eq!(escape_default('\u{0}'), "\\u{0}");
    assert_eq!(escape_default('q'), "q");
}

#[test]
fn parse_u16_matches_std() {
    let inputs = [
        "", "+", "-", "0", "7", "65535", "65536", "+12", "-1", "-0", "1a", "007", "++5", " 5",
        "99999999999", "٣", "12 ", "+0065535",
    ];
    for s in inputs {
        assert_eq!(parse_u16(s), s.parse::<u16>().ok(), "input {:?}", s);
    }
}

#[test]
fn split_words_matches_std() {
    let inputs = [
        "", "q", "  set  minimap\twidth 8 ", "gr\n12", "a\u{c}b\rc", "日本 語", "   ", "x  ",
    ];
    for s in inputs {
        let expected: Vec<String> = s.split_ascii_whitespace().map(|w| w.to_string()).collect();
        assert_eq!(split_words(s), expected, "input {:?}", s);
    }
}

#[test]
fn same_text_compares_characters() {
    assert!(same_text("set", "set"));
    assert!(!same_text("set", "se"));
    assert!(!same_text("gr", "gc"));
    assert!(same_text("", ""));
}
