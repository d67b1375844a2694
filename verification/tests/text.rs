use augur::text::{chars_of, is_whitespace, parse_u64, split_whitespace, u64_to_decimal};

#[test]
fn splits_on_runs_of_white_space() {
    let words = split_whitespace("  >royalroad   add\thttps://x.test/f \n");
    assert_eq!(words, vec![">royalroad".to_string(), "add".to_string(), "https://x.test/f".to_string()]);
}

#[test]
fn splits_like_std_on_unicode_spaces() {
    let s = "a\u{3000}b\u{a0}c\u{2009}d\u{85}e\u{200b}f";
    let ours = split_whitespace(s);
    let std: Vec<String> = s.split_whitespace().map(|w| w.to_string()).collect();
    assert_eq!(ours, std);
    assert_eq!(ours.len(), 5);
}

#[test]
fn empty_and_blank_texts_have_no_words() {
    assert!(split_whitespace("").is_empty());
    assert!(split_whitespace(" \t\r\n ").is_empty());
}

#[test]
fn whitespace_agrees_with_std() {
    for code in 0u32..0x3100 {
        if let Some(c) = char::from_u32(code) {
            assert_eq!(is_whitespace(c), c.is_whitespace(), "at {:x}", code);
        }
    }
}

#[test]
fn chars_keep_their_order() {
    assert_eq!(chars_of("añb"), vec!['a', 'ñ', 'b']);
}

#[test]
fn decimal_matches_to_string() {
    for n in [0u64, 7, 10, 99, 100, 123456789, u64::MAX] {
        assert_eq!(u64_to_decimal(n), n.to_string());
    }
}

#[test]
fn parses_like_std() {
    for s in ["0", "42", "+42", "", "+", "-1", "12a", " 1", "18446744073709551615", "18446744073709551616", "007"] {
        assert_eq!(parse_u64(s), s.parse::<u64>().ok(), "on {:?}", s);
    }
}

#[test]
fn decimal_reads_back() {
    for n in [0u64, 1, 9, 10, 731, 80_000_000_000_000_001, u64::MAX] {
        assert_eq!(parse_u64(&u64_to_decimal(n)), Some(n));
    }
}
