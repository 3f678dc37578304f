use aparatchi::text::{
    chars_of, concat2, concat3, concat5, count_text, folded_chars, has_char, has_prefix, has_text,
    is_blank, number_text, padded_text, parse_i32, parse_i64, parse_usize, same_text, text_at_most,
    text_of, trim,
};

const WHITE: [u32; 25] = [
    0x9, 0xa, 0xb, 0xc, 0xd, 0x20, 0x85, 0xa0, 0x1680, 0x2000, 0x2001, 0x2002, 0x2003, 0x2004,
    0x2005, 0x2006, 0x2007, 0x2008, 0x2009, 0x200a, 0x2028, 0x2029, 0x202f, 0x205f, 0x3000,
];

#[test]
fn white_space_is_what_the_list_says() {
    for code in 0u32..=0x10ffff {
        if let Some(c) = char::from_u32(code) {
            let text = c.to_string();
            assert_eq!(is_blank(&text), WHITE.contains(&code), "{:x}", code);
        }
    }
}

#[test]
fn trimming_takes_both_ends() {
    assert_eq!(trim("  a b\t\n"), "a b");
    assert_eq!(trim("\u{3000}x\u{85}"), "x");
    assert_eq!(trim(" \t "), "");
    assert_eq!(trim(""), "");
    assert_eq!(trim("none"), "none");
}

#[test]
fn a_trimmed_blank_text_is_empty() {
    for s in ["", " ", "\t\u{a0}", " x "] {
        assert_eq!(is_blank(s), trim(s).is_empty());
    }
}

#[test]
fn numbers_read_back() {
    for n in [0i64, 7, -7, 10, 1234567890, i64::MAX, i64::MIN] {
        assert_eq!(number_text(n), n.to_string());
        assert_eq!(parse_i64(&number_text(n)), Some(n));
    }
    assert_eq!(count_text(usize::MAX), usize::MAX.to_string());
    assert_eq!(count_text(0), "0");
}

#[test]
fn padding_counts_the_sign() {
    for (n, w) in [(5i64, 2usize), (5, 1), (5, 0), (-5, 3), (123, 2), (0, 4), (-1, 2), (i64::MIN, 25)] {
        assert_eq!(padded_text(n, w), format!("{:0width$}", n, width = w));
    }
    assert_eq!(padded_text(7, 3), "007");
    assert_eq!(padded_text(-7, 3), "-07");
    assert_eq!(parse_i64(&padded_text(42, 9)), Some(42));
}

#[test]
fn parsing_agrees_with_std() {
    let samples = [
        "", "+", "-", "0", "-0", "+0", "007", "12a", " 1", "1 ", "2147483647", "2147483648",
        "-2147483648", "-2147483649", "9223372036854775807", "9223372036854775808",
        "-9223372036854775808", "-9223372036854775809", "18446744073709551615",
        "18446744073709551616", "--1", "+-1", "٣",
    ];
    for s in samples {
        assert_eq!(parse_i32(s), s.parse::<i32>().ok(), "{}", s);
        assert_eq!(parse_i64(s), s.parse::<i64>().ok(), "{}", s);
        assert_eq!(parse_usize(s), s.parse::<usize>().ok(), "{}", s);
    }
}

#[test]
fn texts_are_searched_by_character() {
    assert!(has_text("naïve café", "ïve c"));
    assert!(has_text("abc", ""));
    assert!(has_text("", ""));
    assert!(!has_text("", "a"));
    assert!(!has_text("ab", "abc"));
    assert!(has_char("S#E*", '*'));
    assert!(!has_char("S#E", '*'));
    assert!(has_prefix("https://x", "https://"));
    assert!(!has_prefix("http", "http://"));
    assert!(same_text("a", "a"));
    assert!(!same_text("a", "A"));
}

#[test]
fn texts_are_joined() {
    assert_eq!(concat2("a", "b"), "ab");
    assert_eq!(concat3("a", "", "c"), "ac");
    assert_eq!(concat5("1", "2", "3", "4", "5"), "12345");
    assert_eq!(chars_of("aé"), vec!['a', 'é']);
    assert_eq!(text_of(&['x', 'ß']), "xß");
}

#[test]
fn texts_are_ordered_by_code_point() {
    let words = ["", "A", "B", "a", "ab", "b", "Ä", "ß", "日"];
    for a in words {
        for b in words {
            assert_eq!(text_at_most(&chars_of(a), &chars_of(b)), a <= b, "{} {}", a, b);
        }
    }
}

#[test]
fn folding_lowers_ascii_letters_only() {
    assert_eq!(text_of(&folded_chars("ABÄz9")), "abÄz9");
}
