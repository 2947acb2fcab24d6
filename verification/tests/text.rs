use domain_scanner::number::{decimal, parse_u64};
use domain_scanner::text::{
    contains_char, contains_text, copy_texts, count_bytes, ends_with, eq_ignore_ascii_case,
    find_first, find_last, holds_text, is_whitespace, replace_text, rsplit_once, same_text,
    split_class, split_first, split_last, starts_with, to_ascii_lowercase, to_chars, trim,
    trim_class, trim_end_class, trim_start_class, trim_start_text, CharClass,
};

const SAMPLES: [&str; 12] = [
    "",
    " ",
    "a",
    "  a b\t\n",
    "\u{a0}x\u{3000}",
    "..a.b..",
    "/a/b/c",
    "?x?y",
    "ÄÖÜ É z",
    "MiXeD Case",
    "\u{85}\u{2028}mid\u{200b}",
    "{ext}/{ext}x{ex{ext}",
];

#[test]
fn white_space_is_that_of_std() {
    for code in 0..=0x10ffffu32 {
        if let Some(c) = char::from_u32(code) {
            assert_eq!(is_whitespace(c), c.is_whitespace(), "{code:x}");
        }
    }
}

#[test]
fn lower_case_is_that_of_std() {
    for code in 0..=0x10ffffu32 {
        if let Some(c) = char::from_u32(code) {
            let text = c.to_string();
            assert_eq!(to_ascii_lowercase(&text), text.to_ascii_lowercase(), "{code:x}");
        }
    }
}

#[test]
fn trimming_is_that_of_std() {
    for s in SAMPLES {
        assert_eq!(trim(s), s.trim());
        assert_eq!(trim_start_class(s, CharClass::Only('.')), s.trim_start_matches('.'));
        assert_eq!(trim_end_class(s, CharClass::Only('/')), s.trim_end_matches('/'));
        assert_eq!(trim_class(s, CharClass::Only('.')), s.trim_matches('.'));
        assert_eq!(trim_start_text(s, "  "), s.trim_start_matches("  "));
    }
    assert_eq!(trim_start_text("http://http://x", "http://"), "x");
    assert_eq!(trim_start_text("xyz", ""), "xyz");
}

#[test]
fn searching_is_that_of_std() {
    for s in SAMPLES {
        for part in ["", "a", "b\t", "{ext}", "Ö", ".."] {
            assert_eq!(contains_text(s, part), s.contains(part));
            assert_eq!(starts_with(s, part), s.starts_with(part));
            assert_eq!(ends_with(s, part), s.ends_with(part));
        }
        for c in ['a', '.', '/', '?', 'É'] {
            assert_eq!(contains_char(s, c), s.contains(c));
            assert_eq!(rsplit_once(s, c), s.rsplit_once(c));
            assert_eq!(split_first(s, c), s.split(c).next().unwrap());
            assert_eq!(split_last(s, c), s.rsplit(c).next().unwrap());
        }
    }
}

#[test]
fn positions_are_the_first_and_the_last() {
    let chars = to_chars("abcabc");
    assert_eq!(find_first(&chars, 'b'), Some(1));
    assert_eq!(find_last(&chars, 'b'), Some(4));
    assert_eq!(find_first(&chars, 'x'), None);
    assert_eq!(find_last(&chars, 'x'), None);
}

#[test]
fn replacing_and_splitting_are_those_of_std() {
    for s in SAMPLES {
        for by in ["", "zip", "{ext}"] {
            assert_eq!(replace_text(s, "{ext}", by), s.replace("{ext}", by));
        }
        let parts: Vec<&str> = s.split('/').collect();
        assert_eq!(split_class(s, CharClass::Only('/')), parts);
        let words: Vec<&str> = s.split(char::is_whitespace).collect();
        assert_eq!(split_class(s, CharClass::WhiteSpace), words);
    }
}

#[test]
fn tokens_break_at_quotes_brackets_and_separators() {
    let parts = split_class("a\"b'c`d<e>f(g)h[i]j{k}l,m;n o", CharClass::TokenBreak);
    let letters: Vec<String> = "abcdefghijklmno".chars().map(String::from).collect();
    assert_eq!(parts, letters);
    assert_eq!(split_class("a:b=c&d|e\\f", CharClass::TokenBreak), vec!["a:b=c&d|e\\f"]);
}

#[test]
fn texts_are_compared_by_their_characters() {
    assert!(same_text("Grün", "Grün"));
    assert!(!same_text("Grün", "grün"));
    assert!(eq_ignore_ascii_case("Video", "vIDEO"));
    assert!(!eq_ignore_ascii_case("É", "é"));
    let items = vec!["a".to_owned(), "b".to_owned()];
    assert!(holds_text(&items, "b"));
    assert!(!holds_text(&items, "c"));
    assert_eq!(copy_texts(&items), items);
}

#[test]
fn bytes_are_counted_not_characters() {
    assert_eq!(count_bytes("a"), 1);
    assert_eq!(count_bytes("é"), 2);
    assert_eq!(count_bytes("€"), 3);
    assert_eq!(count_bytes("𝄞"), 4);
}

#[test]
fn numbers_are_read_as_std_reads_them() {
    for s in [
        "", "0", "7", "007", "+7", "+", "++7", "-7", " 7", "7 ", "7a", "18446744073709551615",
        "18446744073709551616", "99999999999999999999999", "+18446744073709551615", "٣", "*",
    ] {
        assert_eq!(parse_u64(s), s.parse::<u64>().ok(), "{s}");
    }
}

#[test]
fn numbers_are_written_as_std_writes_them() {
    for n in [0u128, 1, 9, 10, 99, 100, 1700000000000000000, u64::MAX as u128, u128::MAX] {
        assert_eq!(decimal(n), n.to_string());
    }
}

#[test]
fn decimal_text_reads_back() {
    for n in [0u64, 5, 10, 4096, u64::MAX] {
        assert_eq!(parse_u64(&decimal(n as u128)), Some(n));
    }
}
