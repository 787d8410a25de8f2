//! Texts, numbers, lists and tables, held against the standard library.

use find_threats::decimals::decimal_exceeds;
use find_threats::list::{has_text, push_new, take_first};
use find_threats::number::{parse_number, parse_u32, parse_u64, to_decimal, to_hex};
use find_threats::order::text_precedes;
use find_threats::split::{
    first_piece, join, last_piece, lines, replace_chars, replace_first, rsplit_once, split,
    split_once, split_whitespace,
};
use find_threats::table::Table;
use find_threats::text::{
    char_is_digit, char_is_letter, char_is_space, contains, ends_with, eq_ignore_ascii_case, find,
    has_fewer_bytes, starts_with, strip_prefix, strip_prefixes, strip_suffix,
    strip_suffixes, take_chars, to_ascii_lowercase, trim, trim_end_matches, trim_matches,
    trim_start_matches, CharSet,
};

const SAMPLES: [&str; 16] = [
    "", " ", "a", "abc", "  a b  c ", "a:b:c", ":", "::", "a\nb\r\nc\n", "\n\n", "äöü ß",
    "a\u{3000}b\u{2003}", "\r", "x\u{85}y", "Ωmega: β", "aaaa",
];

#[test]
fn characters_as_std_has_them() {
    for n in 0..=0x10ffff_u32 {
        if let Some(c) = char::from_u32(n) {
            assert_eq!(char_is_space(c), c.is_whitespace(), "{n:x}");
            assert_eq!(char_is_digit(c), c.is_ascii_digit());
            assert_eq!(char_is_letter(c), c.is_ascii_alphabetic());
            assert_eq!(CharSet::NotAlphanumeric.contains(c), !c.is_alphanumeric());
        }
    }
}

#[test]
fn trimming_as_std_does_it() {
    for s in SAMPLES {
        assert_eq!(trim(s), s.trim());
        assert_eq!(trim_start_matches(s, CharSet::Is('a')), s.trim_start_matches('a'));
        assert_eq!(trim_end_matches(s, CharSet::Is('a')), s.trim_end_matches('a'));
        assert_eq!(
            trim_matches(s, CharSet::NotAlphanumeric),
            s.trim_matches(|c: char| !c.is_alphanumeric())
        );
        assert_eq!(strip_prefixes(s, "a"), s.trim_start_matches("a"));
        assert_eq!(strip_suffixes(s, "a"), s.trim_end_matches("a"));
        assert_eq!(strip_prefix(s, "a").as_deref(), s.strip_prefix("a"));
        assert_eq!(strip_suffix(s, "c").as_deref(), s.strip_suffix("c"));
    }
}

#[test]
fn splitting_as_std_does_it() {
    for s in SAMPLES {
        assert_eq!(split_whitespace(s), s.split_whitespace().collect::<Vec<&str>>());
        assert_eq!(lines(s), s.lines().collect::<Vec<&str>>());
        assert_eq!(split(s, CharSet::Is(':')), s.split(':').collect::<Vec<&str>>());
        assert_eq!(first_piece(s, CharSet::Is(':')), s.split(':').next().unwrap());
        assert_eq!(last_piece(s, CharSet::Is(':')), s.rsplit(':').next().unwrap());
        for p in [":", "a", "::", "b\r"] {
            let pair = |o: Option<(&str, &str)>| o.map(|(x, y)| (x.to_string(), y.to_string()));
            assert_eq!(split_once(s, p), pair(s.split_once(p)));
            assert_eq!(rsplit_once(s, p), pair(s.rsplit_once(p)));
            assert_eq!(replace_first(s, p, "-"), s.replacen(p, "-", 1));
            assert_eq!(contains(s, p), s.contains(p));
            assert_eq!(starts_with(s, p), s.starts_with(p));
            assert_eq!(ends_with(s, p), s.ends_with(p));
            assert_eq!(find(s, p).is_some(), s.find(p).is_some());
        }
        assert_eq!(replace_chars(s, CharSet::Is(':'), '_'), s.replace(':', "_"));
        let pieces = split(s, CharSet::Is(':'));
        assert_eq!(join(&pieces, ":"), s);
    }
}

#[test]
fn sizes_and_cases_as_std_has_them() {
    for s in SAMPLES {
        assert_eq!(to_ascii_lowercase(s), s.to_ascii_lowercase());
        assert_eq!(take_chars(s, 2), s.chars().take(2).collect::<String>());
        for n in 0..12 {
            assert_eq!(has_fewer_bytes(s, n), s.len() < n, "{s:?} {n}");
        }
        for t in SAMPLES {
            assert_eq!(eq_ignore_ascii_case(s, t), s.eq_ignore_ascii_case(t));
            assert_eq!(text_precedes(s, t), s < t, "{s:?} {t:?}");
        }
    }
}

#[test]
fn numbers_as_std_reads_them() {
    for s in [
        "", "0", "12", "+7", "-1", " 1", "007", "4294967295", "4294967296",
        "18446744073709551615", "18446744073709551616", "1a", "+",
    ] {
        assert_eq!(parse_u32(s), s.parse::<u32>().ok(), "{s}");
        assert_eq!(parse_u64(s), s.parse::<u64>().ok(), "{s}");
        assert_eq!(parse_number(s, 16, 0xffff), u16::from_str_radix(s, 16).ok().map(u64::from), "{s}");
    }
    for n in [0_u64, 9, 10, 255, 256, u64::MAX] {
        assert_eq!(to_decimal(n), n.to_string());
        assert_eq!(to_hex(n), format!("{n:x}"));
    }
}

#[test]
fn lists_without_repeats() {
    let mut a = vec!["x".to_string()];
    push_new(&mut a, &vec!["y".to_string(), "x".to_string(), "y".to_string()]);
    assert_eq!(a, vec!["x", "y"]);
    assert!(has_text(&a, "y"));
    let first: u32 = {
        let mut v: Vec<u32> = vec![3, 4];
        let f: u32 = take_first(&mut v);
        assert_eq!(v, vec![4]);
        f
    };
    assert_eq!(first, 3);
}

#[test]
fn tables_are_kept_in_the_order_of_their_keys() {
    let mut t: Table<u32> = Table::new();
    assert!(t.is_empty());
    t.insert("b".to_string(), 2);
    t.insert("a".to_string(), 1);
    t.insert("b".to_string(), 3);
    assert_eq!(t.len(), 2);
    assert_eq!(t.key(0), "a");
    assert_eq!(*t.value(1), 3);
    assert_eq!(t.get("b"), Some(&3));
    assert_eq!(t.get("c"), None);
    assert_eq!(t.into_entries(), vec![("a".to_string(), 1), ("b".to_string(), 3)]);
    let mut lists: Table<Vec<u32>> = Table::new();
    lists.push_at("k", 1);
    lists.push_at("k", 2);
    assert_eq!(lists.get("k"), Some(&vec![1, 2]));
}

#[test]
fn decimals_are_compared_with_every_digit() {
    assert!(decimal_exceeds("9.809", "9.801"));
    assert!(!decimal_exceeds("9.801", "9.809"));
    assert!(decimal_exceeds("10", "9.9"));
    assert!(!decimal_exceeds("9.80", "9.8"));
    assert!(!decimal_exceeds("009", "9"));
    assert!(decimal_exceeds("-1", "-1.5"));
    assert!(decimal_exceeds("0.1", "-3"));
    assert!(!decimal_exceeds("0", "-0"));
    assert!(!decimal_exceeds("-3", "0"));
    assert!(!decimal_exceeds("NaN", "1"));
    assert!(!decimal_exceeds("1", ""));
}
