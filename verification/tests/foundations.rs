use huggr::bytes::{byte_len, truncate_utf8_prefix};
use huggr::json::{Data, Members};
use huggr::number::{number_text, parse_u64, to_decimal, to_padded, to_signed_decimal};
use huggr::split::{
    contains, ends_with, join, lines, replace, split, split_once, split_space, starts_with,
    strip_prefix, words,
};
use huggr::table::Table;
use huggr::text::{same, to_lower, to_upper, trim, trim_end, trim_end_matches, trim_start};

#[test]
fn numerals_read_back_what_they_write() {
    for n in [0u64, 7, 10, 99, 1_000_000, u64::MAX] {
        assert_eq!(to_decimal(n), n.to_string());
        assert_eq!(parse_u64(&to_decimal(n)), Some(n));
    }
    assert_eq!(parse_u64("+7"), Some(7));
    for bad in ["", "-1", "1a", " 1", "18446744073709551616"] {
        assert_eq!(parse_u64(bad), bad.parse::<u64>().ok(), "{bad:?}");
    }
    assert_eq!(to_padded(5, 2), "05");
    assert_eq!(to_padded(123, 2), "123");
    assert_eq!(to_signed_decimal(i32::MIN), i32::MIN.to_string());
    for text in ["1", "-2.5", "1e3", ".", "", "1.", "x"] {
        if number_text(text) {
            assert!(text.parse::<f64>().is_ok(), "{text:?}");
        }
    }
    assert!(number_text("0.14"));
    assert!(!number_text("x"));
}

#[test]
fn strings_are_trimmed_and_cased_like_strings() {
    for s in ["", "  a b\t\n", "\u{2003}x\u{3000}", "abc", " \n "] {
        assert_eq!(trim(s), s.trim(), "{s:?}");
        assert_eq!(trim_start(s), s.trim_start(), "{s:?}");
        assert_eq!(trim_end(s), s.trim_end(), "{s:?}");
    }
    assert_eq!(trim_end_matches("a//", '/'), "a");
    assert_eq!(to_lower("AbÇ1"), "AbÇ1".to_ascii_lowercase());
    assert_eq!(to_upper("abç1"), "abç1".to_ascii_uppercase());
    assert!(same("a", "a"));
    assert!(!same("a", "b"));
}

#[test]
fn strings_are_split_like_strings() {
    for s in ["", "a", "a b", " a  b ", "a\r\nb\n", "\n\nx", "a,b,,c", ","] {
        assert_eq!(split(s, ','), s.split(',').collect::<Vec<_>>(), "{s:?}");
        assert_eq!(lines(s), s.lines().collect::<Vec<_>>(), "{s:?}");
        assert_eq!(words(s), s.split_whitespace().collect::<Vec<_>>(), "{s:?}");
        assert_eq!(
            split_space(s),
            s.split_once(char::is_whitespace).map(|(a, b)| (a.to_string(), b.to_string())),
            "{s:?}"
        );
        for pat in ["a", ",", "b", "ab", "\n"] {
            assert_eq!(contains(s, pat), s.contains(pat), "{s:?} {pat:?}");
            assert_eq!(starts_with(s, pat), s.starts_with(pat), "{s:?} {pat:?}");
            assert_eq!(ends_with(s, pat), s.ends_with(pat), "{s:?} {pat:?}");
            assert_eq!(replace(s, pat, "<>"), s.replace(pat, "<>"), "{s:?} {pat:?}");
            assert_eq!(
                strip_prefix(s, pat),
                s.strip_prefix(pat).map(|t| t.to_string()),
                "{s:?} {pat:?}"
            );
            assert_eq!(
                split_once(s, pat),
                s.split_once(pat).map(|(a, b)| (a.to_string(), b.to_string())),
                "{s:?} {pat:?}"
            );
        }
    }
    assert_eq!(join(&vec!["a".to_string(), "b".to_string()], ", "), "a, b");
    assert_eq!(join(&Vec::new(), ", "), "");
}

#[test]
fn prefixes_end_between_characters() {
    assert_eq!(byte_len("aé€"), 6);
    assert_eq!(truncate_utf8_prefix("aé€", 6), ("aé€".to_string(), false));
    assert_eq!(truncate_utf8_prefix("aé€", 5), ("aé".to_string(), true));
    assert_eq!(truncate_utf8_prefix("aé€", 2), ("a".to_string(), true));
    assert_eq!(truncate_utf8_prefix("aé€", 0), (String::new(), true));
}

#[test]
fn tables_are_in_order_and_hold_the_last_value() {
    let mut t: Table<u32> = Table::new();
    for (i, key) in ["b", "a", "é", "Z", "", "a"].iter().enumerate() {
        t.insert(key, i as u32);
    }
    let keys: Vec<&str> = (0..t.len()).map(|i| t.key_at(i).as_str()).collect();
    assert_eq!(keys, vec!["", "Z", "a", "b", "é"]);
    assert_eq!(t.get("a"), Some(&5));
    assert_eq!(t.get("c"), None);
}

#[test]
fn values_are_read_by_their_kind() {
    let d = Members::new()
        .with("s", Data::string("x"))
        .with("n", Data::number(7))
        .with("b", Data::boolean(true))
        .with("l", Data::Array(vec![Data::string("a"), Data::number(1), Data::string("c")]))
        .set("s", Data::string("y"))
        .object();
    assert_eq!(d.get_str("s"), Some("y"));
    assert_eq!(d.get_str("n"), None);
    assert_eq!(d.get_u64("n"), Some(7));
    assert_eq!(d.get_bool("b"), Some(true));
    assert_eq!(d.get_strings("l"), vec!["a", "c"]);
    assert_eq!(d.get_strings("none"), Vec::<String>::new());
    assert_eq!(Data::Int(-1).as_u64(), None);
    assert_eq!(d.copy().get_str("s"), Some("y"));
    assert!(Data::null().is_null());
}
