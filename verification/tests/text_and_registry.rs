use smith_rs::registry::Registry;
use smith_rs::text::{
    char_is_ws, chars_of, contains_char, decimal_string, parse_u64_or_zero_str, parse_u64_str,
    remove_char_str, remove_str, split_str, split_words, str_eq, str_starts_with, trim_str,
};

#[test]
fn split_keeps_empty_pieces() {
    assert_eq!(split_str("a,b,,c", ","), vec!["a", "b", "", "c"]);
    assert_eq!(split_str("", ","), vec![""]);
    assert_eq!(split_str(",x", ","), vec!["", "x"]);
    assert_eq!(split_str("Disk Space (/)", " ("), vec!["Disk Space", "/)"]);
    assert_eq!(split_str("a (b (c", " ("), vec!["a", "b", "c"]);
    assert_eq!(split_str("no_sep", ":"), vec!["no_sep"]);
}

#[test]
fn words_skip_runs_of_white_space() {
    assert_eq!(split_words("  Total IOPS:\t150.2 \n"), vec!["Total", "IOPS:", "150.2"]);
    assert!(split_words("   ").is_empty());
    assert_eq!(split_words("a\u{3000}b"), vec!["a", "b"]);
}

#[test]
fn trim_and_remove() {
    assert_eq!(trim_str("  45.12 \n"), "45.12");
    assert_eq!(trim_str(" \t "), "");
    assert_eq!(remove_char_str("62.45%%", '%'), "62.45");
    assert_eq!(remove_char_str("0.0012s", 's'), "0.0012");
    assert_eq!(remove_str("0.10/s)", "/s)"), "0.10");
    assert_eq!(remove_str("a/s)/s)b", "/s)"), "ab");
    assert_eq!(remove_str("//s)s)", "/s)"), "/s)");
}

#[test]
fn small_predicates() {
    assert!(str_eq("OK", "OK"));
    assert!(!str_eq("OK", "ok"));
    assert!(str_starts_with("network_errors_eth0", "network_errors"));
    assert!(!str_starts_with("net", "network"));
    assert!(contains_char("Disk (/)", '('));
    assert!(!contains_char("Disk", '('));
    assert!(char_is_ws('\u{a0}'));
    assert!(char_is_ws('\u{2009}'));
    assert!(!char_is_ws('x'));
    assert_eq!(chars_of("héllo"), vec!['h', 'é', 'l', 'l', 'o']);
}

#[test]
fn decimal_notation() {
    assert_eq!(decimal_string(0), "0");
    assert_eq!(decimal_string(7), "7");
    assert_eq!(decimal_string(1050), "1050");
    assert_eq!(decimal_string(u64::MAX), "18446744073709551615");
}

#[test]
fn unsigned_parsing_matches_std() {
    for text in ["", "+", "+5", "-1", "007", "12a", " 1", "18446744073709551615", "18446744073709551616", "99999999999999999999999"] {
        assert_eq!(parse_u64_str(text), text.parse::<u64>().ok(), "{}", text);
    }
    assert_eq!(parse_u64_or_zero_str("x"), 0);
    assert_eq!(parse_u64_or_zero_str("42"), 42);
}

#[test]
fn registry_insert_get_and_order() {
    let mut r: Registry<String> = Registry::new();
    assert_eq!(r.len(), 0);
    r.insert("b".to_string(), "1".to_string());
    r.insert("a".to_string(), "2".to_string());
    r.insert("b".to_string(), "3".to_string());
    assert_eq!(r.len(), 2);
    assert_eq!(r.get("b"), Some(&"3".to_string()));
    assert_eq!(r.get("a"), Some(&"2".to_string()));
    assert_eq!(r.get("c"), None);
    assert_eq!(r.key_at(0), "b");
    assert_eq!(r.key_at(1), "a");
    assert_eq!(r.position("a"), Some(1));
    assert_eq!(r.position("z"), None);
    let prev = r.replace_at(1, "9".to_string());
    assert_eq!(prev, "2");
    assert_eq!(r.value_at(1), "9");
}
