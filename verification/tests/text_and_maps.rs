use pylot::text::{
    chars_of, decimal_string, find_chars, index_of_char, join_strings, parse_unsigned_chars,
    split_chars, split_lines, split_words, strip_chars, string_of, trim_chars,
};
use pylot::textmap::TextMap;

fn chars(s: &str) -> Vec<char> {
    s.chars().collect()
}

fn texts(v: Vec<Vec<char>>) -> Vec<String> {
    v.into_iter().map(|c| c.into_iter().collect()).collect()
}

#[test]
fn trim_removes_surrounding_white_space() {
    assert_eq!(trim_chars(&chars("  a b \t\n")), chars("a b"));
    assert_eq!(trim_chars(&chars("   ")), chars(""));
    assert_eq!(trim_chars(&chars("")), chars(""));
}

#[test]
fn split_on_separator_keeps_empty_fields() {
    assert_eq!(texts(split_chars(&chars("a::b"), ':')), vec!["a", "", "b"]);
    assert_eq!(texts(split_chars(&chars(""), ':')), vec![""]);
    assert_eq!(texts(split_chars(&chars(":"), ':')), vec!["", ""]);
}

#[test]
fn split_lines_like_str_lines() {
    assert_eq!(texts(split_lines(&chars("a\nb\r\nc\n"))), vec!["a", "b", "c"]);
    assert_eq!(texts(split_lines(&chars("a\r\nb\r"))), vec!["a", "b\r"]);
    assert_eq!(texts(split_lines(&chars("x\r\n"))), vec!["x"]);
    assert_eq!(texts(split_lines(&chars(""))), Vec::<String>::new());
    assert_eq!(texts(split_lines(&chars("\n\nx"))), vec!["", "", "x"]);
}

#[test]
fn split_words_like_split_whitespace() {
    assert_eq!(texts(split_words(&chars("  LISTEN 0   128 "))), vec!["LISTEN", "0", "128"]);
    assert_eq!(texts(split_words(&chars(" \t "))), Vec::<String>::new());
}

#[test]
fn decimal_text_of_numbers() {
    assert_eq!(decimal_string(0), "0");
    assert_eq!(decimal_string(7), "7");
    assert_eq!(decimal_string(1234567890), "1234567890");
    assert_eq!(decimal_string(u64::MAX), "18446744073709551615");
}

#[test]
fn parse_unsigned_like_str_parse() {
    assert_eq!(parse_unsigned_chars(&chars("8080"), 65535), Some(8080));
    assert_eq!(parse_unsigned_chars(&chars("+22"), 65535), Some(22));
    assert_eq!(parse_unsigned_chars(&chars("65535"), 65535), Some(65535));
    assert_eq!(parse_unsigned_chars(&chars("65536"), 65535), None);
    assert_eq!(parse_unsigned_chars(&chars(""), 65535), None);
    assert_eq!(parse_unsigned_chars(&chars("+"), 65535), None);
    assert_eq!(parse_unsigned_chars(&chars("-1"), 65535), None);
    assert_eq!(parse_unsigned_chars(&chars("12a"), 65535), None);
    assert_eq!(parse_unsigned_chars(&chars("4294967295"), 4294967295), Some(4294967295));
}

#[test]
fn find_gives_first_occurrence() {
    assert_eq!(find_chars(&chars("a pid=1,pid=2"), &chars("pid=")), Some(2));
    assert_eq!(find_chars(&chars("abc"), &chars("x")), None);
    assert_eq!(find_chars(&chars("abc"), &chars("")), Some(0));
}

#[test]
fn join_puts_separator_between() {
    let parts = vec!["a".to_string(), "b".to_string(), "c".to_string()];
    assert_eq!(join_strings(&parts, ", "), "a, b, c");
    assert_eq!(join_strings(&Vec::new(), ", "), "");
    assert_eq!(join_strings(&vec!["x".to_string()], ", "), "x");
}

#[test]
fn strip_removes_char_at_both_ends() {
    assert_eq!(strip_chars(&chars("\"\"quoted\""), '"'), chars("quoted"));
    assert_eq!(strip_chars(&chars("plain"), '"'), chars("plain"));
    assert_eq!(strip_chars(&chars("\"\""), '"'), chars(""));
}

#[test]
fn index_and_round_trip_of_chars() {
    assert_eq!(index_of_char(&chars("KEY=a=b"), '='), Some(3));
    assert_eq!(index_of_char(&chars("KEY"), '='), None);
    assert_eq!(string_of(&chars_of("héllo")), "héllo");
}

#[test]
fn text_map_insert_get_remove() {
    let mut m: TextMap<u32> = TextMap::new();
    assert!(m.is_empty());
    m.insert("b".to_string(), 1);
    m.insert("a".to_string(), 2);
    m.insert("b".to_string(), 3);
    assert_eq!(m.len(), 2);
    assert_eq!(m.get("b"), Some(&3));
    assert_eq!(m.get("a"), Some(&2));
    assert_eq!(m.get("c"), None);
    assert!(m.contains_key("a"));
    let keys: Vec<&str> = m.entries().iter().map(|e| e.0.as_str()).collect();
    assert_eq!(keys, vec!["b", "a"]);
    assert_eq!(m.remove("b"), Some(3));
    assert_eq!(m.remove("b"), None);
    assert_eq!(m.len(), 1);
    assert!(!m.contains_key("b"));
}

#[test]
fn text_map_remove_keeps_order_of_rest() {
    let mut m: TextMap<u32> = TextMap::new();
    m.insert("x".to_string(), 1);
    m.insert("y".to_string(), 2);
    m.insert("z".to_string(), 3);
    m.remove("y");
    m.insert("y".to_string(), 4);
    let entries: Vec<(String, u32)> = m.entries().iter().map(|(k, v)| (k.clone(), *v)).collect();
    assert_eq!(
        entries,
        vec![("x".to_string(), 1), ("z".to_string(), 3), ("y".to_string(), 4)]
    );
}
