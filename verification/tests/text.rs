use chord_proxy::decimal::{decimal_of, parse_up_to};
use chord_proxy::json::{Json, JsonNumber};
use chord_proxy::order::insert_in_order;
use chord_proxy::table::{standing, Standing, Table};
use chord_proxy::text::{
    begins_with, blank, has, has_char, items_of, join_all, lowered, lowered_items_of, part_before,
    same_ignoring_case, trimmed, trimmed_start, white, without_end_slashes, Separator,
};

#[test]
fn white_space_is_that_of_unicode() {
    for code in 0..=0x10FFFFu32 {
        if let Some(c) = char::from_u32(code) {
            assert_eq!(white(c), c.is_whitespace(), "{code:x}");
        }
    }
}

#[test]
fn trimming_agrees_with_the_standard_library() {
    for s in ["", "  ", "a", " a ", "\u{3000}a b\u{2028}", "\u{200b}a"] {
        assert_eq!(trimmed(s), s.trim());
        assert_eq!(trimmed_start(s), s.trim_start());
        assert_eq!(trimmed(&trimmed(s)), trimmed(s));
        assert_eq!(blank(s), s.trim().is_empty());
    }
    assert_eq!(without_end_slashes("http://h//"), "http://h");
    assert_eq!(without_end_slashes("//"), "");
}

#[test]
fn searching_agrees_with_the_standard_library() {
    assert!(has("abcabd", "abd"));
    assert!(has("x", ""));
    assert!(!has("", "x"));
    assert!(begins_with("abc", "ab"));
    assert!(!begins_with("a", "ab"));
    assert!(has_char("a:b", ':'));
    assert_eq!(part_before("a:b:c", ':'), "a");
    assert_eq!(part_before("abc", ':'), "abc");
    assert!(same_ignoring_case("AbC", "aBc"));
    assert!(!same_ignoring_case("É", "é"));
    assert_eq!(lowered("ÀB"), "Àb");
}

#[test]
fn lists_are_split_and_tidied() {
    assert_eq!(items_of(" a ,, b c ", Separator::Comma), vec!["a", "b c"]);
    assert_eq!(items_of(" a ,, b c ", Separator::CommaOrBlank), vec!["a", "b", "c"]);
    assert_eq!(items_of(" a \t b\nc ", Separator::White), vec!["a", "b", "c"]);
    assert_eq!(lowered_items_of("A, b", Separator::Comma), vec!["a", "b"]);
    assert_eq!(join_all(&["a".to_string(), "b".to_string()], "; "), "a; b");
    assert_eq!(join_all(&[], "; "), "");
}

#[test]
fn numbers_are_read_and_written() {
    for n in [0u64, 7, 10, 65535, u64::MAX] {
        assert_eq!(decimal_of(n), n.to_string());
        assert_eq!(parse_up_to(&decimal_of(n), u64::MAX), Some(n));
    }
    assert_eq!(parse_up_to("+5", 9), Some(5));
    assert_eq!(parse_up_to("007", 9), Some(7));
    assert_eq!(parse_up_to("10", 9), None);
    assert_eq!(parse_up_to("", 9), None);
    assert_eq!(parse_up_to("+", 9), None);
    assert_eq!(parse_up_to("-1", 9), None);
    assert_eq!(parse_up_to("1 ", 9), None);
    assert_eq!(parse_up_to("18446744073709551616", u64::MAX), None);
}

#[test]
fn tables_keep_their_keys_in_order() {
    let mut t = Table::new();
    assert!(t.is_empty());
    for (k, v) in [("b", "1"), ("a", "2"), ("c", "3"), ("b", "4")] {
        t.insert(k.to_string(), v.to_string());
    }
    assert_eq!(t.len(), 3);
    assert_eq!(t.sorted_keys(), vec!["a", "b", "c"]);
    assert_eq!(t.get("b").as_deref(), Some("4"));
    t.remove("a");
    t.remove("zz");
    assert_eq!(t.get("a"), None);
    assert_eq!(t.duplicate(), t);
    assert_eq!(standing("a", "ab"), Standing::Before);
    assert_eq!(standing("b", "ab"), Standing::After);
    assert_eq!(standing("\u{ffff}", "\u{10000}"), Standing::Before);
    assert_eq!(standing("x", "x"), Standing::Same);
}

#[test]
fn ranked_items_stay_in_order() {
    let mut v = Vec::new();
    for (rank, item) in [(5u64, "a"), (1, "b"), (5, "c"), (3, "d")] {
        insert_in_order(&mut v, rank, item);
    }
    assert_eq!(v, vec![(1, "b"), (3, "d"), (5, "a"), (5, "c")]);
}

#[test]
fn json_values_are_read_by_kind() {
    let doc: Json<i32> = Json::Object(vec![
        ("n".to_string(), Json::Number(JsonNumber { unsigned: Some(4), value: 4 })),
        ("s".to_string(), Json::Text("t".to_string())),
        ("a".to_string(), Json::Array(vec![Json::Null])),
    ]);
    assert_eq!(doc.get_u64("n"), Some(4));
    assert_eq!(doc.get_str("s"), Some("t"));
    assert_eq!(doc.get_array("a").map(|a| a.len()), Some(1));
    assert_eq!(doc.get_u64("s"), None);
    assert!(doc.get("zz").is_none());
}
