//! Text helpers and JSON access.

use my_task_sync::json::{get_in, Json, Number};
use my_task_sync::text::{
    bytes_eq, join, join3, print_i64, print_u64, str_eq, strip_prefix, trim, white,
};

#[test]
fn texts_are_compared_by_their_characters() {
    assert!(str_eq("", ""));
    assert!(str_eq("買い物", "買い物"));
    assert!(!str_eq("open", "done"));
    assert!(!str_eq("open", "opens"));
    assert!(bytes_eq(b"ab", b"ab"));
    assert!(!bytes_eq(b"ab", b"aB"));
}

#[test]
fn texts_are_joined() {
    assert_eq!(join("a", "b"), "ab");
    assert_eq!(join3("a", "", "c"), "ac");
    assert_eq!(strip_prefix("Bearer x", "Bearer "), Some("x"));
    assert_eq!(strip_prefix("Bearer", "Bearer "), None);
    assert_eq!(strip_prefix("鍵x", "鍵"), Some("x"));
}

#[test]
fn numbers_are_printed() {
    assert_eq!(print_u64(0), "0");
    assert_eq!(print_u64(10), "10");
    assert_eq!(print_u64(u64::MAX), "18446744073709551615");
    assert_eq!(print_i64(-7), "-7");
    assert_eq!(print_i64(i64::MIN), "-9223372036854775808");
    assert_eq!(print_i64(i64::MAX), "9223372036854775807");
}

#[test]
fn white_space_is_that_of_unicode() {
    for code in 0u32..0x11_0000 {
        if let Some(c) = char::from_u32(code) {
            assert_eq!(white(c), c.is_whitespace(), "{code:x}");
        }
    }
}

#[test]
fn texts_are_trimmed_like_in_std() {
    for s in ["", " ", "a", " a ", "\t a b \n", "\u{3000}名\u{a0}", "\u{200b}x\u{200b}"] {
        assert_eq!(trim(s), s.trim());
    }
}

#[test]
fn members_are_found_by_their_key() {
    let value = Json::Object(vec![
        ("a".to_string(), Json::Null),
        ("b".to_string(), Json::Object(vec![("c".to_string(), Json::Bool(true))])),
    ]);
    assert!(matches!(value.get("a"), Some(Json::Null)));
    assert!(value.get("c").is_none());
    assert!(matches!(get_in(value.get("b"), "c"), Some(Json::Bool(true))));
    assert!(get_in(value.get("a"), "c").is_none());
    assert!(get_in(None, "c").is_none());
    assert!(Json::Array(vec![]).get("a").is_none());
    let number = Json::Number(Number { unsigned: Some(1), text: "1".to_string() });
    assert!(number.get("a").is_none());
}
