use duroxide::text::{str_eq, str_lt, str_starts_with, u64_to_decimal};

#[test]
fn string_equality_compares_characters() {
    assert!(str_eq("abc", "abc"));
    assert!(!str_eq("abc", "abd"));
    assert!(!str_eq("ab", "abc"));
    assert!(str_eq("", ""));
    assert!(str_eq("héllo", "héllo"));
}

#[test]
fn prefixes_are_found_character_by_character() {
    assert!(str_starts_with("canceled: reason", "canceled: "));
    assert!(str_starts_with("abc", ""));
    assert!(str_starts_with("abc", "abc"));
    assert!(!str_starts_with("ab", "abc"));
    assert!(!str_starts_with("abc", "abd"));
    assert!(str_starts_with("ñandú", "ña"));
}

#[test]
fn strings_order_lexicographically() {
    assert!(str_lt("a", "b"));
    assert!(str_lt("ab", "abc"));
    assert!(!str_lt("abc", "ab"));
    assert!(!str_lt("abc", "abc"));
    assert!(str_lt("", "a"));
    assert!(!str_lt("b", "abc"));
    assert!(str_lt("Z", "a"));
    assert!(str_lt("z", "é"));
    assert_eq!(u64_to_decimal(1203), "1203");
}
