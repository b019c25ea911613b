use aabot::llm::Role;
use aabot::table::StringMap;
use aabot::text::{
    chars_of, decimal_string, lines_of, push_padded, push_signed, same_text, split_once_char, string_from_chars, trim_chars,
};

#[test]
fn lines_follow_str_lines() {
    assert_eq!(lines_of("a\nb\r\nc"), vec!["a", "b", "c"]);
    assert_eq!(lines_of("a\n"), vec!["a"]);
    assert_eq!(lines_of(""), Vec::<String>::new());
    assert_eq!(lines_of("\n\n"), vec!["", ""]);
}

#[test]
fn trimming_and_splitting() {
    let t = trim_chars(&chars_of("  \thi there \n"));
    assert_eq!(string_from_chars(&t), "hi there");
    assert_eq!(split_once_char("openai/gpt/4", '/'), Some(("openai".to_string(), "gpt/4".to_string())));
    assert_eq!(split_once_char("plain", '/'), None);
    assert!(same_text("abc", "abc"));
    assert!(!same_text("abc", "abd"));
}

#[test]
fn numbers_in_decimal() {
    assert_eq!(decimal_string(0), "0");
    assert_eq!(decimal_string(1234567890), "1234567890");
    let mut s = String::new();
    push_signed(&mut s, -42);
    assert_eq!(s, "-42");
    let mut p = String::new();
    push_padded(&mut p, 7, 6);
    assert_eq!(p, "     7");
    let mut q = String::new();
    push_padded(&mut q, 1234567, 6);
    assert_eq!(q, "1234567");
}

#[test]
fn string_map_keeps_insertion_order_and_replaces() {
    let mut m = StringMap::new();
    m.insert("b".to_string(), 1);
    m.insert("a".to_string(), 2);
    m.insert("b".to_string(), 3);
    assert_eq!(m.len(), 2);
    assert_eq!(m.get("b"), Some(&3));
    assert_eq!(m.get("z"), None);
    let names: Vec<&str> = m.entries_slice().iter().map(|e| e.0.as_str()).collect();
    assert_eq!(names, vec!["b", "a"]);
}

#[test]
fn roles_by_name() {
    assert_eq!(Role::from_name("system"), Role::System);
    assert_eq!(Role::from_name("tool"), Role::Tool);
    assert_eq!(Role::from_name("other"), Role::User);
    assert_eq!(Role::Assistant.as_str(), "assistant");
}
