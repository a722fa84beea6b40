use envcmd::text::{
    file_name, find_at, join_strings, split_str, starts_with_str, str_eq, trim_trailing_spaces,
};

#[test]
fn str_eq_basic() {
    assert!(str_eq("abc", "abc"));
    assert!(!str_eq("abc", "abd"));
    assert!(!str_eq("abc", "ab"));
    assert!(str_eq("", ""));
}

#[test]
fn starts_with_basic() {
    assert!(starts_with_str("ENVCMD_DIR_FOO", "ENVCMD"));
    assert!(starts_with_str("ENVCMD", "ENVCMD"));
    assert!(!starts_with_str("ENV", "ENVCMD"));
    assert!(!starts_with_str("XENVCMD", "ENVCMD"));
}

#[test]
fn find_first_occurrence() {
    assert_eq!(find_at("a,b,c", ",", 0), Some(1));
    assert_eq!(find_at("a,b,c", ",", 2), Some(3));
    assert_eq!(find_at("a,b,c", ",", 4), None);
    assert_eq!(find_at("abc", "x", 0), None);
}

#[test]
fn split_simple() {
    let parts = split_str("a,b,c", ",");
    assert_eq!(parts, vec!["a", "b", "c"]);
}

#[test]
fn split_no_occurrence() {
    assert_eq!(split_str("abc", ","), vec!["abc"]);
}

#[test]
fn split_empty_input() {
    assert_eq!(split_str("", ","), vec![""]);
}

#[test]
fn split_adjacent_separators() {
    assert_eq!(split_str("a,,b", ","), vec!["a", "", "b"]);
    assert_eq!(split_str(",a,", ","), vec!["", "a", ""]);
}

#[test]
fn split_multi_char_separator() {
    assert_eq!(split_str("a--b--c", "--"), vec!["a", "b", "c"]);
    assert_eq!(split_str("aaa", "aa"), vec!["", "a"]);
}

#[test]
fn split_empty_separator() {
    assert_eq!(split_str("abc", ""), vec!["", "a", "b", "c", ""]);
    assert_eq!(split_str("", ""), vec!["", ""]);
}

#[test]
fn trim_removes_trailing_whitespace_only() {
    assert_eq!(trim_trailing_spaces("main\n"), "main");
    assert_eq!(trim_trailing_spaces("a b \t "), "a b");
    assert_eq!(trim_trailing_spaces("  lead"), "  lead");
    assert_eq!(trim_trailing_spaces(""), "");
    assert_eq!(trim_trailing_spaces(" \n\t"), "");
}

#[test]
fn file_name_basic() {
    assert_eq!(file_name("/home/alice/project"), Some("project"));
    assert_eq!(file_name("a/b/c"), Some("c"));
    assert_eq!(file_name("plain"), Some("plain"));
}

#[test]
fn file_name_trailing_separators() {
    assert_eq!(file_name("/home/alice/project///"), Some("project"));
}

#[test]
fn file_name_none_for_root_and_empty() {
    assert_eq!(file_name("/"), None);
    assert_eq!(file_name("///"), None);
    assert_eq!(file_name(""), None);
}

#[test]
fn join_basic() {
    let parts = vec![String::from("a"), String::from("b"), String::from("c")];
    assert_eq!(join_strings(&parts, "-"), "a-b-c");
}

#[test]
fn join_single_and_empty() {
    assert_eq!(join_strings(&vec![String::from("one")], "-"), "one");
    assert_eq!(join_strings(&Vec::new(), "-"), "");
}

#[test]
fn join_with_empty_separator() {
    let parts = vec![String::from("ab"), String::from("cd")];
    assert_eq!(join_strings(&parts, ""), "abcd");
}
