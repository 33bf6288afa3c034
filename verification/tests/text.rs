use pym2::listing::sort_by_name;
use pym2::model::{AppRuntimeState, AppSummary, RestartPolicy};
use pym2::names::NameMap;
use pym2::paths::{join_path, log_files};
use pym2::text::{
    contains, i32_text, join, less, padded, parse_u64, split_lines, split_on, split_once,
    split_words, strip_prefix, to_ascii_lower, trimmed, trimmed_end, trimmed_end_of, u64_text,
};

#[test]
fn cutting_texts() {
    assert_eq!(trimmed("\u{a0} a b\t\n"), "a b");
    assert_eq!(trimmed_end(" a \r\n"), " a");
    assert_eq!(trimmed_end_of("a//", '/'), "a");
    assert_eq!(split_once("a=b=c", '='), Some(("a".to_string(), "b=c".to_string())));
    assert_eq!(split_once("a", '='), None);
    assert_eq!(split_on("a&&b", '&'), vec!["a", "", "b"]);
    assert_eq!(split_on("", '&'), vec![""]);
    assert_eq!(split_words("  a\u{2003}b \n c"), vec!["a", "b", "c"]);
    assert_eq!(split_lines("a\r\nb\n\nc\r"), vec!["a", "b", "", "c\r"]);
    assert_eq!(strip_prefix("daily@x", "daily@").as_deref(), Some("x"));
    assert_eq!(strip_prefix("x", "daily@"), None);
    assert!(contains("abcabd", "abd"));
    assert!(contains("x", ""));
    assert!(!contains("ab", "abc"));
}

#[test]
fn writing_texts() {
    assert_eq!(u64_text(u64::MAX), u64::MAX.to_string());
    assert_eq!(u64_text(0), "0");
    assert_eq!(i32_text(i32::MIN), i32::MIN.to_string());
    assert_eq!(join(&vec!["a".to_string(), "b".to_string()], ", "), "a, b");
    assert_eq!(join(&Vec::new(), ", "), "");
    assert_eq!(padded("\u{e9}", 3), "\u{e9}  ");
    assert_eq!(padded("long", 3), "long");
    assert_eq!(to_ascii_lower("AbC\u{c9}"), "abc\u{c9}");
}

#[test]
fn numbers_in_texts() {
    assert_eq!(parse_u64("007", 255), Some(7));
    assert_eq!(parse_u64("+7", 255), Some(7));
    assert_eq!(parse_u64("256", 255), None);
    assert_eq!(parse_u64("", 255), None);
    assert_eq!(parse_u64("+", 255), None);
    assert_eq!(parse_u64("-1", 255), None);
    assert_eq!(parse_u64("18446744073709551615", u64::MAX), Some(u64::MAX));
    assert_eq!(parse_u64("18446744073709551616", u64::MAX), None);
}

#[test]
fn the_order_of_texts() {
    for (a, b) in [("a", "b"), ("a", "ab"), ("", "a"), ("Z", "a"), ("z", "\u{e9}")] {
        assert!(less(a, b) && !less(b, a));
        assert!(a < b);
    }
    assert!(!less("a", "a"));
}

fn summary(name: &str, cwd: &str) -> AppSummary {
    AppSummary {
        name: name.to_string(),
        cwd: cwd.to_string(),
        command: Vec::new(),
        entry: String::new(),
        restart: RestartPolicy::Never,
        runtime: AppRuntimeState::default(),
    }
}

#[test]
fn lists_keep_the_order_of_equal_names() {
    let list = sort_by_name(vec![
        summary("b", "1"),
        summary("a", "2"),
        summary("b", "3"),
        summary("a", "4"),
    ]);
    let order: Vec<&str> = list.iter().map(|a| a.cwd.as_str()).collect();
    assert_eq!(order, vec!["2", "4", "1", "3"]);
}

#[test]
fn names_are_distinct() {
    let mut map = NameMap::new();
    map.insert("a".to_string(), 1);
    map.insert("b".to_string(), 2);
    map.insert("a".to_string(), 3);
    assert_eq!(map.len(), 2);
    assert_eq!(map.get("a"), Some(&3));
    assert_eq!(map.get("c"), None);
    assert_eq!(map.name_at(1), "b");
    assert!(map.contains_key("b"));
}

#[test]
fn paths_are_joined() {
    assert_eq!(join_path("/srv", "a"), "/srv/a");
    assert_eq!(join_path("/srv/", "a"), "/srv/a");
    assert_eq!(join_path("/srv", "/a"), "/a");
    assert_eq!(join_path("", "a"), "a");
    assert_eq!(
        log_files("/l", "api"),
        ("/l/api.out.log".to_string(), "/l/api.err.log".to_string())
    );
}
