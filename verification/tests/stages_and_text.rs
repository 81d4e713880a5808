use repo_crawler::pipeline::{
    normalize_file_indices, parse_index_entry, validate_chapter_order, WriteChapters,
};
use repo_crawler::result::{CrawlResult, PathMap};
use repo_crawler::strutil::{
    remove_char, split_char, str_eq, trim_char, trim_left_char, u64_to_dec,
};

#[test]
fn index_entries_parse_with_and_without_comments() {
    assert_eq!(parse_index_entry("3"), Some(3));
    assert_eq!(parse_index_entry(" 12 # path/to/file.py"), Some(12));
    assert_eq!(parse_index_entry("0 # x"), Some(0));
    assert_eq!(parse_index_entry("x"), None);
    assert_eq!(parse_index_entry(""), None);
    assert_eq!(parse_index_entry("1.5"), None);
    assert_eq!(parse_index_entry("99999999999999999999999999999999"), None);
}

#[test]
fn file_index_lists_are_deduplicated_and_sorted() {
    assert_eq!(normalize_file_indices(&vec![3, 1, 3, 0], 5), Some(vec![0, 1, 3]));
    assert_eq!(normalize_file_indices(&vec![], 5), Some(vec![]));
    assert_eq!(normalize_file_indices(&vec![1, 5], 5), None);
}

#[test]
fn chapter_orders_must_be_complete_and_distinct() {
    assert!(validate_chapter_order(&vec![2, 0, 1], 3));
    assert!(!validate_chapter_order(&vec![0, 1], 3));
    assert!(!validate_chapter_order(&vec![0, 1, 1], 3));
    assert!(!validate_chapter_order(&vec![0, 1, 3], 3));
}

#[test]
fn a_fresh_chapter_writer_has_written_nothing() {
    let w = WriteChapters::new();
    assert!(w.chapters_written_so_far.is_empty());
}

#[test]
fn path_map_inserts_and_overwrites() {
    let mut m = PathMap::new();
    assert_eq!(m.len(), 0);
    m.insert("a".to_string(), "one".to_string());
    m.insert("b".to_string(), "two".to_string());
    m.insert("a".to_string(), "three".to_string());
    assert_eq!(m.len(), 2);
    assert!(m.contains_key("a"));
    assert!(!m.contains_key("c"));
    assert_eq!(m.get("a").unwrap().as_str(), "three");
    assert_eq!(m.get("b").unwrap().as_str(), "two");
}

#[test]
fn empty_results_carry_their_annotation() {
    let r = CrawlResult::empty_with(
        Some("error: clone failed".to_string()),
        None,
        Some(vec!["*tests/*".to_string()]),
    );
    assert_eq!(r.stats.downloaded_count, 0);
    assert_eq!(r.stats.skipped_count, 0);
    assert_eq!(r.stats.source.as_deref(), Some("error: clone failed"));
    assert_eq!(r.stats.exclude_patterns, Some(vec!["*tests/*".to_string()]));
}

#[test]
fn text_helpers_do_what_they_say() {
    assert!(str_eq("abc", "abc"));
    assert!(!str_eq("abc", "abd"));
    assert_eq!(trim_char("//x/y//", '/'), "x/y");
    assert_eq!(trim_left_char("//x/", '/'), "x/");
    assert_eq!(remove_char("a\nb\nc", '\n'), "abc");
    assert_eq!(u64_to_dec(0), "0");
    assert_eq!(u64_to_dec(9070), "9070");
    let parts = split_char("a/b//c", '/');
    assert_eq!(parts, vec!["a", "b", "", "c"]);
    assert_eq!(split_char("", '/'), vec![""]);
}
