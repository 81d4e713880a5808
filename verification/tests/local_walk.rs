use repo_crawler::config::CrawlConfig;
use repo_crawler::localfs::{crawl_local_files, LocalEntry};

fn entry(path: &str, filename: &str, size: u64, content: Option<&str>) -> LocalEntry {
    LocalEntry {
        path: path.to_string(),
        filename: filename.to_string(),
        size,
        content: content.map(|s| s.to_string()),
    }
}

fn py_config() -> CrawlConfig {
    CrawlConfig {
        include_patterns: Some(vec!["*.py".to_string()]),
        exclude_patterns: None,
        max_file_size: 1024,
        use_relative_paths: true,
    }
}

fn sample_tree() -> Vec<LocalEntry> {
    vec![
        entry("a.py", "a.py", 50, Some("print('a')\n")),
        entry("b.md", "b.md", 204800, None),
        entry("sub/c.py", "c.py", 10, Some("pass\n")),
    ]
}

#[test]
fn local_walk_filters_and_reports() {
    let result = crawl_local_files("root", py_config(), &sample_tree()).unwrap();
    assert_eq!(result.stats.downloaded_count, 2);
    assert_eq!(result.files.len(), 2);
    assert_eq!(result.files.get("a.py").unwrap().as_str(), "print('a')\n");
    assert_eq!(result.files.get("sub/c.py").unwrap().as_str(), "pass\n");
    assert!(result.files.get("b.md").is_none());
    assert_eq!(result.stats.base_path.as_deref(), Some("root"));
    assert!(result.stats.source.is_none());
}

#[test]
fn oversized_file_is_skipped_with_exact_size() {
    // b.md exceeds the limit: it is recorded with its reported size and its
    // content is never read, whatever the pattern filter would say of it.
    let result = crawl_local_files("root", py_config(), &sample_tree()).unwrap();
    assert_eq!(result.stats.skipped_count, 1);
    assert_eq!(result.stats.skipped_files.len(), 1);
    assert_eq!(result.stats.skipped_files[0].0, "b.md");
    assert_eq!(result.stats.skipped_files[0].1, 204800);
}

#[test]
fn pattern_rejection_is_not_a_size_skip() {
    // A small file that fails the filter is dropped silently: it lands
    // neither in the content map nor in the skip list.
    let entries = vec![entry("notes.txt", "notes.txt", 20, Some("n"))];
    let result = crawl_local_files("root", py_config(), &entries).unwrap();
    assert_eq!(result.stats.downloaded_count, 0);
    assert_eq!(result.stats.skipped_count, 0);
}

#[test]
fn unreadable_file_is_omitted_from_both_lists() {
    let entries = vec![entry("bin.py", "bin.py", 20, None)];
    let result = crawl_local_files("root", py_config(), &entries).unwrap();
    assert_eq!(result.stats.downloaded_count, 0);
    assert_eq!(result.stats.skipped_count, 0);
}

#[test]
fn rerunning_the_walk_is_byte_identical() {
    let first = crawl_local_files("root", py_config(), &sample_tree()).unwrap();
    let second = crawl_local_files("root", py_config(), &sample_tree()).unwrap();
    assert_eq!(first.files.len(), second.files.len());
    for (path, content) in first.files.into_entries() {
        assert_eq!(second.files.get(path.as_str()).unwrap(), &content);
    }
    assert_eq!(first.stats.skipped_files, second.stats.skipped_files);
}

#[test]
fn invalid_pattern_aborts_the_walk() {
    let cfg = CrawlConfig {
        include_patterns: Some(vec!["[".to_string()]),
        exclude_patterns: None,
        max_file_size: 1024,
        use_relative_paths: true,
    };
    let err = crawl_local_files("root", cfg, &sample_tree()).unwrap_err();
    assert_eq!(err, repo_crawler::config::CrawlError::InvalidPattern);
}

#[test]
fn absolute_mode_reports_no_base_path() {
    let cfg = CrawlConfig {
        include_patterns: None,
        exclude_patterns: None,
        max_file_size: 1024,
        use_relative_paths: false,
    };
    let result = crawl_local_files("/root/dir", cfg, &vec![]).unwrap();
    assert!(result.stats.base_path.is_none());
    assert_eq!(result.stats.downloaded_count, 0);
}

#[test]
fn later_entry_with_same_path_overwrites() {
    let entries = vec![
        entry("a.py", "a.py", 5, Some("old")),
        entry("a.py", "a.py", 5, Some("new")),
    ];
    let result = crawl_local_files("root", py_config(), &entries).unwrap();
    assert_eq!(result.stats.downloaded_count, 1);
    assert_eq!(result.files.get("a.py").unwrap().as_str(), "new");
}
