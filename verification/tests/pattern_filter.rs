use repo_crawler::config::{
    get_default_exclude_patterns, get_default_include_patterns, CrawlConfig, CrawlError,
};

fn cfg(
    inc: Option<Vec<&str>>,
    exc: Option<Vec<&str>>,
    max_file_size: u64,
    use_relative_paths: bool,
) -> CrawlConfig {
    CrawlConfig {
        include_patterns: inc.map(|v| v.into_iter().map(|s| s.to_string()).collect()),
        exclude_patterns: exc.map(|v| v.into_iter().map(|s| s.to_string()).collect()),
        max_file_size,
        use_relative_paths,
    }
}

#[test]
fn no_include_set_keeps_everything_not_excluded() {
    let c = cfg(None, Some(vec!["*tests/*"]), 1000, true);
    assert_eq!(c.accepts_checked("src/a.bin", "a.bin"), Some(true));
    assert_eq!(c.accepts_checked("tests/a.py", "a.py"), Some(false));
    let open = cfg(None, None, 1000, true);
    assert_eq!(open.accepts_checked("anything/at.all", "at.all"), Some(true));
}

#[test]
fn include_matches_filename_not_path() {
    let c = cfg(Some(vec!["*.py"]), None, 1000, true);
    assert_eq!(c.accepts_checked("deep/dir/mod.py", "mod.py"), Some(true));
    assert_eq!(c.accepts_checked("deep/dir/readme.md", "readme.md"), Some(false));
}

#[test]
fn exclude_overrides_include() {
    let c = cfg(Some(vec!["*.py"]), Some(vec!["*tests/*"]), 1000, true);
    assert_eq!(c.accepts_checked("tests/test_a.py", "test_a.py"), Some(false));
    assert_eq!(c.accepts_checked("src/a.py", "a.py"), Some(true));
}

#[test]
fn invalid_pattern_is_a_configuration_error() {
    let c = cfg(Some(vec!["[", "*.py"]), None, 1000, true);
    assert!(!c.validate());
    assert_eq!(c.accepts_checked("a.py", "a.py"), None);
    let ok = cfg(Some(vec!["*.py"]), None, 1000, true);
    assert!(ok.validate());
}

#[test]
fn directory_exclusion_checks_both_spellings() {
    let c = cfg(None, Some(vec!["docs/*"]), 1000, true);
    assert!(c.validate());
    assert!(c.dir_excluded("docs/img", "other"));
    assert!(c.dir_excluded("other", "docs/img"));
    assert!(!c.dir_excluded("src", "src"));
}

#[test]
fn default_pattern_sets() {
    let inc = get_default_include_patterns();
    assert_eq!(inc.len(), 19);
    assert!(inc.iter().any(|p| p == "*.py"));
    assert!(inc.iter().any(|p| p == "*.yml"));
    let exc = get_default_exclude_patterns();
    assert_eq!(exc.len(), 27);
    assert!(exc.iter().any(|p| p == "*tests/*"));
    assert!(exc.iter().any(|p| p == "*.log"));
}

#[test]
fn error_messages_name_the_problem() {
    assert!(CrawlError::InvalidPattern.message().contains("glob"));
    assert!(CrawlError::InvalidUrl.message().contains("owner"));
    assert!(CrawlError::MissingSource.message().contains("directory"));
}
