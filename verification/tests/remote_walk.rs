use repo_crawler::config::CrawlConfig;
use repo_crawler::remote::{
    ContentData, ContentItem, ListingOutcome, MetaOutcome, NotFoundReason, RawOutcome,
    RemoteCrawler, Request, StepAction,
};

fn cfg(inc: Option<Vec<&str>>, exc: Option<Vec<&str>>, max: u64) -> CrawlConfig {
    CrawlConfig {
        include_patterns: inc.map(|v| v.into_iter().map(|s| s.to_string()).collect()),
        exclude_patterns: exc.map(|v| v.into_iter().map(|s| s.to_string()).collect()),
        max_file_size: max,
        use_relative_paths: true,
    }
}

fn crawler(c: CrawlConfig, sub_path: &str) -> RemoteCrawler {
    RemoteCrawler::new(
        "owner".to_string(),
        "repo".to_string(),
        Some("main".to_string()),
        sub_path.to_string(),
        false,
        c,
    )
}

fn file_item(name: &str, path: &str, size: u64, download_url: Option<&str>) -> ContentItem {
    ContentItem {
        name: name.to_string(),
        path: path.to_string(),
        item_type: "file".to_string(),
        size: Some(size),
        download_url: download_url.map(|s| s.to_string()),
        url: format!("https://api.example/meta/{}", path),
    }
}

fn dir_item(name: &str, path: &str) -> ContentItem {
    ContentItem {
        name: name.to_string(),
        path: path.to_string(),
        item_type: "dir".to_string(),
        size: None,
        download_url: None,
        url: format!("https://api.example/meta/{}", path),
    }
}

#[test]
fn rate_limit_waits_and_retries_the_same_request() {
    let mut c = crawler(cfg(None, None, 1024), "");
    let before = c.next_request().unwrap();
    let now = 1_000_000u64;
    let act = c
        .on_listing_checked(ListingOutcome::RateLimited { reset: Some(now + 5), now })
        .unwrap();
    assert_eq!(act, StepAction::Wait { seconds: 6 });
    assert!(matches!(act, StepAction::Wait { seconds } if seconds >= 5));
    // the state is untouched: the identical request is issued again
    let after = c.next_request().unwrap();
    assert_eq!(before, after);
    // the retried call's result is what populates the final map
    let act = c
        .on_listing_checked(ListingOutcome::Items {
            items: vec![file_item("a.py", "a.py", 10, Some("https://raw.example/a.py"))],
        })
        .unwrap();
    assert_eq!(act, StepAction::Proceed);
    assert!(matches!(c.next_request().unwrap(), Request::Download { .. }));
    c.on_raw(RawOutcome::Response {
        status_ok: true,
        content_length: Some(10),
        body: Some("print('a')".to_string()),
    });
    assert!(c.done());
    let result = c.into_result();
    assert_eq!(result.stats.downloaded_count, 1);
    assert_eq!(result.files.get("a.py").unwrap().as_str(), "print('a')");
}

#[test]
fn missing_reset_header_waits_at_least_one_second() {
    let mut c = crawler(cfg(None, None, 1024), "");
    let act = c
        .on_listing_checked(ListingOutcome::RateLimited { reset: None, now: 99 })
        .unwrap();
    assert_eq!(act, StepAction::Wait { seconds: 1 });
}

#[test]
fn oversized_listing_entry_is_skipped_before_download() {
    let mut c = crawler(cfg(None, None, 100), "");
    c.on_listing_checked(ListingOutcome::Items {
        items: vec![file_item("big.py", "big.py", 5000, Some("https://raw.example/big.py"))],
    })
    .unwrap();
    // no fetch was scheduled for it
    assert!(c.done());
    let result = c.into_result();
    assert_eq!(result.stats.skipped_files, vec![("big.py".to_string(), 5000)]);
    assert_eq!(result.stats.downloaded_count, 0);
}

#[test]
fn pattern_rejected_listing_entry_is_not_size_skipped() {
    let mut c = crawler(cfg(Some(vec!["*.py"]), None, 100), "");
    c.on_listing_checked(ListingOutcome::Items {
        items: vec![file_item("big.md", "big.md", 5000, None)],
    })
    .unwrap();
    assert!(c.done());
    let result = c.into_result();
    assert_eq!(result.stats.skipped_count, 0);
    assert_eq!(result.stats.downloaded_count, 0);
}

#[test]
fn content_length_recheck_skips_grown_file() {
    let mut c = crawler(cfg(None, None, 100), "");
    c.on_listing_checked(ListingOutcome::Items {
        items: vec![file_item("a.py", "a.py", 10, Some("https://raw.example/a.py"))],
    })
    .unwrap();
    c.on_raw(RawOutcome::Response {
        status_ok: true,
        content_length: Some(2000),
        body: Some("should not land".to_string()),
    });
    let result = c.into_result();
    assert_eq!(result.stats.skipped_files, vec![("a.py".to_string(), 2000)]);
    assert_eq!(result.stats.downloaded_count, 0);
}

#[test]
fn inline_base64_content_is_decoded() {
    let mut c = crawler(cfg(None, None, 1024), "");
    c.on_listing_checked(ListingOutcome::Items {
        items: vec![file_item("hello.py", "hello.py", 5, None)],
    })
    .unwrap();
    assert!(matches!(c.next_request().unwrap(), Request::Metadata { .. }));
    c.on_meta(MetaOutcome::Data {
        data: ContentData {
            encoding: Some("base64".to_string()),
            // "hello\n", split over two payload lines as the API does
            content: Some("aGVs\nbG8K".to_string()),
        },
    });
    let result = c.into_result();
    assert_eq!(result.files.get("hello.py").unwrap().as_str(), "hello\n");
}

#[test]
fn oversized_inline_content_is_skipped_by_estimate() {
    let mut c = crawler(cfg(None, None, 10), "");
    c.on_listing_checked(ListingOutcome::Items {
        items: vec![file_item("big.py", "big.py", 5, None)],
    })
    .unwrap();
    // 40 encoded characters estimate to 30 decoded bytes, over the limit 10
    let encoded: String = "A".repeat(40);
    c.on_meta(MetaOutcome::Data {
        data: ContentData { encoding: Some("base64".to_string()), content: Some(encoded) },
    });
    let result = c.into_result();
    assert_eq!(result.stats.skipped_files, vec![("big.py".to_string(), 30)]);
    assert_eq!(result.stats.downloaded_count, 0);
}

#[test]
fn undecodable_inline_content_is_omitted() {
    let mut c = crawler(cfg(None, None, 1024), "");
    c.on_listing_checked(ListingOutcome::Items {
        items: vec![file_item("bad.py", "bad.py", 5, None)],
    })
    .unwrap();
    c.on_meta(MetaOutcome::Data {
        data: ContentData {
            encoding: Some("base64".to_string()),
            content: Some("!!!not-base64!!!".to_string()),
        },
    });
    let result = c.into_result();
    assert_eq!(result.stats.downloaded_count, 0);
    assert_eq!(result.stats.skipped_count, 0);
}

#[test]
fn excluded_directory_is_pruned() {
    let mut c = crawler(cfg(None, Some(vec!["tests*"]), 1024), "");
    c.on_listing_checked(ListingOutcome::Items {
        items: vec![dir_item("tests", "tests"), dir_item("src", "src")],
    })
    .unwrap();
    // only the src listing remains pending
    let req = c.next_request().unwrap();
    assert_eq!(
        req,
        Request::Listing { path: "src".to_string(), ref_name: Some("main".to_string()) },
    );
    c.on_listing_checked(ListingOutcome::Items { items: vec![] }).unwrap();
    assert!(c.done());
}

#[test]
fn display_paths_are_relativized_to_the_sub_path() {
    let mut c = crawler(cfg(None, None, 1024), "docs");
    c.on_listing_checked(ListingOutcome::Items {
        items: vec![file_item("guide.md", "docs/guide.md", 4, Some("https://raw.example/g"))],
    })
    .unwrap();
    c.on_raw(RawOutcome::Response {
        status_ok: true,
        content_length: Some(4),
        body: Some("text".to_string()),
    });
    let result = c.into_result();
    assert_eq!(result.files.get("guide.md").unwrap().as_str(), "text");
    assert_eq!(result.stats.base_path.as_deref(), Some("docs"));
}

#[test]
fn not_found_diagnostics_distinguish_causes() {
    // no credential: the repository may simply be private
    let mut anon = crawler(cfg(None, None, 1024), "");
    let act = anon.on_listing_checked(ListingOutcome::NotFound).unwrap();
    assert_eq!(act, StepAction::Missing { reason: NotFoundReason::RepoMissingOrPrivate });

    // credential, repository root, ref `main`: probably a different default branch
    let mut with_token = RemoteCrawler::new(
        "owner".to_string(),
        "repo".to_string(),
        Some("main".to_string()),
        "".to_string(),
        true,
        cfg(None, None, 1024),
    );
    let act = with_token.on_listing_checked(ListingOutcome::NotFound).unwrap();
    assert_eq!(act, StepAction::Missing { reason: NotFoundReason::DefaultBranchMismatch });

    // credential, sub-path: the path itself is missing
    let mut sub = RemoteCrawler::new(
        "owner".to_string(),
        "repo".to_string(),
        Some("main".to_string()),
        "docs".to_string(),
        true,
        cfg(None, None, 1024),
    );
    let act = sub.on_listing_checked(ListingOutcome::NotFound).unwrap();
    assert_eq!(act, StepAction::Missing { reason: NotFoundReason::PathMissing });
}

#[test]
fn other_statuses_abandon_the_branch_silently() {
    let mut c = crawler(cfg(None, None, 1024), "");
    let act = c.on_listing_checked(ListingOutcome::OtherStatus { status: 500 }).unwrap();
    assert_eq!(act, StepAction::HttpError { status: 500 });
    assert!(c.done());
}

#[test]
fn nested_directories_are_walked_depth_first() {
    let mut c = crawler(cfg(Some(vec!["*.py"]), Some(vec!["*tests*"]), 1024), "");
    c.on_listing_checked(ListingOutcome::Items {
        items: vec![
            file_item("setup.py", "setup.py", 9, Some("https://raw.example/setup.py")),
            dir_item("src", "src"),
            dir_item("tests", "tests"),
        ],
    })
    .unwrap();
    // requests keep coming until the work list drains; answer each in turn
    let mut fetched: Vec<String> = Vec::new();
    while let Some(req) = c.next_request() {
        match req {
            Request::Listing { path, .. } => {
                assert_ne!(path, "tests", "excluded directory must not be listed");
                let items = if path == "src" {
                    vec![
                        file_item("mod.py", "src/mod.py", 7, Some("https://raw.example/mod.py")),
                        file_item("notes.txt", "src/notes.txt", 3, None),
                    ]
                } else {
                    vec![]
                };
                c.on_listing_checked(ListingOutcome::Items { items }).unwrap();
            },
            Request::Download { url } => {
                fetched.push(url.clone());
                c.on_raw(RawOutcome::Response {
                    status_ok: true,
                    content_length: None,
                    body: Some(format!("content of {}", url)),
                });
            },
            Request::Metadata { .. } => panic!("no metadata fetch was scheduled"),
        }
    }
    let result = c.into_result();
    assert_eq!(result.stats.downloaded_count, 2);
    assert!(result.files.contains_key("setup.py"));
    assert!(result.files.contains_key("src/mod.py"));
    assert!(!result.files.contains_key("src/notes.txt"));
    assert_eq!(fetched.len(), 2);
    assert_eq!(result.stats.skipped_count, 0);
}

#[test]
fn invalid_pattern_stops_the_remote_walk() {
    let mut c = crawler(cfg(Some(vec!["["]), None, 1024), "");
    let r = c.on_listing_checked(ListingOutcome::Items { items: vec![] });
    assert!(r.is_none());
}
