use repo_crawler::config::CrawlError;
use repo_crawler::fetch::{
    get_content_for_indices, is_ssh_reference, project_name_from_dir, project_name_from_url,
    select_source, FetchSource,
};
use repo_crawler::resolve::{
    has_tree_marker, parse_repo_url, resolve_tree_ref, Branch, RefResolution,
};

fn branches(names: Vec<&str>) -> Vec<Branch> {
    names.into_iter().map(|n| Branch { name: n.to_string() }).collect()
}

fn segments(parts: Vec<&str>) -> Vec<String> {
    parts.into_iter().map(|s| s.to_string()).collect()
}

#[test]
fn url_parses_into_owner_repo_and_tail() {
    let loc = parse_repo_url("https://github.com/the-owner/the-repo/tree/main/docs").unwrap();
    assert_eq!(loc.owner, "the-owner");
    assert_eq!(loc.repo, "the-repo");
    assert_eq!(loc.tail, segments(vec!["tree", "main", "docs"]));
    assert!(has_tree_marker(&loc.tail));

    let bare = parse_repo_url("https://github.com/the-owner/the-repo").unwrap();
    assert!(bare.tail.is_empty());
    assert!(!has_tree_marker(&bare.tail));
}

#[test]
fn too_few_segments_is_a_configuration_error() {
    assert_eq!(parse_repo_url("https://github.com/lonely").unwrap_err(), CrawlError::InvalidUrl);
    assert_eq!(parse_repo_url("not a url at all").unwrap_err(), CrawlError::InvalidUrl);
}

#[test]
fn slashed_branch_name_resolves_with_sub_path() {
    // URL `.../tree/feature/sub-module/docs` against this branch list must
    // resolve ref `feature/sub-module` and sub-path `docs`.
    let rel = segments(vec!["feature", "sub-module", "docs"]);
    let r = resolve_tree_ref(&rel, &branches(vec!["main", "feature/sub-module"]));
    match r {
        RefResolution::Branch { ref_name, sub_path } => {
            assert_eq!(ref_name, "feature/sub-module");
            assert_eq!(sub_path, "docs");
        },
        _ => panic!("expected a branch resolution"),
    }
}

#[test]
fn longest_matching_branch_wins() {
    let rel = segments(vec!["feature", "sub", "docs"]);
    let r = resolve_tree_ref(&rel, &branches(vec!["feature", "feature/sub"]));
    match r {
        RefResolution::Branch { ref_name, sub_path } => {
            assert_eq!(ref_name, "feature/sub");
            assert_eq!(sub_path, "docs");
        },
        _ => panic!("expected a branch resolution"),
    }
}

#[test]
fn unmatched_segments_become_a_probe_candidate() {
    let rel = segments(vec!["abc123", "src"]);
    let r = resolve_tree_ref(&rel, &branches(vec!["main"]));
    match r {
        RefResolution::Probe { candidate, sub_path } => {
            assert_eq!(candidate, "abc123");
            assert_eq!(sub_path, "src");
        },
        _ => panic!("expected a probe resolution"),
    }
}

#[test]
fn bare_tree_marker_has_no_candidate() {
    let rel: Vec<String> = vec![];
    let r = resolve_tree_ref(&rel, &branches(vec!["main"]));
    assert!(matches!(r, RefResolution::NoCandidate));
}

#[test]
fn transport_selection_prefers_remote_and_demands_a_source() {
    match select_source(Some("https://x/y/z".to_string()), Some("/tmp/dir".to_string())) {
        Ok(FetchSource::Remote { url }) => assert_eq!(url, "https://x/y/z"),
        _ => panic!("expected the remote transport"),
    }
    match select_source(None, Some("/tmp/dir".to_string())) {
        Ok(FetchSource::Local { dir }) => assert_eq!(dir, "/tmp/dir"),
        _ => panic!("expected the local transport"),
    }
    assert_eq!(select_source(None, None).unwrap_err(), CrawlError::MissingSource);
}

#[test]
fn ssh_style_references_take_the_clone_fallback() {
    assert!(is_ssh_reference("git@github.com:owner/repo.git"));
    assert!(is_ssh_reference("https://github.com/owner/repo.git"));
    assert!(!is_ssh_reference("https://github.com/owner/repo"));
}

#[test]
fn project_names_derive_from_the_reference() {
    assert_eq!(project_name_from_url("https://github.com/owner/repo"), "repo");
    assert_eq!(project_name_from_url("git@github.com:owner/repo.git"), "repo");
    assert_eq!(project_name_from_dir("/home/user/project/"), "project");
    assert_eq!(project_name_from_dir("///"), "unknown");
}

#[test]
fn content_slices_are_keyed_by_index_and_path() {
    let files = vec![
        ("src/a.py".to_string(), "alpha".to_string()),
        ("src/b.py".to_string(), "beta".to_string()),
    ];
    let m = get_content_for_indices(&files, &vec![1, 0, 7]);
    assert_eq!(m.len(), 2);
    assert_eq!(m.get("0 # src/a.py").unwrap().as_str(), "alpha");
    assert_eq!(m.get("1 # src/b.py").unwrap().as_str(), "beta");
    assert!(m.get("7 # src/a.py").is_none());
}
