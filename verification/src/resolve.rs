//! Remote reference resolution: picking owner, repository, branch or tree
//! reference, and sub-path out of a repository URL and a branch list.

use vstd::prelude::*;
use crate::config::CrawlError;
use crate::strutil::{join_from, spec_join, spec_split, spec_trim, split_char, str_eq, trim_char};

verus! {

/// Whether `url::Url::parse` accepts this text.
pub uninterp spec fn url_ok(url: Seq<char>) -> bool;

/// The path component that `url::Url::path` returns for a parsed URL.
pub uninterp spec fn url_path(url: Seq<char>) -> Seq<char>;

/// Relies on `url::Url::parse` and `url::Url::path`: parsing succeeds or
/// fails on the URL text alone, and the path component of a parsed URL is a
/// function of that text alone.
#[verifier::external_body]
fn parse_url_path(url: &str) -> (r: Option<String>)
    ensures
        r is Some <==> url_ok(url@),
        r matches Some(p) ==> p@ == url_path(url@),
{
    match url::Url::parse(url) {
        Ok(u) => Some(u.path().to_string()),
        Err(_) => None,
    }
}

/// One branch of a repository, as the branch-list endpoint reports it.
pub struct Branch {
    /// The branch's name; may contain `/`.
    pub name: String,
}

/// The slash-separated segments of a URL's path, outer slashes dropped.
pub open spec fn spec_url_segments(url: Seq<char>) -> Seq<Seq<char>> {
    spec_split(spec_trim(url_path(url), '/'), '/')
}

/// A parsed remote repository reference.
#[derive(Debug)]
pub struct RepoLocator {
    /// The account that owns the repository.
    pub owner: String,
    /// The repository's name.
    pub repo: String,
    /// The path segments after the repository name, if any.
    pub tail: Vec<String>,
}

/// Parses a repository URL into owner, repository name and trailing
/// segments. Fails exactly when the URL does not parse or its path has
/// fewer than two segments: that is a configuration error, never retried.
pub fn parse_repo_url(url: &str) -> (r: Result<RepoLocator, CrawlError>)
    ensures
        r is Ok <==> url_ok(url@) && spec_url_segments(url@).len() >= 2,
        r matches Err(e) ==> e == CrawlError::InvalidUrl,
        r matches Ok(loc) ==> {
            &&& loc.owner@ == spec_url_segments(url@)[0]
            &&& loc.repo@ == spec_url_segments(url@)[1]
            &&& loc.tail.deep_view() == spec_url_segments(url@).skip(2)
        },
{
    let path = match parse_url_path(url) {
        Some(p) => p,
        None => {
            return Err(CrawlError::InvalidUrl);
        },
    };
    let trimmed = trim_char(path.as_str(), '/');
    let mut segs = split_char(trimmed.as_str(), '/');
    if segs.len() < 2 {
        return Err(CrawlError::InvalidUrl);
    }
    let owner = segs[0].clone();
    let repo = segs[1].clone();
    let tail = segs.split_off(2);
    proof {
        assert(owner@ == spec_url_segments(url@)[0]);
        assert(repo@ == spec_url_segments(url@)[1]);
        assert(tail.deep_view() =~= spec_url_segments(url@).skip(2));
    }
    Ok(RepoLocator { owner, repo, tail })
}

/// Whether the trailing segments point into a branch or tree (the hosted
/// API's `tree` marker stands between the repository name and the ref).
pub fn has_tree_marker(tail: &Vec<String>) -> (r: bool)
    ensures
        r == (tail.deep_view().len() > 0 && tail.deep_view()[0] == "tree"@),
{
    if tail.len() == 0 {
        return false;
    }
    str_eq(tail[0].as_str(), "tree")
}

/// The branch name's slash-separated segments lead the relative path.
pub open spec fn seg_prefix(branch: Seq<char>, rel: Seq<Seq<char>>) -> bool {
    let bs = spec_split(branch, '/');
    bs.len() <= rel.len() && forall|j: int| 0 <= j < bs.len() ==> bs[j] == rel[j]
}

fn is_seg_prefix(branch: &str, rel: &Vec<String>) -> (r: bool)
    ensures
        r == seg_prefix(branch@, rel.deep_view()),
{
    let bs = split_char(branch, '/');
    if bs.len() > rel.len() {
        return false;
    }
    let mut j: usize = 0;
    while j < bs.len()
        invariant
            bs.deep_view() == spec_split(branch@, '/'),
            bs.len() <= rel.len(),
            j <= bs.len(),
            forall|k: int| 0 <= k < j ==> spec_split(branch@, '/')[k] == rel.deep_view()[k],
        decreases bs.len() - j,
    {
        if !str_eq(bs[j].as_str(), rel[j].as_str()) {
            proof {
                assert(spec_split(branch@, '/')[j as int] == bs@[j as int]@);
                assert(rel.deep_view()[j as int] == rel@[j as int]@);
            }
            return false;
        }
        proof {
            assert(spec_split(branch@, '/')[j as int] == bs@[j as int]@);
            assert(rel.deep_view()[j as int] == rel@[j as int]@);
        }
        j += 1;
    }
    true
}

/// How a tree reference resolved against the branch list.
pub enum RefResolution {
    /// A branch name from the list leads the path; the rest is the sub-path.
    Branch { ref_name: String, sub_path: String },
    /// No branch matches; the first segment may name a tree object and is to
    /// be probed against the tree endpoint, the rest being the sub-path.
    Probe { candidate: String, sub_path: String },
    /// Nothing follows the tree marker; there is no candidate to probe.
    NoCandidate,
}

/// Resolves the segments after the `tree` marker against the repository's
/// branch list: the longest branch name whose segments lead the path wins,
/// and the sub-path is everything after it. With no matching branch, the
/// first segment is handed back as a tree-object candidate to probe.
pub fn resolve_tree_ref(rel: &Vec<String>, branches: &Vec<Branch>) -> (r: RefResolution)
    ensures
        (exists|i: int|
            0 <= i < branches@.len() && seg_prefix(
                (#[trigger] branches@[i]).name@,
                rel.deep_view(),
            )) ==> (r matches RefResolution::Branch { ref_name, sub_path } && {
            &&& exists|i: int|
                0 <= i < branches@.len() && (#[trigger] branches@[i]).name@ == ref_name@
            &&& seg_prefix(ref_name@, rel.deep_view())
            &&& forall|i: int|
                0 <= i < branches@.len() && seg_prefix(
                    (#[trigger] branches@[i]).name@,
                    rel.deep_view(),
                ) ==> spec_split(branches@[i].name@, '/').len() <= spec_split(
                    ref_name@,
                    '/',
                ).len()
            &&& sub_path@ == spec_join(
                rel.deep_view().skip(spec_split(ref_name@, '/').len() as int),
                '/',
            )
        }),
        (forall|i: int|
            0 <= i < branches@.len() ==> !seg_prefix(
                (#[trigger] branches@[i]).name@,
                rel.deep_view(),
            )) && rel@.len() > 0 ==> (r matches RefResolution::Probe { candidate, sub_path }
            && {
            &&& candidate@ == rel.deep_view()[0]
            &&& sub_path@ == spec_join(rel.deep_view().skip(1), '/')
        }),
        (forall|i: int|
            0 <= i < branches@.len() ==> !seg_prefix(
                (#[trigger] branches@[i]).name@,
                rel.deep_view(),
            )) && rel@.len() == 0 ==> r is NoCandidate,
{
    let mut best: Option<usize> = None;
    let mut best_len: usize = 0;
    let mut i: usize = 0;
    while i < branches.len()
        invariant
            i <= branches@.len(),
            match best {
                Some(b) => {
                    &&& b < i
                    &&& seg_prefix(branches@[b as int].name@, rel.deep_view())
                    &&& best_len == spec_split(branches@[b as int].name@, '/').len()
                    &&& forall|k: int|
                        0 <= k < i && seg_prefix(
                            (#[trigger] branches@[k]).name@,
                            rel.deep_view(),
                        ) ==> spec_split(branches@[k].name@, '/').len() <= best_len
                },
                None => forall|k: int|
                    0 <= k < i ==> !seg_prefix((#[trigger] branches@[k]).name@, rel.deep_view()),
            },
        decreases branches@.len() - i,
    {
        if is_seg_prefix(branches[i].name.as_str(), rel) {
            let bs = split_char(branches[i].name.as_str(), '/');
            let take_it = match best {
                Some(_) => bs.len() > best_len,
                None => true,
            };
            if take_it {
                best = Some(i);
                best_len = bs.len();
            }
        }
        i += 1;
    }
    match best {
        Some(b) => {
            let ref_name = branches[b].name.clone();
            let sub_path = join_from(rel, best_len, '/');
            RefResolution::Branch { ref_name, sub_path }
        },
        None => {
            if rel.len() > 0 {
                let candidate = rel[0].clone();
                let sub_path = join_from(rel, 1, '/');
                proof {
                    assert(candidate@ == rel.deep_view()[0]);
                }
                RefResolution::Probe { candidate, sub_path }
            } else {
                RefResolution::NoCandidate
            }
        },
    }
}

} // verus!
