//! Crawl orchestration decisions: choosing the transport for a reference,
//! deriving a project name from it, and slicing fetched content by index.

use vstd::prelude::*;
use crate::config::CrawlError;
use crate::result::PathMap;
use crate::strutil::{
    chars_of, dec_digits, ends_with, spec_dec, spec_split, spec_trim, split_char, starts_with,
    string_of, trim_char,
};

verus! {

/// The transport a crawl uses, decided from the supplied reference.
#[derive(Debug)]
pub enum FetchSource {
    /// Crawl a remote repository; SSH-style references fall back to a full
    /// clone, others go through the hosted API.
    Remote { url: String },
    /// Walk a local directory.
    Local { dir: String },
}

/// Picks the transport: a remote reference wins over a local directory;
/// neither is a configuration error.
pub fn select_source(repo_url: Option<String>, local_dir: Option<String>) -> (r: Result<
    FetchSource,
    CrawlError,
>)
    ensures
        (match repo_url {
            Some(u) => r matches Ok(FetchSource::Remote { url }) && url == u,
            None => true,
        }),
        (match (repo_url, local_dir) {
            (None, Some(d)) => r matches Ok(FetchSource::Local { dir }) && dir == d,
            (None, None) => r == Err::<FetchSource, CrawlError>(CrawlError::MissingSource),
            _ => true,
        }),
{
    match repo_url {
        Some(url) => Ok(FetchSource::Remote { url }),
        None => match local_dir {
            Some(dir) => Ok(FetchSource::Local { dir }),
            None => Err(CrawlError::MissingSource),
        },
    }
}

/// Whether a reference must be cloned rather than crawled through the
/// hosted API: SSH-style references and bare `.git` references.
pub fn is_ssh_reference(url: &str) -> (r: bool)
    ensures
        r == ("git@"@.is_prefix_of(url@) || ".git"@.is_suffix_of(url@)),
{
    if starts_with(url, "git@") {
        return true;
    }
    ends_with(url, ".git")
}

/// The characters of `s` with every occurrence of `pat` removed, scanning
/// left to right without overlap; mirrors `str::replace(pat, "")`.
pub open spec fn spec_remove_all(s: Seq<char>, pat: Seq<char>) -> Seq<char>
    decreases s.len(),
    when pat.len() > 0
{
    if s.len() == 0 {
        Seq::empty()
    } else if pat.is_prefix_of(s) {
        spec_remove_all(s.skip(pat.len() as int), pat)
    } else {
        seq![s[0]] + spec_remove_all(s.drop_first(), pat)
    }
}

fn matches_at(vs: &Vec<char>, vp: &Vec<char>, i: usize) -> (r: bool)
    requires
        i + vp@.len() <= vs@.len(),
    ensures
        r == vp@.is_prefix_of(vs@.skip(i as int)),
{
    let nv = vs.len();
    let mut j: usize = 0;
    while j < vp.len()
        invariant
            nv == vs@.len(),
            i + vp@.len() <= vs@.len(),
            j <= vp@.len(),
            forall|k: int| 0 <= k < j ==> vs@[i + k] == vp@[k],
        decreases vp@.len() - j,
    {
        if vs[i + j] != vp[j] {
            proof {
                assert(!vp@.is_prefix_of(vs@.skip(i as int))) by {
                    assert(vs@.skip(i as int).subrange(0, vp@.len() as int)[j as int] == vs@[i
                        + j]);
                }
            }
            return false;
        }
        j += 1;
    }
    proof {
        assert(vs@.skip(i as int).subrange(0, vp@.len() as int) =~= vp@);
    }
    true
}

fn remove_all(s: &str, pat: &str) -> (r: String)
    requires
        pat@.len() > 0,
    ensures
        r@ == spec_remove_all(s@, pat@),
{
    let vs = chars_of(s);
    let vp = chars_of(pat);
    let n = vs.len();
    let plen = vp.len();
    let mut out: Vec<char> = Vec::new();
    let mut i: usize = 0;
    proof {
        assert(s@.skip(0) =~= s@);
        assert(out@ + spec_remove_all(s@, pat@) =~= spec_remove_all(s@, pat@));
    }
    while i < n
        invariant
            vs@ == s@,
            vp@ == pat@,
            n == vs.len(),
            plen == vp.len(),
            plen > 0,
            i <= n,
            spec_remove_all(s@, pat@) == out@ + spec_remove_all(s@.skip(i as int), pat@),
        decreases n - i,
    {
        let matched = if plen <= n - i {
            matches_at(&vs, &vp, i)
        } else {
            proof {
                assert(!pat@.is_prefix_of(s@.skip(i as int)));
            }
            false
        };
        if matched {
            proof {
                assert(s@.skip(i as int).skip(plen as int) =~= s@.skip(i as int + plen));
            }
            i += plen;
        } else {
            proof {
                assert(s@.skip(i as int)[0] == s@[i as int]);
                assert(s@.skip(i as int).drop_first() =~= s@.skip(i as int + 1));
                assert(out@.push(s@[i as int]) + spec_remove_all(s@.skip(i as int + 1), pat@)
                    =~= out@ + (seq![s@[i as int]] + spec_remove_all(
                    s@.skip(i as int + 1),
                    pat@,
                )));
            }
            out.push(vs[i]);
            i += 1;
        }
    }
    proof {
        assert(s@.skip(n as int) =~= Seq::<char>::empty());
        assert(out@ + Seq::<char>::empty() =~= out@);
    }
    string_of(out)
}

/// The project name derived from a remote reference: the last
/// slash-separated piece of the URL, with every `.git` removed.
pub fn project_name_from_url(url: &str) -> (r: String)
    ensures
        r@ == spec_remove_all(spec_split(url@, '/').last(), ".git"@),
{
    let segs = split_char(url, '/');
    proof {
        assert(segs.deep_view()[segs.deep_view().len() - 1] == segs@[segs@.len() - 1]@);
    }
    let last = &segs[segs.len() - 1];
    proof {
        reveal_strlit(".git");
    }
    remove_all(last.as_str(), ".git")
}

/// The project name derived from a local directory: its last path
/// component (slash-separated, outer slashes ignored), or `unknown` where
/// the path has none.
pub fn project_name_from_dir(dir: &str) -> (r: String)
    ensures
        spec_trim(dir@, '/').len() == 0 ==> r@ == "unknown"@,
        spec_trim(dir@, '/').len() > 0 ==> r@ == spec_split(spec_trim(dir@, '/'), '/').last(),
{
    let trimmed = trim_char(dir, '/');
    if trimmed.as_str().is_empty() {
        return "unknown".to_owned();
    }
    let segs = split_char(trimmed.as_str(), '/');
    proof {
        assert(segs.deep_view()[segs.deep_view().len() - 1] == segs@[segs@.len() - 1]@);
    }
    let last = &segs[segs.len() - 1];
    last.clone()
}

/// The key content is filed under when sliced by index.
pub open spec fn spec_index_key(i: nat, path: Seq<char>) -> Seq<char> {
    spec_dec(i) + " # "@ + path
}

/// The map from indexed keys to content for the given indices, later
/// indices overriding earlier ones with the same key.
pub open spec fn spec_content_for_indices(
    files: Seq<(String, String)>,
    indices: Seq<usize>,
) -> Map<Seq<char>, Seq<char>>
    decreases indices.len(),
{
    if indices.len() == 0 {
        Map::empty()
    } else {
        let m = spec_content_for_indices(files, indices.drop_last());
        let i = indices.last();
        if i < files.len() {
            m.insert(spec_index_key(i as nat, files[i as int].0@), files[i as int].1@)
        } else {
            m
        }
    }
}

/// Slices fetched content by index: each in-range index files its content
/// under `"<index> # <path>"`; out-of-range indices are ignored.
pub fn get_content_for_indices(files_data: &Vec<(String, String)>, indices: &Vec<usize>) -> (r:
    PathMap)
    ensures
        r.inv(),
        r@ == spec_content_for_indices(files_data@, indices@),
{
    let mut out = PathMap::new();
    let mut k: usize = 0;
    proof {
        assert(indices@.take(0) =~= Seq::<usize>::empty());
    }
    while k < indices.len()
        invariant
            out.inv(),
            k <= indices@.len(),
            out@ == spec_content_for_indices(files_data@, indices@.take(k as int)),
        decreases indices@.len() - k,
    {
        proof {
            assert(indices@.take(k as int + 1).drop_last() =~= indices@.take(k as int));
            assert(indices@.take(k as int + 1).last() == indices@[k as int]);
        }
        let i = indices[k];
        if i < files_data.len() {
            let mut key = dec_digits(i as u64);
            let sep = chars_of(" # ");
            key.extend_from_slice(sep.as_slice());
            let path_chars = chars_of(files_data[i].0.as_str());
            key.extend_from_slice(path_chars.as_slice());
            let key_str = string_of(key);
            proof {
                assert(key_str@ == spec_index_key(i as nat, files_data@[i as int].0@));
            }
            out.insert(key_str, files_data[i].1.clone());
        }
        k += 1;
    }
    proof {
        assert(indices@.take(indices@.len() as int) =~= indices@);
    }
    out
}

} // verus!
