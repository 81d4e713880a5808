//! The local directory walk: filtering and size screening of an enumerated
//! directory tree, as a pure function of the entries handed in.
//!
//! Enumerating a directory and reading file bytes is transport work and
//! happens outside this crate; each regular file arrives here as a
//! [`LocalEntry`] in traversal order.

use vstd::prelude::*;
use crate::config::{CrawlConfig, CrawlError};
use crate::result::{CrawlResult, CrawlStats, PathMap};

verus! {

/// One regular file met during a directory traversal.
pub struct LocalEntry {
    /// The path to report: relative to the walk root or absolute,
    /// as the configuration asked.
    pub path: String,
    /// The file's name, without directories.
    pub filename: String,
    /// The file's size in bytes.
    pub size: u64,
    /// The file's text, or `None` where it could not be read as text.
    /// Content is only consulted for files within the size limit that
    /// pass the pattern filter, so a caller may leave it `None` elsewhere.
    pub content: Option<String>,
}

/// An entry's content lands in the map exactly when it is within the size
/// limit, passes the pattern filter, and was readable as text.
pub open spec fn spec_keeps(cfg: CrawlConfig, e: LocalEntry) -> bool {
    e.size <= cfg.max_file_size && cfg.spec_accepts(e.path@, e.filename@) && e.content is Some
}

/// The content map after walking the entries in order.
pub open spec fn spec_walk_files(cfg: CrawlConfig, entries: Seq<LocalEntry>) -> Map<
    Seq<char>,
    Seq<char>,
>
    decreases entries.len(),
{
    if entries.len() == 0 {
        Map::empty()
    } else {
        let m = spec_walk_files(cfg, entries.drop_last());
        let e = entries.last();
        if spec_keeps(cfg, e) {
            match e.content {
                Some(c) => m.insert(e.path@, c@),
                None => m,
            }
        } else {
            m
        }
    }
}

/// The skip list after walking the entries in order: exactly the files over
/// the size limit, each with its reported size, in traversal order.
pub open spec fn spec_walk_skipped(cfg: CrawlConfig, entries: Seq<LocalEntry>) -> Seq<
    (String, u64),
>
    decreases entries.len(),
{
    if entries.len() == 0 {
        Seq::empty()
    } else {
        let s = spec_walk_skipped(cfg, entries.drop_last());
        let e = entries.last();
        if e.size > cfg.max_file_size {
            s.push((e.path, e.size))
        } else {
            s
        }
    }
}

/// No two entries report the same path, as holds of a filesystem traversal.
pub open spec fn paths_distinct(entries: Seq<LocalEntry>) -> bool {
    forall|a: int, b: int| 0 <= a < b < entries.len() ==> (#[trigger] entries[a]).path@ != (
    #[trigger] entries[b]).path@
}

/// The data-model invariant of the content map: everything in it came from
/// an entry that is within the size limit and passes the pattern filter.
pub proof fn lemma_walk_files_keys(cfg: CrawlConfig, entries: Seq<LocalEntry>)
    ensures
        forall|k: Seq<char>| #[trigger] spec_walk_files(cfg, entries).contains_key(k)
            ==> exists|i: int|
            0 <= i < entries.len() && (#[trigger] entries[i]).path@ == k && spec_keeps(
                cfg,
                entries[i],
            ),
    decreases entries.len(),
{
    if entries.len() > 0 {
        lemma_walk_files_keys(cfg, entries.drop_last());
        assert forall|k: Seq<char>| #[trigger] spec_walk_files(cfg, entries).contains_key(k)
            implies exists|i: int|
            0 <= i < entries.len() && (#[trigger] entries[i]).path@ == k && spec_keeps(
                cfg,
                entries[i],
            ) by {
            if spec_keeps(cfg, entries.last()) && k == entries.last().path@ {
                assert((entries[entries.len() - 1]).path@ == k && spec_keeps(
                    cfg,
                    entries[entries.len() - 1],
                ));
            } else {
                assert(spec_walk_files(cfg, entries.drop_last()).contains_key(k));
                let i = choose|i: int|
                    0 <= i < entries.drop_last().len() && (
                    #[trigger] entries.drop_last()[i]).path@ == k && spec_keeps(
                        cfg,
                        entries.drop_last()[i],
                    );
                assert((entries[i]).path@ == k && spec_keeps(cfg, entries[i]));
            }
        }
    }
}

/// A file larger than the size limit is recorded in the skip list with its
/// exact reported size and never appears in the content map, whatever the
/// pattern filter says of it.
pub proof fn lemma_oversize_skipped_never_kept(
    cfg: CrawlConfig,
    entries: Seq<LocalEntry>,
    i: int,
)
    requires
        paths_distinct(entries),
        0 <= i < entries.len(),
        entries[i].size > cfg.max_file_size,
    ensures
        spec_walk_skipped(cfg, entries).contains((entries[i].path, entries[i].size)),
        !spec_walk_files(cfg, entries).contains_key(entries[i].path@),
    decreases entries.len(),
{
    let e = entries[i];
    if i == entries.len() - 1 {
        let s = spec_walk_skipped(cfg, entries.drop_last());
        assert(spec_walk_skipped(cfg, entries) == s.push((e.path, e.size)));
        assert(spec_walk_skipped(cfg, entries)[s.len() as int] == (e.path, e.size));
        assert(!spec_keeps(cfg, e));
        lemma_walk_files_keys(cfg, entries.drop_last());
        if spec_walk_files(cfg, entries.drop_last()).contains_key(e.path@) {
            let j = choose|j: int|
                0 <= j < entries.drop_last().len() && (#[trigger] entries.drop_last()[j]).path@
                    == e.path@;
            assert(entries[j].path@ == entries[i].path@);
        }
    } else {
        assert(paths_distinct(entries.drop_last())) by {
            assert(forall|a: int, b: int|
                0 <= a < b < entries.drop_last().len() ==> (
                #[trigger] entries.drop_last()[a]).path@ != (
                #[trigger] entries.drop_last()[b]).path@);
        }
        assert(entries.drop_last()[i] == entries[i]);
        lemma_oversize_skipped_never_kept(cfg, entries.drop_last(), i);
        let s = spec_walk_skipped(cfg, entries.drop_last());
        let last = entries.last();
        if last.size > cfg.max_file_size {
            let j = choose|j: int| 0 <= j < s.len() && s[j] == (e.path, e.size);
            assert(s.push((last.path, last.size))[j] == (e.path, e.size));
        }
        assert(e.path@ != last.path@);
    }
}

/// Re-running the walk on the same entries and configuration yields the
/// identical content map: the crawl of an unchanged directory is
/// deterministic, byte for byte.
pub proof fn lemma_walk_deterministic(
    cfg: CrawlConfig,
    entries: Seq<LocalEntry>,
    first: Map<Seq<char>, Seq<char>>,
    second: Map<Seq<char>, Seq<char>>,
)
    requires
        first == spec_walk_files(cfg, entries),
        second == spec_walk_files(cfg, entries),
    ensures
        first == second,
{
}

/// Walks enumerated entries under a validated configuration.
pub fn walk_entries(cfg: &CrawlConfig, entries: &Vec<LocalEntry>) -> (r: (
    PathMap,
    Vec<(String, u64)>,
))
    requires
        cfg.patterns_ok(),
    ensures
        r.0.inv(),
        r.0@ == spec_walk_files(*cfg, entries@),
        r.1@ == spec_walk_skipped(*cfg, entries@),
{
    let mut files = PathMap::new();
    let mut skipped: Vec<(String, u64)> = Vec::new();
    let mut i: usize = 0;
    proof {
        assert(entries@.take(0) =~= Seq::<LocalEntry>::empty());
        assert(skipped@ =~= spec_walk_skipped(*cfg, entries@.take(0)));
    }
    while i < entries.len()
        invariant
            cfg.patterns_ok(),
            i <= entries@.len(),
            files.inv(),
            files@ == spec_walk_files(*cfg, entries@.take(i as int)),
            skipped@ == spec_walk_skipped(*cfg, entries@.take(i as int)),
        decreases entries@.len() - i,
    {
        proof {
            assert(entries@.take(i as int + 1).drop_last() =~= entries@.take(i as int));
            assert(entries@.take(i as int + 1).last() == entries@[i as int]);
        }
        let e = &entries[i];
        if e.size > cfg.max_file_size {
            skipped.push((e.path.clone(), e.size));
        } else if cfg.accepts(e.path.as_str(), e.filename.as_str()) {
            match &e.content {
                Some(c) => {
                    files.insert(e.path.clone(), c.clone());
                },
                None => {},
            }
        }
        i += 1;
    }
    proof {
        assert(entries@.take(entries@.len() as int) =~= entries@);
    }
    (files, skipped)
}

/// Crawls an already-enumerated local directory: applies the size limit and
/// the pattern filter to each file and assembles the result and statistics.
/// Fails exactly when some configured pattern does not compile; no pattern
/// error is ever reported as a skip.
pub fn crawl_local_files(directory: &str, cfg: CrawlConfig, entries: &Vec<LocalEntry>) -> (r:
    Result<CrawlResult, CrawlError>)
    ensures
        r is Ok <==> cfg.patterns_ok(),
        r matches Err(e) ==> e == CrawlError::InvalidPattern,
        r matches Ok(res) ==> {
            &&& res.files.inv()
            &&& res.files@ == spec_walk_files(cfg, entries@)
            &&& res.stats.skipped_files@ == spec_walk_skipped(cfg, entries@)
            &&& res.stats.downloaded_count == res.files@.dom().len()
            &&& res.stats.skipped_count == res.stats.skipped_files@.len()
            &&& (cfg.use_relative_paths ==> (res.stats.base_path matches Some(d) && d@
                == directory@))
            &&& (!cfg.use_relative_paths ==> res.stats.base_path is None)
            &&& res.stats.include_patterns == cfg.include_patterns
            &&& res.stats.exclude_patterns == cfg.exclude_patterns
            &&& res.stats.source is None
        },
{
    if !cfg.validate() {
        return Err(CrawlError::InvalidPattern);
    }
    let (files, skipped) = walk_entries(&cfg, entries);
    let downloaded_count = files.len();
    let skipped_count = skipped.len();
    let base_path = if cfg.use_relative_paths {
        Some(directory.to_owned())
    } else {
        None
    };
    Ok(
        CrawlResult {
            files,
            stats: CrawlStats {
                downloaded_count,
                skipped_count,
                skipped_files: skipped,
                base_path,
                include_patterns: cfg.include_patterns,
                exclude_patterns: cfg.exclude_patterns,
                source: None,
            },
        },
    )
}

} // verus!
