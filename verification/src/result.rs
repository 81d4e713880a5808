//! The crawl result: a map from path to file text, kept as an association
//! vector with distinct keys, plus the crawl statistics record.

use vstd::prelude::*;
use crate::strutil::str_eq;

verus! {

/// The map denoted by an association sequence; a later pair overrides an
/// earlier one with the same key.
pub open spec fn map_of(s: Seq<(String, String)>) -> Map<Seq<char>, Seq<char>>
    decreases s.len(),
{
    if s.len() == 0 {
        Map::empty()
    } else {
        map_of(s.drop_last()).insert(s.last().0@, s.last().1@)
    }
}

/// Pairwise distinct keys.
pub open spec fn keys_distinct(s: Seq<(String, String)>) -> bool {
    forall|i: int, j: int| 0 <= i < j < s.len() ==> (#[trigger] s[i]).0@ != (#[trigger] s[j]).0@
}

/// What `map_of` holds, spelled out pointwise for sequences with distinct keys.
pub proof fn lemma_map_of_points(s: Seq<(String, String)>)
    requires
        keys_distinct(s),
    ensures
        forall|k: Seq<char>| #[trigger] map_of(s).contains_key(k) <==> exists|i: int|
            0 <= i < s.len() && (#[trigger] s[i]).0@ == k,
        forall|i: int| 0 <= i < s.len() ==> map_of(s)[(#[trigger] s[i]).0@] == s[i].1@,
        map_of(s).dom().finite(),
        map_of(s).dom().len() == s.len(),
    decreases s.len(),
{
    if s.len() > 0 {
        let butlast = s.drop_last();
        lemma_map_of_points(butlast);
        assert forall|k: Seq<char>| #[trigger] map_of(s).contains_key(k) implies exists|i: int|
            0 <= i < s.len() && (#[trigger] s[i]).0@ == k by {
            if k == s.last().0@ {
                assert((s[s.len() - 1]).0@ == k);
            } else {
                let i = choose|i: int| 0 <= i < butlast.len() && (#[trigger] butlast[i]).0@ == k;
                assert((s[i]).0@ == k);
            }
        }
        assert forall|k: Seq<char>| (exists|i: int| 0 <= i < s.len() && (#[trigger] s[i]).0@ == k)
            implies map_of(s).contains_key(k) by {
            let i = choose|i: int| 0 <= i < s.len() && (#[trigger] s[i]).0@ == k;
            if i < s.len() - 1 {
                assert(butlast[i] == s[i]);
            }
        }
        assert forall|i: int| 0 <= i < s.len() implies map_of(s)[(#[trigger] s[i]).0@]
            == s[i].1@ by {
            if i < s.len() - 1 {
                assert(butlast[i] == s[i]);
                assert(s[i].0@ != s.last().0@);
            }
        }
        assert(!map_of(butlast).contains_key(s.last().0@)) by {
            if map_of(butlast).contains_key(s.last().0@) {
                let i = choose|i: int|
                    0 <= i < butlast.len() && (#[trigger] butlast[i]).0@ == s.last().0@;
                assert(s[i].0@ == s[s.len() - 1].0@);
            }
        }
        assert(map_of(s).dom() =~= map_of(butlast).dom().insert(s.last().0@));
        vstd::set::axiom_set_insert_len(map_of(butlast).dom(), s.last().0@);
    } else {
        broadcast use vstd::set::axiom_set_empty_len;

        assert(map_of(s).dom() =~= Set::<Seq<char>>::empty());
    }
}

/// A mapping from path to file text with distinct paths; re-inserting an
/// existing path overwrites its content.
#[derive(Debug)]
pub struct PathMap {
    entries: Vec<(String, String)>,
}

impl View for PathMap {
    type V = Map<Seq<char>, Seq<char>>;

    closed spec fn view(&self) -> Map<Seq<char>, Seq<char>> {
        map_of(self.entries@)
    }
}

impl PathMap {
    /// The paths are pairwise distinct; established by the constructor and
    /// preserved by every operation.
    pub closed spec fn inv(&self) -> bool {
        keys_distinct(self.entries@)
    }

    /// The pairs held, in insertion order.
    pub closed spec fn pairs(&self) -> Seq<(String, String)> {
        self.entries@
    }

    /// An empty map.
    pub fn new() -> (r: PathMap)
        ensures
            r.inv(),
            r@ == Map::<Seq<char>, Seq<char>>::empty(),
            r.pairs() == Seq::<(String, String)>::empty(),
    {
        let r = PathMap { entries: Vec::new() };
        proof {
            assert(r.entries@ =~= Seq::<(String, String)>::empty());
        }
        r
    }

    /// The number of paths held.
    pub fn len(&self) -> (r: usize)
        requires
            self.inv(),
        ensures
            r == self@.dom().len(),
            r == self.pairs().len(),
    {
        proof {
            lemma_map_of_points(self.entries@);
        }
        self.entries.len()
    }

    /// Whether a path is present.
    pub fn contains_key(&self, path: &str) -> (r: bool)
        requires
            self.inv(),
        ensures
            r == self@.contains_key(path@),
    {
        proof {
            lemma_map_of_points(self.entries@);
        }
        let mut i: usize = 0;
        while i < self.entries.len()
            invariant
                self.inv(),
                i <= self.entries@.len(),
                forall|j: int| 0 <= j < i ==> (#[trigger] self.entries@[j]).0@ != path@,
            decreases self.entries@.len() - i,
        {
            if str_eq(self.entries[i].0.as_str(), path) {
                proof {
                    lemma_map_of_points(self.entries@);
                }
                return true;
            }
            i += 1;
        }
        proof {
            lemma_map_of_points(self.entries@);
        }
        false
    }

    /// The content stored under a path, if any.
    pub fn get(&self, path: &str) -> (r: Option<&String>)
        requires
            self.inv(),
        ensures
            self@.contains_key(path@) ==> (r matches Some(v) && v@ == self@[path@]),
            !self@.contains_key(path@) ==> r is None,
    {
        proof {
            lemma_map_of_points(self.entries@);
        }
        let mut i: usize = 0;
        while i < self.entries.len()
            invariant
                self.inv(),
                i <= self.entries@.len(),
                forall|j: int| 0 <= j < i ==> (#[trigger] self.entries@[j]).0@ != path@,
            decreases self.entries@.len() - i,
        {
            if str_eq(self.entries[i].0.as_str(), path) {
                proof {
                    lemma_map_of_points(self.entries@);
                }
                return Some(&self.entries[i].1);
            }
            i += 1;
        }
        proof {
            lemma_map_of_points(self.entries@);
        }
        None
    }

    /// Stores content under a path, overwriting any earlier content there.
    pub fn insert(&mut self, path: String, content: String)
        requires
            old(self).inv(),
        ensures
            final(self).inv(),
            final(self)@ == old(self)@.insert(path@, content@),
            final(self)@.dom().len() <= old(self)@.dom().len() + 1,
    {
        proof {
            lemma_map_of_points(self.entries@);
        }
        let ghost old_entries = self.entries@;
        let mut i: usize = 0;
        let mut found: Option<usize> = None;
        while i < self.entries.len()
            invariant
                self.entries@ == old_entries,
                i <= old_entries.len(),
                match found {
                    Some(f) => f < i && old_entries[f as int].0@ == path@,
                    None => forall|j: int| 0 <= j < i ==> (#[trigger] old_entries[j]).0@
                        != path@,
                },
            decreases old_entries.len() - i,
        {
            if found.is_none() && str_eq(self.entries[i].0.as_str(), path.as_str()) {
                found = Some(i);
            }
            i += 1;
        }
        match found {
            Some(f) => {
                self.entries.remove(f);
                let ghost removed = self.entries@;
                self.entries.push((path, content));
                proof {
                    assert(removed =~= old_entries.subrange(0, f as int) + old_entries.subrange(
                        f as int + 1,
                        old_entries.len() as int,
                    ));
                    assert forall|i1: int, j1: int|
                        0 <= i1 < j1 < self.entries@.len() implies (
                    #[trigger] self.entries@[i1]).0@ != (#[trigger] self.entries@[j1]).0@ by {
                        if j1 < self.entries@.len() - 1 {
                            let oi = if i1 < f { i1 } else { i1 + 1 };
                            let oj = if j1 < f { j1 } else { j1 + 1 };
                            assert(old_entries[oi] == self.entries@[i1]);
                            assert(old_entries[oj] == self.entries@[j1]);
                        } else {
                            let oi = if i1 < f { i1 } else { i1 + 1 };
                            assert(old_entries[oi] == self.entries@[i1]);
                            assert(oi != f);
                        }
                    }
                    lemma_map_of_points(self.entries@);
                    lemma_map_of_points(old_entries);
                    assert(map_of(self.entries@) =~= map_of(old_entries).insert(
                        path@,
                        content@,
                    )) by {
                        assert forall|k: Seq<char>| #[trigger] map_of(
                            self.entries@,
                        ).contains_key(k) implies map_of(old_entries).insert(
                            path@,
                            content@,
                        ).contains_key(k) by {
                            let i2 = choose|i2: int|
                                0 <= i2 < self.entries@.len() && (
                                #[trigger] self.entries@[i2]).0@ == k;
                            if i2 < self.entries@.len() - 1 {
                                let oi = if i2 < f { i2 } else { i2 + 1 };
                                assert(old_entries[oi] == self.entries@[i2]);
                            }
                        }
                        assert forall|k: Seq<char>| #[trigger] map_of(old_entries).insert(
                            path@,
                            content@,
                        ).contains_key(k) implies map_of(self.entries@).contains_key(k) by {
                            if k == path@ {
                                assert(self.entries@[self.entries@.len() - 1].0@ == k);
                            } else {
                                let oi = choose|oi: int|
                                    0 <= oi < old_entries.len() && (
                                    #[trigger] old_entries[oi]).0@ == k;
                                assert(oi != f);
                                let i2 = if oi < f { oi } else { oi - 1 };
                                assert(self.entries@[i2] == old_entries[oi]);
                            }
                        }
                        assert forall|k: Seq<char>|
                            map_of(self.entries@).contains_key(k) implies #[trigger] map_of(
                            self.entries@,
                        )[k] == map_of(old_entries).insert(path@, content@)[k] by {
                            if k == path@ {
                                assert(self.entries@[self.entries@.len() - 1].0@ == k);
                            } else {
                                let i2 = choose|i2: int|
                                    0 <= i2 < self.entries@.len() && (
                                    #[trigger] self.entries@[i2]).0@ == k;
                                assert(i2 < self.entries@.len() - 1);
                                let oi = if i2 < f { i2 } else { i2 + 1 };
                                assert(old_entries[oi] == self.entries@[i2]);
                            }
                        }
                    }
                }
            },
            None => {
                self.entries.push((path, content));
                proof {
                    assert forall|i1: int, j1: int|
                        0 <= i1 < j1 < self.entries@.len() implies (
                    #[trigger] self.entries@[i1]).0@ != (#[trigger] self.entries@[j1]).0@ by {
                        if j1 < self.entries@.len() - 1 {
                            assert(old_entries[i1] == self.entries@[i1]);
                            assert(old_entries[j1] == self.entries@[j1]);
                        } else {
                            assert(old_entries[i1] == self.entries@[i1]);
                        }
                    }
                    assert(self.entries@.drop_last() =~= old_entries);
                    lemma_map_of_points(self.entries@);
                    lemma_map_of_points(old_entries);
                }
            },
        }
    }

    /// Hands the pairs out, in insertion order.
    pub fn into_entries(self) -> (r: Vec<(String, String)>)
        ensures
            r@ == self.pairs(),
            map_of(r@) == self@,
    {
        self.entries
    }
}

/// Counts and diagnostics of one crawl; informational only.
#[derive(Debug)]
pub struct CrawlStats {
    /// Number of files whose content is in the result map.
    pub downloaded_count: usize,
    /// Number of files skipped for exceeding the size limit.
    pub skipped_count: usize,
    /// The skipped files, each with the size that was reported for it.
    pub skipped_files: Vec<(String, u64)>,
    /// The base path used for relativization, when one was used.
    pub base_path: Option<String>,
    /// The include patterns in effect.
    pub include_patterns: Option<Vec<String>>,
    /// The exclude patterns in effect.
    pub exclude_patterns: Option<Vec<String>>,
    /// A free-text source annotation: fallback transport used, or a failure.
    pub source: Option<String>,
}

/// A crawl's outcome: the content map and its statistics.
#[derive(Debug)]
pub struct CrawlResult {
    /// Path to file text; every entry passed the pattern filter and the
    /// size limit of the crawl it came from.
    pub files: PathMap,
    /// The statistics record.
    pub stats: CrawlStats,
}

impl CrawlResult {
    /// The result of a crawl that could not fetch anything: an empty map,
    /// zero counts, and an optional failure annotation.
    pub fn empty_with(
        source: Option<String>,
        include_patterns: Option<Vec<String>>,
        exclude_patterns: Option<Vec<String>>,
    ) -> (r: CrawlResult)
        ensures
            r.files.inv(),
            r.files@ == Map::<Seq<char>, Seq<char>>::empty(),
            r.stats.downloaded_count == 0,
            r.stats.skipped_count == 0,
            r.stats.skipped_files@ == Seq::<(String, u64)>::empty(),
            r.stats.base_path is None,
            r.stats.source == source,
            r.stats.include_patterns == include_patterns,
            r.stats.exclude_patterns == exclude_patterns,
    {
        let files = PathMap::new();
        let skipped: Vec<(String, u64)> = Vec::new();
        proof {
            assert(skipped@ =~= Seq::<(String, u64)>::empty());
        }
        CrawlResult {
            files,
            stats: CrawlStats {
                downloaded_count: 0,
                skipped_count: 0,
                skipped_files: skipped,
                base_path: None,
                include_patterns,
                exclude_patterns,
                source,
            },
        }
    }
}

} // verus!
