//! Data shapes and validation rules of the stages that consume the
//! crawler's output downstream (abstraction identification, relationship
//! analysis, chapter ordering and writing). The stages' model calls and
//! their response parsing live outside this crate; the index arithmetic and
//! the validity rules on what comes back are defined and checked here.

use vstd::prelude::*;
use crate::strutil::{chars_of, spec_split, spec_trim, split_char, trim_char};

verus! {

/// One abstraction identified in the fetched code.
#[derive(Debug, Clone)]
pub struct Abstraction {
    /// The abstraction's name.
    pub name: String,
    /// A beginner-friendly description.
    pub description: String,
    /// Indices into the fetched file list, deduplicated and ascending.
    pub files: Vec<usize>,
}

/// One directed interaction between two abstractions.
#[derive(Debug, Clone)]
pub struct Relationship {
    /// Index of the source abstraction.
    pub from: usize,
    /// Index of the target abstraction.
    pub to: usize,
    /// A short label for the interaction.
    pub label: String,
}

/// A project summary with the interactions between its abstractions.
#[derive(Debug, Clone)]
pub struct RelationshipsData {
    /// The high-level project summary.
    pub summary: String,
    /// The validated relationships.
    pub details: Vec<Relationship>,
}

/// The stage that identifies abstractions in fetched content.
pub struct IdentifyAbstractions;

/// The stage that analyzes relationships between identified abstractions.
pub struct AnalyzeRelationships;

/// The stage that picks the order chapters are written in.
pub struct OrderChapters;

/// The stage that writes one chapter per abstraction, in order.
pub struct WriteChapters {
    /// The chapters written so far, used as context for the next one.
    pub chapters_written_so_far: Vec<String>,
}

impl WriteChapters {
    /// A chapter writer that has written nothing yet.
    pub fn new() -> (r: WriteChapters)
        ensures
            r.chapters_written_so_far@ == Seq::<String>::empty(),
    {
        let r = WriteChapters { chapters_written_so_far: Vec::new() };
        proof {
            assert(r.chapters_written_so_far@ =~= Seq::<String>::empty());
        }
        r
    }
}

/// The stage that combines the chapters into one document tree.
pub struct CombineTutorial;

/// All characters are decimal digits.
pub open spec fn spec_is_digits(t: Seq<char>) -> bool {
    forall|j: int| 0 <= j < t.len() ==> 48 <= (#[trigger] t[j]) as int <= 57
}

/// The number a string of decimal digits denotes.
pub open spec fn spec_dec_val(t: Seq<char>) -> int
    decreases t.len(),
{
    if t.len() == 0 {
        0
    } else {
        10 * spec_dec_val(t.drop_last()) + (t.last() as int - 48)
    }
}

proof fn lemma_dec_val_bounds(t: Seq<char>)
    requires
        spec_is_digits(t),
    ensures
        spec_dec_val(t) >= 0,
    decreases t.len(),
{
    if t.len() > 0 {
        assert(spec_is_digits(t.drop_last())) by {
            assert(forall|j: int| 0 <= j < t.len() - 1 ==> (#[trigger] t.drop_last()[j])
                == t[j]);
        }
        lemma_dec_val_bounds(t.drop_last());
    }
}

proof fn lemma_dec_val_monotonic(t: Seq<char>, i: int)
    requires
        spec_is_digits(t),
        0 <= i <= t.len(),
    ensures
        spec_dec_val(t.take(i)) <= spec_dec_val(t),
    decreases t.len() - i,
{
    if i == t.len() {
        assert(t.take(i) =~= t);
    } else {
        assert(spec_is_digits(t.drop_last())) by {
            assert(forall|j: int| 0 <= j < t.len() - 1 ==> (#[trigger] t.drop_last()[j])
                == t[j]);
        }
        assert(t.drop_last().take(i) =~= t.take(i));
        lemma_dec_val_monotonic(t.drop_last(), i);
        lemma_dec_val_bounds(t.drop_last());
        assert(t.last() as int - 48 >= 0);
    }
}

/// The part of an index entry before any `#` comment, space-trimmed: the
/// digits a validated index is read from.
pub open spec fn spec_index_digits(s: Seq<char>) -> Seq<char> {
    spec_trim(spec_split(s, '#')[0], ' ')
}

/// Reads a file or abstraction index from one listing entry, of the shape
/// `3` or `3 # some/path`. Succeeds exactly when what stands before the
/// optional `#` is, after trimming spaces, one or more decimal digits whose
/// value fits the platform's word.
pub fn parse_index_entry(s: &str) -> (r: Option<usize>)
    ensures
        r is Some <==> (spec_index_digits(s@).len() > 0 && spec_is_digits(spec_index_digits(s@))
            && spec_dec_val(spec_index_digits(s@)) <= usize::MAX),
        r matches Some(v) ==> v == spec_dec_val(spec_index_digits(s@)),
{
    let segs = split_char(s, '#');
    proof {
        assert(segs.deep_view()[0] == segs@[0]@);
    }
    let head = &segs[0];
    let trimmed = trim_char(head.as_str(), ' ');
    let tc = chars_of(trimmed.as_str());
    let ghost t = spec_index_digits(s@);
    proof {
        assert(tc@ == t);
    }
    if tc.len() == 0 {
        return None;
    }
    let mut val: usize = 0;
    let mut i: usize = 0;
    proof {
        assert(t.take(0) =~= Seq::<char>::empty());
    }
    while i < tc.len()
        invariant
            t == spec_index_digits(s@),
            tc@ == t,
            i <= t.len(),
            forall|j: int| 0 <= j < i ==> 48 <= (#[trigger] t[j]) as int <= 57,
            val == spec_dec_val(t.take(i as int)),
        decreases t.len() - i,
    {
        proof {
            assert(t.take(i as int + 1).drop_last() =~= t.take(i as int));
            assert(t.take(i as int + 1).last() == t[i as int]);
        }
        let c = tc[i];
        proof {
            assert(t[i as int] == c);
        }
        if c < '0' || c > '9' {
            proof {
                assert(!spec_is_digits(t)) by {
                    assert(!(48 <= t[i as int] as int <= 57));
                }
            }
            return None;
        }
        let d = c as u32;
        let dv = (d - 48) as usize;
        proof {
            assert(dv == t[i as int] as int - 48);
            assert(spec_is_digits(t.take(i as int + 1))) by {
                assert forall|j: int| 0 <= j < t.take(i as int + 1).len() implies 48 <= (
                #[trigger] t.take(i as int + 1)[j]) as int <= 57 by {
                    assert(t.take(i as int + 1)[j] == t[j]);
                    if j == i {
                        assert(t[j] == c);
                    }
                }
            }
        }
        if val > (usize::MAX - dv) / 10 {
            proof {
                assert(10 * spec_dec_val(t.take(i as int)) + dv > usize::MAX) by (nonlinear_arith)
                    requires
                        val == spec_dec_val(t.take(i as int)),
                        val > (usize::MAX - dv) / 10,
                        0 <= dv <= 9,
                ;
                if spec_is_digits(t) {
                    lemma_dec_val_monotonic(t, i as int + 1);
                    assert(spec_dec_val(t) > usize::MAX);
                }
            }
            return None;
        }
        proof {
            assert(val * 10 + dv <= usize::MAX) by (nonlinear_arith)
                requires
                    0 <= val <= (usize::MAX - dv) / 10,
                    0 <= dv <= 9,
            ;
        }
        val = val * 10 + dv;
        i += 1;
    }
    proof {
        assert(t.take(t.len() as int) =~= t);
    }
    Some(val)
}

/// Strictly ascending: sorted with no duplicates.
pub open spec fn spec_ascending(v: Seq<usize>) -> bool {
    forall|a: int, b: int| 0 <= a < b < v.len() ==> v[a] < v[b]
}

/// Normalizes the file-index list of one identified abstraction: every
/// index must fall below the file count, and the result lists the same
/// indices deduplicated and ascending. `None` exactly when some index is
/// out of range.
pub fn normalize_file_indices(indices: &Vec<usize>, file_count: usize) -> (r: Option<
    Vec<usize>,
>)
    ensures
        r is Some <==> (forall|i: int| 0 <= i < indices@.len() ==> (#[trigger] indices@[i])
            < file_count),
        r matches Some(v) ==> {
            &&& spec_ascending(v@)
            &&& forall|a: int| 0 <= a < v@.len() ==> indices@.contains(#[trigger] v@[a])
            &&& forall|i: int| 0 <= i < indices@.len() ==> v@.contains(#[trigger] indices@[i])
        },
{
    let mut out: Vec<usize> = Vec::new();
    let mut k: usize = 0;
    while k < indices.len()
        invariant
            k <= indices@.len(),
            forall|i: int| 0 <= i < k ==> (#[trigger] indices@[i]) < file_count,
            spec_ascending(out@),
            forall|a: int| 0 <= a < out@.len() ==> indices@.contains(#[trigger] out@[a]),
            forall|i: int| 0 <= i < k ==> out@.contains(#[trigger] indices@[i]),
        decreases indices@.len() - k,
    {
        let v = indices[k];
        if v >= file_count {
            return None;
        }
        let mut j: usize = 0;
        while j < out.len() && out[j] < v
            invariant
                j <= out@.len(),
                forall|l: int| 0 <= l < j ==> (#[trigger] out@[l]) < v,
            decreases out@.len() - j,
        {
            j += 1;
        }
        if j == out.len() || out[j] > v {
            let ghost before = out@;
            out.insert(j, v);
            proof {
                assert(out@ == before.insert(j as int, v));
                assert forall|a: int, b: int| 0 <= a < b < out@.len() implies out@[a]
                    < out@[b] by {
                    let oa = if a < j { a } else { a - 1 };
                    let ob = if b < j { b } else { b - 1 };
                    if a != j && b != j {
                        assert(out@[a] == before[oa] && out@[b] == before[ob]);
                        if a < j && b > j && j < before.len() {
                            assert(before[oa] < v && v < before[j as int]);
                        }
                    } else if a == j {
                        assert(out@[a] == v && out@[b] == before[ob]);
                        assert(v < before[j as int] && (ob == j || before[j as int]
                            <= before[ob]));
                    } else {
                        assert(out@[a] == before[oa] && out@[b] == v);
                    }
                }
                assert forall|a: int| 0 <= a < out@.len() implies indices@.contains(
                    #[trigger] out@[a],
                ) by {
                    if a == j {
                        assert(out@[a] == indices@[k as int]);
                    } else {
                        let oa = if a < j { a } else { a - 1 };
                        assert(out@[a] == before[oa]);
                    }
                }
                assert forall|i: int| 0 <= i < k + 1 implies out@.contains(
                    #[trigger] indices@[i],
                ) by {
                    if i == k {
                        assert(out@[j as int] == indices@[i]);
                    } else {
                        let w = choose|w: int| 0 <= w < before.len() && before[w]
                            == indices@[i];
                        let nw = if w < j { w } else { w + 1 };
                        assert(out@[nw] == indices@[i]);
                    }
                }
            }
        } else {
            proof {
                assert(out@[j as int] == v);
                assert forall|i: int| 0 <= i < k + 1 implies out@.contains(
                    #[trigger] indices@[i],
                ) by {
                    if i == k {
                        assert(out@[j as int] == indices@[i]);
                    }
                }
            }
        }
        k += 1;
    }
    Some(out)
}

/// Checks a proposed chapter order over `n` abstractions: it must list
/// exactly `n` indices, each below `n`, with no duplicates — every
/// abstraction gets exactly one chapter.
pub fn validate_chapter_order(order: &Vec<usize>, n: usize) -> (r: bool)
    ensures
        r == (order@.len() == n && (forall|i: int| 0 <= i < order@.len() ==> (
        #[trigger] order@[i]) < n) && (forall|i: int, j: int|
            0 <= i < j < order@.len() ==> order@[i] != order@[j])),
{
    if order.len() != n {
        return false;
    }
    let mut i: usize = 0;
    while i < order.len()
        invariant
            order@.len() == n,
            i <= order@.len(),
            forall|k: int| 0 <= k < i ==> (#[trigger] order@[k]) < n,
            forall|k: int, l: int| 0 <= k < l < i ==> order@[k] != order@[l],
        decreases order@.len() - i,
    {
        if order[i] >= n {
            return false;
        }
        let mut j: usize = 0;
        while j < i
            invariant
                order@.len() == n,
                j <= i < order@.len(),
                forall|l: int| 0 <= l < j ==> order@[l] != order@[i as int],
            decreases i - j,
        {
            if order[j] == order[i] {
                return false;
            }
            j += 1;
        }
        i += 1;
    }
    true
}

} // verus!

