//! Character-level string utilities.
//!
//! All path and pattern manipulation in this crate is done over character
//! vectors, whose views are the same `Seq<char>` that `String` and `str`
//! views use; two small trusted bridges convert between the two worlds.

use vstd::prelude::*;

verus! {

/// Relies on `str::chars`: the iterator yields exactly the string's
/// characters in order, so collecting them gives the string's view.
#[verifier::external_body]
pub(crate) fn chars_of(s: &str) -> (r: Vec<char>)
    ensures
        r@ == s@,
{
    s.chars().collect()
}

/// Relies on `String`'s `FromIterator<char>` impl: collecting characters
/// builds the string made of exactly those characters.
#[verifier::external_body]
pub(crate) fn string_of(cs: Vec<char>) -> (r: String)
    ensures
        r@ == cs@,
{
    cs.into_iter().collect()
}

/// Character-for-character string equality.
pub fn str_eq(a: &str, b: &str) -> (r: bool)
    ensures
        r == (a@ == b@),
{
    let va = chars_of(a);
    let vb = chars_of(b);
    if va.len() != vb.len() {
        return false;
    }
    let mut i: usize = 0;
    while i < va.len()
        invariant
            va@ == a@,
            vb@ == b@,
            va.len() == vb.len(),
            i <= va.len(),
            forall|j: int| 0 <= j < i ==> va@[j] == vb@[j],
        decreases va.len() - i,
    {
        if va[i] != vb[i] {
            return false;
        }
        i += 1;
    }
    proof {
        assert(a@ =~= b@);
    }
    true
}

/// Whether `p` is a prefix of `s`, decided character by character.
pub fn starts_with(s: &str, p: &str) -> (r: bool)
    ensures
        r == p@.is_prefix_of(s@),
{
    let vs = chars_of(s);
    let vp = chars_of(p);
    if vp.len() > vs.len() {
        return false;
    }
    let mut i: usize = 0;
    while i < vp.len()
        invariant
            vs@ == s@,
            vp@ == p@,
            vp.len() <= vs.len(),
            i <= vp.len(),
            forall|j: int| 0 <= j < i ==> vs@[j] == vp@[j],
        decreases vp.len() - i,
    {
        if vs[i] != vp[i] {
            proof {
                assert(!p@.is_prefix_of(s@)) by {
                    assert(s@.subrange(0, p@.len() as int)[i as int] == s@[i as int]);
                }
            }
            return false;
        }
        i += 1;
    }
    proof {
        assert(s@.subrange(0, p@.len() as int) =~= p@);
    }
    true
}

/// Whether `p` is a suffix of `s`, decided character by character.
pub fn ends_with(s: &str, p: &str) -> (r: bool)
    ensures
        r == p@.is_suffix_of(s@),
{
    let vs = chars_of(s);
    let vp = chars_of(p);
    if vp.len() > vs.len() {
        return false;
    }
    let off = vs.len() - vp.len();
    let mut i: usize = 0;
    while i < vp.len()
        invariant
            vs@ == s@,
            vp@ == p@,
            vp.len() <= vs.len(),
            off == vs.len() - vp.len(),
            i <= vp.len(),
            forall|j: int| 0 <= j < i ==> vs@[off + j] == vp@[j],
        decreases vp.len() - i,
    {
        if vs[off + i] != vp[i] {
            proof {
                assert(!p@.is_suffix_of(s@)) by {
                    assert(s@.subrange(s@.len() - p@.len(), s@.len() as int)[i as int]
                        == s@[off + i]);
                }
            }
            return false;
        }
        i += 1;
    }
    proof {
        assert(s@.subrange(s@.len() - p@.len(), s@.len() as int) =~= p@);
    }
    true
}

/// The characters of `s` with every occurrence of `c` removed.
pub open spec fn spec_remove_char(s: Seq<char>, c: char) -> Seq<char>
    decreases s.len(),
{
    if s.len() == 0 {
        Seq::empty()
    } else if s.last() == c {
        spec_remove_char(s.drop_last(), c)
    } else {
        spec_remove_char(s.drop_last(), c).push(s.last())
    }
}

/// Removes every occurrence of one character from a string.
pub fn remove_char(s: &str, c: char) -> (r: String)
    ensures
        r@ == spec_remove_char(s@, c),
{
    let vs = chars_of(s);
    let mut out: Vec<char> = Vec::new();
    let mut i: usize = 0;
    while i < vs.len()
        invariant
            vs@ == s@,
            i <= vs.len(),
            out@ == spec_remove_char(s@.take(i as int), c),
        decreases vs.len() - i,
    {
        proof {
            assert(s@.take(i + 1 as int).drop_last() =~= s@.take(i as int));
            assert(s@.take(i + 1 as int).last() == s@[i as int]);
        }
        if vs[i] != c {
            out.push(vs[i]);
        }
        i += 1;
    }
    proof {
        assert(s@.take(vs@.len() as int) =~= s@);
    }
    string_of(out)
}

/// The number of leading characters of `s` equal to `c`.
pub open spec fn spec_leading(s: Seq<char>, c: char) -> int
    decreases s.len(),
{
    if s.len() > 0 && s[0] == c {
        1 + spec_leading(s.drop_first(), c)
    } else {
        0
    }
}

/// The number of trailing characters of `s` equal to `c`.
pub open spec fn spec_trailing(s: Seq<char>, c: char) -> int
    decreases s.len(),
{
    if s.len() > 0 && s.last() == c {
        1 + spec_trailing(s.drop_last(), c)
    } else {
        0
    }
}

/// `s` with all leading and trailing occurrences of `c` removed.
pub open spec fn spec_trim(s: Seq<char>, c: char) -> Seq<char> {
    let a = spec_leading(s, c);
    let b = spec_trailing(s.skip(a), c);
    s.skip(a).take(s.len() - a - b)
}

proof fn lemma_leading_at(s: Seq<char>, c: char, k: int)
    requires
        0 <= k <= s.len(),
        forall|j: int| 0 <= j < k ==> s[j] == c,
        k == s.len() || s[k] != c,
    ensures
        spec_leading(s, c) == k,
    decreases s.len(),
{
    if s.len() > 0 && s[0] == c {
        assert(k >= 1);
        assert forall|j: int| 0 <= j < k - 1 implies s.drop_first()[j] == c by {
            assert(s.drop_first()[j] == s[j + 1]);
        }
        lemma_leading_at(s.drop_first(), c, k - 1);
    }
}

proof fn lemma_trailing_at(s: Seq<char>, c: char, k: int)
    requires
        0 <= k <= s.len(),
        forall|j: int| s.len() - k <= j < s.len() ==> s[j] == c,
        k == s.len() || s[s.len() - k - 1] != c,
    ensures
        spec_trailing(s, c) == k,
    decreases s.len(),
{
    if s.len() > 0 && s.last() == c {
        assert(k >= 1);
        assert forall|j: int| s.drop_last().len() - (k - 1) <= j < s.drop_last().len()
            implies s.drop_last()[j] == c by {
            assert(s.drop_last()[j] == s[j]);
        }
        lemma_trailing_at(s.drop_last(), c, k - 1);
    }
}

/// Removes all leading and trailing occurrences of one character.
pub fn trim_char(s: &str, c: char) -> (r: String)
    ensures
        r@ == spec_trim(s@, c),
{
    let vs = chars_of(s);
    let n = vs.len();
    let mut a: usize = 0;
    while a < n && vs[a] == c
        invariant
            vs@ == s@,
            n == vs.len(),
            a <= n,
            forall|j: int| 0 <= j < a ==> s@[j] == c,
        decreases n - a,
    {
        a += 1;
    }
    let mut b: usize = n;
    while b > a && vs[b - 1] == c
        invariant
            vs@ == s@,
            n == vs.len(),
            a <= b <= n,
            forall|j: int| b <= j < n ==> s@[j] == c,
        decreases b,
    {
        b -= 1;
    }
    let mut out: Vec<char> = Vec::new();
    let mut i: usize = a;
    while i < b
        invariant
            vs@ == s@,
            n == vs.len(),
            a <= b <= n,
            a <= i <= b,
            out@ == s@.subrange(a as int, i as int),
        decreases b - i,
    {
        out.push(vs[i]);
        proof {
            assert(out@ =~= s@.subrange(a as int, i + 1 as int));
        }
        i += 1;
    }
    proof {
        lemma_leading_at(s@, c, a as int);
        if a == n {
            // nothing remains; both sides are empty
            assert(s@.skip(a as int).len() == 0);
            lemma_trailing_at(s@.skip(a as int), c, 0);
            assert(out@ =~= spec_trim(s@, c));
        } else {
            let rest = s@.skip(a as int);
            assert forall|j: int| rest.len() - (n - b) <= j < rest.len() implies rest[j]
                == c by {
                assert(rest[j] == s@[j + a]);
            }
            if b > a {
                assert(rest[b - 1 - a] == s@[b - 1]);
            }
            lemma_trailing_at(rest, c, n as int - b);
            assert(out@ =~= rest.take(rest.len() - (n - b)));
        }
    }
    string_of(out)
}

/// `s` with all leading occurrences of `c` removed.
pub open spec fn spec_trim_left(s: Seq<char>, c: char) -> Seq<char> {
    s.skip(spec_leading(s, c))
}

/// Removes all leading occurrences of one character.
pub fn trim_left_char(s: &str, c: char) -> (r: String)
    ensures
        r@ == spec_trim_left(s@, c),
{
    let vs = chars_of(s);
    let n = vs.len();
    let mut a: usize = 0;
    while a < n && vs[a] == c
        invariant
            vs@ == s@,
            n == vs.len(),
            a <= n,
            forall|j: int| 0 <= j < a ==> s@[j] == c,
        decreases n - a,
    {
        a += 1;
    }
    let mut out: Vec<char> = Vec::new();
    let mut i: usize = a;
    while i < n
        invariant
            vs@ == s@,
            n == vs.len(),
            a <= i <= n,
            out@ == s@.subrange(a as int, i as int),
        decreases n - i,
    {
        out.push(vs[i]);
        proof {
            assert(out@ =~= s@.subrange(a as int, i as int + 1));
        }
        i += 1;
    }
    proof {
        lemma_leading_at(s@, c, a as int);
        assert(out@ =~= s@.skip(a as int));
    }
    string_of(out)
}

/// Splitting a character sequence on a separator, never yielding fewer than
/// one (possibly empty) segment; mirrors `str::split` on a single character.
pub open spec fn spec_split(s: Seq<char>, sep: char) -> Seq<Seq<char>>
    decreases s.len(),
{
    if s.len() == 0 {
        seq![Seq::<char>::empty()]
    } else if s[0] == sep {
        seq![Seq::<char>::empty()] + spec_split(s.drop_first(), sep)
    } else {
        let rest = spec_split(s.drop_first(), sep);
        rest.update(0, seq![s[0]] + rest[0])
    }
}

pub proof fn lemma_split_len(s: Seq<char>, sep: char)
    ensures
        spec_split(s, sep).len() >= 1,
    decreases s.len(),
{
    if s.len() > 0 {
        lemma_split_len(s.drop_first(), sep);
    }
}

/// The first segment of a split, extended at the front.
spec fn prepend_first(c: Seq<char>, segs: Seq<Seq<char>>) -> Seq<Seq<char>> {
    segs.update(0, c + segs[0])
}

/// Splits a string on a separator character.
pub fn split_char(s: &str, sep: char) -> (r: Vec<String>)
    ensures
        r.deep_view() == spec_split(s@, sep),
        r.len() >= 1,
{
    let vs = chars_of(s);
    let n = vs.len();
    let mut done: Vec<String> = Vec::new();
    let mut cur: Vec<char> = Vec::new();
    let mut i: usize = 0;
    proof {
        lemma_split_len(s@, sep);
        assert(s@.skip(0) =~= s@);
        assert(done.deep_view() + prepend_first(cur@, spec_split(s@, sep)) =~~= spec_split(
            s@,
            sep,
        ));
    }
    while i < n
        invariant
            vs@ == s@,
            n == vs.len(),
            i <= n,
            spec_split(s@.skip(i as int), sep).len() >= 1,
            spec_split(s@, sep) == done.deep_view() + prepend_first(
                cur@,
                spec_split(s@.skip(i as int), sep),
            ),
        decreases n - i,
    {
        proof {
            assert(s@.skip(i as int)[0] == s@[i as int]);
            assert(s@.skip(i as int).drop_first() =~= s@.skip(i as int + 1));
            lemma_split_len(s@.skip(i as int + 1), sep);
        }
        let ghost before = spec_split(s@.skip(i as int), sep);
        let ghost after = spec_split(s@.skip(i as int + 1), sep);
        let ghost prev_done = done.deep_view();
        let ghost prev_cur = cur@;
        if vs[i] == sep {
            let finished = string_of(cur);
            done.push(finished);
            cur = Vec::new();
            proof {
                assert(before == seq![Seq::<char>::empty()] + after);
                assert(prepend_first(prev_cur, before) =~~= seq![prev_cur] + after);
                assert(done.deep_view() =~~= prev_done + seq![prev_cur]);
                assert(prepend_first(cur@, after) =~~= after);
                assert(prev_done + (seq![prev_cur] + after) =~~= done.deep_view()
                    + prepend_first(cur@, after));
                assert(prev_done + prepend_first(prev_cur, before) =~~= prev_done + (
                seq![prev_cur] + after));
            }
        } else {
            cur.push(vs[i]);
            proof {
                assert(before == after.update(0, seq![s@[i as int]] + after[0]));
                assert(prepend_first(prev_cur, before) =~~= prepend_first(cur@, after));
            }
        }
        i += 1;
    }
    proof {
        assert(s@.skip(n as int) =~= Seq::<char>::empty());
        assert(spec_split(Seq::<char>::empty(), sep) == seq![Seq::<char>::empty()]);
        assert(prepend_first(cur@, seq![Seq::<char>::empty()]) =~~= seq![cur@]);
    }
    let ghost prev_done = done.deep_view();
    let ghost prev_cur = cur@;
    let last = string_of(cur);
    done.push(last);
    proof {
        assert(done.deep_view() =~~= prev_done + seq![prev_cur]);
        assert(prev_done + prepend_first(prev_cur, seq![Seq::<char>::empty()]) =~~= prev_done
            + seq![prev_cur]);
    }
    done
}

/// Joining segments with a separator; inverse direction of `spec_split`.
pub open spec fn spec_join(segs: Seq<Seq<char>>, sep: char) -> Seq<char>
    decreases segs.len(),
{
    if segs.len() == 0 {
        Seq::empty()
    } else if segs.len() == 1 {
        segs[0]
    } else {
        spec_join(segs.drop_last(), sep) + seq![sep] + segs.last()
    }
}

/// Joins the segments from index `from` on with a separator character.
pub fn join_from(segs: &Vec<String>, from: usize, sep: char) -> (r: String)
    requires
        from <= segs.len(),
    ensures
        r@ == spec_join(segs.deep_view().skip(from as int), sep),
{
    let mut out: Vec<char> = Vec::new();
    let mut i: usize = from;
    proof {
        assert(segs.deep_view().skip(from as int).take(0) =~= Seq::<Seq<char>>::empty());
    }
    while i < segs.len()
        invariant
            from <= i <= segs.len(),
            out@ == spec_join(
                segs.deep_view().skip(from as int).take(i - from as int),
                sep,
            ),
        decreases segs.len() - i,
    {
        let ghost tail = segs.deep_view().skip(from as int);
        proof {
            assert(tail.take(i + 1 - from as int).drop_last() =~= tail.take(i - from as int));
            assert(tail.take(i + 1 - from as int).last() == segs.deep_view()[i as int]);
        }
        if i > from {
            out.push(sep);
        }
        let cs = chars_of(segs[i].as_str());
        out.extend_from_slice(cs.as_slice());
        proof {
            if i == from {
                assert(out@ == tail.take(1)[0]);
            }
        }
        i += 1;
    }
    proof {
        assert(segs.deep_view().skip(from as int).take(
            segs.len() - from as int,
        ) =~= segs.deep_view().skip(from as int));
    }
    string_of(out)
}

/// The decimal digit characters of a number, most significant first.
pub open spec fn spec_dec(n: nat) -> Seq<char>
    decreases n,
{
    if n < 10 {
        seq![spec_digit(n)]
    } else {
        spec_dec(n / 10) + seq![spec_digit(n % 10)]
    }
}

/// The character for one decimal digit.
pub open spec fn spec_digit(d: nat) -> char {
    ((48 + d) as u8) as char
}

/// The decimal digit characters of a number, as a character vector.
pub fn dec_digits(n: u64) -> (r: Vec<char>)
    ensures
        r@ == spec_dec(n as nat),
    decreases n,
{
    if n < 10 {
        let c = (48 + n as u8) as char;
        let mut v: Vec<char> = Vec::new();
        v.push(c);
        proof {
            assert(v@ =~= seq![spec_digit(n as nat)]);
        }
        v
    } else {
        let mut v = dec_digits(n / 10);
        let c = (48 + (n % 10) as u8) as char;
        v.push(c);
        proof {
            assert(v@ =~= spec_dec((n / 10) as nat) + seq![spec_digit((n % 10) as nat)]);
        }
        v
    }
}

/// Renders a number in decimal.
pub fn u64_to_dec(n: u64) -> (r: String)
    ensures
        r@ == spec_dec(n as nat),
{
    string_of(dec_digits(n))
}

} // verus!
