use vstd::prelude::*;

verus! {

/// The keyword `k` occurs in `h` starting at byte `i`.
pub open spec fn occurs_at(h: Seq<u8>, k: Seq<u8>, i: int) -> bool {
    0 <= i && i + k.len() <= h.len() && h.subrange(i, i + k.len()) == k
}

/// The occurrences of `k` in `h` found by scanning left to right from `start`,
/// resuming after the end of each occurrence found. An empty keyword has none.
pub open spec fn greedy_from(h: Seq<u8>, k: Seq<u8>, start: int) -> Seq<(int, int)>
    decreases h.len() - start,
{
    if k.len() == 0 || start < 0 || start + k.len() > h.len() {
        Seq::empty()
    } else if occurs_at(h, k, start) {
        seq![(start, start + k.len())] + greedy_from(h, k, start + k.len())
    } else {
        greedy_from(h, k, start + 1)
    }
}

/// All greedy, non-overlapping occurrences of `k` in `h`.
pub open spec fn greedy_matches(h: Seq<u8>, k: Seq<u8>) -> Seq<(int, int)> {
    greedy_from(h, k, 0)
}

proof fn lemma_greedy_from_items(h: Seq<u8>, k: Seq<u8>, start: int)
    requires
        k.len() > 0,
        start >= 0,
    ensures
        forall|j: int|
            0 <= j < greedy_from(h, k, start).len() ==> {
                let p = #[trigger] greedy_from(h, k, start)[j];
                &&& start <= p.0
                &&& occurs_at(h, k, p.0)
                &&& p.1 == p.0 + k.len()
            },
    decreases h.len() - start,
{
    if start + k.len() <= h.len() {
        if occurs_at(h, k, start) {
            lemma_greedy_from_items(h, k, start + k.len());
            let rest = greedy_from(h, k, start + k.len());
            let m = greedy_from(h, k, start);
            assert(m == seq![(start, start + k.len())] + rest);
            assert(m[0] == (start, start + k.len()));
            assert forall|j: int| 1 <= j < m.len() implies m[j] == rest[j - 1] by {}
        } else {
            lemma_greedy_from_items(h, k, start + 1);
            assert(greedy_from(h, k, start) == greedy_from(h, k, start + 1));
        }
    }
}

proof fn lemma_greedy_from_ordered(h: Seq<u8>, k: Seq<u8>, start: int)
    requires
        k.len() > 0,
        start >= 0,
    ensures
        forall|j: int|
            0 <= j < greedy_from(h, k, start).len() - 1 ==> #[trigger] greedy_from(
                h,
                k,
                start,
            )[j].1 <= greedy_from(h, k, start)[j + 1].0,
    decreases h.len() - start,
{
    if start + k.len() <= h.len() {
        if occurs_at(h, k, start) {
            let rest = greedy_from(h, k, start + k.len());
            let m = greedy_from(h, k, start);
            lemma_greedy_from_ordered(h, k, start + k.len());
            lemma_greedy_from_items(h, k, start + k.len());
            assert(m == seq![(start, start + k.len())] + rest);
            assert forall|j: int| 0 <= j < m.len() - 1 implies #[trigger] m[j].1 <= m[j + 1].0 by {
                assert(m[j + 1] == rest[j]);
                if j > 0 {
                    assert(m[j] == rest[j - 1]);
                }
            }
        } else {
            lemma_greedy_from_ordered(h, k, start + 1);
            assert(greedy_from(h, k, start) == greedy_from(h, k, start + 1));
        }
    }
}

proof fn lemma_greedy_from_covers(h: Seq<u8>, k: Seq<u8>, start: int, i: int)
    requires
        k.len() > 0,
        start >= 0,
        start <= i,
        occurs_at(h, k, i),
    ensures
        exists|j: int|
            0 <= j < greedy_from(h, k, start).len() && #[trigger] greedy_from(h, k, start)[j].0
                <= i < greedy_from(h, k, start)[j].1,
    decreases h.len() - start,
{
    let m = greedy_from(h, k, start);
    if occurs_at(h, k, start) {
        assert(m == seq![(start, start + k.len())] + greedy_from(h, k, start + k.len()));
        if i < start + k.len() {
            assert(m[0].0 <= i < m[0].1);
        } else {
            lemma_greedy_from_covers(h, k, start + k.len(), i);
            let rest = greedy_from(h, k, start + k.len());
            let j = choose|j: int| 0 <= j < rest.len() && #[trigger] rest[j].0 <= i < rest[j].1;
            assert(m[j + 1] == rest[j]);
        }
    } else {
        assert(i != start);
        assert(m == greedy_from(h, k, start + 1));
        lemma_greedy_from_covers(h, k, start + 1, i);
    }
}

/// For a non-empty keyword, the greedy occurrence list holds only genuine
/// occurrences, each exactly as wide as the keyword, in strictly increasing
/// and non-overlapping order; and every occurrence of the keyword that the list
/// leaves out overlaps one that it holds, so none is missed.
pub proof fn lemma_greedy_matches_shape(h: Seq<u8>, k: Seq<u8>)
    requires
        k.len() > 0,
    ensures
        forall|j: int|
            0 <= j < greedy_matches(h, k).len() ==> {
                let p = #[trigger] greedy_matches(h, k)[j];
                &&& occurs_at(h, k, p.0)
                &&& p.0 < p.1
                &&& p.1 - p.0 == k.len()
            },
        forall|j: int|
            0 <= j < greedy_matches(h, k).len() - 1 ==> #[trigger] greedy_matches(h, k)[j].1
                <= greedy_matches(h, k)[j + 1].0,
        forall|i: int|
            #[trigger] occurs_at(h, k, i) ==> exists|j: int|
                0 <= j < greedy_matches(h, k).len() && #[trigger] greedy_matches(h, k)[j].0 <= i
                    < greedy_matches(h, k)[j].1,
{
    lemma_greedy_from_items(h, k, 0);
    lemma_greedy_from_ordered(h, k, 0);
    assert(greedy_matches(h, k) == greedy_from(h, k, 0));
    assert forall|i: int| #[trigger] occurs_at(h, k, i) implies exists|j: int|
        0 <= j < greedy_matches(h, k).len() && #[trigger] greedy_matches(h, k)[j].0 <= i
            < greedy_matches(h, k)[j].1 by {
        lemma_greedy_from_covers(h, k, 0, i);
    }
}

/// An empty keyword has no occurrences.
pub proof fn lemma_empty_keyword_no_matches(h: Seq<u8>)
    ensures
        greedy_matches(h, Seq::empty()).len() == 0,
{
}

/// A list of `(start, end)` byte offsets, read as pairs of integers.
pub open spec fn offsets_view(v: Seq<(usize, usize)>) -> Seq<(int, int)> {
    v.map_values(|p: (usize, usize)| (p.0 as int, p.1 as int))
}

/// Whether `k` occurs in `h` at byte `i`.
pub fn occurs_at_exec(h: &[u8], k: &[u8], i: usize) -> (r: bool)
    requires
        i + k@.len() <= h@.len(),
    ensures
        r == occurs_at(h@, k@, i as int),
{
    let n = h.len();
    let mut j: usize = 0;
    while j < k.len()
        invariant
            n == h@.len(),
            j <= k@.len(),
            i + k@.len() <= h@.len(),
            forall|t: int| 0 <= t < j ==> h@[i + t] == k@[t],
        decreases k@.len() - j,
    {
        if h[i + j] != k[j] {
            assert(h@.subrange(i as int, i + k@.len())[j as int] != k@[j as int]);
            return false;
        }
        j = j + 1;
    }
    assert(h@.subrange(i as int, i + k@.len()) =~= k@);
    true
}

/// The byte offsets of every occurrence of `keyword` in `line`, scanning left
/// to right and resuming after the end of each occurrence found, so that
/// repeated keywords are never counted twice. An empty keyword never matches.
pub fn match_offsets(line: &[u8], keyword: &[u8]) -> (r: Vec<(usize, usize)>)
    ensures
        offsets_view(r@) == greedy_matches(line@, keyword@),
{
    let mut r: Vec<(usize, usize)> = Vec::new();
    if keyword.len() == 0 {
        return r;
    }
    let mut i: usize = 0;
    while i <= line.len() && keyword.len() <= line.len() - i
        invariant
            keyword@.len() > 0,
            i <= line@.len() + keyword@.len(),
            offsets_view(r@) + greedy_from(line@, keyword@, i as int) == greedy_matches(
                line@,
                keyword@,
            ),
        decreases line@.len() + 1 - i,
    {
        let ghost prev = r@;
        if occurs_at_exec(line, keyword, i) {
            let end = i + keyword.len();
            r.push((i, end));
            assert(offsets_view(r@) =~= offsets_view(prev) + seq![(i as int, end as int)]);
            assert(offsets_view(r@) + greedy_from(line@, keyword@, end as int) =~= offsets_view(
                prev,
            ) + greedy_from(line@, keyword@, i as int));
            i = end;
        } else {
            i = i + 1;
        }
    }
    assert(offsets_view(r@) =~= offsets_view(r@) + greedy_from(line@, keyword@, i as int));
    r
}

} // verus!
