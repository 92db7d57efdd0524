use vstd::prelude::*;
use crate::filter::scans_entry;
use crate::scan::{file_matches, folded_keyword, matches_view, MatchView, SearchMatch};

verus! {

broadcast use vstd::seq_lib::group_seq_properties;

/// The matches that one entry of the walk contributes: those of its lines when
/// it is scanned, none otherwise.
pub open spec fn entry_matches(
    cancelled: bool,
    is_file: bool,
    path: Seq<char>,
    lines: Seq<Option<String>>,
    keyword: Seq<char>,
) -> Seq<MatchView> {
    if scans_entry(cancelled, is_file, path) {
        file_matches(path, lines, folded_keyword(keyword), lines.len() as int)
    } else {
        Seq::empty()
    }
}

/// The result of a search over the entries of a walk, in the order of the
/// walk, where entry `i` is a file when `is_file[i]`, holds the lines
/// `contents[i]`, and saw the cancellation flag as `cancelled[i]`.
pub open spec fn search_outcome(
    paths: Seq<Seq<char>>,
    is_file: Seq<bool>,
    contents: Seq<Seq<Option<String>>>,
    cancelled: Seq<bool>,
    keyword: Seq<char>,
) -> Seq<MatchView> {
    Seq::new(
        paths.len(),
        |i: int| entry_matches(cancelled[i], is_file[i], paths[i], contents[i], keyword),
    ).flatten()
}

/// The per-entry match lists joined into one, in order.
pub fn gather(per_entry: Vec<Vec<SearchMatch>>) -> (r: Vec<SearchMatch>)
    ensures
        matches_view(r@) == per_entry@.map_values(|v: Vec<SearchMatch>| matches_view(v@)).flatten(),
{
    let ghost views = per_entry@.map_values(|v: Vec<SearchMatch>| matches_view(v@));
    let ghost n = views.len();
    let mut r: Vec<SearchMatch> = Vec::new();
    let mut rest = per_entry;
    let mut k: usize = 0;
    let total = rest.len();
    assert(views.subrange(0, 0) =~= Seq::<Seq<MatchView>>::empty());
    assert(matches_view(r@) =~= Seq::<MatchView>::empty());
    while rest.len() > 0
        invariant
            views.len() == n,
            n == total,
            k + rest@.len() == n,
            forall|i: int|
                0 <= i < rest@.len() ==> matches_view(#[trigger] rest@[i]@) == views[k + i],
            matches_view(r@) == views.subrange(0, k as int).flatten(),
        decreases rest@.len(),
    {
        let ghost before = r@;
        let ghost rest_before = rest@;
        let mut v = rest.remove(0);
        assert(matches_view(v@) == views[k as int]);
        r.append(&mut v);
        assert(matches_view(r@) =~= matches_view(before) + views[k as int]);
        assert(views.subrange(0, k + 1) =~= views.subrange(0, k as int).push(views[k as int]));
        proof {
            views.subrange(0, k as int).lemma_flatten_push(views[k as int]);
        }
        assert forall|i: int| 0 <= i < rest@.len() implies matches_view(
            #[trigger] rest@[i]@,
        ) == views[k + 1 + i] by {
            assert(rest@[i] == rest_before[i + 1]);
        }
        k = k + 1;
    }
    assert(views.subrange(0, k as int) =~= views);
    r
}

proof fn lemma_flatten_contains<A>(s: Seq<Seq<A>>, x: A)
    ensures
        s.flatten().contains(x) <==> exists|i: int| 0 <= i < s.len() && #[trigger] s[i].contains(x),
    decreases s.len(),
{
    if s.len() > 0 {
        let tail = s.drop_first();
        lemma_flatten_contains(tail, x);
        let f = s.flatten();
        assert(f == s[0] + tail.flatten());
        if f.contains(x) {
            let j = choose|j: int| 0 <= j < f.len() && f[j] == x;
            if j < s[0].len() {
                assert(s[0][j] == x);
                assert(s[0].contains(x));
            } else {
                assert(tail.flatten()[j - s[0].len()] == x);
                let i = choose|i: int| 0 <= i < tail.len() && #[trigger] tail[i].contains(x);
                assert(s[i + 1] == tail[i]);
            }
        }
        if exists|i: int| 0 <= i < s.len() && #[trigger] s[i].contains(x) {
            let i = choose|i: int| 0 <= i < s.len() && #[trigger] s[i].contains(x);
            if i == 0 {
                let j = choose|j: int| 0 <= j < s[0].len() && s[0][j] == x;
                assert(f[j] == x);
            } else {
                assert(tail[i - 1] == s[i]);
                assert(tail.flatten().contains(x));
                let j = choose|j: int| 0 <= j < tail.flatten().len() && tail.flatten()[j] == x;
                assert(f[s[0].len() + j] == x);
            }
        }
    }
}

/// Cancellation only takes matches away: whichever entries saw the flag set,
/// every match returned is one that the same search without cancellation
/// returns too; and when every entry saw the flag set, nothing is returned.
pub proof fn lemma_cancellation_subset(
    paths: Seq<Seq<char>>,
    is_file: Seq<bool>,
    contents: Seq<Seq<Option<String>>>,
    cancelled: Seq<bool>,
    keyword: Seq<char>,
)
    requires
        is_file.len() == paths.len(),
        contents.len() == paths.len(),
        cancelled.len() == paths.len(),
    ensures
        forall|x: MatchView|
            #[trigger] search_outcome(paths, is_file, contents, cancelled, keyword).contains(x)
                ==> search_outcome(
                paths,
                is_file,
                contents,
                Seq::new(paths.len(), |i: int| false),
                keyword,
            ).contains(x),
        (forall|i: int| 0 <= i < cancelled.len() ==> #[trigger] cancelled[i]) ==> search_outcome(
            paths,
            is_file,
            contents,
            cancelled,
            keyword,
        ).len() == 0,
{
    let none = Seq::new(paths.len(), |i: int| false);
    let part = Seq::new(
        paths.len(),
        |i: int| entry_matches(cancelled[i], is_file[i], paths[i], contents[i], keyword),
    );
    let full = Seq::new(
        paths.len(),
        |i: int| entry_matches(none[i], is_file[i], paths[i], contents[i], keyword),
    );
    assert forall|x: MatchView|
        #[trigger] search_outcome(paths, is_file, contents, cancelled, keyword).contains(
            x,
        ) implies search_outcome(paths, is_file, contents, none, keyword).contains(x) by {
        lemma_flatten_contains(part, x);
        lemma_flatten_contains(full, x);
        let i = choose|i: int| 0 <= i < part.len() && #[trigger] part[i].contains(x);
        assert(full[i] == part[i]);
    }
    if forall|i: int| 0 <= i < cancelled.len() ==> #[trigger] cancelled[i] {
        let f = part.flatten();
        if f.len() > 0 {
            lemma_flatten_contains(part, f[0]);
            assert(f.contains(f[0]));
            let i = choose|i: int| 0 <= i < part.len() && #[trigger] part[i].contains(f[0]);
            assert(cancelled[i]);
        }
    }
}

} // verus!
