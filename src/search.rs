//! Ranked fuzzy matching of a query against channel names.
use vstd::prelude::*;
use fuzzy_matcher::FuzzyMatcher;
use fuzzy_matcher::skim::SkimMatcherV2;

verus! {

/// The score that the skim fuzzy matcher, with its default settings, gives `choice` against
/// `pattern`; `None` when it reports no match.
pub uninterp spec fn fuzzy_score(choice: Seq<char>, pattern: Seq<char>) -> Option<i64>;

/// Relies on fuzzy_matcher's `SkimMatcherV2::fuzzy_match` with default settings: the score
/// depends on the two strings alone, and an empty pattern matches with score 0.
#[verifier::external_body]
fn skim_match(choice: &str, pattern: &str) -> (r: Option<i64>)
    ensures
        r == fuzzy_score(choice@, pattern@),
        pattern@.len() == 0 ==> r == Some(0i64),
{
    SkimMatcherV2::default().fuzzy_match(choice, pattern)
}

/// The score of `choice` against `pattern`.
pub fn match_score(choice: &str, pattern: &str) -> (r: Option<i64>)
    ensures
        r == fuzzy_score(choice@, pattern@),
        pattern@.len() == 0 ==> r == Some(0i64),
{
    skim_match(choice, pattern)
}

/// Position `a` comes before position `b`: a higher score, or the same score and an earlier
/// position.
pub open spec fn ranks_before(scores: Seq<Option<i64>>, a: int, b: int) -> bool {
    let sa = scores[a]->0;
    let sb = scores[b]->0;
    sa > sb || (sa == sb && a < b)
}

/// `r` lists exactly the positions that have a score, best first, ties in position order.
pub open spec fn is_ranking(scores: Seq<Option<i64>>, r: Seq<usize>) -> bool {
    &&& forall|k: int| 0 <= k < r.len() ==> #[trigger] r[k] < scores.len() && scores[r[k] as int] is Some
    &&& forall|i: int| 0 <= i < scores.len() && #[trigger] scores[i] is Some ==> r.contains(i as usize)
    &&& forall|a: int, b: int|
        0 <= a < b < r.len() ==> ranks_before(scores, #[trigger] r[a] as int, #[trigger] r[b] as int)
}

/// Sort key of a score: higher scores get lower keys.
pub open spec fn key_of(s: i64) -> int {
    i64::MAX - s
}

pub open spec fn key_le(x: (u64, usize), y: (u64, usize)) -> bool {
    x.0 < y.0 || (x.0 == y.0 && x.1 <= y.1)
}

/// Relies on `slice::sort`: the elements are reordered into ascending order, tuples
/// comparing field by field.
#[verifier::external_body]
fn sort_keys(v: &mut Vec<(u64, usize)>)
    ensures
        final(v)@.to_multiset() == old(v)@.to_multiset(),
        forall|a: int, b: int|
            0 <= a < b < final(v)@.len() ==> key_le(#[trigger] final(v)@[a], #[trigger] final(v)@[b]),
{
    v.sort()
}

/// Orders the positions that have a score, best first, ties in position order.
pub fn rank_matches(scores: &Vec<Option<i64>>) -> (r: Vec<usize>)
    ensures
        is_ranking(scores@, r@),
{
    let mut keys: Vec<(u64, usize)> = Vec::new();
    let mut i: usize = 0;
    while i < scores.len()
        invariant
            i <= scores.len(),
            forall|k: int|
                0 <= k < keys.len() ==> (#[trigger] keys@[k]).1 < i && scores@[keys@[k].1 as int] is Some
                    && keys@[k].0 == key_of(scores@[keys@[k].1 as int]->0),
            forall|a: int, b: int| 0 <= a < b < keys.len() ==> (#[trigger] keys@[a]).1 < (#[trigger] keys@[b]).1,
            forall|j: int|
                0 <= j < i && #[trigger] scores@[j] is Some ==> exists|k: int|
                    0 <= k < keys.len() && keys@[k].1 == j,
        decreases scores.len() - i,
    {
        match scores[i] {
            Some(s) => {
                let key = (i64::MAX as i128 - s as i128) as u64;
                let ghost prev = keys@;
                keys.push((key, i));
                proof {
                    assert forall|j: int|
                        0 <= j < i + 1 && #[trigger] scores@[j] is Some implies exists|k: int|
                        0 <= k < keys.len() && keys@[k].1 == j by {
                        if j < i {
                            let k = choose|k: int| 0 <= k < prev.len() && prev[k].1 == j;
                            assert(keys@[k] == prev[k]);
                        } else {
                            assert(keys@[prev.len() as int].1 == j);
                        }
                    }
                }
            },
            None => {},
        }
        i = i + 1;
    }
    let ghost before = keys@;
    proof {
        assert(before.no_duplicates());
        before.lemma_multiset_has_no_duplicates();
    }
    sort_keys(&mut keys);
    let ghost sorted = keys@;
    proof {
        broadcast use vstd::seq_lib::group_to_multiset_ensures;
        sorted.lemma_multiset_has_no_duplicates_conv();
        assert forall|k: int| 0 <= k < sorted.len() implies before.contains(#[trigger] sorted[k]) by {
            assert(sorted.to_multiset().count(sorted[k]) > 0);
        }
        assert forall|k: int| 0 <= k < before.len() implies sorted.contains(#[trigger] before[k]) by {
            assert(before.to_multiset().count(before[k]) > 0);
        }
    }
    let mut r: Vec<usize> = Vec::new();
    let mut k: usize = 0;
    while k < keys.len()
        invariant
            k <= keys.len(),
            keys@ == sorted,
            r.len() == k,
            forall|m: int| 0 <= m < k ==> r@[m] == sorted[m].1,
        decreases keys.len() - k,
    {
        r.push(keys[k].1);
        k = k + 1;
    }
    proof {
        assert forall|m: int| 0 <= m < r.len() implies #[trigger] r@[m] < scores@.len()
            && scores@[r@[m] as int] is Some by {
            assert(before.contains(sorted[m]));
        }
        assert forall|j: int| 0 <= j < scores@.len() && #[trigger] scores@[j] is Some implies r@.contains(
            j as usize,
        ) by {
            let kb = choose|kb: int| 0 <= kb < before.len() && before[kb].1 == j;
            assert(sorted.contains(before[kb]));
            let ks = choose|ks: int| 0 <= ks < sorted.len() && sorted[ks] == before[kb];
            assert(r@[ks] == j as usize);
        }
        assert forall|a: int, b: int| 0 <= a < b < r.len() implies ranks_before(
            scores@,
            #[trigger] r@[a] as int,
            #[trigger] r@[b] as int,
        ) by {
            assert(key_le(sorted[a], sorted[b]));
            assert(before.contains(sorted[a]));
            assert(before.contains(sorted[b]));
            assert(sorted[a] != sorted[b]);
        }
    }
    r
}

} // verus!
