//! Lists of channel names: favourites, recently played, history.
use vstd::prelude::*;
use vstd::string::StringExecFns;

verus! {

pub open spec fn strings_view(v: Seq<String>) -> Seq<Seq<char>> {
    v.map_values(|s: String| s@)
}

/// `s` with every occurrence of `x` removed, order kept.
pub open spec fn without(s: Seq<Seq<char>>, x: Seq<char>) -> Seq<Seq<char>>
    decreases s.len(),
{
    if s.len() == 0 {
        seq![]
    } else if s.last() == x {
        without(s.drop_last(), x)
    } else {
        without(s.drop_last(), x).push(s.last())
    }
}

/// `x` first, then `s` without `x`, cut to at most `cap` names.
pub open spec fn most_recent_first(s: Seq<Seq<char>>, x: Seq<char>, cap: int) -> Seq<Seq<char>> {
    let all = seq![x] + without(s, x);
    if all.len() <= cap {
        all
    } else {
        all.subrange(0, cap)
    }
}

/// Whether some name of `v` equals `x`.
pub fn contains_name(v: &Vec<String>, x: &str) -> (r: bool)
    ensures
        r == strings_view(v@).contains(x@),
{
    let key = String::from_str(x);
    let mut i: usize = 0;
    while i < v.len()
        invariant
            i <= v.len(),
            key@ == x@,
            forall|k: int| 0 <= k < i ==> v@[k]@ != x@,
        decreases v.len() - i,
    {
        if v[i] == key {
            proof {
                assert(strings_view(v@)[i as int] == x@);
            }
            return true;
        }
        i = i + 1;
    }
    proof {
        if strings_view(v@).contains(x@) {
            let k = choose|k: int| 0 <= k < strings_view(v@).len() && strings_view(v@)[k] == x@;
            assert(v@[k]@ == x@);
        }
    }
    false
}

/// `v` with every name equal to `x` removed.
pub fn remove_name(v: &Vec<String>, x: &str) -> (r: Vec<String>)
    ensures
        strings_view(r@) == without(strings_view(v@), x@),
{
    let key = String::from_str(x);
    let mut out: Vec<String> = Vec::new();
    let mut i: usize = 0;
    while i < v.len()
        invariant
            i <= v.len(),
            key@ == x@,
            strings_view(out@) == without(strings_view(v@.subrange(0, i as int)), x@),
        decreases v.len() - i,
    {
        let ghost prev = out@;
        proof {
            assert(strings_view(v@.subrange(0, i + 1)).drop_last() =~= strings_view(
                v@.subrange(0, i as int),
            ));
            assert(strings_view(v@.subrange(0, i + 1)).last() == v@[i as int]@);
        }
        if v[i] != key {
            out.push(v[i].clone());
            proof {
                assert(strings_view(out@) =~= strings_view(prev).push(v@[i as int]@));
            }
        }
        i = i + 1;
    }
    proof {
        assert(v@.subrange(0, v.len() as int) =~= v@);
    }
    out
}

/// `x` in front of the names of `v` other than `x`, at most `cap` in all.
pub fn put_first(v: &Vec<String>, x: &str, cap: usize) -> (r: Vec<String>)
    ensures
        strings_view(r@) == most_recent_first(strings_view(v@), x@, cap as int),
{
    let rest = remove_name(v, x);
    let mut out: Vec<String> = Vec::new();
    out.push(String::from_str(x));
    let mut i: usize = 0;
    while i < rest.len()
        invariant
            i <= rest.len(),
            strings_view(out@) == seq![x@] + strings_view(rest@.subrange(0, i as int)),
        decreases rest.len() - i,
    {
        let ghost prev = out@;
        out.push(rest[i].clone());
        i = i + 1;
        proof {
            assert(strings_view(out@) =~= strings_view(prev).push(rest@[i - 1]@));
            assert(strings_view(rest@.subrange(0, i as int)) =~= strings_view(
                rest@.subrange(0, i - 1),
            ).push(rest@[i - 1]@));
            assert(strings_view(out@) =~= seq![x@] + strings_view(rest@.subrange(0, i as int)));
        }
    }
    proof {
        assert(rest@.subrange(0, rest.len() as int) =~= rest@);
    }
    let ghost all = strings_view(out@);
    out.truncate(cap);
    proof {
        if all.len() <= cap {
            assert(strings_view(out@) =~= all);
        } else {
            assert(strings_view(out@) =~= all.subrange(0, cap as int));
        }
    }
    out
}

} // verus!
