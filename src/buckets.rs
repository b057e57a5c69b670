//! Grouping optional labels: which labels occur, in order of first appearance, and where.
use vstd::prelude::*;
use std::collections::HashMap;
use vstd::string::StringExecFns;
use crate::extinf::opt_view;
use crate::text::chars_of;

verus! {

/// The labels present in `vals`, each once, in order of first appearance.
pub open spec fn first_seen(vals: Seq<Option<Seq<char>>>) -> Seq<Seq<char>>
    decreases vals.len(),
{
    if vals.len() == 0 {
        seq![]
    } else {
        let prev = first_seen(vals.drop_last());
        match vals.last() {
            Some(g) => if prev.contains(g) {
                prev
            } else {
                prev.push(g)
            },
            None => prev,
        }
    }
}

/// The positions in `vals` that hold label `g`, in increasing order.
pub open spec fn positions_of(vals: Seq<Option<Seq<char>>>, g: Seq<char>) -> Seq<int>
    decreases vals.len(),
{
    if vals.len() == 0 {
        seq![]
    } else {
        let prev = positions_of(vals.drop_last(), g);
        if vals.last() == Some(g) {
            prev.push(vals.len() - 1)
        } else {
            prev
        }
    }
}

/// Each label of `vals` with its positions, in order of first appearance.
pub open spec fn buckets_model(vals: Seq<Option<Seq<char>>>) -> Seq<(Seq<char>, Seq<int>)> {
    first_seen(vals).map_values(|g: Seq<char>| (g, positions_of(vals, g)))
}

pub open spec fn positions_view(ps: Vec<usize>) -> Seq<int> {
    ps@.map_values(|p: usize| p as int)
}

pub open spec fn buckets_view(b: Seq<(String, Vec<usize>)>) -> Seq<(Seq<char>, Seq<int>)> {
    b.map_values(|e: (String, Vec<usize>)| (e.0@, positions_view(e.1)))
}

pub open spec fn opt_views(vals: Seq<Option<String>>) -> Seq<Option<Seq<char>>> {
    vals.map_values(|o: Option<String>| opt_view(o))
}

pub proof fn lemma_first_seen_no_dup(vals: Seq<Option<Seq<char>>>)
    ensures
        first_seen(vals).no_duplicates(),
    decreases vals.len(),
{
    if vals.len() > 0 {
        lemma_first_seen_no_dup(vals.drop_last());
    }
}

/// A label occurs in `vals` exactly when it is among the labels seen.
pub proof fn lemma_first_seen_contains(vals: Seq<Option<Seq<char>>>, g: Seq<char>)
    ensures
        first_seen(vals).contains(g) <==> positions_of(vals, g).len() > 0,
    decreases vals.len(),
{
    if vals.len() > 0 {
        lemma_first_seen_contains(vals.drop_last(), g);
        let prev = first_seen(vals.drop_last());
        if vals.last() is Some {
            let h = vals.last()->0;
            if !prev.contains(h) {
                assert(prev.push(h)[prev.len() as int] == h);
                if prev.push(h).contains(g) && g != h {
                    let k = choose|k: int| 0 <= k < prev.push(h).len() && prev.push(h)[k] == g;
                    assert(prev[k] == g);
                }
                if prev.contains(g) {
                    let k = choose|k: int| 0 <= k < prev.len() && prev[k] == g;
                    assert(prev.push(h)[k] == g);
                }
            }
        }
    }
}

/// The positions of a label are increasing, in range, and hold that label; every position
/// holding it is among them.
pub proof fn lemma_positions_of(vals: Seq<Option<Seq<char>>>, g: Seq<char>)
    ensures
        forall|a: int, b: int|
            0 <= a < b < positions_of(vals, g).len() ==> positions_of(vals, g)[a]
                < positions_of(vals, g)[b],
        forall|a: int|
            0 <= a < positions_of(vals, g).len() ==> 0 <= #[trigger] positions_of(vals, g)[a]
                < vals.len() && vals[positions_of(vals, g)[a]] == Some(g),
        forall|j: int|
            0 <= j < vals.len() && vals[j] == Some(g) ==> positions_of(vals, g).contains(j),
    decreases vals.len(),
{
    if vals.len() > 0 {
        let prev = vals.drop_last();
        lemma_positions_of(prev, g);
        let pp = positions_of(prev, g);
        assert forall|j: int| 0 <= j < vals.len() && vals[j] == Some(g) implies positions_of(
            vals,
            g,
        ).contains(j) by {
            if j < vals.len() - 1 {
                assert(prev[j] == vals[j]);
                let k = choose|k: int| 0 <= k < pp.len() && pp[k] == j;
                if vals.last() == Some(g) {
                    assert(pp.push(vals.len() - 1)[k] == j);
                }
            } else {
                assert(positions_of(vals, g)[pp.len() as int] == j);
            }
        }
    }
}

fn copy_positions(ps: &Vec<usize>) -> (r: Vec<usize>)
    ensures
        r@ == ps@,
{
    let mut r: Vec<usize> = Vec::new();
    let mut i: usize = 0;
    while i < ps.len()
        invariant
            i <= ps.len(),
            r@ == ps@.subrange(0, i as int),
        decreases ps.len() - i,
    {
        r.push(ps[i]);
        i = i + 1;
        assert(r@ =~= ps@.subrange(0, i as int));
    }
    r
}

/// Modulus of the label hash: the largest prime below 2^32.
pub const HASH_MODULUS: u64 = 4294967291;

/// A polynomial hash of a label, kept below `HASH_MODULUS`.
pub open spec fn label_hash(s: Seq<char>) -> u64
    decreases s.len(),
{
    if s.len() == 0 {
        0
    } else {
        ((label_hash(s.drop_last()) as nat * 31 + (s.last() as u32) as nat) % (
        HASH_MODULUS as nat)) as u64
    }
}

pub fn hash_label(s: &str) -> (r: u64)
    ensures
        r == label_hash(s@),
{
    let cs = chars_of(s);
    let mut h: u64 = 0;
    let mut i: usize = 0;
    proof {
        assert(cs@.subrange(0, 0) =~= Seq::<char>::empty());
    }
    while i < cs.len()
        invariant
            i <= cs.len(),
            cs@ == s@,
            h == label_hash(cs@.subrange(0, i as int)),
            h < HASH_MODULUS,
        decreases cs.len() - i,
    {
        proof {
            assert(cs@.subrange(0, i + 1).drop_last() =~= cs@.subrange(0, i as int));
        }
        h = (h * 31 + cs[i] as u32 as u64) % HASH_MODULUS;
        i = i + 1;
    }
    proof {
        assert(cs@.subrange(0, cs.len() as int) =~= cs@);
    }
    h
}

/// Every key is listed under its hash, and every listed slot is a key's.
pub open spec fn slots_cover(keys: Seq<Seq<char>>, slots: Map<u64, Vec<usize>>) -> bool {
    &&& forall|m: int|
        0 <= m < keys.len() ==> slots.contains_key(label_hash(#[trigger] keys[m]))
            && slots[label_hash(keys[m])]@.contains(m as usize)
    &&& forall|h: u64, k: int|
        slots.contains_key(h) && 0 <= k < slots[h]@.len() ==> (#[trigger] slots[h]@[k]) < keys.len()
}

pub open spec fn entry_keys(entries: Seq<(String, Vec<usize>)>) -> Seq<Seq<char>> {
    entries.map_values(|e: (String, Vec<usize>)| e.0@)
}

/// Labels with the positions that hold them, in order of first appearance, and a table from
/// label hash to entries for lookups.
pub struct LabelIndex {
    entries: Vec<(String, Vec<usize>)>,
    slots: HashMap<u64, Vec<usize>>,
}

/// The entry of `key` among `entries`, through the hash table `slots`.
fn find_entry(
    entries: &Vec<(String, Vec<usize>)>,
    slots: &HashMap<u64, Vec<usize>>,
    key: &str,
) -> (r: Option<usize>)
    requires
        slots_cover(entry_keys(entries@), slots@),
    ensures
        match r {
            Some(m) => m < entries.len() && entries@[m as int].0@ == key@,
            None => forall|m: int| 0 <= m < entries.len() ==> entries@[m].0@ != key@,
        },
{
    broadcast use vstd::std_specs::hash::group_hash_axioms;

    let h = hash_label(key);
    let wanted = String::from_str(key);
    match slots.get(&h) {
        None => {
            proof {
                assert forall|m: int| 0 <= m < entries.len() implies entries@[m].0@ != key@ by {
                    assert(entry_keys(entries@)[m] == entries@[m].0@);
                }
            }
            None
        },
        Some(list) => {
            let mut j: usize = 0;
            while j < list.len()
                invariant
                    j <= list.len(),
                    slots@.contains_key(h) && slots@[h] == *list,
                    slots_cover(entry_keys(entries@), slots@),
                    wanted@ == key@,
                    forall|k: int| 0 <= k < j ==> entries@[list@[k] as int].0@ != key@,
                decreases list.len() - j,
            {
                let m = list[j];
                proof {
                    assert(slots@[h]@[j as int] < entry_keys(entries@).len());
                }
                if entries[m].0 == wanted {
                    return Some(m);
                }
                j = j + 1;
            }
            proof {
                assert forall|m: int| 0 <= m < entries.len() implies entries@[m].0@ != key@ by {
                    assert(entry_keys(entries@)[m] == entries@[m].0@);
                    if entries@[m].0@ == key@ {
                        let k = choose|k: int| 0 <= k < list@.len() && list@[k] == m as usize;
                    }
                }
            }
            None
        },
    }
}

impl LabelIndex {
    /// Each label with its positions, in order of first appearance.
    pub closed spec fn view(&self) -> Seq<(Seq<char>, Seq<int>)> {
        buckets_view(self.entries@)
    }

    #[verifier::type_invariant]
    spec fn wf(&self) -> bool {
        slots_cover(entry_keys(self.entries@), self.slots@)
    }

    /// Each label of `vals` with the positions that hold it, in order of first appearance.
    pub fn build(vals: &Vec<Option<String>>) -> (r: LabelIndex)
        ensures
            r.view() == buckets_model(opt_views(vals@)),
    {
        broadcast use vstd::std_specs::hash::group_hash_axioms;

        let ghost all = opt_views(vals@);
        let mut out: Vec<(String, Vec<usize>)> = Vec::new();
        let mut slots: HashMap<u64, Vec<usize>> = HashMap::new();
        let mut i: usize = 0;
        proof {
            assert(all.subrange(0, 0) =~= Seq::<Option<Seq<char>>>::empty());
            assert(buckets_view(out@) =~= buckets_model(all.subrange(0, 0)));
        }
        while i < vals.len()
            invariant
                i <= vals.len(),
                all == opt_views(vals@),
                buckets_view(out@) == buckets_model(all.subrange(0, i as int)),
                slots_cover(entry_keys(out@), slots@),
            decreases vals.len() - i,
        {
            let ghost pre = all.subrange(0, i as int);
            let ghost post = all.subrange(0, i + 1);
            proof {
                assert(post.drop_last() =~= pre);
                assert(post.last() == opt_view(vals@[i as int]));
            }
            match &vals[i] {
                None => {
                    proof {
                        assert forall|g: Seq<char>| positions_of(post, g) == positions_of(pre, g) by {}
                        assert(buckets_model(post) =~= buckets_model(pre));
                    }
                },
                Some(g) => {
                    let ghost seen = first_seen(pre);
                    proof {
                        assert(buckets_view(out@).len() == seen.len());
                        assert forall|m: int| 0 <= m < seen.len() implies seen[m] == out@[m].0@ by {
                            assert(buckets_view(out@)[m] == buckets_model(pre)[m]);
                        }
                    }
                    match find_entry(&out, &slots, g.as_str()) {
                        Some(k) => {
                            proof {
                                assert(seen[k as int] == g@);
                                assert(seen.contains(g@));
                                lemma_first_seen_no_dup(pre);
                            }
                            let ghost old_out = out@;
                            out[k].1.push(i);
                            proof {
                                assert(entry_keys(out@) =~= entry_keys(old_out));
                                assert(first_seen(post) == seen);
                                assert forall|m: int| 0 <= m < seen.len() implies #[trigger] buckets_view(
                                    out@,
                                )[m] == buckets_model(post)[m] by {
                                    assert(buckets_view(old_out)[m] == buckets_model(pre)[m]);
                                    if m != k {
                                        assert(seen[m] != g@);
                                    } else {
                                        assert(positions_view(out@[m].1) =~= positions_view(
                                            old_out[m].1,
                                        ).push(i as int));
                                    }
                                }
                                assert(buckets_view(out@) =~= buckets_model(post));
                            }
                        },
                        None => {
                            proof {
                                assert(!seen.contains(g@));
                                lemma_first_seen_contains(pre, g@);
                            }
                            let ghost old_out = out@;
                            let ghost old_slots = slots@;
                            let h = hash_label(g.as_str());
                            let mut list: Vec<usize> = match slots.get(&h) {
                                Some(l) => copy_positions(l),
                                None => Vec::new(),
                            };
                            list.push(out.len());
                            slots.insert(h, list);
                            let mut ps: Vec<usize> = Vec::new();
                            ps.push(i);
                            out.push((g.clone(), ps));
                            proof {
                                let keys = entry_keys(out@);
                                assert(keys =~= entry_keys(old_out).push(g@));
                                assert forall|m: int|
                                    0 <= m < keys.len() implies slots@.contains_key(
                                    label_hash(#[trigger] keys[m]),
                                ) && slots@[label_hash(keys[m])]@.contains(m as usize) by {
                                    if m < old_out.len() {
                                        assert(entry_keys(old_out)[m] == keys[m]);
                                        let hm = label_hash(keys[m]);
                                        if hm == h {
                                            let k = choose|k: int|
                                                0 <= k < old_slots[hm]@.len() && old_slots[hm]@[k]
                                                    == m as usize;
                                            assert(slots@[hm]@[k] == m as usize);
                                        }
                                    } else {
                                        assert(slots@[h]@[slots@[h]@.len() - 1] == m as usize);
                                    }
                                }
                                assert forall|hh: u64, k: int|
                                    slots@.contains_key(hh) && 0 <= k < slots@[hh]@.len() implies (
                                    #[trigger] slots@[hh]@[k]) < keys.len() by {
                                    if hh != h {
                                        assert(old_slots[hh]@[k] < entry_keys(old_out).len());
                                    } else if k < slots@[hh]@.len() - 1 {
                                        assert(old_slots[hh]@[k] < entry_keys(old_out).len());
                                    }
                                }
                                assert(first_seen(post) == seen.push(g@));
                                assert forall|m: int|
                                    0 <= m < seen.len() + 1 implies #[trigger] buckets_view(out@)[m]
                                    == buckets_model(post)[m] by {
                                    if m < seen.len() {
                                        assert(buckets_view(old_out)[m] == buckets_model(pre)[m]);
                                        assert(seen[m] != g@);
                                    } else {
                                        assert(positions_view(out@[m].1) =~= seq![i as int]);
                                        assert(positions_of(pre, g@) =~= Seq::<int>::empty());
                                    }
                                }
                                assert(buckets_view(out@) =~= buckets_model(post));
                            }
                        },
                    }
                },
            }
            i = i + 1;
        }
        proof {
            assert(all.subrange(0, vals.len() as int) =~= all);
        }
        LabelIndex { entries: out, slots }
    }

    /// The entries, in order of first appearance.
    pub fn entries(&self) -> (r: &Vec<(String, Vec<usize>)>)
        ensures
            buckets_view(r@) == self.view(),
    {
        &self.entries
    }

    /// The entry of label `key`, if it occurs.
    pub fn find(&self, key: &str) -> (r: Option<usize>)
        ensures
            match r {
                Some(m) => m < self.view().len() && self.view()[m as int].0 == key@,
                None => forall|m: int| 0 <= m < self.view().len() ==> self.view()[m].0 != key@,
            },
    {
        proof {
            use_type_invariant(self);
        }
        let r = find_entry(&self.entries, &self.slots, key);
        proof {
            assert(buckets_view(self.entries@).len() == self.entries@.len());
            assert forall|m: int| 0 <= m < self.view().len() implies self.view()[m].0
                == self.entries@[m].0@ by {}
        }
        r
    }

    /// The positions of entry `m`.
    pub fn positions(&self, m: usize) -> (r: &Vec<usize>)
        requires
            m < self.view().len(),
        ensures
            positions_view(*r) == self.view()[m as int].1,
    {
        proof {
            assert(buckets_view(self.entries@).len() == self.entries@.len());
        }
        &self.entries[m].1
    }
}

} // verus!
