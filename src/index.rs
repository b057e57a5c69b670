//! Lookup indices over a channel sequence: name to position, group to positions.
use vstd::prelude::*;
use crate::buckets::{
    LabelIndex, buckets_model, first_seen, lemma_first_seen_contains, lemma_positions_of,
    opt_views, positions_of, positions_view,
};
use crate::channel::{Channel, ChannelView, channels_view, copy_opt};
use crate::extinf::opt_view;

verus! {

/// A label of a channel that the indices and statistics group by.
#[derive(Clone, Copy, Debug, PartialEq, Eq)]
pub enum Field {
    Name,
    Group,
    Country,
    Language,
}

pub open spec fn label(c: ChannelView, f: Field) -> Option<Seq<char>> {
    match f {
        Field::Name => Some(c.name),
        Field::Group => c.group,
        Field::Country => c.country,
        Field::Language => c.language,
    }
}

pub open spec fn labels(cs: Seq<ChannelView>, f: Field) -> Seq<Option<Seq<char>>> {
    cs.map_values(|c: ChannelView| label(c, f))
}

/// The label `f` of each channel.
pub fn labels_of(chs: &[Channel], f: Field) -> (r: Vec<Option<String>>)
    ensures
        opt_views(r@) == labels(channels_view(chs@), f),
{
    let mut r: Vec<Option<String>> = Vec::new();
    let mut i: usize = 0;
    while i < chs.len()
        invariant
            i <= chs.len(),
            opt_views(r@) == labels(channels_view(chs@.subrange(0, i as int)), f),
        decreases chs.len() - i,
    {
        let c = &chs[i];
        let v = match f {
            Field::Name => Some(c.name.clone()),
            Field::Group => copy_opt(&c.group),
            Field::Country => copy_opt(&c.country),
            Field::Language => copy_opt(&c.language),
        };
        proof {
            assert(opt_view(v) == label(chs@[i as int]@, f));
        }
        let ghost prev = r@;
        r.push(v);
        i = i + 1;
        proof {
            let cs = channels_view(chs@.subrange(0, i as int));
            assert(opt_views(r@) =~= opt_views(prev).push(opt_view(v)));
            assert(cs =~= channels_view(chs@.subrange(0, i - 1)).push(chs@[i - 1]@));
            assert(labels(cs, f) =~= labels(channels_view(chs@.subrange(0, i - 1)), f).push(
                label(chs@[i - 1]@, f),
            ));
        }
    }
    proof {
        assert(chs@.subrange(0, chs.len() as int) =~= chs@);
    }
    r
}

/// The position of the last channel named `n`, if any.
pub open spec fn last_with_name(cs: Seq<ChannelView>, n: Seq<char>) -> Option<int> {
    let ps = positions_of(labels(cs, Field::Name), n);
    if ps.len() > 0 {
        Some(ps.last())
    } else {
        None
    }
}

/// The positions, in sequence order, of the channels in group `g`.
pub open spec fn group_positions(cs: Seq<ChannelView>, g: Seq<char>) -> Seq<int> {
    positions_of(labels(cs, Field::Group), g)
}

/// A loaded playlist: its channels with the indices built over them.
pub struct Snapshot {
    channels: Vec<Channel>,
    by_name: LabelIndex,
    by_group: LabelIndex,
}

impl Snapshot {
    /// The channels of the snapshot.
    pub closed spec fn model(&self) -> Seq<ChannelView> {
        channels_view(self.channels@)
    }

    #[verifier::type_invariant]
    spec fn wf(&self) -> bool {
        &&& self.by_name.view() == buckets_model(labels(self.model(), Field::Name))
        &&& self.by_group.view() == buckets_model(labels(self.model(), Field::Group))
    }

    /// Builds the name index and the group index over `channels`.
    pub fn build(channels: Vec<Channel>) -> (r: Snapshot)
        ensures
            r.model() == channels_view(channels@),
    {
        let by_name = LabelIndex::build(&labels_of(channels.as_slice(), Field::Name));
        let by_group = LabelIndex::build(&labels_of(channels.as_slice(), Field::Group));
        Snapshot { channels, by_name, by_group }
    }

    /// The channels, in playlist order.
    pub fn channels(&self) -> (r: &[Channel])
        ensures
            channels_view(r@) == self.model(),
    {
        self.channels.as_slice()
    }

    /// The group index: each group, in order of first appearance, with its positions.
    pub fn group_index(&self) -> (r: &LabelIndex)
        ensures
            r.view() == buckets_model(labels(self.model(), Field::Group)),
    {
        proof {
            use_type_invariant(self);
        }
        &self.by_group
    }

    /// The last channel named `name`, if any.
    pub fn channel_by_name(&self, name: &str) -> (r: Option<&Channel>)
        ensures
            match last_with_name(self.model(), name@) {
                Some(p) => r is Some && r->0@ == self.model()[p],
                None => r is None,
            },
    {
        proof {
            use_type_invariant(self);
        }
        let ghost nl = labels(self.model(), Field::Name);
        proof {
            assert(buckets_model(nl).len() == first_seen(nl).len());
        }
        match self.by_name.find(name) {
            Some(m) => {
                let ps = self.by_name.positions(m);
                proof {
                    assert(buckets_model(nl)[m as int] == self.by_name.view()[m as int]);
                    assert(first_seen(nl)[m as int] == name@);
                    assert(first_seen(nl).contains(name@));
                    lemma_first_seen_contains(nl, name@);
                    lemma_positions_of(nl, name@);
                    assert(nl.len() == self.channels@.len());
                    assert(positions_view(*ps).len() == ps@.len());
                }
                let p = ps[ps.len() - 1];
                proof {
                    assert(positions_view(*ps).last() == p as int);
                }
                Some(&self.channels[p])
            },
            None => {
                proof {
                    assert forall|m: int| 0 <= m < first_seen(nl).len() implies first_seen(nl)[m]
                        != name@ by {
                        assert(buckets_model(nl)[m] == self.by_name.view()[m]);
                    }
                    if first_seen(nl).contains(name@) {
                        let m = choose|m: int|
                            0 <= m < first_seen(nl).len() && first_seen(nl)[m] == name@;
                    }
                    lemma_first_seen_contains(nl, name@);
                }
                None
            },
        }
    }

    /// The channels of group `group`, in playlist order; none for an unknown group.
    pub fn channels_in_group(&self, group: &str) -> (r: Vec<&Channel>)
        ensures
            r.len() == group_positions(self.model(), group@).len(),
            forall|k: int|
                0 <= k < r.len() ==> r[k]@ == self.model()[group_positions(self.model(), group@)[k]],
    {
        proof {
            use_type_invariant(self);
        }
        let ghost cs = self.model();
        let ghost gl = labels(cs, Field::Group);
        proof {
            assert(buckets_model(gl).len() == first_seen(gl).len());
        }
        match self.by_group.find(group) {
            Some(m) => {
                let ps = self.by_group.positions(m);
                let ghost gp = positions_of(gl, group@);
                proof {
                    assert(buckets_model(gl)[m as int] == self.by_group.view()[m as int]);
                    lemma_positions_of(gl, group@);
                    assert(positions_view(*ps) == gp);
                    assert(gl.len() == self.channels@.len());
                }
                let mut out: Vec<&Channel> = Vec::new();
                let mut j: usize = 0;
                while j < ps.len()
                    invariant
                        j <= ps.len(),
                        positions_view(*ps) == gp,
                        gp == group_positions(cs, group@),
                        cs == self.model(),
                        gl.len() == self.channels@.len(),
                        forall|a: int| 0 <= a < gp.len() ==> 0 <= #[trigger] gp[a] < gl.len(),
                        out.len() == j,
                        forall|a: int| 0 <= a < j ==> out[a]@ == cs[gp[a]],
                    decreases ps.len() - j,
                {
                    proof {
                        assert(gp[j as int] == ps@[j as int] as int);
                    }
                    out.push(&self.channels[ps[j]]);
                    j = j + 1;
                }
                out
            },
            None => {
                proof {
                    assert forall|m: int| 0 <= m < first_seen(gl).len() implies first_seen(gl)[m]
                        != group@ by {
                        assert(buckets_model(gl)[m] == self.by_group.view()[m]);
                    }
                    if first_seen(gl).contains(group@) {
                        let m = choose|m: int|
                            0 <= m < first_seen(gl).len() && first_seen(gl)[m] == group@;
                    }
                    lemma_first_seen_contains(gl, group@);
                }
                Vec::new()
            },
        }
    }
}

} // verus!
