//! Counts derived from a loaded playlist.
use vstd::prelude::*;
use crate::buckets::{LabelIndex, buckets_model, buckets_view, first_seen, positions_of};
use crate::channel::ChannelView;
use crate::index::{Field, Snapshot, labels, labels_of};

verus! {

/// Counts over a loaded playlist. Each label list holds every label once, in order of first
/// appearance in the playlist.
#[derive(Debug, Default, PartialEq, Eq)]
pub struct PlaylistStats {
    pub total_channels: usize,
    pub total_groups: usize,
    pub channels_per_group: Vec<(String, usize)>,
    pub countries: Vec<(String, usize)>,
    pub languages: Vec<(String, usize)>,
}

pub open spec fn counts_view(v: Seq<(String, usize)>) -> Seq<(Seq<char>, int)> {
    v.map_values(|e: (String, usize)| (e.0@, e.1 as int))
}

/// Each label of `vals`, in order of first appearance, with the number of times it occurs.
pub open spec fn counts_model(vals: Seq<Option<Seq<char>>>) -> Seq<(Seq<char>, int)> {
    first_seen(vals).map_values(|g: Seq<char>| (g, positions_of(vals, g).len() as int))
}

fn counts_of(b: &Vec<(String, Vec<usize>)>, vals: Ghost<Seq<Option<Seq<char>>>>) -> (r: Vec<(String, usize)>)
    requires
        buckets_view(b@) == buckets_model(vals@),
    ensures
        counts_view(r@) == counts_model(vals@),
{
    let mut r: Vec<(String, usize)> = Vec::new();
    let mut k: usize = 0;
    while k < b.len()
        invariant
            k <= b.len(),
            buckets_view(b@) == buckets_model(vals@),
            counts_view(r@) == counts_model(vals@).subrange(0, k as int),
        decreases b.len() - k,
    {
        proof {
            assert(buckets_view(b@).len() == b@.len());
            assert(buckets_view(b@)[k as int] == buckets_model(vals@)[k as int]);
        }
        let ghost prev = r@;
        r.push((b[k].0.clone(), b[k].1.len()));
        k = k + 1;
        proof {
            assert(counts_view(r@) =~= counts_view(prev).push((b@[k - 1].0@, b@[k - 1].1.len() as int)));
            assert(counts_view(r@) =~= counts_model(vals@).subrange(0, k as int));
        }
    }
    proof {
        assert(buckets_view(b@).len() == b@.len());
        assert(counts_model(vals@).subrange(0, k as int) =~= counts_model(vals@));
    }
    r
}

/// `r` holds the counts of the channels `cs`.
pub open spec fn stats_of(r: PlaylistStats, cs: Seq<ChannelView>) -> bool {
    &&& r.total_channels == cs.len()
    &&& r.total_groups == first_seen(labels(cs, Field::Group)).len()
    &&& counts_view(r.channels_per_group@) == counts_model(labels(cs, Field::Group))
    &&& counts_view(r.countries@) == counts_model(labels(cs, Field::Country))
    &&& counts_view(r.languages@) == counts_model(labels(cs, Field::Language))
}

/// The statistics depend on the channel sequence alone: two summaries of one loaded playlist
/// agree in every count and label.
pub proof fn lemma_statistics_idempotent(a: PlaylistStats, b: PlaylistStats, cs: Seq<ChannelView>)
    requires
        stats_of(a, cs),
        stats_of(b, cs),
    ensures
        a.total_channels == b.total_channels,
        a.total_groups == b.total_groups,
        counts_view(a.channels_per_group@) == counts_view(b.channels_per_group@),
        counts_view(a.countries@) == counts_view(b.countries@),
        counts_view(a.languages@) == counts_view(b.languages@),
{
}

/// The counts of a snapshot: channels, groups, and channels per group, country and language.
pub fn statistics(snapshot: &Snapshot) -> (r: PlaylistStats)
    ensures
        stats_of(r, snapshot.model()),
{
    let channels = snapshot.channels();
    let groups = snapshot.group_index();
    let group_entries = groups.entries();
    let per_group = counts_of(group_entries, Ghost(labels(snapshot.model(), Field::Group)));
    let countries = LabelIndex::build(&labels_of(channels, Field::Country));
    let languages = LabelIndex::build(&labels_of(channels, Field::Language));
    proof {
        assert(buckets_view(group_entries@).len() == group_entries@.len());
        assert(buckets_model(labels(snapshot.model(), Field::Group)).len() == first_seen(
            labels(snapshot.model(), Field::Group),
        ).len());
    }
    PlaylistStats {
        total_channels: channels.len(),
        total_groups: group_entries.len(),
        channels_per_group: per_group,
        countries: counts_of(countries.entries(), Ghost(labels(snapshot.model(), Field::Country))),
        languages: counts_of(languages.entries(), Ghost(labels(snapshot.model(), Field::Language))),
    }
}

} // verus!
