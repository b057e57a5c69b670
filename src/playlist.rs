//! Reading a playlist: pairing each `#EXTINF:` line with the stream line right after it.
use vstd::prelude::*;
use crate::buckets::lemma_positions_of;
use crate::channel::{Channel, ChannelView, channels_view};
use crate::index::{Field, Snapshot, group_positions, labels, last_with_name};
use crate::search::{fuzzy_score, is_ranking, match_score, rank_matches};
use crate::stats::{PlaylistStats, statistics, stats_of};
use crate::extinf::{entry_channel, entry_of};
use crate::text::{
    chars_of, copy_range, is_space, line_bounds, range_starts_with, ranges_view, ranges_within,
    split_lines, starts_with, trim_end, trim_start,
};

verus! {

pub open spec fn extinf_tag() -> Seq<char> {
    "#EXTINF:"@
}

pub open spec fn stream_tag() -> Seq<char> {
    "http"@
}

/// The channel that line `i` opens, if any: line `i` is a metadata line and the line right
/// after it a stream address.
pub open spec fn entry_at(lines: Seq<Seq<char>>, i: int) -> Option<ChannelView> {
    if 0 <= i && i + 1 < lines.len() && starts_with(lines[i], extinf_tag()) && starts_with(
        lines[i + 1],
        stream_tag(),
    ) {
        Some(entry_of(lines[i], lines[i + 1]))
    } else {
        None
    }
}

/// The channels that lines `from` up to (not including) `to` open, in order.
pub open spec fn entries_between(lines: Seq<Seq<char>>, from: int, to: int) -> Seq<ChannelView>
    decreases to - from,
{
    if to <= from {
        seq![]
    } else {
        let prev = entries_between(lines, from, to - 1);
        match entry_at(lines, to - 1) {
            Some(c) => prev.push(c),
            None => prev,
        }
    }
}

/// The channels of a playlist text, in the order of their metadata lines.
pub open spec fn playlist_entries(text: Seq<char>) -> Seq<ChannelView> {
    entries_between(split_lines(text), 0, split_lines(text).len() as int)
}

/// Scanning in two stretches, the second resuming where the first stopped, yields what one
/// pass over both yields: the sequential strategy, which pauses to report progress, and the
/// single-pass strategy produce the same channels in the same order.
pub proof fn lemma_scan_resumes(lines: Seq<Seq<char>>, from: int, mid: int, to: int)
    requires
        from <= mid <= to,
    ensures
        entries_between(lines, from, mid) + entries_between(lines, mid, to) == entries_between(
            lines,
            from,
            to,
        ),
    decreases to - mid,
{
    if to == mid {
        assert(entries_between(lines, mid, to) =~= Seq::<ChannelView>::empty());
        assert(entries_between(lines, from, mid) + Seq::<ChannelView>::empty() =~= entries_between(
            lines,
            from,
            mid,
        ));
    } else {
        lemma_scan_resumes(lines, from, mid, to - 1);
        match entry_at(lines, to - 1) {
            Some(c) => {
                assert(entries_between(lines, from, mid) + entries_between(lines, mid, to - 1).push(
                    c,
                ) =~= (entries_between(lines, from, mid) + entries_between(lines, mid, to - 1)).push(
                    c,
                ));
            },
            None => {},
        }
    }
}

proof fn lemma_trim_end_keeps(s: Seq<char>, k: int)
    requires
        0 < k <= s.len(),
        !is_space(s[k - 1]),
    ensures
        trim_end(s).len() >= k,
    decreases s.len(),
{
    if s.len() > 0 && is_space(s.last()) {
        lemma_trim_end_keeps(s.drop_last(), k);
    }
}

/// Every channel read from a playlist has a non-empty stream address.
pub proof fn lemma_entries_have_urls(lines: Seq<Seq<char>>, from: int, to: int)
    ensures
        forall|k: int|
            0 <= k < entries_between(lines, from, to).len() ==> (#[trigger] entries_between(
                lines,
                from,
                to,
            )[k]).url.len() > 0,
    decreases to - from,
{
    if to > from {
        lemma_entries_have_urls(lines, from, to - 1);
        match entry_at(lines, to - 1) {
            Some(c) => {
                let u = lines[to];
                reveal_strlit("http");
                assert(stream_tag().len() == 4);
                assert(u.subrange(0, 4) == stream_tag());
                assert(u[0] == u.subrange(0, 4)[0]);
                assert(u[3] == u.subrange(0, 4)[3]);
                assert(trim_start(u) == u);
                lemma_trim_end_keeps(u, 4);
                let prev = entries_between(lines, from, to - 1);
                assert forall|k: int| 0 <= k < prev.push(c).len() implies (#[trigger] prev.push(
                    c,
                )[k]).url.len() > 0 by {
                    if k < prev.len() {
                        assert(prev.push(c)[k] == prev[k]);
                    }
                }
            },
            None => {},
        }
    }
}

/// Appends to `out` the channels that lines `from` up to `to` open.
fn scan_lines(
    chars: &Vec<char>,
    lines: &Vec<(usize, usize)>,
    from: usize,
    to: usize,
    out: &mut Vec<Channel>,
)
    requires
        ranges_within(lines@, chars.len() as int),
        from <= to <= lines.len(),
    ensures
        channels_view(final(out)@) == channels_view(old(out)@) + entries_between(
            ranges_view(chars@, lines@),
            from as int,
            to as int,
        ),
{
    let ghost ls = ranges_view(chars@, lines@);
    let ghost start = channels_view(out@);
    let tag = chars_of("#EXTINF:");
    let stream = chars_of("http");
    let mut i = from;
    proof {
        assert(start + entries_between(ls, from as int, from as int) =~= start);
    }
    while i < to
        invariant
            ranges_within(lines@, chars.len() as int),
            from <= i <= to <= lines.len(),
            ls == ranges_view(chars@, lines@),
            tag@ == extinf_tag(),
            stream@ == stream_tag(),
            channels_view(out@) == start + entries_between(ls, from as int, i as int),
        decreases to - i,
    {
        let ghost before = out@;
        proof {
            assert(ls[i as int] == chars@.subrange(lines@[i as int].0 as int, lines@[i as int].1 as int));
        }
        if i + 1 < lines.len() {
            proof {
                assert(ls[i + 1] == chars@.subrange(
                    lines@[i + 1].0 as int,
                    lines@[i + 1].1 as int,
                ));
            }
            let (a, b) = lines[i];
            let (c, d) = lines[i + 1];
            if range_starts_with(chars, a, b, &tag) && range_starts_with(chars, c, d, &stream) {
                let meta = copy_range(chars, a, b);
                let url = copy_range(chars, c, d);
                let ch = entry_channel(&meta, &url);
                out.push(ch);
            }
        }
        proof {
            assert(channels_view(out@) =~= match entry_at(ls, i as int) {
                Some(c) => channels_view(before).push(c),
                None => channels_view(before),
            });
            match entry_at(ls, i as int) {
                Some(c) => {
                    assert(start + entries_between(ls, from as int, i as int).push(c) =~= (start
                        + entries_between(ls, from as int, i as int)).push(c));
                },
                None => {},
            }
        }
        i = i + 1;
    }
}

/// The playlist's channels, found in one pass over all of its lines. This is the work that
/// the parallel strategy hands to a background worker.
pub fn parse_parallel(content: &str) -> (r: Vec<Channel>)
    ensures
        channels_view(r@) == playlist_entries(content@),
{
    let chars = chars_of(content);
    let lines = line_bounds(&chars);
    let mut out: Vec<Channel> = Vec::new();
    scan_lines(&chars, &lines, 0, lines.len(), &mut out);
    proof {
        assert(channels_view(Seq::<Channel>::empty()) + playlist_entries(content@) =~= playlist_entries(content@));
    }
    out
}


/// Whatever the strategy, loading one text yields the same channels in the same order: what
/// `parse_sequential` returns equals what `parse_parallel` returns.
pub proof fn lemma_strategies_agree(text: Seq<char>, sequential: Seq<Channel>, parallel: Seq<Channel>)
    requires
        channels_view(sequential) == playlist_entries(text),
        channels_view(parallel) == playlist_entries(text),
    ensures
        channels_view(sequential) == channels_view(parallel),
        sequential.len() == parallel.len(),
{
    assert(channels_view(sequential).len() == sequential.len());
    assert(channels_view(parallel).len() == parallel.len());
}

/// How far a sequential scan has got.
#[derive(Clone, Copy, Debug, PartialEq, Eq)]
pub struct ParseProgress {
    pub lines_scanned: usize,
    pub total_lines: usize,
    pub channels_found: usize,
}

/// Lines between two progress reports of the sequential strategy.
pub const PROGRESS_INTERVAL: usize = 1000;

/// The sequential strategy: a scan that advances a bounded number of lines at a time, so
/// that its caller can report progress between steps.
pub struct SequentialScan {
    chars: Vec<char>,
    lines: Vec<(usize, usize)>,
    next: usize,
    found: Vec<Channel>,
}

impl SequentialScan {
    /// The text being scanned.
    pub closed spec fn text(&self) -> Seq<char> {
        self.chars@
    }

    /// The number of lines scanned so far.
    pub closed spec fn position(&self) -> int {
        self.next as int
    }

    /// The channels found so far.
    pub closed spec fn found(&self) -> Seq<ChannelView> {
        channels_view(self.found@)
    }

    pub open spec fn total(&self) -> int {
        split_lines(self.text()).len() as int
    }

    pub closed spec fn wf(&self) -> bool {
        &&& ranges_within(self.lines@, self.chars.len() as int)
        &&& ranges_view(self.chars@, self.lines@) == split_lines(self.chars@)
        &&& self.next <= self.lines.len()
        &&& channels_view(self.found@) == entries_between(
            split_lines(self.chars@),
            0,
            self.next as int,
        )
    }

    pub fn new(content: &str) -> (r: SequentialScan)
        ensures
            r.wf(),
            r.text() == content@,
            r.position() == 0,
            r.found().len() == 0,
    {
        let chars = chars_of(content);
        let lines = line_bounds(&chars);
        let r = SequentialScan { chars, lines, next: 0, found: Vec::new() };
        proof {
            assert(channels_view(r.found@) =~= entries_between(split_lines(r.chars@), 0, 0));
        }
        r
    }

    /// Scans up to `max_lines` more lines.
    pub fn step(&mut self, max_lines: usize) -> (p: ParseProgress)
        requires
            old(self).wf(),
        ensures
            final(self).wf(),
            final(self).text() == old(self).text(),
            final(self).position() == if old(self).position() + max_lines < old(self).total() {
                old(self).position() + max_lines
            } else {
                old(self).total()
            },
            final(self).found() == old(self).found() + entries_between(
                split_lines(old(self).text()),
                old(self).position(),
                final(self).position(),
            ),
            p.lines_scanned == final(self).position(),
            p.total_lines == final(self).total(),
            p.channels_found == final(self).found().len(),
    {
        let remaining = self.lines.len() - self.next;
        let to = if max_lines < remaining {
            self.next + max_lines
        } else {
            self.lines.len()
        };
        let from = self.next;
        let ghost ls = split_lines(self.chars@);
        scan_lines(&self.chars, &self.lines, from, to, &mut self.found);
        self.next = to;
        proof {
            lemma_scan_resumes(ls, 0, from as int, to as int);
        }
        ParseProgress {
            lines_scanned: self.next,
            total_lines: self.lines.len(),
            channels_found: self.found.len(),
        }
    }

    pub fn is_done(&self) -> (r: bool)
        requires
            self.wf(),
        ensures
            r == (self.position() == self.total()),
    {
        self.next == self.lines.len()
    }

    /// The channels found so far.
    pub fn into_channels(self) -> (r: Vec<Channel>)
        requires
            self.wf(),
        ensures
            channels_view(r@) == self.found(),
            self.position() == self.total() ==> channels_view(r@) == playlist_entries(self.text()),
    {
        self.found
    }
}

/// The playlist's channels, found by a scan that pauses every `PROGRESS_INTERVAL` lines.
pub fn parse_sequential(content: &str) -> (r: Vec<Channel>)
    ensures
        channels_view(r@) == playlist_entries(content@),
{
    let mut scan = SequentialScan::new(content);
    while !scan.is_done()
        invariant
            scan.wf(),
            scan.text() == content@,
            0 <= scan.position() <= scan.total(),
        decreases scan.total() - scan.position(),
    {
        scan.step(PROGRESS_INTERVAL);
    }
    scan.into_channels()
}


/// The score of each channel's name against `query`.
pub open spec fn name_scores(cs: Seq<ChannelView>, query: Seq<char>) -> Seq<Option<i64>> {
    cs.map_values(|c: ChannelView| fuzzy_score(c.name, query))
}

/// Holds the currently loaded playlist and answers lookups, searches and counts over it.
/// Loading replaces the channels and both indices together.
pub struct PlaylistParser {
    snapshot: Snapshot,
    parallel_processing: bool,
}

impl PlaylistParser {
    /// The channels of the loaded playlist.
    pub closed spec fn model(&self) -> Seq<ChannelView> {
        self.snapshot.model()
    }

    pub closed spec fn parallel(&self) -> bool {
        self.parallel_processing
    }

    pub fn new(parallel_processing: bool) -> (r: PlaylistParser)
        ensures
            r.model().len() == 0,
            r.parallel() == parallel_processing,
    {
        PlaylistParser { snapshot: Snapshot::build(Vec::new()), parallel_processing }
    }

    /// Whether loading uses the parallel strategy.
    pub fn uses_parallel(&self) -> (r: bool)
        ensures
            r == self.parallel(),
    {
        self.parallel_processing
    }

    /// Replaces the loaded playlist with `channels`, indices rebuilt over them.
    pub fn install(&mut self, channels: Vec<Channel>)
        ensures
            final(self).model() == channels_view(channels@),
            final(self).parallel() == old(self).parallel(),
    {
        self.snapshot = Snapshot::build(channels);
    }

    /// Loads a playlist text with the configured strategy.
    pub fn parse_content(&mut self, content: &str)
        ensures
            final(self).model() == playlist_entries(content@),
            final(self).parallel() == old(self).parallel(),
    {
        let channels = if self.parallel_processing {
            parse_parallel(content)
        } else {
            parse_sequential(content)
        };
        self.install(channels);
    }

    pub fn get_channels(&self) -> (r: &[Channel])
        ensures
            channels_view(r@) == self.model(),
    {
        self.snapshot.channels()
    }

    /// The last channel named `name`.
    pub fn get_channel_by_name(&self, name: &str) -> (r: Option<&Channel>)
        ensures
            match last_with_name(self.model(), name@) {
                Some(p) => r is Some && r->0@ == self.model()[p],
                None => r is None,
            },
    {
        self.snapshot.channel_by_name(name)
    }

    /// The channels of `group`, in playlist order.
    pub fn get_channels_by_group(&self, group: &str) -> (r: Vec<&Channel>)
        ensures
            r.len() == group_positions(self.model(), group@).len(),
            forall|k: int|
                0 <= k < r.len() ==> r[k]@ == self.model()[group_positions(self.model(), group@)[k]],
    {
        self.snapshot.channels_in_group(group)
    }

    /// The positions of the channels whose names match `query`, best match first, ties in
    /// playlist order.
    pub fn search_positions(&self, query: &str) -> (r: Vec<usize>)
        ensures
            is_ranking(name_scores(self.model(), query@), r@),
    {
        let channels = self.snapshot.channels();
        let mut scores: Vec<Option<i64>> = Vec::new();
        let mut i: usize = 0;
        while i < channels.len()
            invariant
                i <= channels.len(),
                channels_view(channels@) == self.model(),
                scores@ == name_scores(self.model(), query@).subrange(0, i as int),
            decreases channels.len() - i,
        {
            let s = match_score(channels[i].name.as_str(), query);
            proof {
                assert(self.model()[i as int] == channels@[i as int]@);
            }
            scores.push(s);
            i = i + 1;
            proof {
                assert(scores@ =~= name_scores(self.model(), query@).subrange(0, i as int));
            }
        }
        proof {
            assert(scores@ =~= name_scores(self.model(), query@));
        }
        rank_matches(&scores)
    }

    /// The channels whose names match `query`, best match first, ties in playlist order.
    pub fn search_channels(&self, query: &str) -> (r: Vec<&Channel>)
        ensures
            exists|ord: Seq<usize>|
                #[trigger] is_ranking(name_scores(self.model(), query@), ord) && r.len() == ord.len()
                    && forall|k: int| 0 <= k < ord.len() ==> r[k]@ == self.model()[ord[k] as int],
    {
        let ord = self.search_positions(query);
        let channels = self.snapshot.channels();
        let mut out: Vec<&Channel> = Vec::new();
        let mut k: usize = 0;
        while k < ord.len()
            invariant
                k <= ord.len(),
                channels_view(channels@) == self.model(),
                is_ranking(name_scores(self.model(), query@), ord@),
                out.len() == k,
                forall|m: int| 0 <= m < k ==> out[m]@ == self.model()[ord@[m] as int],
            decreases ord.len() - k,
        {
            proof {
                assert(ord@[k as int] < name_scores(self.model(), query@).len());
            }
            out.push(&channels[ord[k]]);
            k = k + 1;
        }
        proof {
            assert(is_ranking(name_scores(self.model(), query@), ord@) && out.len() == ord@.len()
                && forall|m: int| 0 <= m < ord@.len() ==> out[m]@ == self.model()[ord@[m] as int]);
        }
        out
    }

    /// Counts of the loaded playlist.
    pub fn get_statistics(&self) -> (r: PlaylistStats)
        ensures
            stats_of(r, self.model()),
    {
        statistics(&self.snapshot)
    }
}

/// The group index lists, for any group, exactly the channels of that group, in sequence
/// order; the name index resolves every name in the sequence to a valid position of a
/// channel with that name.
pub proof fn lemma_index_consistency(cs: Seq<ChannelView>, g: Seq<char>)
    ensures
        forall|a: int, b: int|
            0 <= a < b < group_positions(cs, g).len() ==> group_positions(cs, g)[a] < group_positions(
                cs,
                g,
            )[b],
        forall|a: int|
            0 <= a < group_positions(cs, g).len() ==> 0 <= #[trigger] group_positions(cs, g)[a]
                < cs.len() && cs[group_positions(cs, g)[a]].group == Some(g),
        forall|j: int|
            0 <= j < cs.len() && #[trigger] cs[j].group == Some(g) ==> group_positions(cs, g).contains(j),
        forall|j: int|
            0 <= j < cs.len() ==> match #[trigger] last_with_name(cs, cs[j].name) {
                Some(p) => 0 <= p < cs.len() && cs[p].name == cs[j].name,
                None => false,
            },
{
    let gl = labels(cs, Field::Group);
    lemma_positions_of(gl, g);
    assert forall|j: int| 0 <= j < cs.len() && #[trigger] cs[j].group == Some(g) implies group_positions(
        cs,
        g,
    ).contains(j) by {
        assert(gl[j] == Some(g));
    }
    assert forall|j: int| 0 <= j < cs.len() implies match #[trigger] last_with_name(cs, cs[j].name) {
        Some(p) => 0 <= p < cs.len() && cs[p].name == cs[j].name,
        None => false,
    } by {
        let nl = labels(cs, Field::Name);
        lemma_positions_of(nl, cs[j].name);
        assert(nl[j] == Some(cs[j].name));
        let ps = positions_of_name(cs, cs[j].name);
        assert(ps.contains(j));
        assert(ps.len() > 0);
        assert(nl[ps.last()] == Some(cs[j].name));
    }
}

pub open spec fn positions_of_name(cs: Seq<ChannelView>, n: Seq<char>) -> Seq<int> {
    crate::buckets::positions_of(labels(cs, Field::Name), n)
}

/// With duplicate names the name index keeps the later channel: when `j` is the last
/// position named like an earlier position `i`, the name resolves to `j`.
pub proof fn lemma_last_writer_wins(cs: Seq<ChannelView>, i: int, j: int)
    requires
        0 <= i < j < cs.len(),
        cs[i].name == cs[j].name,
        forall|k: int| j < k < cs.len() ==> cs[k].name != cs[j].name,
    ensures
        last_with_name(cs, cs[i].name) == Some(j),
{
    let nl = labels(cs, Field::Name);
    let n = cs[j].name;
    lemma_positions_of(nl, n);
    let ps = positions_of_name(cs, n);
    assert(nl[j] == Some(n));
    assert(ps.contains(j));
    let k = choose|k: int| 0 <= k < ps.len() && ps[k] == j;
    let p = ps.last();
    assert(nl[p] == Some(n));
    if k < ps.len() - 1 {
        assert(ps[k] < ps[ps.len() - 1]);
        assert(cs[p].name == n);
    }
}

/// A query that no channel name matches gives an empty result.
pub proof fn lemma_search_without_match(cs: Seq<ChannelView>, query: Seq<char>, ord: Seq<usize>)
    requires
        forall|i: int| 0 <= i < cs.len() ==> fuzzy_score(#[trigger] cs[i].name, query) is None,
        is_ranking(name_scores(cs, query), ord),
    ensures
        ord.len() == 0,
{
    if ord.len() > 0 {
        assert(ord[0] < cs.len());
        assert(fuzzy_score(cs[ord[0] as int].name, query) is None);
    }
}

} // verus!
