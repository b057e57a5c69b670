//! The player's decisions: what to run for a channel, history and favourites, and the
//! interactive session's next step. Starting processes and waiting on them is left to the
//! caller.
use vstd::prelude::*;
use vstd::string::StringExecFns;
use crate::channel::{Channel, ChannelView, channels_view};
use crate::config::Config;
use crate::lists::{contains_name, most_recent_first, put_first, remove_name, strings_view, without};
use crate::playlist::{PlaylistParser, playlist_entries};
use crate::search::{is_ranking, rank_matches};

verus! {

/// Most channels kept in the playback history.
pub const MAX_HISTORY: usize = 50;

/// Flags passed to the media player before the configured extra arguments.
pub open spec fn playback_flags() -> Seq<Seq<char>> {
    seq![
        "--cache=yes"@,
        "--demuxer-max-bytes=100M"@,
        "--demuxer-readahead-secs=30"@,
        "--force-window=immediate"@,
        "--no-terminal"@,
        "--quiet"@,
        "--really-quiet"@,
        "--hwdec=auto-safe"@,
        "--vo=gpu"@,
        "--gpu-context=auto"@,
        "--profile=fast"@,
        "--network-timeout=10"@,
        "--stream-buffer-size=1024k"@,
        "--demuxer-thread=yes"@,
    ]
}

pub open spec fn opt_strings_view(o: Option<Vec<String>>) -> Seq<Seq<char>> {
    match o {
        Some(v) => strings_view(v@),
        None => seq![],
    }
}

/// What happened in the interactive session since the last step.
pub enum SessionEvent {
    /// The user picked a channel.
    Selected(Channel),
    /// The user closed the picker.
    Cancelled,
    /// A shutdown signal arrived.
    ShutdownRequested,
}

/// What the session does next.
pub enum SessionAction {
    /// Run `program` with `args`, wait for it, then show the picker again.
    Play { program: String, args: Vec<String> },
    /// Leave the session.
    Exit,
}

pub struct IptvPlayer {
    parser: PlaylistParser,
    player_cmd: String,
    config: Config,
    history: Vec<String>,
    favorites: Vec<String>,
}

impl IptvPlayer {
    /// The channels of the loaded playlist.
    pub closed spec fn channels(&self) -> Seq<ChannelView> {
        self.parser.model()
    }

    pub closed spec fn program(&self) -> Seq<char> {
        self.player_cmd@
    }

    /// The configured extra player arguments.
    pub closed spec fn extra_args(&self) -> Seq<Seq<char>> {
        opt_strings_view(self.config.player_args)
    }

    /// Channels played, most recent first.
    pub closed spec fn history(&self) -> Seq<Seq<char>> {
        strings_view(self.history@)
    }

    pub closed spec fn favorites(&self) -> Seq<Seq<char>> {
        strings_view(self.favorites@)
    }

    pub closed spec fn parallel(&self) -> bool {
        self.parser.parallel()
    }

    pub fn new(player_cmd: String, config: Config, parallel: bool) -> (r: IptvPlayer)
        ensures
            r.channels().len() == 0,
            r.program() == player_cmd@,
            r.extra_args() == opt_strings_view(config.player_args),
            r.history().len() == 0,
            r.favorites().len() == 0,
            r.parallel() == parallel,
    {
        IptvPlayer {
            parser: PlaylistParser::new(parallel),
            player_cmd,
            config,
            history: Vec::new(),
            favorites: Vec::new(),
        }
    }

    pub fn parser(&self) -> (r: &PlaylistParser)
        ensures
            r.model() == self.channels(),
            r.parallel() == self.parallel(),
    {
        &self.parser
    }

    pub fn config(&self) -> &Config {
        &self.config
    }

    pub fn player_command(&self) -> (r: &str)
        ensures
            r@ == self.program(),
    {
        self.player_cmd.as_str()
    }

    /// Loads a playlist text with the configured strategy, replacing the one loaded before.
    pub fn load_playlist_text(&mut self, content: &str)
        ensures
            final(self).channels() == playlist_entries(content@),
            final(self).program() == old(self).program(),
            final(self).extra_args() == old(self).extra_args(),
            final(self).history() == old(self).history(),
            final(self).favorites() == old(self).favorites(),
            final(self).parallel() == old(self).parallel(),
    {
        self.parser.parse_content(content);
    }

    /// Replaces the loaded playlist with channels parsed elsewhere.
    pub fn install_channels(&mut self, channels: Vec<Channel>)
        ensures
            final(self).channels() == channels_view(channels@),
            final(self).program() == old(self).program(),
            final(self).extra_args() == old(self).extra_args(),
            final(self).history() == old(self).history(),
            final(self).favorites() == old(self).favorites(),
            final(self).parallel() == old(self).parallel(),
    {
        self.parser.install(channels);
    }

    pub fn has_channels(&self) -> (r: bool)
        ensures
            r == (self.channels().len() > 0),
    {
        self.parser.get_channels().len() > 0
    }

    fn add_to_history(&mut self, channel_name: &str)
        ensures
            final(self).history() == most_recent_first(
                old(self).history(),
                channel_name@,
                MAX_HISTORY as int,
            ),
            final(self).channels() == old(self).channels(),
            final(self).program() == old(self).program(),
            final(self).extra_args() == old(self).extra_args(),
            final(self).favorites() == old(self).favorites(),
            final(self).parallel() == old(self).parallel(),
    {
        let updated = put_first(&self.history, channel_name, MAX_HISTORY);
        self.history = updated;
    }

    pub fn get_history(&self) -> (r: &[String])
        ensures
            strings_view(r@) == self.history(),
    {
        self.history.as_slice()
    }

    pub fn get_favorites(&self) -> (r: &[String])
        ensures
            strings_view(r@) == self.favorites(),
    {
        self.favorites.as_slice()
    }

    /// Adds `channel_name` to the favourites unless it is there already.
    pub fn add_favorite(&mut self, channel_name: &str)
        ensures
            final(self).favorites() == if old(self).favorites().contains(channel_name@) {
                old(self).favorites()
            } else {
                old(self).favorites().push(channel_name@)
            },
            final(self).history() == old(self).history(),
            final(self).channels() == old(self).channels(),
            final(self).program() == old(self).program(),
            final(self).extra_args() == old(self).extra_args(),
            final(self).parallel() == old(self).parallel(),
    {
        if !contains_name(&self.favorites, channel_name) {
            let ghost prev = self.favorites@;
            self.favorites.push(String::from_str(channel_name));
            proof {
                assert(strings_view(self.favorites@) =~= strings_view(prev).push(channel_name@));
            }
        }
    }

    /// Removes every favourite named `channel_name`.
    pub fn remove_favorite(&mut self, channel_name: &str)
        ensures
            final(self).favorites() == without(old(self).favorites(), channel_name@),
            final(self).history() == old(self).history(),
            final(self).channels() == old(self).channels(),
            final(self).program() == old(self).program(),
            final(self).extra_args() == old(self).extra_args(),
            final(self).parallel() == old(self).parallel(),
    {
        let updated = remove_name(&self.favorites, channel_name);
        self.favorites = updated;
    }

    /// The player's arguments for `channel`: its address, the playback flags, then the
    /// configured extra arguments.
    pub fn playback_args(&self, channel: &Channel) -> (r: Vec<String>)
        ensures
            strings_view(r@) == seq![channel.url@] + playback_flags() + self.extra_args(),
    {
        let mut args: Vec<String> = Vec::new();
        args.push(channel.url.clone());
        args.push(String::from_str("--cache=yes"));
        args.push(String::from_str("--demuxer-max-bytes=100M"));
        args.push(String::from_str("--demuxer-readahead-secs=30"));
        args.push(String::from_str("--force-window=immediate"));
        args.push(String::from_str("--no-terminal"));
        args.push(String::from_str("--quiet"));
        args.push(String::from_str("--really-quiet"));
        args.push(String::from_str("--hwdec=auto-safe"));
        args.push(String::from_str("--vo=gpu"));
        args.push(String::from_str("--gpu-context=auto"));
        args.push(String::from_str("--profile=fast"));
        args.push(String::from_str("--network-timeout=10"));
        args.push(String::from_str("--stream-buffer-size=1024k"));
        args.push(String::from_str("--demuxer-thread=yes"));
        let ghost fixed = strings_view(args@);
        proof {
            assert(fixed =~= seq![channel.url@] + playback_flags());
        }
        match &self.config.player_args {
            Some(extra) => {
                let mut i: usize = 0;
                while i < extra.len()
                    invariant
                        i <= extra.len(),
                        strings_view(args@) == fixed + strings_view(extra@.subrange(0, i as int)),
                    decreases extra.len() - i,
                {
                    let ghost prev = args@;
                    args.push(extra[i].clone());
                    i = i + 1;
                    proof {
                        assert(strings_view(args@) =~= strings_view(prev).push(extra@[i - 1]@));
                        assert(strings_view(extra@.subrange(0, i as int)) =~= strings_view(
                            extra@.subrange(0, i - 1),
                        ).push(extra@[i - 1]@));
                        assert(strings_view(args@) =~= fixed + strings_view(
                            extra@.subrange(0, i as int),
                        ));
                    }
                }
                proof {
                    assert(extra@.subrange(0, extra.len() as int) =~= extra@);
                }
            },
            None => {
                proof {
                    assert(strings_view(args@) =~= fixed + Seq::<Seq<char>>::empty());
                }
            },
        }
        args
    }

    /// The interactive session's next step: a picked channel goes to the history and is
    /// played; closing the picker or a shutdown ends the session.
    pub fn on_event(&mut self, event: SessionEvent) -> (r: SessionAction)
        ensures
            match event {
                SessionEvent::Selected(c) => {
                    &&& final(self).history() == most_recent_first(
                        old(self).history(),
                        c.name@,
                        MAX_HISTORY as int,
                    )
                    &&& match r {
                        SessionAction::Play { program, args } => program@ == old(self).program()
                            && strings_view(args@) == seq![c.url@] + playback_flags() + old(
                            self,
                        ).extra_args(),
                        SessionAction::Exit => false,
                    }
                },
                _ => r is Exit && final(self).history() == old(self).history(),
            },
            final(self).channels() == old(self).channels(),
            final(self).favorites() == old(self).favorites(),
            final(self).program() == old(self).program(),
            final(self).extra_args() == old(self).extra_args(),
    {
        match event {
            SessionEvent::Selected(channel) => {
                self.add_to_history(channel.name.as_str());
                let args = self.playback_args(&channel);
                SessionAction::Play { program: self.player_cmd.clone(), args }
            },
            SessionEvent::Cancelled => SessionAction::Exit,
            SessionEvent::ShutdownRequested => SessionAction::Exit,
        }
    }
}

pub open spec fn count_scores(counts: Seq<(String, usize)>) -> Seq<Option<i64>> {
    counts.map_values(|e: (String, usize)| Some(e.1 as i64))
}

/// The `limit` entries with the highest counts, highest first, ties in the order given.
pub fn top_counts(counts: &Vec<(String, usize)>, limit: usize) -> (r: Vec<(String, usize)>)
    requires
        forall|k: int| 0 <= k < counts.len() ==> (#[trigger] counts@[k]).1 <= i64::MAX,
    ensures
        exists|ord: Seq<usize>|
            #[trigger] is_ranking(count_scores(counts@), ord) && r.len() == (if ord.len() < limit {
                ord.len() as int
            } else {
                limit as int
            }) && forall|k: int|
                0 <= k < r.len() ==> r@[k].0@ == counts@[ord[k] as int].0@ && r@[k].1
                    == counts@[ord[k] as int].1,
{
    let mut scores: Vec<Option<i64>> = Vec::new();
    let mut i: usize = 0;
    while i < counts.len()
        invariant
            i <= counts.len(),
            forall|k: int| 0 <= k < counts.len() ==> (#[trigger] counts@[k]).1 <= i64::MAX,
            scores@ == count_scores(counts@).subrange(0, i as int),
        decreases counts.len() - i,
    {
        scores.push(Some(counts[i].1 as i64));
        i = i + 1;
        proof {
            assert(scores@ =~= count_scores(counts@).subrange(0, i as int));
        }
    }
    proof {
        assert(scores@ =~= count_scores(counts@));
    }
    let ord = rank_matches(&scores);
    let mut out: Vec<(String, usize)> = Vec::new();
    let mut k: usize = 0;
    while k < ord.len() && k < limit
        invariant
            k <= ord.len(),
            k <= limit,
            is_ranking(count_scores(counts@), ord@),
            out.len() == k,
            forall|m: int|
                0 <= m < k ==> out@[m].0@ == counts@[ord@[m] as int].0@ && out@[m].1
                    == counts@[ord@[m] as int].1,
        decreases ord.len() - k,
    {
        proof {
            assert(ord@[k as int] < count_scores(counts@).len());
        }
        let e = &counts[ord[k]];
        out.push((e.0.clone(), e.1));
        k = k + 1;
    }
    proof {
        assert(is_ranking(count_scores(counts@), ord@));
    }
    out
}

} // verus!
