//! User settings: player, parsing and display preferences, favourites and recent channels.
use vstd::prelude::*;
use vstd::string::StringExecFns;
use crate::lists::{
    contains_name, most_recent_first, put_first, remove_name, strings_view, without,
};

verus! {

/// Most channels kept in the recent list.
pub const MAX_RECENT_CHANNELS: usize = 20;

#[derive(Clone, Debug)]
pub struct Config {
    /// Playlist opened when none is named.
    pub default_playlist: Option<String>,
    /// Media player program.
    pub player_command: String,
    /// Extra arguments for the media player.
    pub player_args: Option<Vec<String>>,
    /// Load playlists with the parallel strategy.
    pub parallel_processing: bool,
    /// Most search results shown.
    pub max_search_results: usize,
    /// Match search queries fuzzily.
    pub fuzzy_search: bool,
    pub ui: UiConfig,
    pub network: NetworkConfig,
    /// Recently played channels, most recent first.
    pub recent_channels: Vec<String>,
    /// Favourite channels, in the order they were added.
    pub favorite_channels: Vec<String>,
}

#[derive(Clone, Debug)]
pub struct UiConfig {
    pub color_scheme: String,
    pub show_preview: bool,
    /// Preview window size, as a percentage.
    pub preview_size: String,
    /// Channels shown per page.
    pub page_size: usize,
    pub show_groups: bool,
    /// Action name and key list; each action appears once.
    pub key_bindings: Vec<(String, String)>,
}

#[derive(Clone, Debug)]
pub struct NetworkConfig {
    /// Connection timeout in seconds.
    pub timeout: u64,
    pub retry_attempts: u32,
    pub user_agent: String,
    pub follow_redirects: bool,
    pub max_redirects: u32,
}

/// Why a configuration is refused.
#[derive(Clone, Copy, Debug, PartialEq, Eq)]
pub enum ConfigError {
    EmptyPlayerCommand,
    ZeroTimeout,
    ZeroPageSize,
    ZeroMaxSearchResults,
    NoConfigDirectory,
}

impl ConfigError {
    /// A sentence describing the error.
    pub fn message(&self) -> String {
        match self {
            ConfigError::EmptyPlayerCommand => String::from_str("Player command cannot be empty"),
            ConfigError::ZeroTimeout => String::from_str("Network timeout must be greater than 0"),
            ConfigError::ZeroPageSize => String::from_str("Page size must be greater than 0"),
            ConfigError::ZeroMaxSearchResults => String::from_str(
                "Max search results must be greater than 0",
            ),
            ConfigError::NoConfigDirectory => String::from_str(
                "Unable to determine config directory",
            ),
        }
    }
}

pub open spec fn default_player_args() -> Seq<Seq<char>> {
    seq![
        "--cache=yes"@,
        "--demuxer-max-bytes=100M"@,
        "--demuxer-readahead-secs=30"@,
        "--force-window=immediate"@,
        "--no-terminal"@,
        "--quiet"@,
        "--hwdec=auto-safe"@,
        "--vo=gpu"@,
        "--profile=fast"@,
    ]
}

pub open spec fn bindings_view(v: Seq<(String, String)>) -> Seq<(Seq<char>, Seq<char>)> {
    v.map_values(|e: (String, String)| (e.0@, e.1@))
}

pub open spec fn default_key_bindings() -> Seq<(Seq<char>, Seq<char>)> {
    seq![
        ("quit"@, "q,esc"@),
        ("select"@, "enter"@),
        ("preview"@, "tab"@),
        ("up"@, "up,ctrl-k"@),
        ("down"@, "down,ctrl-j"@),
        ("page_up"@, "page-up,ctrl-b"@),
        ("page_down"@, "page-down,ctrl-f"@),
    ]
}

/// The settings a fresh installation starts with.
pub open spec fn is_default_config(c: Config) -> bool {
    &&& c.default_playlist is None
    &&& c.player_command@ == "mpv"@
    &&& c.player_args is Some && strings_view(c.player_args->0@) == default_player_args()
    &&& c.parallel_processing
    &&& c.max_search_results == 100
    &&& c.fuzzy_search
    &&& c.ui.color_scheme@ == "dark"@
    &&& c.ui.show_preview
    &&& c.ui.preview_size@ == "50%"@
    &&& c.ui.page_size == 20
    &&& c.ui.show_groups
    &&& bindings_view(c.ui.key_bindings@) == default_key_bindings()
    &&& c.network.timeout == 30
    &&& c.network.retry_attempts == 3
    &&& c.network.user_agent@ == "RIPTV/1.0 (Rust IPTV Player)"@
    &&& c.network.follow_redirects
    &&& c.network.max_redirects == 5
    &&& c.recent_channels@.len() == 0
    &&& c.favorite_channels@.len() == 0
}

/// `a` and `b` agree on every setting other than the recent and favourite channel lists.
pub open spec fn same_settings(a: Config, b: Config) -> bool {
    &&& a.default_playlist == b.default_playlist
    &&& a.player_command == b.player_command
    &&& a.player_args == b.player_args
    &&& a.parallel_processing == b.parallel_processing
    &&& a.max_search_results == b.max_search_results
    &&& a.fuzzy_search == b.fuzzy_search
    &&& a.ui == b.ui
    &&& a.network == b.network
}

/// The error `validate` reports for `c`, if any: checks in a fixed order.
pub open spec fn validation(c: Config) -> Result<(), ConfigError> {
    if c.player_command@.len() == 0 {
        Err(ConfigError::EmptyPlayerCommand)
    } else if c.network.timeout == 0 {
        Err(ConfigError::ZeroTimeout)
    } else if c.ui.page_size == 0 {
        Err(ConfigError::ZeroPageSize)
    } else if c.max_search_results == 0 {
        Err(ConfigError::ZeroMaxSearchResults)
    } else {
        Ok(())
    }
}

fn binding(action: &str, keys: &str) -> (r: (String, String))
    ensures
        r.0@ == action@,
        r.1@ == keys@,
{
    (String::from_str(action), String::from_str(keys))
}

/// Relies on `dirs::config_dir`: the user's configuration directory, when the platform
/// defines one, written out as text.
#[verifier::external_body]
fn user_config_dir() -> (r: Option<String>) {
    dirs::config_dir().map(|p| p.display().to_string())
}

/// A path component that `Path::join` appends as it stands: non-empty, no separator, no
/// drive mark, not `.` or `..`.
pub open spec fn plain_component(part: Seq<char>) -> bool {
    &&& part.len() > 0
    &&& forall|i: int| 0 <= i < part.len() ==> #[trigger] part[i] != '/' && part[i] != '\\' && part[i] != ':'
    &&& part != "."@
    &&& part != ".."@
}

pub open spec fn ends_with(s: Seq<char>, p: Seq<char>) -> bool {
    p.len() <= s.len() && s.subrange(s.len() - p.len(), s.len() as int) == p
}

/// Relies on `Path::join`: a relative component is appended to the path `base`, so the
/// result ends with it.
#[verifier::external_body]
fn join_path(base: &str, part: &str) -> (r: String)
    requires
        plain_component(part@),
    ensures
        ends_with(r@, part@),
{
    std::path::Path::new(base).join(part).display().to_string()
}

/// The configuration file under the configuration directory `dir`: `dir`, then `riptv`,
/// then `config.json`, joined as paths.
pub fn config_file_in(dir: &str) -> (r: String)
    ensures
        ends_with(r@, "config.json"@),
{
    proof {
        reveal_strlit("riptv");
        reveal_strlit("config.json");
        reveal_strlit(".");
        reveal_strlit("..");
        assert("riptv"@ != "."@ && "riptv"@ != ".."@ && "config.json"@ != "."@ && "config.json"@
            != ".."@) by {
            assert("riptv"@.len() != "."@.len() && "riptv"@.len() != ".."@.len());
            assert("config.json"@.len() != "."@.len() && "config.json"@.len() != ".."@.len());
        }
    }
    let app_dir = join_path(dir, "riptv");
    join_path(app_dir.as_str(), "config.json")
}

impl Default for Config {
    fn default() -> (r: Config)
        ensures
            is_default_config(r),
    {
        let mut key_bindings: Vec<(String, String)> = Vec::new();
        key_bindings.push(binding("quit", "q,esc"));
        key_bindings.push(binding("select", "enter"));
        key_bindings.push(binding("preview", "tab"));
        key_bindings.push(binding("up", "up,ctrl-k"));
        key_bindings.push(binding("down", "down,ctrl-j"));
        key_bindings.push(binding("page_up", "page-up,ctrl-b"));
        key_bindings.push(binding("page_down", "page-down,ctrl-f"));
        let mut args: Vec<String> = Vec::new();
        args.push(String::from_str("--cache=yes"));
        args.push(String::from_str("--demuxer-max-bytes=100M"));
        args.push(String::from_str("--demuxer-readahead-secs=30"));
        args.push(String::from_str("--force-window=immediate"));
        args.push(String::from_str("--no-terminal"));
        args.push(String::from_str("--quiet"));
        args.push(String::from_str("--hwdec=auto-safe"));
        args.push(String::from_str("--vo=gpu"));
        args.push(String::from_str("--profile=fast"));
        proof {
            assert(strings_view(args@) =~= default_player_args());
            assert(bindings_view(key_bindings@) =~= default_key_bindings());
        }
        Config {
            default_playlist: None,
            player_command: String::from_str("mpv"),
            player_args: Some(args),
            parallel_processing: true,
            max_search_results: 100,
            fuzzy_search: true,
            ui: UiConfig {
                color_scheme: String::from_str("dark"),
                show_preview: true,
                preview_size: String::from_str("50%"),
                page_size: 20,
                show_groups: true,
                key_bindings,
            },
            network: NetworkConfig {
                timeout: 30,
                retry_attempts: 3,
                user_agent: String::from_str("RIPTV/1.0 (Rust IPTV Player)"),
                follow_redirects: true,
                max_redirects: 5,
            },
            recent_channels: Vec::new(),
            favorite_channels: Vec::new(),
        }
    }
}

impl Config {
    /// Puts `channel_name` at the front of the recent list, dropping its earlier entry and
    /// keeping at most `MAX_RECENT_CHANNELS` names.
    pub fn add_recent_channel(&mut self, channel_name: String)
        ensures
            strings_view(final(self).recent_channels@) == most_recent_first(
                strings_view(old(self).recent_channels@),
                channel_name@,
                MAX_RECENT_CHANNELS as int,
            ),
            final(self).favorite_channels@ == old(self).favorite_channels@,
            same_settings(*final(self), *old(self)),
    {
        let updated = put_first(&self.recent_channels, channel_name.as_str(), MAX_RECENT_CHANNELS);
        self.recent_channels = updated;
    }

    /// Adds `channel_name` to the favourites unless it is there already.
    pub fn add_favorite_channel(&mut self, channel_name: String)
        ensures
            strings_view(final(self).favorite_channels@) == if strings_view(
                old(self).favorite_channels@,
            ).contains(channel_name@) {
                strings_view(old(self).favorite_channels@)
            } else {
                strings_view(old(self).favorite_channels@).push(channel_name@)
            },
            final(self).recent_channels@ == old(self).recent_channels@,
            same_settings(*final(self), *old(self)),
    {
        if !contains_name(&self.favorite_channels, channel_name.as_str()) {
            let ghost prev = self.favorite_channels@;
            self.favorite_channels.push(channel_name);
            proof {
                assert(strings_view(self.favorite_channels@) =~= strings_view(prev).push(
                    channel_name@,
                ));
            }
        }
    }

    /// Removes every favourite named `channel_name`.
    pub fn remove_favorite_channel(&mut self, channel_name: &str)
        ensures
            strings_view(final(self).favorite_channels@) == without(
                strings_view(old(self).favorite_channels@),
                channel_name@,
            ),
            final(self).recent_channels@ == old(self).recent_channels@,
            same_settings(*final(self), *old(self)),
    {
        let updated = remove_name(&self.favorite_channels, channel_name);
        self.favorite_channels = updated;
    }

    pub fn is_favorite(&self, channel_name: &str) -> (r: bool)
        ensures
            r == strings_view(self.favorite_channels@).contains(channel_name@),
    {
        contains_name(&self.favorite_channels, channel_name)
    }

    /// Checks the settings that must be positive or non-empty.
    pub fn validate(&self) -> (r: Result<(), ConfigError>)
        ensures
            r == validation(*self),
    {
        if self.player_command.as_str().is_empty() {
            Err(ConfigError::EmptyPlayerCommand)
        } else if self.network.timeout == 0 {
            Err(ConfigError::ZeroTimeout)
        } else if self.ui.page_size == 0 {
            Err(ConfigError::ZeroPageSize)
        } else if self.max_search_results == 0 {
            Err(ConfigError::ZeroMaxSearchResults)
        } else {
            Ok(())
        }
    }

    /// The player program followed by its extra arguments.
    pub fn get_player_command(&self) -> (r: Vec<String>)
        ensures
            strings_view(r@) == seq![self.player_command@] + match self.player_args {
                Some(a) => strings_view(a@),
                None => Seq::<Seq<char>>::empty(),
            },
    {
        let mut cmd: Vec<String> = Vec::new();
        cmd.push(self.player_command.clone());
        match &self.player_args {
            Some(args) => {
                let mut i: usize = 0;
                while i < args.len()
                    invariant
                        i <= args.len(),
                        strings_view(cmd@) == seq![self.player_command@] + strings_view(
                            args@.subrange(0, i as int),
                        ),
                    decreases args.len() - i,
                {
                    let ghost prev = cmd@;
                    cmd.push(args[i].clone());
                    i = i + 1;
                    proof {
                        assert(strings_view(cmd@) =~= strings_view(prev).push(args@[i - 1]@));
                        assert(strings_view(args@.subrange(0, i as int)) =~= strings_view(
                            args@.subrange(0, i - 1),
                        ).push(args@[i - 1]@));
                        assert(strings_view(cmd@) =~= seq![self.player_command@] + strings_view(
                            args@.subrange(0, i as int),
                        ));
                    }
                }
                proof {
                    assert(args@.subrange(0, args.len() as int) =~= args@);
                }
            },
            None => {
                proof {
                    assert(strings_view(cmd@) =~= seq![self.player_command@] + Seq::<
                        Seq<char>,
                    >::empty());
                }
            },
        }
        cmd
    }

    pub fn reset_to_default() -> (r: Config)
        ensures
            is_default_config(r),
    {
        Config::default()
    }

    /// Where the configuration file lives: `riptv/config.json` under the user's
    /// configuration directory, when the platform defines one.
    pub fn config_file_location() -> (r: Result<String, ConfigError>)
        ensures
            match r {
                Ok(path) => ends_with(path@, "config.json"@),
                Err(e) => e == ConfigError::NoConfigDirectory,
            },
    {
        match user_config_dir() {
            Some(dir) => Ok(config_file_in(dir.as_str())),
            None => Err(ConfigError::NoConfigDirectory),
        }
    }
}

} // verus!
