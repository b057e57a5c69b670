use riptv::config::{Config, ConfigError};

#[test]
fn default_configuration() {
    let c = Config::default();
    assert_eq!(c.player_command, "mpv");
    assert_eq!(c.player_args.as_ref().unwrap().len(), 9);
    assert_eq!(c.player_args.as_ref().unwrap()[0], "--cache=yes");
    assert!(c.parallel_processing);
    assert_eq!(c.max_search_results, 100);
    assert_eq!(c.ui.page_size, 20);
    assert_eq!(c.ui.key_bindings.len(), 7);
    assert_eq!(c.ui.key_bindings[0], ("quit".to_string(), "q,esc".to_string()));
    assert_eq!(c.network.timeout, 30);
    assert_eq!(c.network.user_agent, "RIPTV/1.0 (Rust IPTV Player)");
    assert!(c.recent_channels.is_empty());
    assert_eq!(c.validate(), Ok(()));
    assert_eq!(Config::reset_to_default().player_command, "mpv");
}

#[test]
fn validate_reports_each_error() {
    let mut c = Config::default();
    c.max_search_results = 0;
    assert_eq!(c.validate(), Err(ConfigError::ZeroMaxSearchResults));
    c.ui.page_size = 0;
    assert_eq!(c.validate(), Err(ConfigError::ZeroPageSize));
    c.network.timeout = 0;
    assert_eq!(c.validate(), Err(ConfigError::ZeroTimeout));
    c.player_command = String::new();
    assert_eq!(c.validate(), Err(ConfigError::EmptyPlayerCommand));
    let mut d = Config::default();
    d.network.retry_attempts = 0;
    assert_eq!(d.validate(), Ok(()));
    assert_eq!(
        ConfigError::ZeroTimeout.message(),
        "Network timeout must be greater than 0"
    );
}

#[test]
fn recent_channels_move_to_the_front_and_are_capped() {
    let mut c = Config::default();
    c.add_recent_channel("A".to_string());
    c.add_recent_channel("B".to_string());
    c.add_recent_channel("A".to_string());
    assert_eq!(c.recent_channels, vec!["A".to_string(), "B".to_string()]);
    for i in 0..30 {
        c.add_recent_channel(format!("C{}", i));
    }
    assert_eq!(c.recent_channels.len(), 20);
    assert_eq!(c.recent_channels[0], "C29");
    assert_eq!(c.recent_channels[19], "C10");
}

#[test]
fn favorites_are_kept_once() {
    let mut c = Config::default();
    c.add_favorite_channel("A".to_string());
    c.add_favorite_channel("B".to_string());
    c.add_favorite_channel("A".to_string());
    assert_eq!(c.favorite_channels, vec!["A".to_string(), "B".to_string()]);
    assert!(c.is_favorite("B"));
    c.remove_favorite_channel("A");
    assert!(!c.is_favorite("A"));
    assert_eq!(c.favorite_channels, vec!["B".to_string()]);
    c.remove_favorite_channel("missing");
    assert_eq!(c.favorite_channels.len(), 1);
}

#[test]
fn player_command_lists_program_then_arguments() {
    let mut c = Config::default();
    let cmd = c.get_player_command();
    assert_eq!(cmd.len(), 10);
    assert_eq!(cmd[0], "mpv");
    assert_eq!(cmd[9], "--profile=fast");
    c.player_args = None;
    assert_eq!(c.get_player_command(), vec!["mpv".to_string()]);
}

#[test]
fn config_file_location_ends_with_the_file_name() {
    match Config::config_file_location() {
        Ok(path) => {
            assert!(path.ends_with("config.json"));
            assert!(path.contains("riptv"));
        }
        Err(e) => assert_eq!(e, ConfigError::NoConfigDirectory),
    }
}
