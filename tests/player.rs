use riptv::channel::Channel;
use riptv::config::Config;
use riptv::player::{top_counts, IptvPlayer, SessionAction, SessionEvent};
use riptv::ui::ChannelSelector;

fn channel(name: &str, url: &str, group: Option<&str>) -> Channel {
    Channel::with_metadata(
        name.to_string(),
        url.to_string(),
        group.map(|g| g.to_string()),
        None,
        None,
        None,
        None,
    )
}

#[test]
fn new_player_is_empty() {
    let p = IptvPlayer::new("vlc".to_string(), Config::default(), true);
    assert!(!p.has_channels());
    assert!(p.get_history().is_empty());
    assert!(p.get_favorites().is_empty());
    assert_eq!(p.player_command(), "vlc");
    assert!(p.parser().uses_parallel());
}

#[test]
fn loading_text_fills_the_player() {
    let mut p = IptvPlayer::new("mpv".to_string(), Config::default(), false);
    p.load_playlist_text("#EXTM3U\n#EXTINF:-1,A\nhttp://a\n");
    assert!(p.has_channels());
    assert_eq!(p.parser().get_channels()[0].name, "A");
    p.install_channels(Vec::new());
    assert!(!p.has_channels());
}

#[test]
fn favorites_are_added_once_and_removed() {
    let mut p = IptvPlayer::new("mpv".to_string(), Config::default(), false);
    p.add_favorite("A");
    p.add_favorite("A");
    p.add_favorite("B");
    assert_eq!(p.get_favorites(), &["A".to_string(), "B".to_string()][..]);
    p.remove_favorite("A");
    assert_eq!(p.get_favorites(), &["B".to_string()][..]);
}

#[test]
fn playback_arguments_follow_the_address() {
    let mut config = Config::default();
    config.player_args = Some(vec!["--volume=50".to_string()]);
    let p = IptvPlayer::new("mpv".to_string(), config, false);
    let args = p.playback_args(&channel("A", "http://a/b", None));
    assert_eq!(args.len(), 16);
    assert_eq!(args[0], "http://a/b");
    assert_eq!(args[1], "--cache=yes");
    assert_eq!(args[14], "--demuxer-thread=yes");
    assert_eq!(args[15], "--volume=50");
}

#[test]
fn session_plays_a_selection_and_records_it() {
    let mut config = Config::default();
    config.player_args = None;
    let mut p = IptvPlayer::new("mpv".to_string(), config, false);
    match p.on_event(SessionEvent::Selected(channel("A", "http://a", None))) {
        SessionAction::Play { program, args } => {
            assert_eq!(program, "mpv");
            assert_eq!(args[0], "http://a");
            assert_eq!(args.len(), 15);
        }
        SessionAction::Exit => panic!("a selection is played"),
    }
    p.on_event(SessionEvent::Selected(channel("B", "http://b", None)));
    p.on_event(SessionEvent::Selected(channel("A", "http://a", None)));
    assert_eq!(p.get_history(), &["A".to_string(), "B".to_string()][..]);
    assert!(matches!(p.on_event(SessionEvent::Cancelled), SessionAction::Exit));
    assert!(matches!(p.on_event(SessionEvent::ShutdownRequested), SessionAction::Exit));
    assert_eq!(p.get_history().len(), 2);
}

#[test]
fn history_keeps_fifty_names() {
    let mut p = IptvPlayer::new("mpv".to_string(), Config::default(), false);
    for i in 0..60 {
        p.on_event(SessionEvent::Selected(channel(&format!("C{}", i), "http://x", None)));
    }
    assert_eq!(p.get_history().len(), 50);
    assert_eq!(p.get_history()[0], "C59");
    assert_eq!(p.get_history()[49], "C10");
}

#[test]
fn top_counts_orders_by_count() {
    let counts = vec![
        ("a".to_string(), 1),
        ("b".to_string(), 5),
        ("c".to_string(), 3),
        ("d".to_string(), 5),
    ];
    assert_eq!(
        top_counts(&counts, 3),
        vec![("b".to_string(), 5), ("d".to_string(), 5), ("c".to_string(), 3)]
    );
    assert_eq!(top_counts(&counts, 10).len(), 4);
    assert!(top_counts(&counts, 0).is_empty());
}

#[test]
fn selector_shows_group_and_name() {
    let config = Config::default();
    let s = ChannelSelector::new(
        vec![channel("A", "http://a", Some("News")), channel("B", "http://b", None)],
        &config,
    );
    assert_eq!(s.entries().len(), 2);
    assert_eq!(s.entries()[0].text(), "[News] A");
    assert_eq!(s.selection_input(), "[News] A\nB");
    assert_eq!(s.find_selected("B").unwrap().url, "http://b");
    assert!(s.find_selected("A").is_none());
    let empty = ChannelSelector::new(Vec::new(), &config);
    assert_eq!(empty.selection_input(), "");
}
