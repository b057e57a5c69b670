use riptv::channel::Channel;
use riptv::extinf::{extract_attribute, parse_extinf_metadata};
use riptv::playlist::{parse_parallel, parse_sequential, PlaylistParser, SequentialScan};
use riptv::search::{match_score, rank_matches};

fn loaded(text: &str) -> PlaylistParser {
    let mut p = PlaylistParser::new(false);
    p.parse_content(text);
    p
}

fn named(name: &str, url: &str, group: Option<&str>) -> Channel {
    Channel::with_metadata(
        name.to_string(),
        url.to_string(),
        group.map(|g| g.to_string()),
        None,
        None,
        None,
        None,
    )
}

#[test]
fn metadata_line_pairs_with_the_stream_line_after_it() {
    let text = "#EXTINF:-1 tvg-name=\"Foo\" group-title=\"News\",Foo HD\nhttp://x/y\n";
    let channels = parse_parallel(text);
    assert_eq!(channels.len(), 1);
    assert_eq!(channels[0].name, "Foo");
    assert_eq!(channels[0].url, "http://x/y");
    assert_eq!(channels[0].group, Some("News".to_string()));
    assert_eq!(channels[0].logo, None);
}

#[test]
fn attributes_are_read_in_any_order() {
    let text = "#EXTINF:-1 group-title=\"News\" tvg-name=\"Foo\",Foo HD\nhttp://x/y\n";
    let channels = parse_sequential(text);
    assert_eq!(channels.len(), 1);
    assert_eq!(channels[0].name, "Foo");
    assert_eq!(channels[0].group, Some("News".to_string()));
    assert_eq!(channels, parse_parallel(text));
}

#[test]
fn stream_line_before_a_metadata_line_is_not_paired() {
    let text = "http://x/y\n#EXTINF:-1 tvg-name=\"Foo\",Foo HD\n";
    assert!(parse_parallel(text).is_empty());
    assert!(parse_sequential(text).is_empty());
}

#[test]
fn bad_pair_between_good_ones_is_skipped() {
    let text = "#EXTINF:-1,A\nhttp://a\n#EXTINF:-1,Bad\nnot-a-url\n#EXTINF:-1,B\nhttp://b\n";
    let expected = vec![
        Channel::new("A".to_string(), "http://a".to_string()),
        Channel::new("B".to_string(), "http://b".to_string()),
    ];
    assert_eq!(parse_sequential(text), expected);
    assert_eq!(parse_parallel(text), expected);
}

#[test]
fn malformed_pair_is_skipped() {
    let text = "#EXTINF:-1,Bad Entry\nnot-a-url\n";
    assert!(parse_parallel(text).is_empty());
    assert!(parse_sequential(text).is_empty());
    let p = loaded(text);
    assert!(p.get_channels().is_empty());
}

#[test]
fn label_without_attributes_is_the_text_after_the_first_comma() {
    let text = "#EXTINF:-1,Simple Channel\nhttp://a/b\n";
    let channels = parse_parallel(text);
    assert_eq!(channels.len(), 1);
    assert_eq!(channels[0].name, "Simple Channel");
    assert_eq!(channels[0].url, "http://a/b");
    assert_eq!(channels[0].group, None);

    let commas = parse_parallel("#EXTINF:-1,One, Two\nhttp://a/b\n");
    assert_eq!(commas[0].name, "One, Two");
}

#[test]
fn label_with_attributes_is_the_text_after_the_last_comma() {
    let text = "#EXTINF:-1 group-title=\"A,B\" tvg-logo=\"l.png\",Some, Name \nhttp://a/b\n";
    let channels = parse_parallel(text);
    assert_eq!(channels.len(), 1);
    assert_eq!(channels[0].name, "Name");
    assert_eq!(channels[0].group, Some("A,B".to_string()));
    assert_eq!(channels[0].logo, Some("l.png".to_string()));
}

#[test]
fn empty_tvg_name_falls_back_to_the_label() {
    let text = "#EXTINF:-1 tvg-name=\"\" tvg-id=\"x.1\",Label\nhttp://a\n";
    let channels = parse_parallel(text);
    assert_eq!(channels[0].name, "Label");
    assert_eq!(channels[0].tvg_id, Some("x.1".to_string()));
}

#[test]
fn line_without_comma_gets_the_placeholder_name() {
    let channels = parse_parallel("#EXTINF:-1\nhttp://a\n");
    assert_eq!(channels.len(), 1);
    assert_eq!(channels[0].name, "Unknown Channel");
}

#[test]
fn all_attributes_are_read() {
    let text = "#EXTINF:-1 tvg-id=\"id1\" tvg-name=\"N\" tvg-logo=\"L\" group-title=\"G\" \
        tvg-language=\"English\" tvg-country=\"US\",Label\nhttp://s/1  \n";
    let c = &parse_parallel(text)[0];
    assert_eq!(c.name, "N");
    assert_eq!(c.url, "http://s/1");
    assert_eq!(c.group, Some("G".to_string()));
    assert_eq!(c.logo, Some("L".to_string()));
    assert_eq!(c.language, Some("English".to_string()));
    assert_eq!(c.country, Some("US".to_string()));
    assert_eq!(c.tvg_id, Some("id1".to_string()));
}

#[test]
fn crlf_line_endings_are_handled() {
    let text = "#EXTM3U\r\n#EXTINF:-1,One\r\nhttp://a/1\r\n#EXTINF:-1,Two\r\nhttp://a/2\r\n";
    let channels = parse_parallel(text);
    assert_eq!(channels.len(), 2);
    assert_eq!(channels[0].name, "One");
    assert_eq!(channels[0].url, "http://a/1");
    assert_eq!(channels[1].name, "Two");
    assert_eq!(channels[1].url, "http://a/2");
}

#[test]
fn last_line_never_opens_an_entry() {
    assert!(parse_parallel("http://a\n#EXTINF:-1,Bottom\n").is_empty());
    assert_eq!(parse_parallel("#EXTINF:-1,Top\nhttp://a").len(), 1);
    assert!(parse_parallel("").is_empty());
    assert!(parse_parallel("\n\n").is_empty());
}

fn big_playlist() -> String {
    let mut text = String::from("#EXTM3U\n");
    for i in 0..2500 {
        if i % 7 == 0 {
            text.push_str("# comment\n");
        }
        text.push_str(&format!(
            "#EXTINF:-1 group-title=\"G{}\",Channel {}\n",
            i % 5,
            i
        ));
        text.push_str(&format!("http://host/{}\n", i));
    }
    text
}

#[test]
fn sequential_and_parallel_strategies_agree() {
    let text = big_playlist();
    let a = parse_sequential(&text);
    let b = parse_parallel(&text);
    assert_eq!(a.len(), 2500);
    assert_eq!(a, b);
    for text in ["", "x", "#EXTINF:1,A\nhttp://a\n#EXTINF:1,B\n#EXTINF:2,C\nhttp://b\n#EXTINF:3,D"] {
        assert_eq!(parse_sequential(text), parse_parallel(text));
    }
    let mut p = PlaylistParser::new(true);
    p.parse_content(&text);
    assert_eq!(p.get_channels(), &a[..]);
}

#[test]
fn sequential_scan_reports_progress() {
    let text = big_playlist();
    let mut scan = SequentialScan::new(&text);
    let mut reports = Vec::new();
    while !scan.is_done() {
        reports.push(scan.step(1000));
    }
    let total = reports[0].total_lines;
    assert_eq!(reports[0].lines_scanned, 1000);
    assert_eq!(reports.last().unwrap().lines_scanned, total);
    assert_eq!(reports.last().unwrap().channels_found, 2500);
    assert!(reports.windows(2).all(|w| w[0].channels_found <= w[1].channels_found));
    assert_eq!(scan.into_channels(), parse_parallel(&text));
}

#[test]
fn group_index_keeps_sequence_order() {
    let mut p = PlaylistParser::new(false);
    p.install(vec![
        named("A", "http://1", Some("Sports")),
        named("B", "http://2", Some("News")),
        named("C", "http://3", Some("Sports")),
        named("D", "http://4", None),
        named("E", "http://5", Some("Sports")),
    ]);
    let sports = p.get_channels_by_group("Sports");
    let names: Vec<&str> = sports.iter().map(|c| c.name.as_str()).collect();
    assert_eq!(names, vec!["A", "C", "E"]);
    assert_eq!(p.get_channels_by_group("News").len(), 1);
    assert!(p.get_channels_by_group("Movies").is_empty());
    for c in p.get_channels() {
        assert_eq!(p.get_channel_by_name(&c.name).unwrap().name, c.name);
    }
}

#[test]
fn later_duplicate_name_wins() {
    let mut channels = Vec::new();
    for i in 0..9 {
        let name = if i == 2 || i == 7 { "X".to_string() } else { format!("C{}", i) };
        channels.push(named(&name, &format!("http://{}", i), None));
    }
    let mut p = PlaylistParser::new(false);
    p.install(channels);
    assert_eq!(p.get_channel_by_name("X").unwrap().url, "http://7");
    assert_eq!(p.get_channels()[2].url, "http://2");
    assert_eq!(p.get_channels()[7].url, "http://7");
    assert_eq!(p.get_channels().len(), 9);
    assert!(p.get_channel_by_name("missing").is_none());
}

#[test]
fn loading_replaces_the_previous_playlist() {
    let mut p = loaded("#EXTINF:-1 group-title=\"G\",A\nhttp://a\n");
    assert_eq!(p.get_channels().len(), 1);
    p.parse_content("#EXTINF:-1,B\nhttp://b\n");
    assert_eq!(p.get_channels().len(), 1);
    assert!(p.get_channel_by_name("A").is_none());
    assert!(p.get_channels_by_group("G").is_empty());
    assert_eq!(p.get_channel_by_name("B").unwrap().url, "http://b");
}

#[test]
fn query_without_matches_gives_nothing() {
    let p = loaded("#EXTINF:-1,Alpha\nhttp://a\n#EXTINF:-1,Beta\nhttp://b\n");
    assert!(p.search_channels("zzzqqq").is_empty());
    assert!(p.search_positions("zzzqqq").is_empty());
    let empty = PlaylistParser::new(false);
    assert!(empty.search_channels("a").is_empty());
}

#[test]
fn search_ranks_better_matches_first() {
    let p = loaded(
        "#EXTINF:-1,Sky Sports News\nhttp://1\n#EXTINF:-1,BBC One\nhttp://2\n\
         #EXTINF:-1,BBC News\nhttp://3\n#EXTINF:-1,News\nhttp://4\n",
    );
    let results = p.search_channels("news");
    let names: Vec<&str> = results.iter().map(|c| c.name.as_str()).collect();
    assert_eq!(names.len(), 3);
    assert!(!names.contains(&"BBC One"));
    let scores: Vec<i64> = results
        .iter()
        .map(|c| match_score(&c.name, "news").unwrap())
        .collect();
    let position = |n: &str| p.get_channels().iter().position(|c| c.name == n).unwrap();
    for k in 1..results.len() {
        assert!(
            scores[k - 1] > scores[k]
                || (scores[k - 1] == scores[k] && position(names[k - 1]) < position(names[k]))
        );
    }
}

#[test]
fn empty_query_keeps_sequence_order() {
    let p = loaded("#EXTINF:-1,B\nhttp://1\n#EXTINF:-1,A\nhttp://2\n");
    assert_eq!(match_score("anything", ""), Some(0));
    assert_eq!(p.search_positions(""), vec![0, 1]);
}

#[test]
fn ranking_orders_by_score_then_position() {
    let scores = vec![Some(5), None, Some(9), Some(5), Some(-3), None, Some(9)];
    assert_eq!(rank_matches(&scores), vec![2, 6, 0, 3, 4]);
    assert!(rank_matches(&vec![None, None]).is_empty());
    assert_eq!(rank_matches(&vec![Some(i64::MIN), Some(i64::MAX)]), vec![1, 0]);
}

#[test]
fn statistics_count_groups_countries_and_languages() {
    let mut p = PlaylistParser::new(false);
    let mut a = named("A", "http://1", Some("Sports"));
    a.country = Some("US".to_string());
    a.language = Some("English".to_string());
    let mut b = named("B", "http://2", Some("News"));
    b.country = Some("UK".to_string());
    b.language = Some("English".to_string());
    let mut c = named("C", "http://3", Some("Sports"));
    c.country = Some("US".to_string());
    let d = named("D", "http://4", None);
    p.install(vec![a, b, c, d]);
    let s = p.get_statistics();
    assert_eq!(s.total_channels, 4);
    assert_eq!(s.total_groups, 2);
    assert_eq!(
        s.channels_per_group,
        vec![("Sports".to_string(), 2), ("News".to_string(), 1)]
    );
    assert_eq!(s.countries, vec![("US".to_string(), 2), ("UK".to_string(), 1)]);
    assert_eq!(s.languages, vec![("English".to_string(), 2)]);
    assert_eq!(p.get_statistics(), s);
}

#[test]
fn statistics_of_an_empty_playlist() {
    let p = PlaylistParser::new(true);
    let s = p.get_statistics();
    assert_eq!(s.total_channels, 0);
    assert_eq!(s.total_groups, 0);
    assert!(s.channels_per_group.is_empty());
    assert_eq!(p.get_statistics(), s);
}

#[test]
fn extract_attribute_takes_the_first_complete_value() {
    let line = "#EXTINF:-1 tvg-name=\"One\" tvg-name=\"Two\",x";
    assert_eq!(extract_attribute(line, "tvg-name"), Some("One".to_string()));
    assert_eq!(extract_attribute(line, "tvg-logo"), None);
    assert_eq!(extract_attribute("a tvg-id=\"\" b", "tvg-id"), Some(String::new()));
    assert_eq!(extract_attribute("tvg-id=\"open", "tvg-id"), None);
    assert_eq!(extract_attribute("tvg-id=\"ü ñ\"", "tvg-id"), Some("ü ñ".to_string()));
}

#[test]
fn extinf_metadata_names_lines_as_entries_are_named() {
    let m = parse_extinf_metadata("#EXTINF:-1 group-title=\"G\",First, Second ");
    assert_eq!(m.channel_name, "Second");
    assert_eq!(m.group_title, Some("G".to_string()));
    let q = parse_extinf_metadata("#EXTINF:-1 group-title=\"A,B\",Name");
    assert_eq!(q.channel_name, "Name");
    assert_eq!(q.group_title, Some("A,B".to_string()));
    let plain = parse_extinf_metadata("#EXTINF:-1,One, Two");
    assert_eq!(plain.channel_name, "One, Two");
    assert_eq!(m.tvg_name, None);
    let n = parse_extinf_metadata("#EXTINF:-1 tvg-name=\"Pref\",Label");
    assert_eq!(n.channel_name, "Pref");
    assert_eq!(n.tvg_name, Some("Pref".to_string()));
    let none = parse_extinf_metadata("#EXTINF:-1 tvg-name=\"Pref\"");
    assert_eq!(none.channel_name, "");
    assert_eq!(none.tvg_name, None);
}

#[test]
fn display_name_puts_the_group_first() {
    let c = named("Foo", "http://x", Some("News"));
    assert_eq!(c.display_name(), "[News] Foo");
    let d = Channel::new("Bar".to_string(), "http://y".to_string());
    assert_eq!(d.display_name(), "Bar");
    assert_eq!(d.group, None);
    assert_eq!(c.duplicate(), c);
}
