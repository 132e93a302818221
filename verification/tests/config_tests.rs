use hemlib::config::add_feed;
use hemlib::config::get_uris_and_update;
use hemlib::config::remove_selected;
use hemlib::config::uris;
use hemlib::ConfigObj;
use hemlib::Feed;

fn feed(uri: &str, when: &str) -> Feed {
    Feed { uri: uri.to_string(), last_accessed: when.to_string() }
}

fn list(feeds: Vec<Feed>) -> ConfigObj {
    ConfigObj { feeds }
}

#[test]
fn add_feed_appends_with_the_given_time() {
    let mut config = list(vec![feed("http://a", "2024-01-01T00:00:00+00:00")]);
    add_feed(&mut config, "http://b", "2024-06-01T00:00:00+00:00");
    assert_eq!(config.feeds.len(), 2);
    assert_eq!(config.feeds[0].uri, "http://a");
    assert_eq!(config.feeds[1].uri, "http://b");
    assert_eq!(config.feeds[1].last_accessed, "2024-06-01T00:00:00+00:00");
}

#[test]
fn uris_lists_addresses_in_order() {
    let config = list(vec![feed("http://a", "t1"), feed("http://b", "t2")]);
    assert_eq!(uris(&config), vec!["http://a".to_string(), "http://b".to_string()]);
}

#[test]
fn update_snapshots_old_times_and_advances_all_uniformly() {
    let mut config = list(vec![
        feed("http://a", "2024-01-01T00:00:00+00:00"),
        feed("http://b", "2024-02-01T00:00:00+00:00"),
    ]);
    let now = "2024-06-01T00:00:00+00:00";
    let snapshot = get_uris_and_update(&mut config, now);
    // The snapshot keeps the prior times, for the poll to judge against.
    assert_eq!(snapshot.len(), 2);
    assert_eq!(snapshot[0].last_accessed, "2024-01-01T00:00:00+00:00");
    assert_eq!(snapshot[1].last_accessed, "2024-02-01T00:00:00+00:00");
    // Every source is advanced to the poll time, before any outcome is
    // known, so failures advance exactly like successes.
    for f in &config.feeds {
        assert_eq!(f.last_accessed, now);
    }
    assert_eq!(config.feeds[0].uri, "http://a");
    assert_eq!(config.feeds[1].uri, "http://b");
}

#[test]
fn update_advances_times_monotonically() {
    let before = "2024-01-01T00:00:00+00:00";
    let now = "2024-06-01T00:00:00+00:00";
    let mut config = list(vec![feed("http://a", before)]);
    get_uris_and_update(&mut config, now);
    assert!(config.feeds[0].last_accessed.as_str() > before);
}

#[test]
fn remove_selected_takes_out_the_picked_positions() {
    let mut config = list(vec![
        feed("http://a", "t"),
        feed("http://b", "t"),
        feed("http://c", "t"),
        feed("http://d", "t"),
    ]);
    remove_selected(&mut config, &vec![0, 2]);
    let left: Vec<&str> = config.feeds.iter().map(|f| f.uri.as_str()).collect();
    assert_eq!(left, vec!["http://b", "http://d"]);
}

#[test]
fn remove_selected_with_no_picks_changes_nothing() {
    let mut config = list(vec![feed("http://a", "t")]);
    remove_selected(&mut config, &Vec::new());
    assert_eq!(config.feeds.len(), 1);
}
