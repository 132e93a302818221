use hemlib::model::FeedEntry;
use hemlib::select::select_since;
use hemlib::select::select_top;

fn entry(title: &str, link: &str, updated: Option<i64>, published: Option<i64>) -> FeedEntry {
    FeedEntry { title: title.to_string(), link: link.to_string(), updated, published }
}

fn line(title: &str, link: &str) -> String {
    format!("\u{1b}[3m{}\u{1b}[0m \n\t  {}\n", title, link)
}

#[test]
fn top_two_of_five_ignores_dates() {
    let entries = vec![
        entry("a", "http://e/a", None, None),
        entry("b", "http://e/b", Some(10), None),
        entry("c", "http://e/c", None, Some(999)),
        entry("d", "http://e/d", Some(5), Some(7)),
        entry("e", "http://e/e", None, None),
    ];
    let items = select_top(&entries, 2);
    assert_eq!(items, vec![line("a", "http://e/a"), line("b", "http://e/b")]);
}

#[test]
fn top_zero_selects_nothing() {
    let entries = vec![entry("a", "http://e/a", Some(1), None)];
    let items = select_top(&entries, 0);
    assert!(items.is_empty());
}

#[test]
fn top_beyond_length_selects_everything() {
    let entries = vec![
        entry("a", "http://e/a", None, None),
        entry("b", "http://e/b", None, None),
    ];
    let items = select_top(&entries, 10);
    assert_eq!(items.len(), 2);
    assert_eq!(items[1], line("b", "http://e/b"));
}

#[test]
fn since_selects_strict_prefix_of_newer_entries() {
    // Dated t-10, t-20, t-30 around a reference of t-25: the first two
    // qualify, and the scan stops before the third.
    let t: i64 = 1_000_000;
    let entries = vec![
        entry("newest", "http://e/1", Some(t - 10), None),
        entry("middle", "http://e/2", Some(t - 20), None),
        entry("oldest", "http://e/3", Some(t - 30), None),
    ];
    let items = select_since(&entries, t - 25);
    assert_eq!(items, vec![line("newest", "http://e/1"), line("middle", "http://e/2")]);
}

#[test]
fn since_boundary_is_strict() {
    let entries = vec![entry("same", "http://e/1", Some(100), None)];
    let items = select_since(&entries, 100);
    assert_eq!(items, vec![String::from("Nothing new here...")]);
}

#[test]
fn since_nothing_new_sentinel_exactly() {
    let entries = vec![
        entry("old", "http://e/1", Some(50), None),
        entry("older", "http://e/2", Some(40), None),
    ];
    let items = select_since(&entries, 100);
    assert_eq!(items, vec![String::from("Nothing new here...")]);
}

#[test]
fn since_empty_document_gives_sentinel() {
    let entries: Vec<FeedEntry> = Vec::new();
    let items = select_since(&entries, 0);
    assert_eq!(items, vec![String::from("Nothing new here...")]);
}

#[test]
fn since_caps_at_five_items() {
    let mut entries = Vec::new();
    for k in 0..7 {
        entries.push(entry(&format!("e{}", k), "http://e", Some(1000 - k), None));
    }
    let items = select_since(&entries, 0);
    assert_eq!(items.len(), 5);
    assert_eq!(items[0], line("e0", "http://e"));
    assert_eq!(items[4], line("e4", "http://e"));
}

#[test]
fn since_skips_undated_entries_silently() {
    let entries = vec![
        entry("new", "http://e/1", Some(300), None),
        entry("undated", "http://e/2", None, None),
        entry("also-new", "http://e/3", Some(250), None),
        entry("stale", "http://e/4", Some(100), None),
    ];
    let items = select_since(&entries, 200);
    assert_eq!(items, vec![line("new", "http://e/1"), line("also-new", "http://e/3")]);
}

#[test]
fn since_falls_back_to_published_date() {
    let entries = vec![entry("pub-only", "http://e/1", None, Some(300))];
    let items = select_since(&entries, 200);
    assert_eq!(items, vec![line("pub-only", "http://e/1")]);
}

#[test]
fn since_prefers_updated_over_published() {
    // updated is stale even though published is newer: the entry is not
    // selected, because updated wins.
    let entries = vec![entry("e", "http://e/1", Some(100), Some(300))];
    let items = select_since(&entries, 200);
    assert_eq!(items, vec![String::from("Nothing new here...")]);
}

#[test]
fn since_stops_at_first_stale_even_if_newer_follow() {
    // The prefix-stop rule on an unsorted feed: the newer entry behind a
    // stale one is never reached.
    let entries = vec![
        entry("stale", "http://e/1", Some(100), None),
        entry("new-but-hidden", "http://e/2", Some(900), None),
    ];
    let items = select_since(&entries, 200);
    assert_eq!(items, vec![String::from("Nothing new here...")]);
}
