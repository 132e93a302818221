use hemlib::model::PollError;
use hemlib::model::ProcessedFeed;
use hemlib::Batch;

fn report(title: &str) -> ProcessedFeed {
    ProcessedFeed { title: title.to_string(), items: vec![String::from("x")] }
}

#[test]
fn empty_source_list_is_refused_before_any_fetch() {
    // No coordinator exists for an empty list, so nothing can ever
    // authorize a fetch: the fetch count of such a run stays zero.
    let r = Batch::new(0);
    match r {
        Err(e) => assert_eq!(e, PollError::NoSourcesConfigured),
        Ok(_) => panic!("an empty source list must be refused"),
    }
}

#[test]
fn empty_source_list_message() {
    assert_eq!(
        PollError::NoSourcesConfigured.message(),
        "Your feeds list is empty! use `hem add` to add a feed."
    );
}

#[test]
fn failures_are_isolated_and_successes_collected_in_settle_order() {
    let mut b = Batch::new(4).unwrap();
    for _ in 0..4 {
        assert!(b.can_start());
        b.start();
    }
    b.settle(Ok(report("first")));
    b.settle(Err(PollError::FetchError));
    b.settle(Ok(report("second")));
    b.settle(Err(PollError::ParseError));
    assert!(b.done());
    let titles: Vec<&str> = b.results.iter().map(|r| r.title.as_str()).collect();
    assert_eq!(titles, vec!["first", "second"]);
}

#[test]
fn cap_limits_concurrent_fetches_over_fifty_sources() {
    let total = 50;
    let mut b = Batch::new(total).unwrap();
    let mut max_in_flight = 0;
    let mut observed_starts = 0;
    while !b.done() {
        while b.can_start() {
            b.start();
            observed_starts += 1;
            let in_flight = b.started - b.settled;
            assert!(in_flight <= 20, "more than 20 fetches were active at once");
            if in_flight > max_in_flight {
                max_in_flight = in_flight;
            }
        }
        b.settle(Ok(report("t")));
    }
    assert_eq!(observed_starts, total);
    assert_eq!(max_in_flight, 20);
    assert_eq!(b.results.len(), total);
}

#[test]
fn completion_can_interleave_with_starts() {
    let mut b = Batch::new(3).unwrap();
    b.start();
    b.settle(Err(PollError::MalformedFeed));
    b.start();
    b.start();
    b.settle(Ok(report("late")));
    b.settle(Ok(report("later")));
    assert!(b.done());
    assert_eq!(b.results.len(), 2);
    assert_eq!(b.results[0].title, "late");
}
