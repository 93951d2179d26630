use watchcat::debounce::{Burst, Debouncer};
use watchcat::kind::{DataChange, EventKind, ModifyKind, RemoveKind};

fn content() -> EventKind {
    EventKind::Modify(ModifyKind::Data(DataChange::Content))
}

fn record(debouncer: &mut Debouncer, now_ms: u64, path: &str, kind: EventKind, text: &str) {
    debouncer.record(now_ms, path.to_string(), kind, text.to_string());
}

#[test]
fn new_debouncer_is_empty() {
    let mut debouncer = Debouncer::new(50);
    assert_eq!(debouncer.window_ms(), 50);
    assert_eq!(debouncer.len(), 0);
    assert_eq!(debouncer.next_deadline(), None);
    assert_eq!(debouncer.pop_due(u64::MAX), None);
}

#[test]
fn burst_within_the_window_is_one_burst() {
    let mut debouncer = Debouncer::new(50);
    record(&mut debouncer, 100, "/tmp/b/file.txt", content(), "first");
    record(&mut debouncer, 120, "/tmp/b/file.txt", content(), "second");
    record(&mut debouncer, 149, "/tmp/b/file.txt", EventKind::Remove(RemoveKind::File), "third");
    assert_eq!(debouncer.len(), 1);
    // Not before a whole window after the last raw event.
    assert_eq!(debouncer.pop_due(149), None);
    assert_eq!(debouncer.pop_due(198), None);
    assert_eq!(debouncer.next_deadline(), Some(199));
    let burst = debouncer.pop_due(199).unwrap();
    assert_eq!(
        burst,
        Burst {
            path: "/tmp/b/file.txt".to_string(),
            kind: EventKind::Remove(RemoveKind::File),
            description: "third".to_string(),
            last_seen_ms: 149,
        }
    );
    // Exactly one: nothing is left.
    assert_eq!(debouncer.len(), 0);
    assert_eq!(debouncer.pop_due(u64::MAX), None);
}

#[test]
fn events_more_than_a_window_apart_are_two_bursts() {
    let mut debouncer = Debouncer::new(50);
    record(&mut debouncer, 100, "f", content(), "early");
    record(&mut debouncer, 151, "f", content(), "late");
    assert_eq!(debouncer.len(), 2);
    let first = debouncer.pop_due(300).unwrap();
    let second = debouncer.pop_due(300).unwrap();
    assert_eq!((first.description.as_str(), first.last_seen_ms), ("early", 100));
    assert_eq!((second.description.as_str(), second.last_seen_ms), ("late", 151));
    assert_eq!(debouncer.pop_due(300), None);
}

#[test]
fn event_exactly_a_window_later_opens_a_new_burst() {
    let mut debouncer = Debouncer::new(50);
    record(&mut debouncer, 100, "f", content(), "early");
    record(&mut debouncer, 150, "f", content(), "late");
    assert_eq!(debouncer.len(), 2);
}

#[test]
fn event_just_inside_the_window_joins() {
    let mut debouncer = Debouncer::new(50);
    record(&mut debouncer, 100, "f", content(), "early");
    record(&mut debouncer, 149, "f", content(), "late");
    assert_eq!(debouncer.len(), 1);
    assert_eq!(debouncer.next_deadline(), Some(199));
}

#[test]
fn paths_are_coalesced_apart() {
    let mut debouncer = Debouncer::new(50);
    record(&mut debouncer, 0, "a", content(), "a1");
    record(&mut debouncer, 10, "b", content(), "b1");
    record(&mut debouncer, 20, "a", content(), "a2");
    assert_eq!(debouncer.len(), 2);
    assert_eq!(debouncer.next_deadline(), Some(60));
    // `b` went quiet first although `a` stands first in the queue.
    let first = debouncer.pop_due(60).unwrap();
    assert_eq!(first.path, "b");
    assert_eq!(debouncer.pop_due(69), None);
    let second = debouncer.pop_due(70).unwrap();
    assert_eq!((second.path.as_str(), second.description.as_str()), ("a", "a2"));
}

#[test]
fn quiet_bursts_leave_in_queue_order() {
    let mut debouncer = Debouncer::new(10);
    record(&mut debouncer, 0, "x", content(), "x");
    record(&mut debouncer, 1, "y", content(), "y");
    record(&mut debouncer, 2, "z", content(), "z");
    let order: Vec<String> =
        (0..3).map(|_| debouncer.pop_due(100).unwrap().path).collect();
    assert_eq!(order, vec!["x".to_string(), "y".to_string(), "z".to_string()]);
}

#[test]
fn event_joins_the_latest_burst_of_its_path() {
    let mut debouncer = Debouncer::new(50);
    record(&mut debouncer, 0, "f", content(), "old");
    record(&mut debouncer, 100, "f", content(), "new");
    record(&mut debouncer, 120, "f", content(), "newer");
    assert_eq!(debouncer.len(), 2);
    let first = debouncer.pop_due(1000).unwrap();
    let second = debouncer.pop_due(1000).unwrap();
    assert_eq!((first.description.as_str(), first.last_seen_ms), ("old", 0));
    assert_eq!((second.description.as_str(), second.last_seen_ms), ("newer", 120));
}

#[test]
fn zero_window_makes_every_event_a_burst() {
    let mut debouncer = Debouncer::new(0);
    record(&mut debouncer, 5, "f", content(), "one");
    record(&mut debouncer, 5, "f", content(), "two");
    assert_eq!(debouncer.len(), 2);
    assert_eq!(debouncer.next_deadline(), Some(5));
    assert!(debouncer.pop_due(5).is_some());
    assert!(debouncer.pop_due(5).is_some());
    assert_eq!(debouncer.pop_due(5), None);
}

#[test]
fn clock_that_runs_backwards_finds_nothing_quiet() {
    let mut debouncer = Debouncer::new(50);
    record(&mut debouncer, 100, "f", content(), "one");
    assert_eq!(debouncer.pop_due(10), None);
    // An earlier reading still falls inside the burst's window.
    record(&mut debouncer, 90, "f", content(), "two");
    assert_eq!(debouncer.len(), 1);
    assert_eq!(debouncer.next_deadline(), Some(140));
}

#[test]
fn deadline_is_capped_at_the_largest_reading() {
    let mut debouncer = Debouncer::new(50);
    record(&mut debouncer, u64::MAX - 10, "f", content(), "late");
    assert_eq!(debouncer.next_deadline(), Some(u64::MAX));
    assert_eq!(debouncer.pop_due(u64::MAX), None);
    let burst = Burst {
        path: "f".to_string(),
        kind: content(),
        description: String::new(),
        last_seen_ms: u64::MAX - 50,
    };
    assert_eq!(burst.deadline(50), u64::MAX);
    assert!(burst.is_quiet(u64::MAX, 50));
    assert!(!burst.is_quiet(u64::MAX - 1, 50));
}

#[test]
fn burst_is_quiet_from_its_deadline_on() {
    let burst = Burst {
        path: "f".to_string(),
        kind: content(),
        description: String::new(),
        last_seen_ms: 1000,
    };
    assert_eq!(burst.deadline(250), 1250);
    assert!(!burst.is_quiet(999, 250));
    assert!(!burst.is_quiet(1249, 250));
    assert!(burst.is_quiet(1250, 250));
    assert!(burst.is_quiet(u64::MAX, 250));
}
