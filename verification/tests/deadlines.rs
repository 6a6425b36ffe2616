use provider_runtime::payments::payment_checker::{
    DeadlineChecker, DeadlineElapsed, StopTracking, TrackDeadline,
};

fn track(owner: &str, id: &str, deadline: u64) -> TrackDeadline {
    TrackDeadline { agreement_id: owner.to_string(), id: id.to_string(), deadline }
}

fn stop(id: &str) -> StopTracking {
    StopTracking { id: id.to_string() }
}

fn ids(fired: &[DeadlineElapsed]) -> Vec<&str> {
    fired.iter().map(|e| e.id.as_str()).collect()
}

#[test]
fn deadline_elapses_then_acceptance_arrives() {
    let mut c = DeadlineChecker::new();
    c.track(track("A1", "N", 100));
    assert_eq!(c.next_deadline(), Some(100));
    assert!(c.elapsed(99).is_empty());
    let fired = c.elapsed(101);
    assert_eq!(fired.len(), 1);
    assert_eq!(fired[0].agreement_id, "A1");
    assert_eq!(fired[0].id, "N");
    assert_eq!(fired[0].deadline, 100);
    assert_eq!(c.len(), 0);
    // The note is accepted afterwards: stopping is a no-op, nothing fires again.
    c.stop_tracking(&stop("N"));
    assert!(c.elapsed(1_000).is_empty());
    assert_eq!(c.next_deadline(), None);
}

#[test]
fn stopped_deadline_never_fires() {
    let mut c = DeadlineChecker::new();
    c.track(track("A1", "N1", 100));
    c.track(track("A1", "N2", 200));
    assert!(c.is_tracked("N1"));
    c.stop_tracking(&stop("N1"));
    assert!(!c.is_tracked("N1"));
    assert!(c.is_tracked("N2"));
    assert_eq!(ids(&c.elapsed(150)), Vec::<&str>::new());
    assert_eq!(ids(&c.elapsed(10_000)), vec!["N2"]);
    assert!(c.elapsed(20_000).is_empty());
}

#[test]
fn deadline_fires_exactly_at_its_instant() {
    let mut c = DeadlineChecker::new();
    c.track(track("A1", "N1", 100));
    assert!(c.elapsed(99).is_empty());
    assert_eq!(ids(&c.elapsed(100)), vec!["N1"]);
    assert!(c.elapsed(100).is_empty());
}

#[test]
fn deadlines_fire_in_order_and_ties_in_entry_order() {
    let mut c = DeadlineChecker::new();
    c.track(track("A1", "late", 300));
    c.track(track("A1", "first", 100));
    c.track(track("A2", "second", 100));
    c.track(track("A2", "middle", 200));
    c.track(track("A3", "third", 100));
    assert_eq!(c.len(), 5);
    assert_eq!(c.next_deadline(), Some(100));
    assert_eq!(ids(&c.elapsed(250)), vec!["first", "second", "third", "middle"]);
    assert_eq!(c.next_deadline(), Some(300));
    assert_eq!(ids(&c.elapsed(300)), vec!["late"]);
}

#[test]
fn tracking_again_replaces_the_entry() {
    let mut c = DeadlineChecker::new();
    c.track(track("A1", "N1", 100));
    c.track(track("A1", "N2", 100));
    c.track(track("A9", "N1", 100));
    assert_eq!(c.len(), 2);
    let fired = c.elapsed(100);
    assert_eq!(ids(&fired), vec!["N2", "N1"]);
    assert_eq!(fired[1].agreement_id, "A9");

    c.track(track("A1", "N3", 100));
    c.track(track("A1", "N3", 500));
    assert!(c.elapsed(400).is_empty());
    assert_eq!(ids(&c.elapsed(500)), vec!["N3"]);
}

#[test]
fn stopping_an_unknown_item_changes_nothing() {
    let mut c = DeadlineChecker::new();
    c.stop_tracking(&stop("nobody"));
    c.track(track("A1", "N1", 5));
    c.stop_tracking(&stop("nobody"));
    assert_eq!(c.len(), 1);
    assert_eq!(ids(&c.elapsed(5)), vec!["N1"]);
}
