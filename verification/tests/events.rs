use provider_runtime::payments::events::{
    DebitNoteEvent, DebitNoteEventType, EventsPoller, InvoiceEvent, InvoiceEventType,
    InvoiceNotice,
};
use provider_runtime::payments::payment_checker::DeadlineChecker;
use provider_runtime::payments::payment_checker::TrackDeadline;
use provider_runtime::payments::payments::{Payments, PaymentsConfig};

fn config() -> PaymentsConfig {
    PaymentsConfig::new("session".to_string())
}

fn invoice_event(id: &str, date: u64, event_type: InvoiceEventType) -> InvoiceEvent {
    InvoiceEvent { invoice_id: id.to_string(), event_date: date, event_type }
}

fn note_event(id: &str, date: u64, event_type: DebitNoteEventType) -> DebitNoteEvent {
    DebitNoteEvent { debit_note_id: id.to_string(), event_date: date, event_type }
}

/// An interface that hands out the events later than `after`, as the payment interface does.
fn later_than(all: &[(&str, u64)], after: u64) -> Vec<InvoiceEvent> {
    all.iter()
        .filter(|(_, date)| *date > after)
        .map(|(id, date)| invoice_event(id, *date, InvoiceEventType::InvoiceAcceptedEvent))
        .collect()
}

fn accepted_ids(notices: &[InvoiceNotice]) -> Vec<&str> {
    notices
        .iter()
        .map(|n| match n {
            InvoiceNotice::InvoiceAccepted { invoice_id } => invoice_id.as_str(),
            InvoiceNotice::InvoiceSettled { invoice_id } => invoice_id.as_str(),
        })
        .collect()
}

#[test]
fn event_watermark_monotonicity() {
    let c = config();
    let mut poller = EventsPoller::new(5);
    let first = [("t1", 10u64), ("t2", 20), ("t3", 30)];
    let poll = poller.check_invoice_events(&c, Some(later_than(&first, poller.after_timestamp())));
    assert_eq!(accepted_ids(&poll.notices), vec!["t1", "t2", "t3"]);
    assert_eq!(poll.pause, None);
    assert_eq!(poller.after_timestamp(), 30);

    // The question fails: the watermark stays and the poller pauses.
    let poll = poller.check_invoice_events(&c, None);
    assert!(poll.notices.is_empty());
    assert_eq!(poll.pause, Some(5_000));
    assert_eq!(poller.after_timestamp(), 30);

    // The interface still holds t2: asked after t3, it hands out t4 alone.
    let second = [("t2", 20u64), ("t4", 40)];
    let poll = poller.check_invoice_events(&c, Some(later_than(&second, poller.after_timestamp())));
    assert_eq!(accepted_ids(&poll.notices), vec!["t4"]);
    assert_eq!(poller.after_timestamp(), 40);
}

#[test]
fn invoice_events_are_told_by_kind() {
    let c = config();
    let mut poller = EventsPoller::new(0);
    let batch = vec![
        invoice_event("I1", 1, InvoiceEventType::InvoiceReceivedEvent),
        invoice_event("I2", 2, InvoiceEventType::InvoiceAcceptedEvent),
        invoice_event("I3", 3, InvoiceEventType::InvoiceRejectedEvent),
        invoice_event("I4", 4, InvoiceEventType::InvoiceSettledEvent),
        invoice_event("I5", 5, InvoiceEventType::InvoiceCancelledEvent),
    ];
    let poll = poller.check_invoice_events(&c, Some(batch));
    assert_eq!(poll.notices.len(), 2);
    assert!(matches!(&poll.notices[0], InvoiceNotice::InvoiceAccepted { invoice_id } if invoice_id == "I2"));
    assert!(matches!(&poll.notices[1], InvoiceNotice::InvoiceSettled { invoice_id } if invoice_id == "I4"));
    // The watermark follows the last event, whatever its kind.
    assert_eq!(poller.after_timestamp(), 5);
}

#[test]
fn empty_batch_keeps_the_watermark() {
    let c = config();
    let mut poller = EventsPoller::new(17);
    let poll = poller.check_invoice_events(&c, Some(vec![]));
    assert!(poll.notices.is_empty());
    assert_eq!(poll.pause, None);
    assert_eq!(poller.after_timestamp(), 17);
    let poll = poller.check_debit_notes_events(&c, Some(vec![]));
    assert!(poll.notices.is_empty());
    assert_eq!(poller.after_timestamp(), 17);
}

#[test]
fn accepted_debit_notes_stop_their_deadlines() {
    let c = config();
    let mut poller = EventsPoller::new(0);
    let mut checker = DeadlineChecker::new();
    for (id, deadline) in [("N1", 100u64), ("N2", 100), ("N3", 100)] {
        checker.track(TrackDeadline {
            agreement_id: "A1".to_string(),
            id: id.to_string(),
            deadline,
        });
    }
    let batch = vec![
        note_event("N1", 10, DebitNoteEventType::DebitNoteAcceptedEvent),
        note_event("N2", 20, DebitNoteEventType::DebitNoteRejectedEvent),
        note_event("N3", 30, DebitNoteEventType::DebitNoteAcceptedEvent),
        note_event("N4", 40, DebitNoteEventType::DebitNoteSettledEvent),
    ];
    let poll = poller.check_debit_notes_events(&c, Some(batch));
    assert_eq!(poll.pause, None);
    assert_eq!(poller.after_timestamp(), 40);
    let stopped: Vec<&str> = poll.notices.iter().map(|s| s.id.as_str()).collect();
    assert_eq!(stopped, vec!["N1", "N3"]);
    for s in &poll.notices {
        checker.stop_tracking(s);
    }
    let fired = checker.elapsed(100);
    assert_eq!(fired.len(), 1);
    assert_eq!(fired[0].id, "N2");

    let poll = poller.check_debit_notes_events(&c, None);
    assert!(poll.notices.is_empty());
    assert_eq!(poll.pause, Some(5_000));
    assert_eq!(poller.after_timestamp(), 40);
}

#[test]
fn pollers_start_at_the_present() {
    let p = Payments::new(config());
    let pollers = p.started(1_234);
    assert_eq!(pollers.invoices.after_timestamp(), 1_234);
    assert_eq!(pollers.debit_notes.after_timestamp(), 1_234);
}
