//! The two pollers that ask the payment interface for events.
//!
//! Each poller keeps a watermark: the date after which it asks for events.
//! A batch of events moves the watermark to the date of its last event; a
//! failed question leaves it where it is and asks for a pause.

use crate::keyed::Key;
use crate::payments::agreement::{Millis, Timestamp};
use crate::payments::payment_checker::StopTracking;
use crate::payments::payments::{Payments, PaymentsConfig};
use vstd::prelude::*;

verus! {

/// What has happened to an invoice.
#[derive(Clone, Copy, PartialEq, Eq, Structural, Debug)]
pub enum InvoiceEventType {
    InvoiceReceivedEvent,
    InvoiceAcceptedEvent,
    InvoiceRejectedEvent,
    InvoiceCancelledEvent,
    InvoiceSettledEvent,
}

/// An event of an invoice.
pub struct InvoiceEvent {
    pub invoice_id: String,
    pub event_date: Timestamp,
    pub event_type: InvoiceEventType,
}

/// What has happened to a debit note.
#[derive(Clone, Copy, PartialEq, Eq, Structural, Debug)]
pub enum DebitNoteEventType {
    DebitNoteReceivedEvent,
    DebitNoteAcceptedEvent,
    DebitNoteRejectedEvent,
    DebitNoteCancelledEvent,
    DebitNoteSettledEvent,
}

/// An event of a debit note.
pub struct DebitNoteEvent {
    pub debit_note_id: String,
    pub event_date: Timestamp,
    pub event_type: DebitNoteEventType,
}

/// What the engine is to be told about an invoice.
pub enum InvoiceNotice {
    /// The requestor accepted the invoice.
    InvoiceAccepted { invoice_id: String },
    /// The requestor paid the invoice.
    InvoiceSettled { invoice_id: String },
}

/// An [`InvoiceNotice`] as contracts see it.
pub enum InvoiceNoticeView {
    InvoiceAccepted { invoice_id: Key },
    InvoiceSettled { invoice_id: Key },
}

impl View for InvoiceNotice {
    type V = InvoiceNoticeView;

    open spec fn view(&self) -> InvoiceNoticeView {
        match self {
            InvoiceNotice::InvoiceAccepted { invoice_id } => InvoiceNoticeView::InvoiceAccepted {
                invoice_id: invoice_id@,
            },
            InvoiceNotice::InvoiceSettled { invoice_id } => InvoiceNoticeView::InvoiceSettled {
                invoice_id: invoice_id@,
            },
        }
    }
}

/// The dates of a batch of invoice events, in their order.
pub open spec fn invoice_dates(events: Seq<InvoiceEvent>) -> Seq<Timestamp> {
    events.map_values(|e: InvoiceEvent| e.event_date)
}

/// The dates of a batch of debit note events, in their order.
pub open spec fn debit_note_dates(events: Seq<DebitNoteEvent>) -> Seq<Timestamp> {
    events.map_values(|e: DebitNoteEvent| e.event_date)
}

/// The watermark after a batch with these dates: the date of the last
/// event, or the old watermark where the batch is empty.
pub open spec fn watermark(after: Timestamp, dates: Seq<Timestamp>) -> Timestamp {
    if dates.len() == 0 {
        after
    } else {
        dates.last()
    }
}

/// What the engine is told of a batch of invoice events: of each accepted
/// and each settled invoice, in the order of the events; other events are
/// passed over.
pub open spec fn invoice_notices(events: Seq<InvoiceEvent>) -> Seq<InvoiceNoticeView>
    decreases events.len(),
{
    if events.len() == 0 {
        Seq::empty()
    } else {
        let rest = invoice_notices(events.drop_last());
        match events.last().event_type {
            InvoiceEventType::InvoiceAcceptedEvent => rest.push(
                InvoiceNoticeView::InvoiceAccepted { invoice_id: events.last().invoice_id@ },
            ),
            InvoiceEventType::InvoiceSettledEvent => rest.push(
                InvoiceNoticeView::InvoiceSettled { invoice_id: events.last().invoice_id@ },
            ),
            _ => rest,
        }
    }
}

/// The debit notes of a batch of events that the requestor has accepted, in
/// the order of the events: their deadlines need no more tracking.
pub open spec fn accepted_notes(events: Seq<DebitNoteEvent>) -> Seq<Key>
    decreases events.len(),
{
    if events.len() == 0 {
        Seq::empty()
    } else {
        let rest = accepted_notes(events.drop_last());
        match events.last().event_type {
            DebitNoteEventType::DebitNoteAcceptedEvent => rest.push(events.last().debit_note_id@),
            _ => rest,
        }
    }
}

/// The notices of a list, as contracts see them.
pub open spec fn notice_views(v: Seq<InvoiceNotice>) -> Seq<InvoiceNoticeView> {
    v.map_values(|n: InvoiceNotice| n@)
}

/// The items that a list of stop requests names.
pub open spec fn stop_views(v: Seq<StopTracking>) -> Seq<Key> {
    v.map_values(|s: StopTracking| s.id@)
}

/// The dates are in order, none earlier than the one before it.
pub open spec fn in_order(dates: Seq<Timestamp>) -> bool {
    forall|i: int, j: int| 0 <= i <= j < dates.len() ==> dates[i] <= dates[j]
}

/// Every date is later than `after`.
pub open spec fn all_after(after: Timestamp, dates: Seq<Timestamp>) -> bool {
    forall|i: int| 0 <= i < dates.len() ==> after < #[trigger] dates[i]
}

/// What a poller does after one question.
pub struct Poll<T> {
    /// What is to be passed on, in this order.
    pub notices: Vec<T>,
    /// How long to pause before the next question, if at all.
    pub pause: Option<Millis>,
}

/// A poller's place in the stream of events.
pub struct EventsPoller {
    after: Timestamp,
}

impl View for EventsPoller {
    type V = Timestamp;

    closed spec fn view(&self) -> Timestamp {
        self.after
    }
}

impl EventsPoller {
    /// A poller that asks for the events after `now`.
    pub fn new(now: Timestamp) -> (p: Self)
        ensures
            p@ == now,
    {
        EventsPoller { after: now }
    }

    /// The date after which the next question asks for events.
    pub fn after_timestamp(&self) -> (t: Timestamp)
        ensures
            t == self@,
    {
        self.after
    }

    /// Takes the answer to a question for invoice events. `batch` is `None`
    /// where the question failed: the watermark then stays and the poller
    /// pauses for the error timeout. Otherwise the engine is told of each
    /// accepted and each settled invoice, and the watermark moves to the
    /// date of the last event, whatever its kind.
    pub fn check_invoice_events(
        &mut self,
        config: &PaymentsConfig,
        batch: Option<Vec<InvoiceEvent>>,
    ) -> (r: Poll<InvoiceNotice>)
        ensures
            match batch {
                Some(events) => {
                    &&& final(self)@ == watermark(old(self)@, invoice_dates(events@))
                    &&& notice_views(r.notices@) == invoice_notices(events@)
                    &&& r.pause is None
                },
                None => {
                    &&& final(self)@ == old(self)@
                    &&& r.notices@.len() == 0
                    &&& r.pause == Some(config.get_events_error_timeout)
                },
            },
    {
        match batch {
            None => Poll { notices: Vec::new(), pause: Some(config.get_events_error_timeout) },
            Some(events) => {
                let mut notices: Vec<InvoiceNotice> = Vec::new();
                let mut i: usize = 0;
                assert(events@.take(0) =~= Seq::empty());
                assert(notice_views(notices@) =~= Seq::empty());
                while i < events.len()
                    invariant
                        i <= events.len(),
                        notice_views(notices@) == invoice_notices(events@.take(i as int)),
                        self@ == watermark(old(self)@, invoice_dates(events@.take(i as int))),
                    decreases events.len() - i,
                {
                    let ghost done = notice_views(notices@);
                    proof {
                        assert(events@.take(i + 1).drop_last() =~= events@.take(i as int));
                        assert(events@.take(i + 1).last() == events@[i as int]);
                    }
                    match events[i].event_type {
                        InvoiceEventType::InvoiceAcceptedEvent => {
                            notices.push(
                                InvoiceNotice::InvoiceAccepted {
                                    invoice_id: events[i].invoice_id.clone(),
                                },
                            );
                            assert(notice_views(notices@) =~= done.push(
                                InvoiceNoticeView::InvoiceAccepted {
                                    invoice_id: events@[i as int].invoice_id@,
                                },
                            ));
                        },
                        InvoiceEventType::InvoiceSettledEvent => {
                            notices.push(
                                InvoiceNotice::InvoiceSettled {
                                    invoice_id: events[i].invoice_id.clone(),
                                },
                            );
                            assert(notice_views(notices@) =~= done.push(
                                InvoiceNoticeView::InvoiceSettled {
                                    invoice_id: events@[i as int].invoice_id@,
                                },
                            ));
                        },
                        _ => {},
                    }
                    self.after = events[i].event_date;
                    i += 1;
                }
                assert(events@.take(i as int) =~= events@);
                Poll { notices, pause: None }
            },
        }
    }

    /// Takes the answer to a question for debit note events. `batch` is
    /// `None` where the question failed: the watermark then stays and the
    /// poller pauses for the error timeout. Otherwise the deadline tracker is
    /// told to forget each accepted debit note, and the watermark moves to
    /// the date of the last event, whatever its kind.
    pub fn check_debit_notes_events(
        &mut self,
        config: &PaymentsConfig,
        batch: Option<Vec<DebitNoteEvent>>,
    ) -> (r: Poll<StopTracking>)
        ensures
            match batch {
                Some(events) => {
                    &&& final(self)@ == watermark(old(self)@, debit_note_dates(events@))
                    &&& stop_views(r.notices@) == accepted_notes(events@)
                    &&& r.pause is None
                },
                None => {
                    &&& final(self)@ == old(self)@
                    &&& r.notices@.len() == 0
                    &&& r.pause == Some(config.get_events_error_timeout)
                },
            },
    {
        match batch {
            None => Poll { notices: Vec::new(), pause: Some(config.get_events_error_timeout) },
            Some(events) => {
                let mut notices: Vec<StopTracking> = Vec::new();
                let mut i: usize = 0;
                assert(events@.take(0) =~= Seq::empty());
                assert(stop_views(notices@) =~= Seq::empty());
                while i < events.len()
                    invariant
                        i <= events.len(),
                        stop_views(notices@) == accepted_notes(events@.take(i as int)),
                        self@ == watermark(old(self)@, debit_note_dates(events@.take(i as int))),
                    decreases events.len() - i,
                {
                    let ghost done = stop_views(notices@);
                    proof {
                        assert(events@.take(i + 1).drop_last() =~= events@.take(i as int));
                        assert(events@.take(i + 1).last() == events@[i as int]);
                    }
                    match events[i].event_type {
                        DebitNoteEventType::DebitNoteAcceptedEvent => {
                            notices.push(StopTracking { id: events[i].debit_note_id.clone() });
                            assert(stop_views(notices@) =~= done.push(
                                events@[i as int].debit_note_id@,
                            ));
                        },
                        _ => {},
                    }
                    self.after = events[i].event_date;
                    i += 1;
                }
                assert(events@.take(i as int) =~= events@);
                Poll { notices, pause: None }
            },
        }
    }
}

/// The two pollers of a payments engine.
pub struct Pollers {
    pub invoices: EventsPoller,
    pub debit_notes: EventsPoller,
}

impl Payments {
    /// The pollers of an engine that starts at the instant `now`: both ask
    /// for the events after it.
    pub fn started(&self, now: Timestamp) -> (p: Pollers)
        ensures
            p.invoices@ == now,
            p.debit_notes@ == now,
    {
        Pollers { invoices: EventsPoller::new(now), debit_notes: EventsPoller::new(now) }
    }
}

/// The watermark never moves back: where the payment interface answers with
/// events in the order of their dates, all later than the watermark, the
/// watermark after the batch is not earlier than before it, and no event of
/// the batch is later than it.
pub proof fn law_watermark_never_moves_back(after: Timestamp, dates: Seq<Timestamp>)
    requires
        in_order(dates),
        all_after(after, dates),
    ensures
        after <= watermark(after, dates),
        forall|i: int| 0 <= i < dates.len() ==> #[trigger] dates[i] <= watermark(after, dates),
{
    if dates.len() > 0 {
        assert(after < dates[dates.len() - 1]);
    }
}

/// No event is passed on twice: where the payment interface answers each
/// question with events later than the watermark that it was asked with,
/// every event of a later batch is later than every event of an earlier
/// one, whether or not questions failed in between.
pub proof fn law_no_event_twice(
    after: Timestamp,
    first: Seq<Timestamp>,
    second: Seq<Timestamp>,
    i: int,
    j: int,
)
    requires
        in_order(first),
        all_after(after, first),
        all_after(watermark(after, first), second),
        0 <= i < first.len(),
        0 <= j < second.len(),
    ensures
        first[i] < second[j],
{
    assert(first[i] <= first[first.len() - 1]);
}

/// The watermark after one batch after another.
pub open spec fn watermark_after(after: Timestamp, batches: Seq<Seq<Timestamp>>) -> Timestamp
    decreases batches.len(),
{
    if batches.len() == 0 {
        after
    } else {
        watermark(watermark_after(after, batches.drop_last()), batches.last())
    }
}

/// The payment interface keeps its word: every batch is in the order of its
/// dates and holds only events later than the watermark with which it was
/// asked for. A failed question counts as an empty batch.
pub open spec fn interface_kept(after: Timestamp, batches: Seq<Seq<Timestamp>>) -> bool {
    forall|k: int|
        0 <= k < batches.len() ==> in_order(#[trigger] batches[k]) && all_after(
            watermark_after(after, batches.take(k)),
            batches[k],
        )
}

/// Over any number of questions the watermark never moves back, and no
/// event that was passed on is later than it.
pub proof fn law_watermark_is_monotone(after: Timestamp, batches: Seq<Seq<Timestamp>>, k: int, i: int)
    requires
        interface_kept(after, batches),
        0 <= k < batches.len(),
        0 <= i < batches[k].len(),
    ensures
        after <= watermark_after(after, batches),
        watermark_after(after, batches.take(k)) <= watermark_after(after, batches),
        batches[k][i] <= watermark_after(after, batches),
    decreases batches.len(),
{
    let n = batches.len() - 1;
    let before = batches.drop_last();
    assert(before =~= batches.take(n));
    assert forall|j: int| 0 <= j < before.len() implies in_order(#[trigger] before[j])
        && all_after(watermark_after(after, before.take(j)), before[j]) by {
        assert(before[j] == batches[j]);
        assert(before.take(j) =~= batches.take(j));
    }
    assert(in_order(batches[n]) && all_after(watermark_after(after, batches.take(n)), batches[n]));
    law_watermark_never_moves_back(watermark_after(after, before), batches[n]);
    lemma_watermark_grows(after, before);
    if k < n {
        assert(before[k] == batches[k]);
        assert(before.take(k) =~= batches.take(k));
        law_watermark_is_monotone(after, before, k, i);
    } else {
        assert(batches.take(k) =~= before);
    }
}

/// The watermark after any number of kept batches is not before the first.
pub proof fn lemma_watermark_grows(after: Timestamp, batches: Seq<Seq<Timestamp>>)
    requires
        interface_kept(after, batches),
    ensures
        after <= watermark_after(after, batches),
    decreases batches.len(),
{
    if batches.len() > 0 {
        let n = batches.len() - 1;
        let before = batches.drop_last();
        assert(before =~= batches.take(n));
        assert forall|j: int| 0 <= j < before.len() implies in_order(#[trigger] before[j])
            && all_after(watermark_after(after, before.take(j)), before[j]) by {
            assert(before[j] == batches[j]);
            assert(before.take(j) =~= batches.take(j));
        }
        lemma_watermark_grows(after, before);
        assert(in_order(batches[n]) && all_after(
            watermark_after(after, batches.take(n)),
            batches[n],
        ));
        law_watermark_never_moves_back(watermark_after(after, before), batches[n]);
    }
}

/// No event is ever passed on twice: of any two batches, every event of the
/// later one is later than every event of the earlier one, however many
/// questions, failed ones among them, lie between the two.
pub proof fn law_no_event_twice_ever(
    after: Timestamp,
    batches: Seq<Seq<Timestamp>>,
    k: int,
    l: int,
    i: int,
    j: int,
)
    requires
        interface_kept(after, batches),
        0 <= k < l < batches.len(),
        0 <= i < batches[k].len(),
        0 <= j < batches[l].len(),
    ensures
        batches[k][i] < batches[l][j],
{
    let upto = batches.take(l);
    assert forall|m: int| 0 <= m < upto.len() implies in_order(#[trigger] upto[m]) && all_after(
        watermark_after(after, upto.take(m)),
        upto[m],
    ) by {
        assert(upto[m] == batches[m]);
        assert(upto.take(m) =~= batches.take(m));
    }
    assert(upto[k] == batches[k]);
    law_watermark_is_monotone(after, upto, k, i);
    assert(in_order(batches[l]) && all_after(watermark_after(after, batches.take(l)), batches[l]));
}

} // verus!
