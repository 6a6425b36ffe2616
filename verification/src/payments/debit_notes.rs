//! The delivery of payment documents, step by step.
//!
//! A debit note is made from a computed cost, issued, sent and, where it
//! carries a deadline, handed to the deadline tracker. Each of these takes
//! a call that can fail, so the delivery is written as a function from what
//! has happened so far to what is to be done next. Final debit notes and
//! invoices must arrive: after a failure their delivery is tried again.

use crate::keyed::Key;
use crate::payments::agreement::{CostInfo, CostView, Millis, Timestamp};
use crate::payments::amount::{amounts, clone_amounts, Decimal};
use crate::payments::payment_checker::{Deadline, TrackDeadline};
use crate::payments::payments::{
    DebitNote, DebitNoteInfo, FinalizeActivity, Invoice, InvoiceIssued, InvoiceSent, NewDebitNote,
    PaymentsConfig,
};
use vstd::prelude::*;

verus! {

/// What is known of the cost of an activity.
pub enum Costing {
    /// The cost is not computed yet.
    NoCost,
    /// The cost could not be computed.
    CostFailed,
    /// The cost is computed.
    Costed(CostInfo),
}

/// How far the delivery of one debit note has come.
pub enum Delivery {
    /// The debit note is not issued yet.
    NotIssued,
    /// The payment interface refused to issue the debit note.
    IssueFailed,
    /// The debit note is issued and not sent yet.
    Issued(DebitNote),
    /// The issued debit note could not be sent.
    SendFailed(DebitNote),
    /// The debit note has been sent.
    Sent(DebitNote),
    /// The deadline tracker did not take the deadline of the sent note.
    TrackFailed(DebitNote),
    /// The deadline of the sent note is watched.
    Watched(DebitNote),
}

/// Why a debit note was not delivered.
#[derive(Clone, Copy, PartialEq, Eq, Structural, Debug)]
pub enum DebitNoteError {
    /// The cost of the activity could not be computed.
    CostNotComputed,
    /// The debit note could not be issued.
    NotIssued,
    /// The debit note could not be sent.
    NotSent,
    /// The deadline of the debit note could not be tracked.
    NotTracked,
}

/// What is to be done next for a debit note.
pub enum NextStep {
    /// Ask the payment model for the cost of the activity.
    ComputeCost { activity_id: String },
    /// Issue this debit note.
    Issue(NewDebitNote),
    /// Send the debit note with this id.
    Send { debit_note_id: String },
    /// Hand this deadline to the deadline tracker.
    Track(TrackDeadline),
    /// The debit note is delivered; it stated this cost.
    Done(CostInfo),
    /// The delivery has failed.
    Failed(DebitNoteError),
}

/// A [`NextStep`] as contracts see it.
pub enum NextStepView {
    ComputeCost { activity_id: Key },
    Issue {
        activity_id: Key,
        total_amount_due: Decimal,
        usage_counter_vector: Seq<Decimal>,
        payment_due_date: Option<Timestamp>,
    },
    Send { debit_note_id: Key },
    Track(Deadline),
    /// Done; the note stated this cost.
    Done(CostView),
    Failed(DebitNoteError),
}

impl View for NextStep {
    type V = NextStepView;

    open spec fn view(&self) -> NextStepView {
        match self {
            NextStep::ComputeCost { activity_id } => NextStepView::ComputeCost {
                activity_id: activity_id@,
            },
            NextStep::Issue(note) => NextStepView::Issue {
                activity_id: note.activity_id@,
                total_amount_due: note.total_amount_due@,
                usage_counter_vector: amounts(note.usage_counter_vector@),
                payment_due_date: note.payment_due_date,
            },
            NextStep::Send { debit_note_id } => NextStepView::Send { debit_note_id: debit_note_id@ },
            NextStep::Track(t) => NextStepView::Track(t@),
            NextStep::Done(c) => NextStepView::Done(c@),
            NextStep::Failed(e) => NextStepView::Failed(*e),
        }
    }
}

/// The step that follows in the delivery of a debit note that states the
/// cost `cost`: issue, then send, then have the deadline watched if the note
/// has one; a failure ends the delivery.
pub open spec fn send_step(info: DebitNoteInfo, cost: CostInfo, delivery: Delivery) -> NextStepView {
    match delivery {
        Delivery::NotIssued => NextStepView::Issue {
            activity_id: info.activity_id@,
            total_amount_due: cost.cost@,
            usage_counter_vector: cost@.usage,
            payment_due_date: info.payment_deadline,
        },
        Delivery::IssueFailed => NextStepView::Failed(DebitNoteError::NotIssued),
        Delivery::Issued(note) => NextStepView::Send { debit_note_id: note.debit_note_id@ },
        Delivery::SendFailed(_) => NextStepView::Failed(DebitNoteError::NotSent),
        Delivery::Sent(note) => match info.payment_deadline {
            Some(deadline) => NextStepView::Track(
                Deadline { owner: note.agreement_id@, item: note.debit_note_id@, at: deadline },
            ),
            None => NextStepView::Done(cost@),
        },
        Delivery::TrackFailed(_) => NextStepView::Failed(DebitNoteError::NotTracked),
        Delivery::Watched(_) => NextStepView::Done(cost@),
    }
}

/// The step that follows for a debit note: first the cost is computed, then
/// the note that states it is delivered.
pub open spec fn cost_and_send_step(
    info: DebitNoteInfo,
    costing: Costing,
    delivery: Delivery,
) -> NextStepView {
    match costing {
        Costing::NoCost => NextStepView::ComputeCost { activity_id: info.activity_id@ },
        Costing::CostFailed => NextStepView::Failed(DebitNoteError::CostNotComputed),
        Costing::Costed(cost) => send_step(info, cost, delivery),
    }
}

/// The debit note that states `cost_info` for the activity of `info`.
pub fn new_debit_note(info: &DebitNoteInfo, cost_info: &CostInfo) -> (note: NewDebitNote)
    ensures
        note.activity_id@ == info.activity_id@,
        note.total_amount_due@ == cost_info.cost@,
        amounts(note.usage_counter_vector@) == cost_info@.usage,
        note.payment_due_date == info.payment_deadline,
{
    NewDebitNote {
        activity_id: info.activity_id.clone(),
        total_amount_due: cost_info.cost.clone(),
        usage_counter_vector: clone_amounts(&cost_info.usage),
        payment_due_date: info.payment_deadline,
    }
}

/// What is to be done next to deliver the debit note that states
/// `cost_info` for the activity of `info`.
pub fn send_debit_note(info: &DebitNoteInfo, cost_info: &CostInfo, delivery: &Delivery) -> (next:
    NextStep)
    ensures
        next@ == send_step(*info, *cost_info, *delivery),
{
    match delivery {
        Delivery::NotIssued => NextStep::Issue(new_debit_note(info, cost_info)),
        Delivery::IssueFailed => NextStep::Failed(DebitNoteError::NotIssued),
        Delivery::Issued(note) => NextStep::Send { debit_note_id: note.debit_note_id.clone() },
        Delivery::SendFailed(_) => NextStep::Failed(DebitNoteError::NotSent),
        Delivery::Sent(note) => match info.payment_deadline {
            Some(deadline) => NextStep::Track(
                TrackDeadline {
                    agreement_id: note.agreement_id.clone(),
                    id: note.debit_note_id.clone(),
                    deadline,
                },
            ),
            None => NextStep::Done(cost_info.clone()),
        },
        Delivery::TrackFailed(_) => NextStep::Failed(DebitNoteError::NotTracked),
        Delivery::Watched(_) => NextStep::Done(cost_info.clone()),
    }
}

/// What is to be done next for a debit note: first the cost is computed,
/// then the note is issued, sent and its deadline watched.
pub fn compute_cost_and_send_debit_note(
    info: &DebitNoteInfo,
    costing: &Costing,
    delivery: &Delivery,
) -> (next: NextStep)
    ensures
        next@ == cost_and_send_step(*info, *costing, *delivery),
{
    match costing {
        Costing::NoCost => NextStep::ComputeCost { activity_id: info.activity_id.clone() },
        Costing::CostFailed => NextStep::Failed(DebitNoteError::CostNotComputed),
        Costing::Costed(cost) => send_debit_note(info, cost, delivery),
    }
}

/// What follows an attempt at something that must be delivered.
pub enum Attempt<T> {
    /// It is delivered: hand this message to the engine.
    Deliver(T),
    /// It failed: try again after this time.
    RetryAfter(Millis),
}

/// What follows an attempt to deliver the final debit note of an activity:
/// once it has arrived the activity is finalized with the cost that the note
/// stated; until then the delivery is tried again after the resend interval.
pub fn final_debit_note_attempt(
    config: &PaymentsConfig,
    info: &DebitNoteInfo,
    outcome: Result<CostInfo, DebitNoteError>,
) -> (r: Attempt<FinalizeActivity>)
    ensures
        match outcome {
            Ok(cost) => r matches Attempt::Deliver(msg) && msg.debit_info@ == info@
                && msg.cost_summary == cost,
            Err(_) => r matches Attempt::RetryAfter(delay) && delay
                == config.invoice_resend_interval,
        },
{
    match outcome {
        Ok(cost) => Attempt::Deliver(
            FinalizeActivity { debit_info: info.clone(), cost_summary: cost },
        ),
        Err(_) => Attempt::RetryAfter(config.invoice_resend_interval),
    }
}

/// What follows an attempt to issue the invoice of an agreement: `issued` is
/// the invoice where the payment interface took it. Until it does the invoice
/// is issued again after the reissue interval.
pub fn issue_invoice_attempt(config: &PaymentsConfig, agreement_id: &str, issued: Option<Invoice>) -> (r:
    Attempt<InvoiceIssued>)
    ensures
        match issued {
            Some(invoice) => r matches Attempt::Deliver(msg) && msg.agreement_id@ == agreement_id@
                && msg.invoice_id@ == invoice.invoice_id@,
            None => r matches Attempt::RetryAfter(delay) && delay
                == config.invoice_reissue_interval,
        },
{
    match issued {
        Some(invoice) => Attempt::Deliver(
            InvoiceIssued { agreement_id: agreement_id.to_owned(), invoice_id: invoice.invoice_id },
        ),
        None => Attempt::RetryAfter(config.invoice_reissue_interval),
    }
}

/// What follows an attempt to send the invoice of an agreement. Until it has
/// arrived the invoice is sent again after the resend interval.
pub fn send_invoice_attempt(config: &PaymentsConfig, agreement_id: &str, sent: bool) -> (r: Attempt<
    InvoiceSent,
>)
    ensures
        if sent {
            r matches Attempt::Deliver(msg) && msg.agreement_id@ == agreement_id@
        } else {
            r matches Attempt::RetryAfter(delay) && delay == config.invoice_resend_interval
        },
{
    if sent {
        Attempt::Deliver(InvoiceSent { agreement_id: agreement_id.to_owned() })
    } else {
        Attempt::RetryAfter(config.invoice_resend_interval)
    }
}

} // verus!
