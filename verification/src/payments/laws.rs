//! What holds of the payments engine whatever it is told: laws of
//! [`PaymentsState::step`], each proved for every state and every message.

use crate::keyed::{has_key, index_of, Key};
use crate::payments::agreement::{
    lemma_finalized_ids, lemma_with_activity, ActivityPayment, BillingPhase, Timestamp,
};
use crate::payments::payments::{ActionView, Message, PaymentsError, PaymentsState};
use vstd::prelude::*;

verus! {

/// The message freshly approves the agreement `id`, which replaces whatever
/// ledger stood under that id.
pub open spec fn approves(m: Message, id: Key) -> bool {
    match m {
        Message::AgreementApproved { msg, model_built } => model_built && msg.agreement_id@ == id,
        _ => false,
    }
}

/// The message settles an invoice of the agreement `id`.
pub open spec fn settles(m: Message, id: Key) -> bool {
    match m {
        Message::InvoiceSettled(Some(i)) => i.agreement_id@ == id,
        _ => false,
    }
}

/// Every message leaves the state well formed.
pub proof fn lemma_step_wf(s: PaymentsState, m: Message, now: Timestamp)
    requires
        s.wf(),
    ensures
        s.step(m, now).state.wf(),
{
    let t = s.step(m, now).state;
    assert forall|k: Key| #[trigger] t.agreements.contains_key(k) implies t.agreements[k].wf()
        && t.agreements[k].id == k by {
        match m {
            Message::ActivityCreated(msg) => {
                let id = msg.agreement_id@;
                if s.agreements.contains_key(id) {
                    lemma_with_activity(s.agreements[id], msg.activity_id@, ActivityPayment::Running);
                }
            },
            Message::ActivityDestroyed(msg) => {
                let id = msg.agreement_id@;
                if s.agreements.contains_key(id) {
                    lemma_with_activity(
                        s.agreements[id],
                        msg.activity_id@,
                        ActivityPayment::Destroyed,
                    );
                }
            },
            Message::FinalizeActivity(msg) => {
                let id = msg.debit_info.agreement_id@;
                if s.agreements.contains_key(id) && s.agreements[id].can_finish(
                    msg.debit_info.activity_id@,
                ) {
                    lemma_with_activity(
                        s.agreements[id],
                        msg.debit_info.activity_id@,
                        ActivityPayment::Finalized { cost_info: msg.cost_summary },
                    );
                }
            },
            _ => {},
        }
    }
}

/// A tracked agreement leaves the ledger exactly when the settlement of its
/// invoice arrives: no other message releases it, and that one always does.
pub proof fn law_released_by_settlement_only(
    s: PaymentsState,
    m: Message,
    now: Timestamp,
    id: Key,
)
    requires
        s.wf(),
        s.agreements.contains_key(id),
    ensures
        !s.step(m, now).state.agreements.contains_key(id) <==> settles(m, id),
{
}

/// An agreement that is tracked after a message was tracked before it or
/// was approved by it: nothing else brings a ledger in.
pub proof fn law_tracked_by_approval_only(s: PaymentsState, m: Message, now: Timestamp, id: Key)
    requires
        s.wf(),
        !s.agreements.contains_key(id),
    ensures
        s.step(m, now).state.agreements.contains_key(id) <==> approves(m, id),
{
}

/// A debit note is asked for only for a running activity: a cost update of
/// an activity that runs no more ends the chain, and the final debit note is
/// asked for in the moment in which the activity stops running.
pub proof fn law_debit_notes_for_running_only(s: PaymentsState, m: Message, now: Timestamp)
    requires
        s.wf(),
    ensures
        match s.step(m, now).reply {
            Ok(ActionView::SendDebitNote { info, delay }) => {
                &&& s.activity(info.agreement_id, info.activity_id) == Some(ActivityPayment::Running)
                &&& m matches Message::UpdateCost(tick) && tick.invoice_info@ == info
                &&& s.step(m, now).state == s
            },
            Ok(ActionView::SendFinalDebitNote { info }) => {
                &&& s.activity(info.agreement_id, info.activity_id) == Some(ActivityPayment::Running)
                &&& s.step(m, now).state.activity(info.agreement_id, info.activity_id) == Some(
                    ActivityPayment::Destroyed,
                )
                &&& m matches Message::ActivityDestroyed(gone) && gone.agreement_id@
                    == info.agreement_id && gone.activity_id@ == info.activity_id
            },
            _ => true,
        },
{
    match m {
        Message::ActivityDestroyed(msg) => {
            let id = msg.agreement_id@;
            if s.agreements.contains_key(id) {
                lemma_with_activity(s.agreements[id], msg.activity_id@, ActivityPayment::Destroyed);
            }
        },
        _ => {},
    }
}

/// An activity that runs no more never runs again: whatever the engine is
/// told, short of a new approval of the agreement, the activity stays in the
/// ledger and is not running for as long as the agreement is tracked. So no
/// debit note follows the final one.
pub proof fn law_stopped_activity_stays_stopped(
    s: PaymentsState,
    m: Message,
    now: Timestamp,
    agreement_id: Key,
    activity_id: Key,
)
    requires
        s.wf(),
        s.activity(agreement_id, activity_id) is Some,
        s.activity(agreement_id, activity_id) != Some(ActivityPayment::Running),
        !approves(m, agreement_id),
    ensures
        s.step(m, now).state.agreements.contains_key(agreement_id) ==> {
            &&& s.step(m, now).state.activity(agreement_id, activity_id) is Some
            &&& s.step(m, now).state.activity(agreement_id, activity_id) != Some(
                ActivityPayment::Running,
            )
        },
        !(s.step(m, now).reply matches Ok(ActionView::SendFinalDebitNote { info })
            && info.agreement_id == agreement_id && info.activity_id == activity_id),
        !(s.step(m, now).reply matches Ok(ActionView::SendDebitNote { info, delay })
            && info.agreement_id == agreement_id && info.activity_id == activity_id),
{
    let l = s.agreements[agreement_id];
    match m {
        Message::ActivityCreated(msg) => {
            if msg.agreement_id@ == agreement_id {
                lemma_with_activity(l, msg.activity_id@, ActivityPayment::Running);
            }
        },
        Message::ActivityDestroyed(msg) => {
            if msg.agreement_id@ == agreement_id {
                lemma_with_activity(l, msg.activity_id@, ActivityPayment::Destroyed);
            }
        },
        Message::FinalizeActivity(msg) => {
            if msg.debit_info.agreement_id@ == agreement_id && l.can_finish(
                msg.debit_info.activity_id@,
            ) {
                lemma_with_activity(
                    l,
                    msg.debit_info.activity_id@,
                    ActivityPayment::Finalized { cost_info: msg.cost_summary },
                );
            }
        },
        _ => {},
    }
}

/// Whenever the engine asks for an invoice, the invoice is that of a tracked
/// agreement whose activities are all finalized: its amount is the sum of
/// their costs and it names exactly them.
pub proof fn law_invoice_sums_finalized(s: PaymentsState, m: Message, now: Timestamp)
    requires
        s.wf(),
    ensures
        match s.step(m, now).reply {
            Ok(ActionView::IssueInvoice { invoice }) => {
                let t = s.step(m, now).state;
                let l = t.agreements[invoice.agreement_id];
                &&& t.agreements.contains_key(invoice.agreement_id)
                &&& l.phase == BillingPhase::Summarized
                &&& l.finished()
                &&& invoice.amount == l.total()
                &&& invoice.activity_ids == Some(l.finalized())
                &&& invoice.payment_due_date == now
                &&& forall|k: Key| #[trigger]
                    l.finalized().contains(k) <==> l.activity(k) is Some
            },
            _ => true,
        },
{
    lemma_step_wf(s, m, now);
    match s.step(m, now).reply {
        Ok(ActionView::IssueInvoice { invoice }) => {
            let t = s.step(m, now).state;
            let l = t.agreements[invoice.agreement_id];
            match m {
                Message::FinalizeActivity(msg) => {
                    let id = msg.debit_info.agreement_id@;
                    lemma_with_activity(
                        s.agreements[id],
                        msg.debit_info.activity_id@,
                        ActivityPayment::Finalized { cost_info: msg.cost_summary },
                    );
                },
                _ => {},
            }
            assert(t.agreements.contains_key(invoice.agreement_id));
            assert(l.wf());
            assert forall|k: Key| #[trigger]
                l.finalized().contains(k) <==> l.activity(k) is Some by {
                lemma_finalized_ids(l.activities, k);
                if has_key(l.activities, k) {
                    let i = index_of(l.activities, k);
                    assert(l.activities[i].1 is Finalized);
                }
            }
        },
        _ => {},
    }
}

/// Closing an agreement a second time does nothing: once the billing of a
/// tracked agreement has left the `Open` phase, `AgreementClosed` and
/// `AgreementBroken` change nothing and ask for nothing, so there is no
/// second invoice.
pub proof fn law_second_closing_does_nothing(s: PaymentsState, id: Key, now: Timestamp)
    requires
        s.agreements.contains_key(id),
        s.agreements[id].phase != BillingPhase::Open,
    ensures
        s.agreement_closed(id, now).state == s,
        s.agreement_closed(id, now).reply == Ok::<ActionView, PaymentsError>(ActionView::Nothing),
{
}

/// The first closing of a tracked agreement takes its billing out of the
/// `Open` phase, and no message brings it back short of a new approval of the
/// agreement: for as long as the agreement is tracked, it stays closed.
pub proof fn law_closed_stays_closed(s: PaymentsState, m: Message, now: Timestamp, id: Key)
    requires
        s.wf(),
        s.agreements.contains_key(id),
        !approves(m, id),
    ensures
        s.agreement_closed(id, now).state.agreements.contains_key(id),
        s.agreement_closed(id, now).state.agreements[id].phase != BillingPhase::Open,
        s.agreements[id].phase != BillingPhase::Open && s.step(
            m,
            now,
        ).state.agreements.contains_key(id) ==> s.step(m, now).state.agreements[id].phase
            != BillingPhase::Open,
        s.agreements[id].phase != BillingPhase::Open && s.agreements[id].phase
            != BillingPhase::AwaitingActivities ==> !(s.step(m, now).reply matches Ok(
            ActionView::IssueInvoice { invoice },
        ) && invoice.agreement_id == id),
{
}

/// The earnings grow by the amount of each settled invoice and change at no
/// other message.
pub proof fn law_earnings_grow_by_settlements(s: PaymentsState, m: Message, now: Timestamp)
    ensures
        s.step(m, now).state.earnings == match m {
            Message::InvoiceSettled(Some(i)) => s.earnings.plus(i.amount@),
            _ => s.earnings,
        },
{
}

/// A message with the instant at which the engine takes it.
pub struct Arrival {
    pub message: Message,
    pub at: Timestamp,
}

/// The state of the engine after it has taken the arrivals in their order.
pub open spec fn run(s: PaymentsState, arrivals: Seq<Arrival>) -> PaymentsState
    decreases arrivals.len(),
{
    if arrivals.len() == 0 {
        s
    } else {
        run(s, arrivals.drop_last()).step(arrivals.last().message, arrivals.last().at).state
    }
}

/// The answer of the engine to the arrival at the place `i`.
pub open spec fn answer(s: PaymentsState, arrivals: Seq<Arrival>, i: int) -> Result<
    ActionView,
    PaymentsError,
> {
    run(s, arrivals.take(i)).step(arrivals[i].message, arrivals[i].at).reply
}

/// No arrival approves the agreement `id` anew.
pub open spec fn none_approves(arrivals: Seq<Arrival>, id: Key) -> bool {
    forall|i: int| 0 <= i < arrivals.len() ==> !approves(#[trigger] arrivals[i].message, id)
}

/// The answer asks for a debit note, be it the final one or not, for the
/// activity `activity_id` of the agreement `agreement_id`.
pub open spec fn asks_debit_note(
    reply: Result<ActionView, PaymentsError>,
    agreement_id: Key,
    activity_id: Key,
) -> bool {
    match reply {
        Ok(ActionView::SendDebitNote { info, delay }) => info.agreement_id == agreement_id
            && info.activity_id == activity_id,
        Ok(ActionView::SendFinalDebitNote { info }) => info.agreement_id == agreement_id
            && info.activity_id == activity_id,
        _ => false,
    }
}

/// The answer asks for the invoice of the agreement `id`.
pub open spec fn asks_invoice(reply: Result<ActionView, PaymentsError>, id: Key) -> bool {
    reply matches Ok(ActionView::IssueInvoice { invoice }) && invoice.agreement_id == id
}

/// The invoice of the agreement `id` has been asked for: the agreement is
/// tracked and its billing is past the wait for its activities.
pub open spec fn invoiced(s: PaymentsState, id: Key) -> bool {
    &&& s.agreements.contains_key(id)
    &&& s.agreements[id].phase != BillingPhase::Open
    &&& s.agreements[id].phase != BillingPhase::AwaitingActivities
}

/// The engine stays well formed whatever arrives.
pub proof fn lemma_run_wf(s: PaymentsState, arrivals: Seq<Arrival>)
    requires
        s.wf(),
    ensures
        run(s, arrivals).wf(),
    decreases arrivals.len(),
{
    if arrivals.len() > 0 {
        lemma_run_wf(s, arrivals.drop_last());
        lemma_step_wf(run(s, arrivals.drop_last()), arrivals.last().message, arrivals.last().at);
    }
}

/// The final debit note is the last one. Once an activity runs no more,
/// which it does from the moment in which its final debit note is asked
/// for, no debit note is asked for it again, whatever arrives and in
/// whatever order, short of a new approval of its agreement.
pub proof fn law_no_debit_note_after_the_final_one(
    s: PaymentsState,
    arrivals: Seq<Arrival>,
    agreement_id: Key,
    activity_id: Key,
    i: int,
)
    requires
        s.wf(),
        s.activity(agreement_id, activity_id) is Some,
        s.activity(agreement_id, activity_id) != Some(ActivityPayment::Running),
        none_approves(arrivals, agreement_id),
        0 <= i < arrivals.len(),
    ensures
        !asks_debit_note(answer(s, arrivals, i), agreement_id, activity_id),
{
    let before = arrivals.take(i);
    lemma_run_wf(s, before);
    lemma_stopped_for_good(s, before, agreement_id, activity_id);
    let t = run(s, before);
    let m = arrivals[i].message;
    assert(!approves(m, agreement_id));
    if t.agreements.contains_key(agreement_id) {
        law_stopped_activity_stays_stopped(t, m, arrivals[i].at, agreement_id, activity_id);
    } else {
        law_debit_notes_for_running_only(t, m, arrivals[i].at);
    }
}

/// An activity that runs no more is in its ledger and not running after any
/// arrivals, if its agreement is still tracked and was not approved anew.
pub proof fn lemma_stopped_for_good(
    s: PaymentsState,
    arrivals: Seq<Arrival>,
    agreement_id: Key,
    activity_id: Key,
)
    requires
        s.wf(),
        s.activity(agreement_id, activity_id) is Some,
        s.activity(agreement_id, activity_id) != Some(ActivityPayment::Running),
        none_approves(arrivals, agreement_id),
    ensures
        run(s, arrivals).agreements.contains_key(agreement_id) ==> {
            &&& run(s, arrivals).activity(agreement_id, activity_id) is Some
            &&& run(s, arrivals).activity(agreement_id, activity_id) != Some(
                ActivityPayment::Running,
            )
        },
    decreases arrivals.len(),
{
    if arrivals.len() > 0 {
        let before = arrivals.drop_last();
        let last = arrivals.last();
        assert forall|i: int| 0 <= i < before.len() implies !approves(
            #[trigger] before[i].message,
            agreement_id,
        ) by {
            assert(before[i] == arrivals[i]);
        }
        lemma_stopped_for_good(s, before, agreement_id, activity_id);
        lemma_run_wf(s, before);
        let t = run(s, before);
        assert(!approves(arrivals[arrivals.len() - 1].message, agreement_id));
        if t.agreements.contains_key(agreement_id) {
            law_stopped_activity_stays_stopped(t, last.message, last.at, agreement_id, activity_id);
        } else {
            law_tracked_by_approval_only(t, last.message, last.at, agreement_id);
        }
    }
}

/// One step keeps an agreement invoiced for as long as it is tracked, and
/// asks for no second invoice.
pub proof fn lemma_invoiced_once(s: PaymentsState, m: Message, now: Timestamp, id: Key)
    requires
        s.wf(),
        !approves(m, id),
        !s.agreements.contains_key(id) || invoiced(s, id),
    ensures
        !s.step(m, now).state.agreements.contains_key(id) || invoiced(s.step(m, now).state, id),
        !asks_invoice(s.step(m, now).reply, id),
{
    match m {
        Message::FinalizeActivity(msg) => {
            let a = msg.debit_info.agreement_id@;
            if s.agreements.contains_key(a) && s.agreements[a].can_finish(
                msg.debit_info.activity_id@,
            ) {
                lemma_with_activity(
                    s.agreements[a],
                    msg.debit_info.activity_id@,
                    ActivityPayment::Finalized { cost_info: msg.cost_summary },
                );
            }
        },
        _ => {},
    }
}

/// There is one invoice for an agreement. Once the invoice of a tracked
/// agreement has been asked for, no arrival makes the engine ask for it
/// again: not a second closing, not a broken agreement, not an activity that
/// is finalized late. This holds whatever arrives and in whatever order,
/// short of a new approval of the agreement.
pub proof fn law_no_second_invoice(s: PaymentsState, arrivals: Seq<Arrival>, id: Key, i: int)
    requires
        s.wf(),
        invoiced(s, id),
        none_approves(arrivals, id),
        0 <= i < arrivals.len(),
    ensures
        !asks_invoice(answer(s, arrivals, i), id),
{
    let before = arrivals.take(i);
    lemma_run_wf(s, before);
    lemma_invoiced_for_good(s, before, id);
    assert(!approves(arrivals[i].message, id));
    lemma_invoiced_once(run(s, before), arrivals[i].message, arrivals[i].at, id);
}

/// An invoiced agreement stays invoiced until it is released.
pub proof fn lemma_invoiced_for_good(s: PaymentsState, arrivals: Seq<Arrival>, id: Key)
    requires
        s.wf(),
        !s.agreements.contains_key(id) || invoiced(s, id),
        none_approves(arrivals, id),
    ensures
        !run(s, arrivals).agreements.contains_key(id) || invoiced(run(s, arrivals), id),
    decreases arrivals.len(),
{
    if arrivals.len() > 0 {
        let before = arrivals.drop_last();
        assert forall|i: int| 0 <= i < before.len() implies !approves(
            #[trigger] before[i].message,
            id,
        ) by {
            assert(before[i] == arrivals[i]);
        }
        lemma_invoiced_for_good(s, before, id);
        lemma_run_wf(s, before);
        assert(!approves(arrivals[arrivals.len() - 1].message, id));
        lemma_invoiced_once(run(s, before), arrivals.last().message, arrivals.last().at, id);
    }
}

/// The answer to the first closing of an agreement whose activities are all
/// finalized is its invoice, and from then on the agreement is invoiced; so
/// is the answer to the message that finalizes the last activity of a closed
/// agreement.
pub proof fn law_invoice_marks_the_agreement(s: PaymentsState, m: Message, now: Timestamp, id: Key)
    requires
        s.wf(),
        asks_invoice(s.step(m, now).reply, id),
    ensures
        invoiced(s.step(m, now).state, id),
        !invoiced(s, id),
{
    law_invoice_sums_finalized(s, m, now);
    if !approves(m, id) && (!s.agreements.contains_key(id) || invoiced(s, id)) {
        lemma_invoiced_once(s, m, now, id);
    }
}

/// A settlement of the agreement `id` is among the arrivals.
pub open spec fn settled_by(arrivals: Seq<Arrival>, id: Key) -> bool {
    exists|i: int|
        0 <= i < arrivals.len() && settles((#[trigger] arrivals[i]).message, id)
}

/// An agreement leaves the ledger through the settlement of its invoice and
/// in no other way: if a tracked agreement is tracked no more after some
/// arrivals, a settlement of it was among them.
pub proof fn law_released_only_after_settlement(s: PaymentsState, arrivals: Seq<Arrival>, id: Key)
    requires
        s.wf(),
        s.agreements.contains_key(id),
        !run(s, arrivals).agreements.contains_key(id),
    ensures
        settled_by(arrivals, id),
    decreases arrivals.len(),
{
    let n = arrivals.len() - 1;
    let before = arrivals.drop_last();
    assert(before =~= arrivals.take(n));
    let t = run(s, before);
    lemma_run_wf(s, before);
    if t.agreements.contains_key(id) {
        law_released_by_settlement_only(t, arrivals[n].message, arrivals[n].at, id);
        assert(settles(arrivals[n].message, id));
    } else {
        law_released_only_after_settlement(s, before, id);
        let i = choose|i: int| 0 <= i < before.len() && settles((#[trigger] before[i]).message, id);
        assert(before[i] == arrivals[i]);
        assert(settles(arrivals[i].message, id));
    }
}

} // verus!
