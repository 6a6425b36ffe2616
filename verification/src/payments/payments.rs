//! The payments engine: it keeps the ledger of every approved agreement and
//! decides, message by message, what has to be sent and when.
//!
//! The engine owns no clock and no connection. Each handler takes a message
//! (and the present instant where a date is made), changes the ledger and
//! answers with the [`Action`] that its caller has to carry out.

use crate::keyed::{Key, StrMap};
use crate::payments::payment_checker::DeadlineElapsed;
use crate::payments::agreement::{
    ActivityPayment, AgreementPayment, BillingPhase, CostInfo, Ledger, LedgerError, Millis,
    Timestamp,
};
use crate::payments::amount::{Amount, Decimal};
use vstd::prelude::*;

verus! {

/// What a debit note is about.
pub struct DebitNoteInfo {
    pub agreement_id: String,
    pub activity_id: String,
    /// Set on the final debit note of an activity only.
    pub payment_deadline: Option<Timestamp>,
}

/// A [`DebitNoteInfo`] as contracts see it.
pub struct DebitNoteInfoView {
    pub agreement_id: Key,
    pub activity_id: Key,
    pub payment_deadline: Option<Timestamp>,
}

impl View for DebitNoteInfo {
    type V = DebitNoteInfoView;

    open spec fn view(&self) -> DebitNoteInfoView {
        DebitNoteInfoView {
            agreement_id: self.agreement_id@,
            activity_id: self.activity_id@,
            payment_deadline: self.payment_deadline,
        }
    }
}

impl DebitNoteInfo {
    pub fn clone(&self) -> (r: Self)
        ensures
            r@ == self@,
    {
        DebitNoteInfo {
            agreement_id: self.agreement_id.clone(),
            activity_id: self.activity_id.clone(),
            payment_deadline: self.payment_deadline,
        }
    }
}

/// A tick of the cost update of a running activity: compute the cost and
/// send a debit note to the requestor.
pub struct UpdateCost {
    pub invoice_info: DebitNoteInfo,
}

/// Moves an activity to `Finalized` with its final cost. It is sent once the
/// last debit note of the activity has reached the requestor.
pub struct FinalizeActivity {
    pub debit_info: DebitNoteInfo,
    pub cost_summary: CostInfo,
}

/// An agreement was signed. `agreement_id` names it; the other fields are the
/// terms that the payments engine reads.
pub struct AgreementApproved {
    pub agreement_id: String,
    pub update_interval: Millis,
    pub payment_deadline: Option<Millis>,
}

/// An activity was created under an agreement.
pub struct ActivityCreated {
    pub agreement_id: String,
    pub activity_id: String,
}

/// An activity was destroyed.
pub struct ActivityDestroyed {
    pub agreement_id: String,
    pub activity_id: String,
}

/// An agreement was closed: its invoice is due.
pub struct AgreementClosed {
    pub agreement_id: String,
    pub send_terminate: bool,
}

/// An agreement was broken: it is billed as if it had been closed.
pub struct AgreementBroken {
    pub agreement_id: String,
}

/// Asks for the cost summary of an agreement.
pub struct GetAgreementSummary {
    pub agreement_id: String,
}

/// The payment interface has issued the invoice of an agreement.
pub struct InvoiceIssued {
    pub agreement_id: String,
    pub invoice_id: String,
}

/// The invoice of an agreement has reached the requestor.
pub struct InvoiceSent {
    pub agreement_id: String,
}

/// The cost summary of an agreement.
pub struct CostsSummary {
    pub agreement_id: String,
    pub cost_summary: CostInfo,
    pub activities: Vec<String>,
}

/// A debit note that is to be issued.
pub struct NewDebitNote {
    pub activity_id: String,
    pub total_amount_due: Amount,
    /// The usage that the amount is charged for.
    pub usage_counter_vector: Vec<Amount>,
    pub payment_due_date: Option<Timestamp>,
}

/// A debit note as the payment interface issued it.
pub struct DebitNote {
    pub debit_note_id: String,
    pub agreement_id: String,
    pub activity_id: String,
    pub total_amount_due: Amount,
}

/// An invoice that is to be issued.
pub struct NewInvoice {
    pub agreement_id: String,
    pub activity_ids: Option<Vec<String>>,
    pub amount: Amount,
    pub payment_due_date: Timestamp,
}

/// A [`NewInvoice`] as contracts see it.
pub struct NewInvoiceView {
    pub agreement_id: Key,
    pub activity_ids: Option<Seq<Key>>,
    pub amount: Decimal,
    pub payment_due_date: Timestamp,
}

impl View for NewInvoice {
    type V = NewInvoiceView;

    open spec fn view(&self) -> NewInvoiceView {
        NewInvoiceView {
            agreement_id: self.agreement_id@,
            activity_ids: match self.activity_ids {
                Some(ids) => Some(ids.deep_view()),
                None => None,
            },
            amount: self.amount@,
            payment_due_date: self.payment_due_date,
        }
    }
}

/// An invoice as the payment interface holds it.
pub struct Invoice {
    pub invoice_id: String,
    pub agreement_id: String,
    pub amount: Amount,
}

/// An [`Invoice`] as contracts see it.
pub struct InvoiceView {
    pub invoice_id: Key,
    pub agreement_id: Key,
    pub amount: Decimal,
}

impl View for Invoice {
    type V = InvoiceView;

    open spec fn view(&self) -> InvoiceView {
        InvoiceView {
            invoice_id: self.invoice_id@,
            agreement_id: self.agreement_id@,
            amount: self.amount@,
        }
    }
}

/// The settings of the payments engine.
pub struct PaymentsConfig {
    /// How long one question for events may stay open.
    pub get_events_timeout: Millis,
    /// How long to wait after a question for events has failed.
    pub get_events_error_timeout: Millis,
    /// How long to wait before an invoice is issued again.
    pub invoice_reissue_interval: Millis,
    /// How long to wait before an invoice or a final debit note is sent again.
    pub invoice_resend_interval: Millis,
    /// Names the stream of events that is meant for this engine.
    pub session_id: String,
}

impl PaymentsConfig {
    pub fn clone(&self) -> (c: Self)
        ensures
            c.get_events_timeout == self.get_events_timeout,
            c.get_events_error_timeout == self.get_events_error_timeout,
            c.invoice_reissue_interval == self.invoice_reissue_interval,
            c.invoice_resend_interval == self.invoice_resend_interval,
            c.session_id@ == self.session_id@,
    {
        PaymentsConfig {
            get_events_timeout: self.get_events_timeout,
            get_events_error_timeout: self.get_events_error_timeout,
            invoice_reissue_interval: self.invoice_reissue_interval,
            invoice_resend_interval: self.invoice_resend_interval,
            session_id: self.session_id.clone(),
        }
    }

    /// The settings with their usual values: events are awaited for 50 s,
    /// a failed question is repeated after 5 s, an invoice is issued again
    /// after 5 s and sent again after 50 s.
    pub fn new(session_id: String) -> (c: Self)
        ensures
            c.get_events_timeout == 50_000,
            c.get_events_error_timeout == 5_000,
            c.invoice_reissue_interval == 5_000,
            c.invoice_resend_interval == 50_000,
            c.session_id@ == session_id@,
    {
        PaymentsConfig {
            get_events_timeout: 50_000,
            get_events_error_timeout: 5_000,
            invoice_reissue_interval: 5_000,
            invoice_resend_interval: 50_000,
            session_id,
        }
    }
}

/// Why the engine refused a message.
#[derive(Clone, Copy, PartialEq, Eq, Structural, Debug)]
pub enum PaymentsError {
    /// No payment model could be made for the agreement.
    PaymentModel,
    /// The agreement of a new activity is not tracked.
    AgreementNotRegistered,
    /// The agreement of a destroyed activity is not tracked.
    UnknownAgreement,
    /// The activity of a cost update is not in the ledger of its agreement.
    ActivityNotFound,
    /// The agreement is not tracked.
    NotMyAgreement,
    /// The invoice could not be fetched.
    CannotGetInvoice,
}

/// What the caller of the engine has to do after a message.
pub enum Action {
    /// Nothing.
    Nothing,
    /// Hand `msg` to the engine after `delay`.
    NotifyLater { msg: UpdateCost, delay: Millis },
    /// Compute the cost of the activity, issue a debit note and send it;
    /// whether that works or not, hand `msg` to the engine after `delay`.
    SendDebitNote { msg: UpdateCost, delay: Millis },
    /// Compute the final cost of the activity, issue the final debit note and
    /// send it, again and again until it has arrived; then hand the engine a
    /// `FinalizeActivity` with the cost.
    SendFinalDebitNote { info: DebitNoteInfo },
    /// Issue the invoice, again and again until the payment interface has
    /// taken it; then hand the engine an `InvoiceIssued`.
    IssueInvoice { invoice: NewInvoice },
    /// Send the invoice, again and again until it has arrived; then hand the
    /// engine an `InvoiceSent`. The engine does not wait for it.
    SendInvoice { agreement_id: String, invoice_id: String },
}

/// An [`Action`] as contracts see it.
pub enum ActionView {
    Nothing,
    NotifyLater { info: DebitNoteInfoView, delay: Millis },
    SendDebitNote { info: DebitNoteInfoView, delay: Millis },
    SendFinalDebitNote { info: DebitNoteInfoView },
    IssueInvoice { invoice: NewInvoiceView },
    SendInvoice { agreement_id: Key, invoice_id: Key },
}

impl View for Action {
    type V = ActionView;

    open spec fn view(&self) -> ActionView {
        match self {
            Action::Nothing => ActionView::Nothing,
            Action::NotifyLater { msg, delay } => ActionView::NotifyLater {
                info: msg.invoice_info@,
                delay: *delay,
            },
            Action::SendDebitNote { msg, delay } => ActionView::SendDebitNote {
                info: msg.invoice_info@,
                delay: *delay,
            },
            Action::SendFinalDebitNote { info } => ActionView::SendFinalDebitNote { info: info@ },
            Action::IssueInvoice { invoice } => ActionView::IssueInvoice { invoice: invoice@ },
            Action::SendInvoice { agreement_id, invoice_id } => ActionView::SendInvoice {
                agreement_id: agreement_id@,
                invoice_id: invoice_id@,
            },
        }
    }
}

/// The state of the payments engine, as contracts see it.
pub struct PaymentsState {
    /// The ledger of every tracked agreement, by agreement id.
    pub agreements: Map<Key, Ledger>,
    /// The invoices that the requestor has accepted and not yet paid.
    pub invoices_to_pay: Seq<InvoiceView>,
    /// What has been paid so far.
    pub earnings: Decimal,
}

/// What a message does: the state after it and the answer to it.
pub struct Step {
    pub state: PaymentsState,
    pub reply: Result<ActionView, PaymentsError>,
}

/// The instant at which a final debit note is due: `deadline` after `now`,
/// or the last instant that a `Timestamp` holds where that is earlier.
pub open spec fn due_date(now: Timestamp, deadline: Millis) -> Timestamp {
    if now + deadline <= Timestamp::MAX {
        (now + deadline) as Timestamp
    } else {
        Timestamp::MAX
    }
}

/// The invoice of an agreement: it names the finalized activities and asks
/// for the sum of their costs, due at once.
pub open spec fn invoice_for(l: Ledger, now: Timestamp) -> NewInvoiceView {
    NewInvoiceView {
        agreement_id: l.id,
        activity_ids: Some(l.finalized()),
        amount: l.total(),
        payment_due_date: now,
    }
}

/// What a cost update is about when it starts the chain of an activity.
pub open spec fn first_update(agreement_id: Key, activity_id: Key) -> DebitNoteInfoView {
    DebitNoteInfoView { agreement_id, activity_id, payment_deadline: None }
}

/// The invoices of `s` other than the one with the id `invoice_id`, in their order.
pub open spec fn unpaid(s: Seq<InvoiceView>, invoice_id: Key) -> Seq<InvoiceView> {
    s.filter(|x: InvoiceView| x.invoice_id != invoice_id)
}

/// How the list of unpaid invoices grows with one more invoice of `s`.
pub proof fn lemma_unpaid_step(s: Seq<InvoiceView>, n: int, invoice_id: Key)
    requires
        0 <= n < s.len(),
    ensures
        unpaid(s.take(n + 1), invoice_id) == if s[n].invoice_id != invoice_id {
            unpaid(s.take(n), invoice_id).push(s[n])
        } else {
            unpaid(s.take(n), invoice_id)
        },
{
    reveal(Seq::filter);
    assert(s.take(n + 1).drop_last() =~= s.take(n));
    assert(s.take(n + 1).last() == s[n]);
}

impl PaymentsState {
    /// Every ledger is well formed and stands under the id of its agreement.
    pub open spec fn wf(self) -> bool {
        forall|k: Key| #[trigger]
            self.agreements.contains_key(k) ==> self.agreements[k].wf() && self.agreements[k].id
                == k
    }

    /// An engine that tracks nothing and has earned nothing.
    pub open spec fn empty() -> PaymentsState {
        PaymentsState {
            agreements: Map::empty(),
            invoices_to_pay: Seq::empty(),
            earnings: Decimal::zero(),
        }
    }

    /// The state with the ledger `l` under the agreement `id`.
    pub open spec fn with_ledger(self, id: Key, l: Ledger) -> PaymentsState {
        PaymentsState { agreements: self.agreements.insert(id, l), ..self }
    }

    /// The phase of an activity of a tracked agreement.
    pub open spec fn activity(self, agreement_id: Key, activity_id: Key) -> Option<ActivityPayment> {
        if self.agreements.contains_key(agreement_id) {
            self.agreements[agreement_id].activity(activity_id)
        } else {
            None
        }
    }

    /// The same state with an answer.
    pub open spec fn reply(self, reply: Result<ActionView, PaymentsError>) -> Step {
        Step { state: self, reply }
    }

    /// A signed agreement is tracked from now on with a fresh ledger, unless
    /// no payment model could be made for it.
    pub open spec fn approved(self, msg: AgreementApproved, model_built: bool) -> Step {
        if model_built {
            self.with_ledger(
                msg.agreement_id@,
                Ledger::fresh(msg.agreement_id@, msg.update_interval, msg.payment_deadline),
            ).reply(Ok(ActionView::Nothing))
        } else {
            self.reply(Err(PaymentsError::PaymentModel))
        }
    }

    /// A new activity of a tracked agreement is entered as running, and its
    /// first cost update is due after one update interval.
    pub open spec fn activity_created(self, msg: ActivityCreated) -> Step {
        let id = msg.agreement_id@;
        if self.agreements.contains_key(id) {
            let l = self.agreements[id];
            let entered = if l.activity(msg.activity_id@) is None {
                l.with_activity(msg.activity_id@, ActivityPayment::Running)
            } else {
                l
            };
            self.with_ledger(id, entered).reply(
                Ok(
                    ActionView::NotifyLater {
                        info: first_update(id, msg.activity_id@),
                        delay: l.update_interval,
                    },
                ),
            )
        } else {
            self.reply(Err(PaymentsError::AgreementNotRegistered))
        }
    }

    /// A cost update of a running activity sends a debit note and comes back
    /// after one update interval; for an activity that runs no more the chain
    /// of updates ends, and so it does, without a word, for an agreement that
    /// is tracked no more.
    pub open spec fn update_cost(self, msg: UpdateCost) -> Step {
        let id = msg.invoice_info.agreement_id@;
        if !self.agreements.contains_key(id) {
            self.reply(Ok(ActionView::Nothing))
        } else {
            let l = self.agreements[id];
            match l.activity(msg.invoice_info.activity_id@) {
                None => self.reply(Err(PaymentsError::ActivityNotFound)),
                Some(ActivityPayment::Running) => self.reply(
                    Ok(
                        ActionView::SendDebitNote {
                            info: msg.invoice_info@,
                            delay: l.update_interval,
                        },
                    ),
                ),
                Some(_) => self.reply(Ok(ActionView::Nothing)),
            }
        }
    }

    /// A running activity that is destroyed stops running, and its final
    /// debit note is to be delivered. For any other activity of a tracked
    /// agreement nothing happens.
    pub open spec fn activity_destroyed(self, msg: ActivityDestroyed, now: Timestamp) -> Step {
        let id = msg.agreement_id@;
        if !self.agreements.contains_key(id) {
            self.reply(Err(PaymentsError::UnknownAgreement))
        } else {
            let l = self.agreements[id];
            if l.activity(msg.activity_id@) == Some(ActivityPayment::Running) {
                self.with_ledger(
                    id,
                    l.with_activity(msg.activity_id@, ActivityPayment::Destroyed),
                ).reply(
                    Ok(
                        ActionView::SendFinalDebitNote {
                            info: DebitNoteInfoView {
                                agreement_id: id,
                                activity_id: msg.activity_id@,
                                payment_deadline: match l.payment_deadline {
                                    Some(d) => Some(due_date(now, d)),
                                    None => None,
                                },
                            },
                        },
                    ),
                )
            } else {
                self.reply(Ok(ActionView::Nothing))
            }
        }
    }

    /// The ledger of a closed agreement: once every activity is finalized the
    /// costs are summed up and the invoice is to be issued.
    pub open spec fn billed(self, l: Ledger, now: Timestamp) -> Step {
        if l.finished() {
            self.with_ledger(l.id, l.with_phase(BillingPhase::Summarized)).reply(
                Ok(ActionView::IssueInvoice { invoice: invoice_for(l, now) }),
            )
        } else {
            self.with_ledger(l.id, l.with_phase(BillingPhase::AwaitingActivities)).reply(
                Ok(ActionView::Nothing),
            )
        }
    }

    /// A destroyed activity gets its final cost. Where the agreement is
    /// closed and this was the last activity to wait for, the invoice is to
    /// be issued. A message that the ledger refuses changes nothing.
    pub open spec fn finalize_activity(self, msg: FinalizeActivity, now: Timestamp) -> Step {
        let id = msg.debit_info.agreement_id@;
        if self.agreements.contains_key(id) && self.agreements[id].can_finish(
            msg.debit_info.activity_id@,
        ) {
            let l = self.agreements[id].with_activity(
                msg.debit_info.activity_id@,
                ActivityPayment::Finalized { cost_info: msg.cost_summary },
            );
            if l.phase == BillingPhase::AwaitingActivities && l.finished() {
                self.billed(l, now)
            } else {
                self.with_ledger(id, l).reply(Ok(ActionView::Nothing))
            }
        } else {
            self.reply(Ok(ActionView::Nothing))
        }
    }

    /// A tracked agreement that is closed for the first time is billed; a
    /// second closing changes nothing and asks for nothing.
    pub open spec fn agreement_closed(self, agreement_id: Key, now: Timestamp) -> Step {
        if !self.agreements.contains_key(agreement_id) {
            self.reply(Err(PaymentsError::NotMyAgreement))
        } else if self.agreements[agreement_id].phase != BillingPhase::Open {
            self.reply(Ok(ActionView::Nothing))
        } else {
            self.billed(self.agreements[agreement_id], now)
        }
    }

    /// A broken agreement is closed; one that is not tracked is passed over.
    pub open spec fn agreement_broken(self, msg: AgreementBroken, now: Timestamp) -> Step {
        if !self.agreements.contains_key(msg.agreement_id@) {
            self.reply(Ok(ActionView::Nothing))
        } else {
            self.agreement_closed(msg.agreement_id@, now)
        }
    }

    /// Once the invoice of a summed-up agreement is issued it is to be sent.
    pub open spec fn invoice_issued(self, msg: InvoiceIssued) -> Step {
        let id = msg.agreement_id@;
        if self.agreements.contains_key(id) && self.agreements[id].phase
            == BillingPhase::Summarized {
            self.with_ledger(id, self.agreements[id].with_phase(BillingPhase::InvoiceIssued)).reply(
                Ok(ActionView::SendInvoice { agreement_id: id, invoice_id: msg.invoice_id@ }),
            )
        } else {
            self.reply(Ok(ActionView::Nothing))
        }
    }

    /// The invoice of an agreement has arrived.
    pub open spec fn invoice_sent(self, msg: InvoiceSent) -> Step {
        let id = msg.agreement_id@;
        if self.agreements.contains_key(id) && self.agreements[id].phase
            == BillingPhase::InvoiceIssued {
            self.with_ledger(id, self.agreements[id].with_phase(BillingPhase::InvoiceSent)).reply(
                Ok(ActionView::Nothing),
            )
        } else {
            self.reply(Ok(ActionView::Nothing))
        }
    }

    /// An accepted invoice, once fetched, waits to be paid.
    pub open spec fn invoice_accepted(self, invoice: Option<InvoiceView>) -> Step {
        match invoice {
            Some(i) => PaymentsState {
                invoices_to_pay: self.invoices_to_pay.push(i),
                ..self
            }.reply(Ok(ActionView::Nothing)),
            None => self.reply(Err(PaymentsError::CannotGetInvoice)),
        }
    }

    /// A settled invoice, once fetched, ends its agreement: the ledger is
    /// released, the invoice waits no longer, and its amount is earned.
    pub open spec fn invoice_settled(self, invoice: Option<InvoiceView>) -> Step {
        match invoice {
            Some(i) => PaymentsState {
                agreements: self.agreements.remove(i.agreement_id),
                invoices_to_pay: unpaid(self.invoices_to_pay, i.invoice_id),
                earnings: self.earnings.plus(i.amount),
            }.reply(Ok(ActionView::Nothing)),
            None => self.reply(Err(PaymentsError::CannotGetInvoice)),
        }
    }
}

/// The invoices that a list holds, as contracts see them.
pub open spec fn invoice_views(v: Seq<Invoice>) -> Seq<InvoiceView> {
    v.map_values(|i: Invoice| i@)
}

/// Computes charges for the execution of tasks and decides which payment
/// documents go to the requestor.
pub struct Payments {
    config: PaymentsConfig,
    agreements: StrMap<AgreementPayment>,
    invoices_to_pay: Vec<Invoice>,
    earnings: Amount,
}

impl View for Payments {
    type V = PaymentsState;

    closed spec fn view(&self) -> PaymentsState {
        PaymentsState {
            agreements: self.agreements@.map_values(|a: AgreementPayment| a@),
            invoices_to_pay: invoice_views(self.invoices_to_pay@),
            earnings: self.earnings@,
        }
    }
}

impl Payments {
    /// The agreements are distinct, and each ledger is well formed and
    /// stands under the id of its agreement.
    pub closed spec fn wf(&self) -> bool {
        &&& self.agreements.wf()
        &&& forall|k: Key| #[trigger]
            self.agreements@.contains_key(k) ==> self.agreements@[k].wf() && self.agreements@[k]@.id
                == k
    }

    /// The settings that the engine was made with.
    pub closed spec fn settings(&self) -> PaymentsConfig {
        self.config
    }

    /// The view of a well-formed engine is well formed.
    pub proof fn lemma_wf(&self)
        requires
            self.wf(),
        ensures
            self@.wf(),
    {
        assert forall|k: Key| #[trigger] self@.agreements.contains_key(k) implies self@.agreements[k].wf()
            && self@.agreements[k].id == k by {
            assert(self.agreements@.contains_key(k));
            self.agreements@[k].lemma_wf();
        }
    }

    /// An engine that tracks no agreement.
    pub fn new(config: PaymentsConfig) -> (p: Payments)
        ensures
            p.wf(),
            p@ == PaymentsState::empty(),
            p.settings() == config,
    {
        let p = Payments {
            config,
            agreements: StrMap::new(),
            invoices_to_pay: Vec::new(),
            earnings: Amount::zero(),
        };
        assert(p@.agreements =~= Map::empty());
        assert(p@.invoices_to_pay =~= Seq::empty());
        p
    }

    pub fn config(&self) -> (c: &PaymentsConfig)
        ensures
            *c == self.settings(),
    {
        &self.config
    }

    /// What has been paid so far.
    pub fn earnings(&self) -> (r: &Amount)
        ensures
            r@ == self@.earnings,
    {
        &self.earnings
    }

    /// How many accepted invoices wait to be paid.
    pub fn invoices_to_pay(&self) -> (r: usize)
        ensures
            r == self@.invoices_to_pay.len(),
    {
        self.invoices_to_pay.len()
    }

    /// The accepted invoice at the place `i` of those that wait to be paid.
    pub fn invoice_to_pay(&self, i: usize) -> (r: &Invoice)
        requires
            i < self@.invoices_to_pay.len(),
        ensures
            r@ == self@.invoices_to_pay[i as int],
    {
        &self.invoices_to_pay[i]
    }

    /// Whether the agreement is tracked.
    pub fn is_tracked(&self, agreement_id: &str) -> (r: bool)
        requires
            self.wf(),
        ensures
            r == self@.agreements.contains_key(agreement_id@),
    {
        self.agreements.contains_key(agreement_id)
    }

    /// How far the billing of a tracked agreement has come.
    pub fn billing_phase(&self, agreement_id: &str) -> (r: Option<BillingPhase>)
        requires
            self.wf(),
        ensures
            r == if self@.agreements.contains_key(agreement_id@) {
                Some(self@.agreements[agreement_id@].phase)
            } else {
                None
            },
    {
        match self.agreements.get(agreement_id) {
            Some(a) => Some(a.billing_phase()),
            None => None,
        }
    }

    /// The phase of an activity of a tracked agreement.
    pub fn activity_state(&self, agreement_id: &str, activity_id: &str) -> (r: Option<
        &ActivityPayment,
    >)
        requires
            self.wf(),
        ensures
            match r {
                Some(a) => self@.activity(agreement_id@, activity_id@) == Some(*a),
                None => self@.activity(agreement_id@, activity_id@) is None,
            },
    {
        match self.agreements.get(agreement_id) {
            Some(a) => a.activity_state(activity_id),
            None => None,
        }
    }

    /// Takes the ledger of an agreement out of the engine.
    fn take(&mut self, agreement_id: &str) -> (r: Option<AgreementPayment>)
        requires
            old(self).wf(),
        ensures
            final(self).wf(),
            final(self).settings() == old(self).settings(),
            final(self)@ == (PaymentsState {
                agreements: old(self)@.agreements.remove(agreement_id@),
                ..old(self)@
            }),
            match r {
                Some(a) => old(self)@.agreements.contains_key(agreement_id@) && a.wf() && a@
                    == old(self)@.agreements[agreement_id@] && a@.id == agreement_id@,
                None => !old(self)@.agreements.contains_key(agreement_id@),
            },
    {
        let r = self.agreements.remove(agreement_id);
        assert(self@.agreements =~= old(self)@.agreements.remove(agreement_id@));
        r
    }

    /// Puts a ledger into the engine, under the id of its agreement.
    fn store(&mut self, a: AgreementPayment)
        requires
            old(self).wf(),
            a.wf(),
        ensures
            final(self).wf(),
            final(self).settings() == old(self).settings(),
            final(self)@ == old(self)@.with_ledger(a@.id, a@),
    {
        let key = a.agreement_id().clone();
        self.agreements.insert(key, a);
        assert(self@.agreements =~= old(self)@.agreements.insert(a@.id, a@));
    }
}

/// `deadline` after `now`, as far as a `Timestamp` reaches.
pub fn due_date_at(now: Timestamp, deadline: Millis) -> (r: Timestamp)
    ensures
        r == due_date(now, deadline),
{
    match now.checked_add(deadline) {
        Some(t) => t,
        None => Timestamp::MAX,
    }
}

impl Payments {
    /// Starts to track a signed agreement. `model_built` says whether a
    /// payment model could be made for it; where none could, the agreement
    /// is not tracked and the error is returned.
    pub fn on_signed_agreement(&mut self, msg: AgreementApproved, model_built: bool) -> (r: Result<
        (),
        PaymentsError,
    >)
        requires
            old(self).wf(),
        ensures
            final(self).wf(),
            final(self).settings() == old(self).settings(),
            final(self)@ == old(self)@.approved(msg, model_built).state,
            r is Ok == model_built,
            r is Err ==> r == Err::<(), PaymentsError>(PaymentsError::PaymentModel),
    {
        if !model_built {
            return Err(PaymentsError::PaymentModel);
        }
        let a = AgreementPayment::new(msg.agreement_id, msg.update_interval, msg.payment_deadline);
        self.store(a);
        Ok(())
    }

    /// Enters a new activity and asks for its first cost update.
    pub fn on_activity_created(&mut self, msg: &ActivityCreated) -> (r: Result<
        Action,
        PaymentsError,
    >)
        requires
            old(self).wf(),
        ensures
            final(self).wf(),
            final(self).settings() == old(self).settings(),
            final(self)@ == old(self)@.activity_created(*msg).state,
            match r {
                Ok(a) => old(self)@.activity_created(*msg).reply == Ok::<
                    ActionView,
                    PaymentsError,
                >(a@),
                Err(e) => old(self)@.activity_created(*msg).reply == Err::<
                    ActionView,
                    PaymentsError,
                >(e),
            },
    {
        let ghost before = self@;
        match self.take(msg.agreement_id.as_str()) {
            None => {
                assert(self@.agreements =~= before.agreements);
                Err(PaymentsError::AgreementNotRegistered)
            },
            Some(a) => {
                let mut a = a;
                let delay = a.update_interval();
                let _ = a.add_created_activity(msg.activity_id.as_str());
                self.store(a);
                assert(self@.agreements =~= before.agreements.insert(msg.agreement_id@, a@));
                Ok(
                    Action::NotifyLater {
                        msg: UpdateCost {
                            invoice_info: DebitNoteInfo {
                                agreement_id: msg.agreement_id.clone(),
                                activity_id: msg.activity_id.clone(),
                                payment_deadline: None,
                            },
                        },
                        delay,
                    },
                )
            },
        }
    }

    /// Decides what a cost update does: a debit note for a running
    /// activity, nothing for one that runs no more.
    pub fn on_update_cost(&self, msg: UpdateCost) -> (r: Result<Action, PaymentsError>)
        requires
            self.wf(),
        ensures
            self@.update_cost(msg).state == self@,
            match r {
                Ok(a) => self@.update_cost(msg).reply == Ok::<ActionView, PaymentsError>(a@),
                Err(e) => self@.update_cost(msg).reply == Err::<ActionView, PaymentsError>(e),
            },
    {
        match self.agreements.get(msg.invoice_info.agreement_id.as_str()) {
            None => Ok(Action::Nothing),
            Some(a) => {
                match a.activity_state(msg.invoice_info.activity_id.as_str()) {
                    None => Err(PaymentsError::ActivityNotFound),
                    Some(ActivityPayment::Running) => {
                        let delay = a.update_interval();
                        Ok(Action::SendDebitNote { msg, delay })
                    },
                    Some(_) => Ok(Action::Nothing),
                }
            },
        }
    }

    /// Stops a running activity and asks for its final debit note, which is
    /// due the agreement's payment deadline after `now`.
    pub fn on_activity_destroyed(&mut self, msg: &ActivityDestroyed, now: Timestamp) -> (r: Result<
        Action,
        PaymentsError,
    >)
        requires
            old(self).wf(),
        ensures
            final(self).wf(),
            final(self).settings() == old(self).settings(),
            final(self)@ == old(self)@.activity_destroyed(*msg, now).state,
            match r {
                Ok(a) => old(self)@.activity_destroyed(*msg, now).reply == Ok::<
                    ActionView,
                    PaymentsError,
                >(a@),
                Err(e) => old(self)@.activity_destroyed(*msg, now).reply == Err::<
                    ActionView,
                    PaymentsError,
                >(e),
            },
    {
        let ghost before = self@;
        match self.take(msg.agreement_id.as_str()) {
            None => {
                assert(self@.agreements =~= before.agreements);
                Err(PaymentsError::UnknownAgreement)
            },
            Some(a) => {
                let mut a = a;
                let destroyed = a.activity_destroyed(msg.activity_id.as_str());
                let deadline = match a.payment_deadline() {
                    Some(d) => Some(due_date_at(now, d)),
                    None => None,
                };
                self.store(a);
                assert(self@.agreements =~= before.agreements.insert(msg.agreement_id@, a@));
                match destroyed {
                    Ok(_) => Ok(
                        Action::SendFinalDebitNote {
                            info: DebitNoteInfo {
                                agreement_id: msg.agreement_id.clone(),
                                activity_id: msg.activity_id.clone(),
                                payment_deadline: deadline,
                            },
                        },
                    ),
                    Err(_) => {
                        assert(self@.agreements =~= before.agreements);
                        Ok(Action::Nothing)
                    },
                }
            },
        }
    }
}

/// The same answer, seen through the view of its action.
pub open spec fn reply_view(r: Result<Action, PaymentsError>) -> Result<ActionView, PaymentsError> {
    match r {
        Ok(a) => Ok(a@),
        Err(e) => Err(e),
    }
}

impl Payments {
    /// Bills a closed agreement: sums it up if all its activities are
    /// finalized, else lets it wait for them; then puts the ledger back.
    fn bill(&mut self, a: AgreementPayment, now: Timestamp) -> (r: Action)
        requires
            old(self).wf(),
            a.wf(),
        ensures
            final(self).wf(),
            final(self).settings() == old(self).settings(),
            final(self)@ == old(self)@.billed(a@, now).state,
            Ok::<ActionView, PaymentsError>(r@) == old(self)@.billed(a@, now).reply,
    {
        let mut a = a;
        proof {
            a.lemma_wf();
        }
        if a.activities_finished() {
            let invoice = NewInvoice {
                agreement_id: a.agreement_id().clone(),
                activity_ids: Some(a.list_activities()),
                amount: a.cost_summary().cost,
                payment_due_date: now,
            };
            a.set_phase(BillingPhase::Summarized);
            self.store(a);
            Action::IssueInvoice { invoice }
        } else {
            a.set_phase(BillingPhase::AwaitingActivities);
            self.store(a);
            Action::Nothing
        }
    }

    /// Gives a destroyed activity its final cost and, where the closed
    /// agreement waited for it alone, asks for the invoice. A message that
    /// does not fit the ledger is passed over.
    pub fn on_finalize_activity(&mut self, msg: FinalizeActivity, now: Timestamp) -> (r: Action)
        requires
            old(self).wf(),
        ensures
            final(self).wf(),
            final(self).settings() == old(self).settings(),
            final(self)@ == old(self)@.finalize_activity(msg, now).state,
            Ok::<ActionView, PaymentsError>(r@) == old(self)@.finalize_activity(msg, now).reply,
    {
        let ghost before = self@;
        let ghost id = msg.debit_info.agreement_id@;
        let FinalizeActivity { debit_info, cost_summary } = msg;
        match self.take(debit_info.agreement_id.as_str()) {
            None => {
                assert(self@.agreements =~= before.agreements);
                Action::Nothing
            },
            Some(a) => {
                let mut a = a;
                let finished = a.finish_activity(debit_info.activity_id.as_str(), cost_summary);
                match finished {
                    Ok(_) => {
                        let waiting = match a.billing_phase() {
                            BillingPhase::AwaitingActivities => true,
                            _ => false,
                        };
                        if waiting && a.activities_finished() {
                            let r = self.bill(a, now);
                            assert(self@.agreements =~= before.billed(a@, now).state.agreements);
                            r
                        } else {
                            self.store(a);
                            assert(self@.agreements =~= before.agreements.insert(id, a@));
                            Action::Nothing
                        }
                    },
                    Err(_) => {
                        self.store(a);
                        assert(self@.agreements =~= before.agreements);
                        Action::Nothing
                    },
                }
            },
        }
    }

    /// Bills an agreement that is closed for the first time.
    pub fn on_agreement_closed(&mut self, msg: &AgreementClosed, now: Timestamp) -> (r: Result<
        Action,
        PaymentsError,
    >)
        requires
            old(self).wf(),
        ensures
            final(self).wf(),
            final(self).settings() == old(self).settings(),
            final(self)@ == old(self)@.agreement_closed(msg.agreement_id@, now).state,
            reply_view(r) == old(self)@.agreement_closed(msg.agreement_id@, now).reply,
    {
        self.close(msg.agreement_id.as_str(), now)
    }

    fn close(&mut self, agreement_id: &str, now: Timestamp) -> (r: Result<Action, PaymentsError>)
        requires
            old(self).wf(),
        ensures
            final(self).wf(),
            final(self).settings() == old(self).settings(),
            final(self)@ == old(self)@.agreement_closed(agreement_id@, now).state,
            reply_view(r) == old(self)@.agreement_closed(agreement_id@, now).reply,
    {
        let ghost before = self@;
        match self.take(agreement_id) {
            None => {
                assert(self@.agreements =~= before.agreements);
                Err(PaymentsError::NotMyAgreement)
            },
            Some(a) => {
                let open = match a.billing_phase() {
                    BillingPhase::Open => true,
                    _ => false,
                };
                if open {
                    let r = self.bill(a, now);
                    assert(self@.agreements =~= before.billed(a@, now).state.agreements);
                    Ok(r)
                } else {
                    self.store(a);
                    assert(self@.agreements =~= before.agreements);
                    Ok(Action::Nothing)
                }
            },
        }
    }

    /// Bills a broken agreement as if it had been closed.
    pub fn on_agreement_broken(&mut self, msg: &AgreementBroken, now: Timestamp) -> (r: Result<
        Action,
        PaymentsError,
    >)
        requires
            old(self).wf(),
        ensures
            final(self).wf(),
            final(self).settings() == old(self).settings(),
            final(self)@ == old(self)@.agreement_broken(*msg, now).state,
            reply_view(r) == old(self)@.agreement_broken(*msg, now).reply,
    {
        if !self.agreements.contains_key(msg.agreement_id.as_str()) {
            return Ok(Action::Nothing);
        }
        self.close(msg.agreement_id.as_str(), now)
    }

    /// Notes that the invoice of an agreement is issued, and asks to send it.
    pub fn on_invoice_issued(&mut self, msg: &InvoiceIssued) -> (r: Action)
        requires
            old(self).wf(),
        ensures
            final(self).wf(),
            final(self).settings() == old(self).settings(),
            final(self)@ == old(self)@.invoice_issued(*msg).state,
            Ok::<ActionView, PaymentsError>(r@) == old(self)@.invoice_issued(*msg).reply,
    {
        let ghost before = self@;
        match self.take(msg.agreement_id.as_str()) {
            None => {
                assert(self@.agreements =~= before.agreements);
                Action::Nothing
            },
            Some(a) => {
                let mut a = a;
                let summed = match a.billing_phase() {
                    BillingPhase::Summarized => true,
                    _ => false,
                };
                if summed {
                    a.set_phase(BillingPhase::InvoiceIssued);
                    self.store(a);
                    assert(self@.agreements =~= before.agreements.insert(msg.agreement_id@, a@));
                    Action::SendInvoice {
                        agreement_id: msg.agreement_id.clone(),
                        invoice_id: msg.invoice_id.clone(),
                    }
                } else {
                    self.store(a);
                    assert(self@.agreements =~= before.agreements);
                    Action::Nothing
                }
            },
        }
    }

    /// Notes that the invoice of an agreement has arrived.
    pub fn on_invoice_sent(&mut self, msg: &InvoiceSent)
        requires
            old(self).wf(),
        ensures
            final(self).wf(),
            final(self).settings() == old(self).settings(),
            final(self)@ == old(self)@.invoice_sent(*msg).state,
    {
        let ghost before = self@;
        match self.take(msg.agreement_id.as_str()) {
            None => {
                assert(self@.agreements =~= before.agreements);
            },
            Some(a) => {
                let mut a = a;
                let issued = match a.billing_phase() {
                    BillingPhase::InvoiceIssued => true,
                    _ => false,
                };
                if issued {
                    a.set_phase(BillingPhase::InvoiceSent);
                    self.store(a);
                    assert(self@.agreements =~= before.agreements.insert(msg.agreement_id@, a@));
                } else {
                    self.store(a);
                    assert(self@.agreements =~= before.agreements);
                }
            },
        }
    }

    /// The cost summary of a tracked agreement: what its finalized
    /// activities cost together, and which they are.
    pub fn get_agreement_summary(&self, msg: &GetAgreementSummary) -> (r: Result<
        CostsSummary,
        PaymentsError,
    >)
        requires
            self.wf(),
        ensures
            match r {
                Ok(s) => {
                    &&& self@.agreements.contains_key(msg.agreement_id@)
                    &&& s.agreement_id@ == msg.agreement_id@
                    &&& s.cost_summary.cost@ == self@.agreements[msg.agreement_id@].total()
                    &&& s.cost_summary@.usage == self@.agreements[msg.agreement_id@].usage()
                    &&& s.activities.deep_view() == self@.agreements[msg.agreement_id@].finalized()
                },
                Err(e) => e == PaymentsError::NotMyAgreement && !self@.agreements.contains_key(
                    msg.agreement_id@,
                ),
            },
    {
        match self.agreements.get(msg.agreement_id.as_str()) {
            Some(a) => Ok(
                CostsSummary {
                    agreement_id: msg.agreement_id.clone(),
                    cost_summary: a.cost_summary(),
                    activities: a.list_activities(),
                },
            ),
            None => Err(PaymentsError::NotMyAgreement),
        }
    }
}

impl Payments {
    /// Takes the invoice with the id `invoice_id` out of the invoices that
    /// wait to be paid.
    fn forget_invoice(&mut self, invoice_id: &str)
        requires
            old(self).wf(),
        ensures
            final(self).wf(),
            final(self).settings() == old(self).settings(),
            final(self)@ == (PaymentsState {
                invoices_to_pay: unpaid(old(self)@.invoices_to_pay, invoice_id@),
                ..old(self)@
            }),
    {
        let ghost s = self@.invoices_to_pay;
        let ghost before = *self;
        let mut i: usize = 0;
        proof {
            reveal(Seq::filter);
            assert(s.take(0) =~= Seq::empty());
            assert(self@.invoices_to_pay.take(0) =~= Seq::empty());
            assert(s.skip(0) =~= s);
        }
        while i < self.invoices_to_pay.len()
            invariant
                self.agreements == before.agreements,
                self.config == before.config,
                self.earnings == before.earnings,
                i <= self.invoices_to_pay.len(),
                self@.invoices_to_pay.len() <= s.len(),
                self@.invoices_to_pay.take(i as int) == unpaid(
                    s.take(i + (s.len() - self@.invoices_to_pay.len())),
                    invoice_id@,
                ),
                self@.invoices_to_pay.skip(i as int) == s.skip(
                    i + (s.len() - self@.invoices_to_pay.len()),
                ),
            decreases self.invoices_to_pay.len() - i,
        {
            let ghost cur = self@.invoices_to_pay;
            let ghost d = s.len() - cur.len();
            proof {
                lemma_unpaid_step(s, i + d, invoice_id@);
                assert(cur[i as int] == cur.skip(i as int)[0]);
                assert(s[i + d] == s.skip(i + d)[0]);
            }
            if crate::keyed::same_text(self.invoices_to_pay[i].invoice_id.as_str(), invoice_id) {
                self.invoices_to_pay.remove(i);
                proof {
                    assert(self@.invoices_to_pay =~= cur.remove(i as int));
                    assert(self@.invoices_to_pay.take(i as int) =~= cur.take(i as int));
                    assert(self@.invoices_to_pay.skip(i as int) =~= cur.skip(i + 1));
                    assert(cur.skip(i + 1) =~= cur.skip(i as int).skip(1));
                    assert(s.skip(i + d + 1) =~= s.skip(i + d).skip(1));
                }
            } else {
                proof {
                    assert(cur.take(i + 1) =~= cur.take(i as int).push(cur[i as int]));
                    assert(cur.skip(i + 1) =~= cur.skip(i as int).skip(1));
                    assert(s.skip(i + d + 1) =~= s.skip(i + d).skip(1));
                }
                i += 1;
            }
        }
        proof {
            assert(self@.invoices_to_pay.take(i as int) =~= self@.invoices_to_pay);
            assert(self@.invoices_to_pay.skip(i as int).len() == 0);
            assert(s.take(s.len() as int) =~= s);
        }
    }

    /// Puts an accepted invoice among those that wait to be paid. `invoice`
    /// is what fetching the invoice gave: `None` where it could not be had.
    pub fn on_invoice_accepted(&mut self, invoice: Option<Invoice>) -> (r: Result<
        (),
        PaymentsError,
    >)
        requires
            old(self).wf(),
        ensures
            final(self).wf(),
            final(self).settings() == old(self).settings(),
            final(self)@ == old(self)@.invoice_accepted(
                match invoice {
                    Some(i) => Some(i@),
                    None => None,
                },
            ).state,
            r == if invoice is Some {
                Ok::<(), PaymentsError>(())
            } else {
                Err(PaymentsError::CannotGetInvoice)
            },
    {
        match invoice {
            Some(i) => {
                self.invoices_to_pay.push(i);
                assert(self@.invoices_to_pay =~= old(self)@.invoices_to_pay.push(i@));
                Ok(())
            },
            None => Err(PaymentsError::CannotGetInvoice),
        }
    }

    /// Ends the agreement of a settled invoice: its ledger is released, the
    /// invoice waits no longer, and its amount is added to the earnings.
    /// `invoice` is what fetching the invoice gave: `None` where it could
    /// not be had.
    pub fn on_invoice_settled(&mut self, invoice: Option<Invoice>) -> (r: Result<
        (),
        PaymentsError,
    >)
        requires
            old(self).wf(),
        ensures
            final(self).wf(),
            final(self).settings() == old(self).settings(),
            final(self)@ == old(self)@.invoice_settled(
                match invoice {
                    Some(i) => Some(i@),
                    None => None,
                },
            ).state,
            r == if invoice is Some {
                Ok::<(), PaymentsError>(())
            } else {
                Err(PaymentsError::CannotGetInvoice)
            },
    {
        match invoice {
            Some(i) => {
                let total = self.earnings.plus(&i.amount);
                let _ = self.take(i.agreement_id.as_str());
                self.forget_invoice(i.invoice_id.as_str());
                self.earnings = total;
                Ok(())
            },
            None => Err(PaymentsError::CannotGetInvoice),
        }
    }
}

/// What the engine can be told.
pub enum Message {
    AgreementApproved { msg: AgreementApproved, model_built: bool },
    ActivityCreated(ActivityCreated),
    ActivityDestroyed(ActivityDestroyed),
    UpdateCost(UpdateCost),
    FinalizeActivity(FinalizeActivity),
    AgreementClosed(AgreementClosed),
    AgreementBroken(AgreementBroken),
    InvoiceIssued(InvoiceIssued),
    InvoiceSent(InvoiceSent),
    /// The requestor accepted an invoice; `None` where it could not be fetched.
    InvoiceAccepted(Option<Invoice>),
    /// The requestor paid an invoice; `None` where it could not be fetched.
    InvoiceSettled(Option<Invoice>),
    /// A debit note was not accepted in time.
    DeadlineElapsed(DeadlineElapsed),
}

/// The invoice that a message carries, as contracts see it.
pub open spec fn fetched(invoice: Option<Invoice>) -> Option<InvoiceView> {
    match invoice {
        Some(i) => Some(i@),
        None => None,
    }
}

impl PaymentsState {
    /// What the message `m` does at the instant `now`.
    pub open spec fn step(self, m: Message, now: Timestamp) -> Step {
        match m {
            Message::AgreementApproved { msg, model_built } => self.approved(msg, model_built),
            Message::ActivityCreated(msg) => self.activity_created(msg),
            Message::ActivityDestroyed(msg) => self.activity_destroyed(msg, now),
            Message::UpdateCost(msg) => self.update_cost(msg),
            Message::FinalizeActivity(msg) => self.finalize_activity(msg, now),
            Message::AgreementClosed(msg) => self.agreement_closed(msg.agreement_id@, now),
            Message::AgreementBroken(msg) => self.agreement_broken(msg, now),
            Message::InvoiceIssued(msg) => self.invoice_issued(msg),
            Message::InvoiceSent(msg) => self.invoice_sent(msg),
            Message::InvoiceAccepted(invoice) => self.invoice_accepted(fetched(invoice)),
            Message::InvoiceSettled(invoice) => self.invoice_settled(fetched(invoice)),
            Message::DeadlineElapsed(_) => self.reply(Ok(ActionView::Nothing)),
        }
    }
}

impl Payments {
    /// Notes that a debit note was not accepted in time. The engine keeps no
    /// record of it.
    pub fn on_deadline_elapsed(&self, msg: &DeadlineElapsed) -> (r: Action)
        ensures
            r@ == ActionView::Nothing,
    {
        Action::Nothing
    }

    /// Takes one message at the instant `now`: changes the ledger as the
    /// message asks and answers with what is to be done.
    pub fn handle(&mut self, m: Message, now: Timestamp) -> (r: Result<Action, PaymentsError>)
        requires
            old(self).wf(),
        ensures
            final(self).wf(),
            final(self).settings() == old(self).settings(),
            final(self)@ == old(self)@.step(m, now).state,
            reply_view(r) == old(self)@.step(m, now).reply,
    {
        match m {
            Message::AgreementApproved { msg, model_built } => {
                match self.on_signed_agreement(msg, model_built) {
                    Ok(_) => Ok(Action::Nothing),
                    Err(e) => Err(e),
                }
            },
            Message::ActivityCreated(msg) => self.on_activity_created(&msg),
            Message::ActivityDestroyed(msg) => self.on_activity_destroyed(&msg, now),
            Message::UpdateCost(msg) => self.on_update_cost(msg),
            Message::FinalizeActivity(msg) => Ok(self.on_finalize_activity(msg, now)),
            Message::AgreementClosed(msg) => self.on_agreement_closed(&msg, now),
            Message::AgreementBroken(msg) => self.on_agreement_broken(&msg, now),
            Message::InvoiceIssued(msg) => Ok(self.on_invoice_issued(&msg)),
            Message::InvoiceSent(msg) => {
                self.on_invoice_sent(&msg);
                Ok(Action::Nothing)
            },
            Message::InvoiceAccepted(invoice) => {
                match self.on_invoice_accepted(invoice) {
                    Ok(_) => Ok(Action::Nothing),
                    Err(e) => Err(e),
                }
            },
            Message::InvoiceSettled(invoice) => {
                match self.on_invoice_settled(invoice) {
                    Ok(_) => Ok(Action::Nothing),
                    Err(e) => Err(e),
                }
            },
            Message::DeadlineElapsed(msg) => Ok(self.on_deadline_elapsed(&msg)),
        }
    }
}

} // verus!
