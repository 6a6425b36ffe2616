//! The ledger of one agreement: its activities, the phase of each, and the
//! cost that the finalized ones have accumulated.

use crate::keyed::{
    as_map, distinct_keys, has_key, index_of, lemma_index_of, lemma_put, put, Key, StrMap,
};
use crate::payments::amount::{
    amounts, clone_amounts, lemma_plus_associates, lemma_plus_commutes, lemma_plus_zero,
    plus_each, plus_each_of, Amount, Decimal,
};
use vstd::prelude::*;

verus! {

/// A length of time, in milliseconds.
pub type Millis = u64;

/// An instant, in milliseconds since the Unix epoch.
pub type Timestamp = u64;

/// What an activity costs at some instant, and the usage that it is
/// charged for.
#[derive(Debug)]
pub struct CostInfo {
    pub cost: Amount,
    /// The usage counters of the activity, in the order of the payment model.
    pub usage: Vec<Amount>,
}

/// A [`CostInfo`] as contracts see it.
pub struct CostView {
    pub cost: Decimal,
    pub usage: Seq<Decimal>,
}

impl View for CostInfo {
    type V = CostView;

    open spec fn view(&self) -> CostView {
        CostView { cost: self.cost@, usage: amounts(self.usage@) }
    }
}

impl CostInfo {
    pub fn clone(&self) -> (r: Self)
        ensures
            r@ == self@,
    {
        CostInfo { cost: self.cost.clone(), usage: clone_amounts(&self.usage) }
    }
}

/// The phase of one activity. An activity only moves forward:
/// `Running`, then `Destroyed`, then `Finalized`.
#[derive(Debug)]
pub enum ActivityPayment {
    /// Usage accrues and cost updates are sent.
    Running,
    /// Metering has stopped; the final debit note is on its way.
    Destroyed,
    /// The final cost is known and goes into the invoice.
    Finalized { cost_info: CostInfo },
}

/// How far the billing of an agreement has come.
#[derive(Clone, Copy, PartialEq, Eq, Structural, Debug)]
pub enum BillingPhase {
    /// The agreement runs; nobody has asked for the invoice yet.
    Open,
    /// The agreement is closed and waits for its activities to be finalized.
    AwaitingActivities,
    /// The costs are summed up and the invoice is being issued.
    Summarized,
    /// The invoice is issued and is being sent.
    InvoiceIssued,
    /// The invoice has reached the requestor.
    InvoiceSent,
}

/// Why the ledger refused a change.
#[derive(Clone, Copy, PartialEq, Eq, Structural, Debug)]
pub enum LedgerError {
    /// The activity is already in the ledger.
    DuplicateActivity,
    /// The activity is not in the `Running` phase.
    ActivityNotRunning,
    /// The activity is not in the `Destroyed` phase.
    ActivityNotDestroyed,
}

/// The cost that an activity adds to the invoice.
pub open spec fn invoiced_cost(a: ActivityPayment) -> Decimal {
    match a {
        ActivityPayment::Finalized { cost_info } => cost_info.cost@,
        _ => Decimal::zero(),
    }
}

/// The sum of the costs of the finalized activities among `s`.
pub open spec fn finalized_total(s: Seq<(Key, ActivityPayment)>) -> Decimal
    decreases s.len(),
{
    if s.len() == 0 {
        Decimal::zero()
    } else {
        finalized_total(s.drop_last()).plus(invoiced_cost(s.last().1))
    }
}

/// Some activity among `s` is finalized.
pub open spec fn any_finalized(s: Seq<(Key, ActivityPayment)>) -> bool {
    exists|i: int| 0 <= i < s.len() && (#[trigger] s[i]).1 is Finalized
}

/// The usage of the finalized activities among `s` together: each usage
/// counter that every one of them has, summed up over them.
pub open spec fn finalized_usage(s: Seq<(Key, ActivityPayment)>) -> Seq<Decimal>
    decreases s.len(),
{
    if s.len() == 0 {
        Seq::empty()
    } else {
        match s.last().1 {
            ActivityPayment::Finalized { cost_info } => if any_finalized(s.drop_last()) {
                plus_each(finalized_usage(s.drop_last()), cost_info@.usage)
            } else {
                cost_info@.usage
            },
            _ => finalized_usage(s.drop_last()),
        }
    }
}

/// The ids of the finalized activities among `s`, in the order of `s`.
pub open spec fn finalized_ids(s: Seq<(Key, ActivityPayment)>) -> Seq<Key>
    decreases s.len(),
{
    if s.len() == 0 {
        Seq::empty()
    } else if s.last().1 is Finalized {
        finalized_ids(s.drop_last()).push(s.last().0)
    } else {
        finalized_ids(s.drop_last())
    }
}

/// Every activity among `s` is finalized.
pub open spec fn all_finalized(s: Seq<(Key, ActivityPayment)>) -> bool {
    forall|i: int| 0 <= i < s.len() ==> (#[trigger] s[i]).1 is Finalized
}

/// Replacing an activity that adds no cost adds the cost of the new one to
/// the total.
pub proof fn lemma_total_update(s: Seq<(Key, ActivityPayment)>, i: int, a: ActivityPayment)
    requires
        0 <= i < s.len(),
        invoiced_cost(s[i].1) == Decimal::zero(),
    ensures
        finalized_total(s.update(i, (s[i].0, a))) == finalized_total(s).plus(invoiced_cost(a)),
    decreases s.len(),
{
    let t = s.update(i, (s[i].0, a));
    let rest = finalized_total(s.drop_last());
    if i == s.len() - 1 {
        assert(t.drop_last() =~= s.drop_last());
        lemma_plus_zero(rest);
    } else {
        assert(t.drop_last() =~= s.drop_last().update(i, (s[i].0, a)));
        lemma_total_update(s.drop_last(), i, a);
        let last = invoiced_cost(s.last().1);
        lemma_plus_associates(rest, invoiced_cost(a), last);
        lemma_plus_commutes(invoiced_cost(a), last);
        lemma_plus_associates(rest, last, invoiced_cost(a));
    }
}

/// Appending an activity adds its cost to the total.
pub proof fn lemma_total_push(s: Seq<(Key, ActivityPayment)>, k: Key, a: ActivityPayment)
    ensures
        finalized_total(s.push((k, a))) == finalized_total(s).plus(invoiced_cost(a)),
{
    assert(s.push((k, a)).drop_last() =~= s);
}

/// An id is among the finalized ids exactly when the ledger holds a finalized
/// activity under it.
pub proof fn lemma_finalized_ids(s: Seq<(Key, ActivityPayment)>, k: Key)
    requires
        distinct_keys(s),
    ensures
        finalized_ids(s).contains(k) <==> (has_key(s, k) && as_map(s)[k] is Finalized),
    decreases s.len(),
{
    if s.len() > 0 {
        let r = s.drop_last();
        let n = s.len() - 1;
        assert forall|i: int, j: int| 0 <= i < j < r.len() implies (#[trigger] r[i]).0 != (
        #[trigger] r[j]).0 by {
            assert(r[i] == s[i] && r[j] == s[j]);
        }
        lemma_finalized_ids(r, k);
        lemma_index_of(s, n);
        if has_key(r, k) {
            let i = index_of(r, k);
            assert(s[i] == r[i]);
            lemma_index_of(s, i);
            lemma_index_of(r, i);
            assert(s[i].0 != s[n].0);
        }
        if has_key(s, k) && s[n].0 != k {
            let i = index_of(s, k);
            assert(r[i] == s[i]);
            lemma_index_of(r, i);
            lemma_index_of(s, i);
        }
        let ids = finalized_ids(r);
        if s[n].1 is Finalized {
            assert(finalized_ids(s) == ids.push(s[n].0));
            if ids.push(s[n].0).contains(k) {
                let j = choose|j: int| 0 <= j < ids.len() + 1 && ids.push(s[n].0)[j] == k;
                if j < ids.len() {
                    assert(ids[j] == k);
                }
            }
            if ids.contains(k) {
                let j = choose|j: int| 0 <= j < ids.len() && ids[j] == k;
                assert(ids.push(s[n].0)[j] == k);
            }
            if s[n].0 == k {
                assert(ids.push(s[n].0)[ids.len() as int] == k);
            }
        }
    } else {
        assert(!finalized_ids(s).contains(k));
    }
}

/// The payment state of one agreement, as contracts see it.
pub struct Ledger {
    /// The id of the agreement.
    pub id: Key,
    /// The time between two cost updates of a running activity.
    pub update_interval: Millis,
    /// How long the requestor has to accept a final debit note, if the
    /// agreement sets a limit.
    pub payment_deadline: Option<Millis>,
    /// The activities with their phases, in the order in which they were created.
    pub activities: Seq<(Key, ActivityPayment)>,
    /// How far the billing has come.
    pub phase: BillingPhase,
}

impl Ledger {
    /// No activity occurs twice.
    pub open spec fn wf(self) -> bool {
        distinct_keys(self.activities)
    }

    /// A ledger without activities.
    pub open spec fn fresh(id: Key, update_interval: Millis, payment_deadline: Option<Millis>) -> Ledger {
        Ledger {
            id,
            update_interval,
            payment_deadline,
            activities: Seq::empty(),
            phase: BillingPhase::Open,
        }
    }

    /// The phase of the activity `id`, if the ledger holds it.
    pub open spec fn activity(self, id: Key) -> Option<ActivityPayment> {
        if has_key(self.activities, id) {
            Some(as_map(self.activities)[id])
        } else {
            None
        }
    }

    /// The ledger with the activity `id` in the phase `a`: in its old place
    /// where the ledger holds it, at the end where it is new.
    pub open spec fn with_activity(self, id: Key, a: ActivityPayment) -> Ledger {
        Ledger { activities: put(self.activities, id, a), ..self }
    }

    /// The ledger in another billing phase.
    pub open spec fn with_phase(self, phase: BillingPhase) -> Ledger {
        Ledger { phase, ..self }
    }

    /// Whether `finish_activity` accepts a final cost of the activity `id`.
    pub open spec fn can_finish(self, id: Key) -> bool {
        self.activity(id) == Some(ActivityPayment::Destroyed)
    }

    /// The sum of the costs of the finalized activities.
    pub open spec fn total(self) -> Decimal {
        finalized_total(self.activities)
    }

    /// The usage of the finalized activities together.
    pub open spec fn usage(self) -> Seq<Decimal> {
        finalized_usage(self.activities)
    }

    /// The ids of the finalized activities, in the order of their creation.
    pub open spec fn finalized(self) -> Seq<Key> {
        finalized_ids(self.activities)
    }

    /// Every activity is finalized: the invoice can be made.
    pub open spec fn finished(self) -> bool {
        all_finalized(self.activities)
    }
}

/// Changing the phase of one activity keeps a ledger well formed; the phase
/// found under the id is then the new one and every other activity is as
/// before.
pub proof fn lemma_with_activity(l: Ledger, id: Key, a: ActivityPayment)
    requires
        l.wf(),
    ensures
        l.with_activity(id, a).wf(),
        l.with_activity(id, a).activity(id) == Some(a),
        forall|other: Key| other != id ==> l.with_activity(id, a).activity(other) == l.activity(other),
{
    let s = l.activities;
    lemma_put(s, id, a);
    let t = put(s, id, a);
    assert(as_map(t) == as_map(s).insert(id, a));
    assert(has_key(t, id)) by {
        assert(as_map(t).dom().contains(id));
    }
    assert forall|other: Key| other != id implies l.with_activity(id, a).activity(other)
        == l.activity(other) by {
        assert(as_map(t).dom().contains(other) == as_map(s).dom().contains(other));
    }
}

/// The payment state of one agreement.
pub struct AgreementPayment {
    agreement_id: String,
    update_interval: Millis,
    payment_deadline: Option<Millis>,
    activities: StrMap<ActivityPayment>,
    total: Amount,
    phase: BillingPhase,
}

impl View for AgreementPayment {
    type V = Ledger;

    closed spec fn view(&self) -> Ledger {
        Ledger {
            id: self.agreement_id@,
            update_interval: self.update_interval,
            payment_deadline: self.payment_deadline,
            activities: self.activities.pairs(),
            phase: self.phase,
        }
    }
}

impl AgreementPayment {
    /// No activity occurs twice, and the total that the ledger keeps is the
    /// sum of the finalized costs.
    pub closed spec fn wf(&self) -> bool {
        &&& self.activities.wf()
        &&& self.total@ == finalized_total(self.activities.pairs())
    }

    /// The view of a well-formed ledger is well formed.
    pub proof fn lemma_wf(&self)
        requires
            self.wf(),
        ensures
            self@.wf(),
    {
    }

    /// A ledger without activities for the agreement `agreement_id`.
    pub fn new(agreement_id: String, update_interval: Millis, payment_deadline: Option<Millis>) -> (a:
        Self)
        ensures
            a.wf(),
            a@ == Ledger::fresh(agreement_id@, update_interval, payment_deadline),
    {
        AgreementPayment {
            agreement_id,
            update_interval,
            payment_deadline,
            activities: StrMap::new(),
            total: Amount::zero(),
            phase: BillingPhase::Open,
        }
    }

    pub fn agreement_id(&self) -> (r: &String)
        ensures
            r@ == self@.id,
    {
        &self.agreement_id
    }

    pub fn update_interval(&self) -> (r: Millis)
        ensures
            r == self@.update_interval,
    {
        self.update_interval
    }

    pub fn payment_deadline(&self) -> (r: Option<Millis>)
        ensures
            r == self@.payment_deadline,
    {
        self.payment_deadline
    }

    pub fn billing_phase(&self) -> (r: BillingPhase)
        ensures
            r == self@.phase,
    {
        self.phase
    }

    /// The phase of the activity `activity_id`, if the ledger holds it.
    pub fn activity_state(&self, activity_id: &str) -> (r: Option<&ActivityPayment>)
        requires
            self.wf(),
        ensures
            match r {
                Some(a) => self@.activity(activity_id@) == Some(*a),
                None => self@.activity(activity_id@) is None,
            },
    {
        proof {
            self.activities.lemma_view();
        }
        self.activities.get(activity_id)
    }

    /// Sets the billing phase; nothing else changes.
    pub fn set_phase(&mut self, phase: BillingPhase)
        requires
            old(self).wf(),
        ensures
            final(self).wf(),
            final(self)@ == old(self)@.with_phase(phase),
    {
        self.phase = phase;
    }

    /// Enters a new activity as `Running`. A second entry under the same id
    /// is refused and changes nothing.
    pub fn add_created_activity(&mut self, activity_id: &str) -> (r: Result<(), LedgerError>)
        requires
            old(self).wf(),
        ensures
            final(self).wf(),
            r == if old(self)@.activity(activity_id@) is None {
                Ok::<(), LedgerError>(())
            } else {
                Err(LedgerError::DuplicateActivity)
            },
            final(self)@ == if r is Ok {
                old(self)@.with_activity(activity_id@, ActivityPayment::Running)
            } else {
                old(self)@
            },
    {
        if self.activities.contains_key(activity_id) {
            return Err(LedgerError::DuplicateActivity);
        }
        proof {
            lemma_total_push(self.activities.pairs(), activity_id@, ActivityPayment::Running);
            lemma_plus_zero(finalized_total(self.activities.pairs()));
        }
        self.activities.insert(activity_id.to_owned(), ActivityPayment::Running);
        Ok(())
    }

    /// Moves a running activity to `Destroyed`. Any other activity, known or
    /// not, is refused and nothing changes.
    pub fn activity_destroyed(&mut self, activity_id: &str) -> (r: Result<(), LedgerError>)
        requires
            old(self).wf(),
        ensures
            final(self).wf(),
            r == if old(self)@.activity(activity_id@) == Some(ActivityPayment::Running) {
                Ok::<(), LedgerError>(())
            } else {
                Err(LedgerError::ActivityNotRunning)
            },
            final(self)@ == if r is Ok {
                old(self)@.with_activity(activity_id@, ActivityPayment::Destroyed)
            } else {
                old(self)@
            },
    {
        proof {
            self.activities.lemma_view();
        }
        let found = self.activities.find(activity_id);
        match found {
            Some(i) => {
                let running = match self.activities.value_at(i) {
                    ActivityPayment::Running => true,
                    _ => false,
                };
                if running {
                    proof {
                        lemma_total_update(
                            self.activities.pairs(),
                            i as int,
                            ActivityPayment::Destroyed,
                        );
                        lemma_plus_zero(finalized_total(self.activities.pairs()));
                    }
                    self.activities.set_value_at(i, ActivityPayment::Destroyed);
                    Ok(())
                } else {
                    Err(LedgerError::ActivityNotRunning)
                }
            },
            None => Err(LedgerError::ActivityNotRunning),
        }
    }

    /// Moves a destroyed activity to `Finalized` with its final cost. An
    /// activity in another phase, or an unknown one, is refused, and nothing
    /// changes.
    pub fn finish_activity(&mut self, activity_id: &str, cost_info: CostInfo) -> (r: Result<
        (),
        LedgerError,
    >)
        requires
            old(self).wf(),
        ensures
            final(self).wf(),
            r == if old(self)@.can_finish(activity_id@) {
                Ok::<(), LedgerError>(())
            } else {
                Err(LedgerError::ActivityNotDestroyed)
            },
            final(self)@ == if r is Ok {
                old(self)@.with_activity(activity_id@, ActivityPayment::Finalized { cost_info })
            } else {
                old(self)@
            },
    {
        proof {
            self.activities.lemma_view();
        }
        let found = self.activities.find(activity_id);
        match found {
            Some(i) => {
                let destroyed = match self.activities.value_at(i) {
                    ActivityPayment::Destroyed => true,
                    _ => false,
                };
                if destroyed {
                    let total = self.total.plus(&cost_info.cost);
                    proof {
                        lemma_total_update(
                            self.activities.pairs(),
                            i as int,
                            ActivityPayment::Finalized { cost_info },
                        );
                    }
                    self.activities.set_value_at(i, ActivityPayment::Finalized { cost_info });
                    self.total = total;
                    Ok(())
                } else {
                    Err(LedgerError::ActivityNotDestroyed)
                }
            },
            None => Err(LedgerError::ActivityNotDestroyed),
        }
    }

    /// What the finalized activities cost together, and their usage
    /// together: each usage counter that all of them have, summed up.
    pub fn cost_summary(&self) -> (r: CostInfo)
        requires
            self.wf(),
        ensures
            r@ == (CostView { cost: self@.total(), usage: self@.usage() }),
    {
        let mut usage: Vec<Amount> = Vec::new();
        let mut seen = false;
        let mut i: usize = 0;
        assert(self.activities.pairs().take(0) =~= Seq::empty());
        assert(amounts(usage@) =~= Seq::<Decimal>::empty());
        while i < self.activities.len()
            invariant
                i <= self.activities.pairs().len(),
                amounts(usage@) == finalized_usage(self.activities.pairs().take(i as int)),
                seen == any_finalized(self.activities.pairs().take(i as int)),
            decreases self.activities.pairs().len() - i,
        {
            let ghost s = self.activities.pairs();
            let ghost before = s.take(i as int);
            let ghost upto = s.take(i + 1);
            proof {
                assert(upto.drop_last() =~= before);
                assert(upto.last() == s[i as int]);
                assert(any_finalized(upto) == (any_finalized(before) || s[i as int].1 is Finalized))
                    by {
                    if any_finalized(before) {
                        let j = choose|j: int| 0 <= j < before.len() && (#[trigger] before[j]).1
                            is Finalized;
                        assert(upto[j] == before[j]);
                    }
                    if s[i as int].1 is Finalized {
                        assert(upto[i as int].1 is Finalized);
                    }
                    if any_finalized(upto) {
                        let j = choose|j: int| 0 <= j < upto.len() && (#[trigger] upto[j]).1
                            is Finalized;
                        if j < i {
                            assert(before[j] == upto[j]);
                        }
                    }
                }
            }
            match self.activities.value_at(i) {
                ActivityPayment::Finalized { cost_info } => {
                    if seen {
                        usage = plus_each_of(&usage, &cost_info.usage);
                    } else {
                        usage = clone_amounts(&cost_info.usage);
                    }
                    seen = true;
                },
                _ => {},
            }
            i += 1;
        }
        assert(self.activities.pairs().take(i as int) =~= self.activities.pairs());
        CostInfo { cost: self.total.clone(), usage }
    }

    /// The ids of the finalized activities, in the order of their creation.
    pub fn list_activities(&self) -> (r: Vec<String>)
        requires
            self.wf(),
        ensures
            r.deep_view() == self@.finalized(),
    {
        let mut ids: Vec<String> = Vec::new();
        let mut i: usize = 0;
        assert(self.activities.pairs().take(0) =~= Seq::empty());
        assert(ids.deep_view() =~= Seq::<Key>::empty());
        while i < self.activities.len()
            invariant
                i <= self.activities.pairs().len(),
                ids.deep_view() == finalized_ids(self.activities.pairs().take(i as int)),
            decreases self.activities.pairs().len() - i,
        {
            let ghost before = ids.deep_view();
            let ghost s = self.activities.pairs();
            assert(s.take(i + 1).drop_last() =~= s.take(i as int));
            assert(s.take(i + 1).last() == s[i as int]);
            match self.activities.value_at(i) {
                ActivityPayment::Finalized { .. } => {
                    let id = self.activities.key_at(i).clone();
                    ids.push(id);
                    assert(ids.deep_view() =~= before.push(s[i as int].0));
                },
                _ => {},
            }
            i += 1;
        }
        assert(self.activities.pairs().take(i as int) =~= self.activities.pairs());
        ids
    }

    /// Whether every activity of the agreement is finalized, so that the
    /// invoice can be made.
    pub fn activities_finished(&self) -> (r: bool)
        requires
            self.wf(),
        ensures
            r == self@.finished(),
    {
        let mut i: usize = 0;
        while i < self.activities.len()
            invariant
                i <= self.activities.pairs().len(),
                forall|j: int| 0 <= j < i ==> (#[trigger] self.activities.pairs()[j]).1 is Finalized,
            decreases self.activities.pairs().len() - i,
        {
            match self.activities.value_at(i) {
                ActivityPayment::Finalized { .. } => {},
                _ => {
                    return false;
                },
            }
            i += 1;
        }
        true
    }
}

} // verus!
