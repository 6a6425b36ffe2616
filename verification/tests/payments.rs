use provider_runtime::payments::agreement::{
    ActivityPayment, AgreementPayment, BillingPhase, CostInfo, LedgerError,
};
use provider_runtime::payments::amount::Amount;
use provider_runtime::payments::debit_notes::{
    compute_cost_and_send_debit_note, final_debit_note_attempt, issue_invoice_attempt,
    new_debit_note, send_debit_note, send_invoice_attempt, Attempt, Costing, DebitNoteError,
    Delivery, NextStep,
};
use provider_runtime::payments::payments::{
    due_date_at, Action, ActivityCreated, ActivityDestroyed, AgreementApproved, AgreementBroken,
    AgreementClosed, DebitNote, DebitNoteInfo, FinalizeActivity, GetAgreementSummary, Invoice,
    InvoiceIssued, InvoiceSent, Message, Payments, PaymentsConfig, PaymentsError, UpdateCost,
};

fn engine() -> Payments {
    Payments::new(PaymentsConfig::new("session-1".to_string()))
}

fn approve(p: &mut Payments, id: &str, deadline: Option<u64>) {
    let msg = AgreementApproved {
        agreement_id: id.to_string(),
        update_interval: 4_000,
        payment_deadline: deadline,
    };
    assert_eq!(p.on_signed_agreement(msg, true), Ok(()));
}

fn created(agreement: &str, activity: &str) -> ActivityCreated {
    ActivityCreated { agreement_id: agreement.to_string(), activity_id: activity.to_string() }
}

fn destroyed(agreement: &str, activity: &str) -> ActivityDestroyed {
    ActivityDestroyed { agreement_id: agreement.to_string(), activity_id: activity.to_string() }
}

fn info(agreement: &str, activity: &str, deadline: Option<u64>) -> DebitNoteInfo {
    DebitNoteInfo {
        agreement_id: agreement.to_string(),
        activity_id: activity.to_string(),
        payment_deadline: deadline,
    }
}

fn cost(units: u128) -> CostInfo {
    CostInfo { cost: Amount::from_u128(units), usage: vec![] }
}

fn cost_with_usage(units: u128, usage: &[u128]) -> CostInfo {
    CostInfo {
        cost: Amount::from_u128(units),
        usage: usage.iter().map(|u| Amount::from_u128(*u)).collect(),
    }
}

fn counters(usage: &[Amount]) -> Vec<u128> {
    usage.iter().map(units).collect()
}

fn units(amount: &Amount) -> u128 {
    amount.to_u128().unwrap()
}

fn finalized_with(state: Option<&ActivityPayment>) -> Option<u128> {
    match state {
        Some(ActivityPayment::Finalized { cost_info }) => cost_info.cost.to_u128(),
        _ => None,
    }
}

fn finalize(agreement: &str, activity: &str, units: u128) -> FinalizeActivity {
    FinalizeActivity { debit_info: info(agreement, activity, None), cost_summary: cost(units) }
}

fn closed(agreement: &str) -> AgreementClosed {
    AgreementClosed { agreement_id: agreement.to_string(), send_terminate: true }
}

fn invoice(id: &str, agreement: &str, amount: u128) -> Invoice {
    Invoice {
        invoice_id: id.to_string(),
        agreement_id: agreement.to_string(),
        amount: Amount::from_u128(amount),
    }
}

fn note(id: &str, agreement: &str, activity: &str, amount: u128) -> DebitNote {
    DebitNote {
        debit_note_id: id.to_string(),
        agreement_id: agreement.to_string(),
        activity_id: activity.to_string(),
        total_amount_due: Amount::from_u128(amount),
    }
}

#[test]
fn config_has_the_usual_intervals() {
    let c = PaymentsConfig::new("s".to_string());
    assert_eq!(c.get_events_timeout, 50_000);
    assert_eq!(c.get_events_error_timeout, 5_000);
    assert_eq!(c.invoice_reissue_interval, 5_000);
    assert_eq!(c.invoice_resend_interval, 50_000);
    assert_eq!(c.session_id, "s");
}

#[test]
fn ledger_moves_activities_forward_only() {
    let mut a = AgreementPayment::new("A1".to_string(), 1_000, None);
    assert!(a.activity_state("X1").is_none());
    assert_eq!(a.add_created_activity("X1"), Ok(()));
    assert_eq!(a.add_created_activity("X1"), Err(LedgerError::DuplicateActivity));
    assert!(matches!(a.activity_state("X1"), Some(ActivityPayment::Running)));
    assert_eq!(a.finish_activity("X1", cost(1)), Err(LedgerError::ActivityNotDestroyed));
    assert_eq!(a.activity_destroyed("X1"), Ok(()));
    assert_eq!(a.activity_destroyed("X1"), Err(LedgerError::ActivityNotRunning));
    assert_eq!(a.activity_destroyed("nobody"), Err(LedgerError::ActivityNotRunning));
    assert!(matches!(a.activity_state("X1"), Some(ActivityPayment::Destroyed)));
    assert_eq!(a.finish_activity("X1", cost(12)), Ok(()));
    assert_eq!(a.finish_activity("X1", cost(12)), Err(LedgerError::ActivityNotDestroyed));
    assert_eq!(a.finish_activity("nobody", cost(1)), Err(LedgerError::ActivityNotDestroyed));
    assert_eq!(finalized_with(a.activity_state("X1")), Some(12));
    assert_eq!(a.activity_destroyed("X1"), Err(LedgerError::ActivityNotRunning));
}

#[test]
fn ledger_sums_finalized_activities_only() {
    let mut a = AgreementPayment::new("A1".to_string(), 1_000, Some(7));
    assert_eq!(a.agreement_id(), "A1");
    assert_eq!(a.update_interval(), 1_000);
    assert_eq!(a.payment_deadline(), Some(7));
    assert_eq!(a.billing_phase(), BillingPhase::Open);
    assert!(a.activities_finished());
    assert_eq!(units(&a.cost_summary().cost), 0);
    for id in ["X1", "X2", "X3"] {
        a.add_created_activity(id).unwrap();
    }
    assert!(!a.activities_finished());
    a.activity_destroyed("X3").unwrap();
    a.finish_activity("X3", cost(5)).unwrap();
    a.activity_destroyed("X1").unwrap();
    assert_eq!(units(&a.cost_summary().cost), 5);
    assert_eq!(a.list_activities(), vec!["X3".to_string()]);
    a.finish_activity("X1", cost(7)).unwrap();
    assert_eq!(units(&a.cost_summary().cost), 12);
    assert_eq!(a.list_activities(), vec!["X1".to_string(), "X3".to_string()]);
    assert!(!a.activities_finished());
    a.activity_destroyed("X2").unwrap();
    a.finish_activity("X2", cost(0)).unwrap();
    assert!(a.activities_finished());
    assert_eq!(units(&a.cost_summary().cost), 12);
    assert_eq!(
        a.list_activities(),
        vec!["X1".to_string(), "X2".to_string(), "X3".to_string()]
    );
}

#[test]
fn ledger_sums_beyond_the_machine_numbers() {
    let mut a = AgreementPayment::new("A1".to_string(), 1_000, None);
    a.add_created_activity("X1").unwrap();
    a.add_created_activity("X2").unwrap();
    a.activity_destroyed("X1").unwrap();
    a.activity_destroyed("X2").unwrap();
    a.finish_activity("X1", cost(u128::MAX)).unwrap();
    assert_eq!(units(&a.cost_summary().cost), u128::MAX);
    assert_eq!(a.finish_activity("X2", cost(1)), Ok(()));
    let total = a.cost_summary().cost;
    assert_eq!(total.to_u128(), None);
    // One more than the largest machine number: take one less than it away in thought.
    let same = Amount::from_u128(u128::MAX).plus(&Amount::from_u128(1));
    assert_eq!(format!("{:?}", total), format!("{:?}", same));
}

#[test]
fn usage_is_summed_counter_by_counter() {
    let mut a = AgreementPayment::new("A1".to_string(), 1_000, None);
    assert!(a.cost_summary().usage.is_empty());
    for id in ["X1", "X2", "X3", "X4"] {
        a.add_created_activity(id).unwrap();
        a.activity_destroyed(id).unwrap();
    }
    assert!(a.cost_summary().usage.is_empty());
    a.finish_activity("X2", cost_with_usage(5, &[1, 2])).unwrap();
    assert_eq!(counters(&a.cost_summary().usage), vec![1, 2]);
    a.finish_activity("X1", cost_with_usage(7, &[10, 20])).unwrap();
    assert_eq!(counters(&a.cost_summary().usage), vec![11, 22]);
    // Only the counters that every activity has are summed.
    a.finish_activity("X4", cost_with_usage(1, &[100, 200, 300])).unwrap();
    assert_eq!(counters(&a.cost_summary().usage), vec![111, 222]);
    a.finish_activity("X3", cost_with_usage(1, &[1])).unwrap();
    assert_eq!(counters(&a.cost_summary().usage), vec![112]);
    assert_eq!(units(&a.cost_summary().cost), 14);
}

#[test]
fn amounts_keep_their_decimal_places() {
    let half = Amount::new(5, 1);
    let quarter = Amount::new(25, 2);
    let sum = half.plus(&quarter);
    assert_eq!(sum.mantissa(), Some(75));
    assert_eq!(sum.scale(), 2);
    assert_eq!(sum.to_u128(), None);
    let whole = Amount::from_u128(3).plus(&sum);
    assert_eq!(whole.mantissa(), Some(375));
    assert_eq!(whole.scale(), 2);
    let zero = Amount::zero().plus(&Amount::new(0, 3));
    assert_eq!(zero.mantissa(), Some(0));
    assert_eq!(zero.scale(), 3);
    let kept = Amount::new(7, 4).plus(&Amount::zero());
    assert_eq!(kept.mantissa(), Some(7));
    assert_eq!(kept.scale(), 4);
    let wide = Amount::new(1, u16::MAX).plus(&Amount::from_u128(1));
    assert_eq!(wide.scale(), u16::MAX);
    assert_eq!(wide.mantissa(), None);
    let copy = Amount::from_bytes(sum.bytes().clone(), sum.scale());
    assert_eq!(copy.mantissa(), Some(75));
    assert_eq!(Amount::from_bytes(vec![0, 1], 0).to_u128(), Some(256));
    assert_eq!(Amount::from_bytes(vec![], 0).to_u128(), Some(0));
}

#[test]
fn amounts_add_up() {
    assert_eq!(units(&Amount::zero()), 0);
    assert_eq!(units(&Amount::from_u128(0)), 0);
    assert_eq!(units(&Amount::zero().plus(&Amount::zero())), 0);
    assert_eq!(units(&Amount::from_u128(255).plus(&Amount::from_u128(1))), 256);
    assert_eq!(units(&Amount::from_u128(10).plus(&Amount::from_u128(12))), 22);
    assert_eq!(
        units(&Amount::from_u128(1 << 100).plus(&Amount::from_u128(1 << 100))),
        1 << 101
    );
    let big = Amount::from_u128(u128::MAX);
    assert_eq!(units(&big.clone()), u128::MAX);
    assert_eq!(big.plus(&big).to_u128(), None);
    assert_eq!(units(&Amount::from_u128(77).clone()), 77);
}

#[test]
fn agreement_without_payment_model_is_not_tracked() {
    let mut p = engine();
    let msg = AgreementApproved {
        agreement_id: "A1".to_string(),
        update_interval: 4_000,
        payment_deadline: None,
    };
    assert_eq!(p.on_signed_agreement(msg, false), Err(PaymentsError::PaymentModel));
    assert!(!p.is_tracked("A1"));
    assert!(matches!(
        p.on_activity_created(&created("A1", "X1")),
        Err(PaymentsError::AgreementNotRegistered)
    ));
}

#[test]
fn happy_path_single_activity() {
    let mut p = engine();
    approve(&mut p, "A1", Some(30_000));
    assert!(p.is_tracked("A1"));

    match p.on_activity_created(&created("A1", "X1")) {
        Ok(Action::NotifyLater { msg, delay }) => {
            assert_eq!(delay, 4_000);
            assert_eq!(msg.invoice_info.agreement_id, "A1");
            assert_eq!(msg.invoice_info.activity_id, "X1");
            assert_eq!(msg.invoice_info.payment_deadline, None);
        }
        _ => panic!("the first cost update is due after one interval"),
    }
    assert!(matches!(p.activity_state("A1", "X1"), Some(ActivityPayment::Running)));

    // A tick of the running activity: a debit note without a due date.
    match p.on_update_cost(UpdateCost { invoice_info: info("A1", "X1", None) }) {
        Ok(Action::SendDebitNote { msg, delay }) => {
            assert_eq!(delay, 4_000);
            let n = new_debit_note(&msg.invoice_info, &cost_with_usage(10, &[1, 1]));
            assert_eq!(n.activity_id, "X1");
            assert_eq!(units(&n.total_amount_due), 10);
            assert_eq!(counters(&n.usage_counter_vector), vec![1, 1]);
            assert_eq!(n.payment_due_date, None);
        }
        _ => panic!("a running activity gets a debit note"),
    }

    // The activity is destroyed: exactly one final debit note, due now + deadline.
    let final_info = match p.on_activity_destroyed(&destroyed("A1", "X1"), 1_000_000) {
        Ok(Action::SendFinalDebitNote { info }) => info,
        _ => panic!("the final debit note is asked for"),
    };
    assert_eq!(final_info.payment_deadline, Some(1_030_000));
    assert!(matches!(p.activity_state("A1", "X1"), Some(ActivityPayment::Destroyed)));
    assert!(matches!(
        p.on_activity_destroyed(&destroyed("A1", "X1"), 1_000_001),
        Ok(Action::Nothing)
    ));
    assert!(matches!(
        p.on_update_cost(UpdateCost { invoice_info: info("A1", "X1", None) }),
        Ok(Action::Nothing)
    ));

    let n = new_debit_note(&final_info, &cost(12));
    assert_eq!(units(&n.total_amount_due), 12);
    assert_eq!(n.payment_due_date, Some(1_030_000));

    let msg = match final_debit_note_attempt(p.config(), &final_info, Ok(cost(12))) {
        Attempt::Deliver(msg) => msg,
        Attempt::RetryAfter(_) => panic!("a delivered note finalizes the activity"),
    };
    assert!(matches!(p.on_finalize_activity(msg, 1_000_500), Action::Nothing));
    assert_eq!(finalized_with(p.activity_state("A1", "X1")), Some(12));

    // Closing: exactly one invoice, for 12, naming X1.
    let new_invoice = match p.on_agreement_closed(&closed("A1"), 1_001_000) {
        Ok(Action::IssueInvoice { invoice }) => invoice,
        _ => panic!("the invoice is asked for"),
    };
    assert_eq!(new_invoice.agreement_id, "A1");
    assert_eq!(units(&new_invoice.amount), 12);
    assert_eq!(new_invoice.activity_ids, Some(vec!["X1".to_string()]));
    assert_eq!(new_invoice.payment_due_date, 1_001_000);
    assert_eq!(p.billing_phase("A1"), Some(BillingPhase::Summarized));
    assert!(matches!(p.on_agreement_closed(&closed("A1"), 1_001_001), Ok(Action::Nothing)));

    let issued = InvoiceIssued { agreement_id: "A1".to_string(), invoice_id: "I1".to_string() };
    match p.on_invoice_issued(&issued) {
        Action::SendInvoice { agreement_id, invoice_id } => {
            assert_eq!(agreement_id, "A1");
            assert_eq!(invoice_id, "I1");
        }
        _ => panic!("an issued invoice is sent"),
    }
    assert_eq!(p.billing_phase("A1"), Some(BillingPhase::InvoiceIssued));
    assert!(matches!(p.on_invoice_issued(&issued), Action::Nothing));
    p.on_invoice_sent(&InvoiceSent { agreement_id: "A1".to_string() });
    assert_eq!(p.billing_phase("A1"), Some(BillingPhase::InvoiceSent));

    assert_eq!(p.on_invoice_accepted(Some(invoice("I1", "A1", 12))), Ok(()));
    assert_eq!(p.invoices_to_pay(), 1);
    assert!(p.is_tracked("A1"));

    assert_eq!(p.on_invoice_settled(Some(invoice("I1", "A1", 12))), Ok(()));
    assert!(!p.is_tracked("A1"));
    assert_eq!(p.invoices_to_pay(), 0);
    assert_eq!(units(p.earnings()), 12);
}

#[test]
fn requestor_offline_during_final_debit_note() {
    let mut p = engine();
    approve(&mut p, "A1", None);
    p.on_activity_created(&created("A1", "X1")).unwrap();
    let final_info = match p.on_activity_destroyed(&destroyed("A1", "X1"), 500) {
        Ok(Action::SendFinalDebitNote { info }) => info,
        _ => panic!("the final debit note is asked for"),
    };
    assert_eq!(final_info.payment_deadline, None);

    // The agreement is closed while the note is under way: no invoice yet.
    assert!(matches!(p.on_agreement_closed(&closed("A1"), 600), Ok(Action::Nothing)));
    assert_eq!(p.billing_phase("A1"), Some(BillingPhase::AwaitingActivities));

    let mut sends = 0;
    let mut delivered = None;
    for attempt in 0..4 {
        sends += 1;
        let outcome =
            if attempt < 3 { Err(DebitNoteError::NotSent) } else { Ok(cost(12)) };
        match final_debit_note_attempt(p.config(), &final_info, outcome) {
            Attempt::RetryAfter(delay) => {
                assert_eq!(delay, 50_000);
                assert!(matches!(p.on_agreement_closed(&closed("A1"), 700), Ok(Action::Nothing)));
            }
            Attempt::Deliver(msg) => {
                delivered = Some(msg);
                break;
            }
        }
    }
    assert_eq!(sends, 4);
    let msg = delivered.unwrap();
    assert_eq!(units(&msg.cost_summary.cost), 12);

    // The last activity is finalized: now, and only now, the invoice is due.
    match p.on_finalize_activity(msg, 900) {
        Action::IssueInvoice { invoice } => {
            assert_eq!(units(&invoice.amount), 12);
            assert_eq!(invoice.activity_ids, Some(vec!["X1".to_string()]));
            assert_eq!(invoice.payment_due_date, 900);
        }
        _ => panic!("the invoice follows the last activity"),
    }
    assert!(matches!(p.on_finalize_activity(finalize("A1", "X1", 12), 901), Action::Nothing));
    assert!(matches!(p.on_agreement_closed(&closed("A1"), 902), Ok(Action::Nothing)));
}

#[test]
fn invoice_names_every_finalized_activity() {
    let mut p = engine();
    approve(&mut p, "A1", None);
    for (x, cost) in [("X1", 3u128), ("X2", 4), ("X3", 5)] {
        p.on_activity_created(&created("A1", x)).unwrap();
        p.on_activity_destroyed(&destroyed("A1", x), 10).unwrap();
        p.on_finalize_activity(finalize("A1", x, cost), 20);
    }
    let summary =
        p.get_agreement_summary(&GetAgreementSummary { agreement_id: "A1".to_string() }).unwrap();
    assert_eq!(summary.agreement_id, "A1");
    assert_eq!(units(&summary.cost_summary.cost), 12);
    assert_eq!(summary.activities, vec!["X1".to_string(), "X2".to_string(), "X3".to_string()]);
    match p.on_agreement_closed(&closed("A1"), 30) {
        Ok(Action::IssueInvoice { invoice }) => {
            assert_eq!(units(&invoice.amount), 12);
            assert_eq!(
                invoice.activity_ids,
                Some(vec!["X1".to_string(), "X2".to_string(), "X3".to_string()])
            );
        }
        _ => panic!("the invoice is asked for"),
    }
    assert!(matches!(
        p.get_agreement_summary(&GetAgreementSummary { agreement_id: "A2".to_string() }),
        Err(PaymentsError::NotMyAgreement)
    ));
}

#[test]
fn agreement_without_activities_is_billed_with_zero() {
    let mut p = engine();
    approve(&mut p, "A1", None);
    match p.on_agreement_closed(&closed("A1"), 30) {
        Ok(Action::IssueInvoice { invoice }) => {
            assert_eq!(units(&invoice.amount), 0);
            assert_eq!(invoice.activity_ids, Some(vec![]));
        }
        _ => panic!("the invoice is asked for"),
    }
}

#[test]
fn unknown_agreements_are_refused() {
    let mut p = engine();
    assert!(matches!(
        p.on_activity_created(&created("A1", "X1")),
        Err(PaymentsError::AgreementNotRegistered)
    ));
    assert!(matches!(
        p.on_activity_destroyed(&destroyed("A1", "X1"), 0),
        Err(PaymentsError::UnknownAgreement)
    ));
    assert!(matches!(
        p.on_update_cost(UpdateCost { invoice_info: info("A1", "X1", None) }),
        Ok(Action::Nothing)
    ));
    assert!(matches!(p.on_agreement_closed(&closed("A1"), 0), Err(PaymentsError::NotMyAgreement)));
    assert!(matches!(
        p.on_agreement_broken(&AgreementBroken { agreement_id: "A1".to_string() }, 0),
        Ok(Action::Nothing)
    ));
    assert!(matches!(p.on_finalize_activity(finalize("A1", "X1", 1), 0), Action::Nothing));
    approve(&mut p, "A1", None);
    assert!(matches!(
        p.on_update_cost(UpdateCost { invoice_info: info("A1", "X1", None) }),
        Err(PaymentsError::ActivityNotFound)
    ));
    assert!(matches!(p.on_activity_destroyed(&destroyed("A1", "X1"), 0), Ok(Action::Nothing)));
}

#[test]
fn broken_agreement_is_billed_like_a_closed_one() {
    let mut p = engine();
    approve(&mut p, "A1", None);
    p.on_activity_created(&created("A1", "X1")).unwrap();
    let broken = AgreementBroken { agreement_id: "A1".to_string() };
    assert!(matches!(p.on_agreement_broken(&broken, 5), Ok(Action::Nothing)));
    assert_eq!(p.billing_phase("A1"), Some(BillingPhase::AwaitingActivities));
    p.on_activity_destroyed(&destroyed("A1", "X1"), 6).unwrap();
    assert!(matches!(
        p.on_finalize_activity(finalize("A1", "X1", 9), 7),
        Action::IssueInvoice { .. }
    ));
    assert!(matches!(p.on_agreement_broken(&broken, 8), Ok(Action::Nothing)));
    assert_eq!(p.billing_phase("A1"), Some(BillingPhase::Summarized));
}

#[test]
fn duplicate_activity_still_gets_its_tick() {
    let mut p = engine();
    approve(&mut p, "A1", None);
    p.on_activity_created(&created("A1", "X1")).unwrap();
    p.on_activity_destroyed(&destroyed("A1", "X1"), 1).unwrap();
    assert!(matches!(
        p.on_activity_created(&created("A1", "X1")),
        Ok(Action::NotifyLater { .. })
    ));
    assert!(matches!(p.activity_state("A1", "X1"), Some(ActivityPayment::Destroyed)));
}

#[test]
fn settlement_releases_only_its_own_agreement() {
    let mut p = engine();
    approve(&mut p, "A1", None);
    approve(&mut p, "A2", None);
    assert_eq!(p.on_invoice_accepted(None), Err(PaymentsError::CannotGetInvoice));
    assert_eq!(p.on_invoice_settled(None), Err(PaymentsError::CannotGetInvoice));
    p.on_invoice_accepted(Some(invoice("I1", "A1", 10))).unwrap();
    p.on_invoice_accepted(Some(invoice("I2", "A2", 20))).unwrap();
    p.on_invoice_accepted(Some(invoice("I1", "A1", 10))).unwrap();
    assert_eq!(p.invoices_to_pay(), 3);
    assert_eq!(p.invoice_to_pay(1).invoice_id, "I2");
    assert_eq!(units(&p.invoice_to_pay(1).amount), 20);
    p.on_invoice_settled(Some(invoice("I1", "A1", 10))).unwrap();
    assert!(!p.is_tracked("A1"));
    assert!(p.is_tracked("A2"));
    assert_eq!(p.invoices_to_pay(), 1);
    assert_eq!(units(p.earnings()), 10);
    // A settlement that comes again: the ledger is gone already, the amount counts again.
    p.on_invoice_settled(Some(invoice("I1", "A1", 10))).unwrap();
    assert_eq!(units(p.earnings()), 20);
    assert!(p.is_tracked("A2"));
}

#[test]
fn earnings_grow_beyond_the_machine_numbers() {
    let mut p = engine();
    approve(&mut p, "A1", None);
    approve(&mut p, "A2", None);
    p.on_invoice_settled(Some(invoice("I1", "A1", u128::MAX))).unwrap();
    assert_eq!(p.on_invoice_settled(Some(invoice("I2", "A2", 1))), Ok(()));
    assert!(!p.is_tracked("A2"));
    assert_eq!(p.earnings().to_u128(), None);
}

#[test]
fn handle_dispatches_every_message() {
    let mut p = engine();
    let approved = Message::AgreementApproved {
        msg: AgreementApproved {
            agreement_id: "A1".to_string(),
            update_interval: 2_000,
            payment_deadline: Some(1_000),
        },
        model_built: true,
    };
    assert!(matches!(p.handle(approved, 0), Ok(Action::Nothing)));
    assert!(matches!(
        p.handle(Message::ActivityCreated(created("A1", "X1")), 1),
        Ok(Action::NotifyLater { delay: 2_000, .. })
    ));
    assert!(matches!(
        p.handle(Message::UpdateCost(UpdateCost { invoice_info: info("A1", "X1", None) }), 2),
        Ok(Action::SendDebitNote { delay: 2_000, .. })
    ));
    match p.handle(Message::ActivityDestroyed(destroyed("A1", "X1")), 3) {
        Ok(Action::SendFinalDebitNote { info }) => assert_eq!(info.payment_deadline, Some(1_003)),
        _ => panic!("the final debit note is asked for"),
    }
    assert!(matches!(
        p.handle(Message::FinalizeActivity(finalize("A1", "X1", 12)), 4),
        Ok(Action::Nothing)
    ));
    assert!(matches!(
        p.handle(Message::AgreementClosed(closed("A1")), 5),
        Ok(Action::IssueInvoice { .. })
    ));
    assert!(matches!(
        p.handle(Message::AgreementBroken(AgreementBroken { agreement_id: "A1".to_string() }), 6),
        Ok(Action::Nothing)
    ));
    assert!(matches!(
        p.handle(
            Message::InvoiceIssued(InvoiceIssued {
                agreement_id: "A1".to_string(),
                invoice_id: "I1".to_string()
            }),
            7
        ),
        Ok(Action::SendInvoice { .. })
    ));
    assert!(matches!(
        p.handle(Message::InvoiceSent(InvoiceSent { agreement_id: "A1".to_string() }), 8),
        Ok(Action::Nothing)
    ));
    assert!(matches!(p.handle(Message::InvoiceAccepted(None), 9), Err(PaymentsError::CannotGetInvoice)));
    assert!(matches!(
        p.handle(Message::InvoiceSettled(Some(invoice("I1", "A1", 12))), 10),
        Ok(Action::Nothing)
    ));
    assert!(!p.is_tracked("A1"));
    assert_eq!(units(p.earnings()), 12);
}

#[test]
fn due_date_stops_at_the_last_instant() {
    assert_eq!(due_date_at(1_000, 30), 1_030);
    assert_eq!(due_date_at(u64::MAX - 1, 1), u64::MAX);
    assert_eq!(due_date_at(u64::MAX - 1, 2), u64::MAX);
    assert_eq!(due_date_at(0, 0), 0);
}

#[test]
fn debit_note_goes_through_its_steps() {
    let i = info("A1", "X1", Some(777));
    let cost = cost(10);
    match compute_cost_and_send_debit_note(&i, &Costing::NoCost, &Delivery::NotIssued) {
        NextStep::ComputeCost { activity_id } => assert_eq!(activity_id, "X1"),
        _ => panic!("the cost comes first"),
    }
    assert!(matches!(
        compute_cost_and_send_debit_note(&i, &Costing::CostFailed, &Delivery::NotIssued),
        NextStep::Failed(DebitNoteError::CostNotComputed)
    ));
    match compute_cost_and_send_debit_note(&i, &Costing::Costed(cost.clone()), &Delivery::NotIssued) {
        NextStep::Issue(n) => {
            assert_eq!(n.activity_id, "X1");
            assert_eq!(units(&n.total_amount_due), 10);
            assert!(n.usage_counter_vector.is_empty());
            assert_eq!(n.payment_due_date, Some(777));
        }
        _ => panic!("a costed note is issued"),
    }
    assert!(matches!(
        send_debit_note(&i, &cost, &Delivery::IssueFailed),
        NextStep::Failed(DebitNoteError::NotIssued)
    ));
    match send_debit_note(&i, &cost, &Delivery::Issued(note("N1", "A1", "X1", 10))) {
        NextStep::Send { debit_note_id } => assert_eq!(debit_note_id, "N1"),
        _ => panic!("an issued note is sent"),
    }
    assert!(matches!(
        send_debit_note(&i, &cost, &Delivery::SendFailed(note("N1", "A1", "X1", 10))),
        NextStep::Failed(DebitNoteError::NotSent)
    ));
    match send_debit_note(&i, &cost, &Delivery::Sent(note("N1", "A1", "X1", 10))) {
        NextStep::Track(t) => {
            assert_eq!(t.agreement_id, "A1");
            assert_eq!(t.id, "N1");
            assert_eq!(t.deadline, 777);
        }
        _ => panic!("the deadline of a sent note is watched"),
    }
    assert!(matches!(
        send_debit_note(&i, &cost, &Delivery::TrackFailed(note("N1", "A1", "X1", 10))),
        NextStep::Failed(DebitNoteError::NotTracked)
    ));
    assert!(matches!(
        send_debit_note(&i, &cost, &Delivery::Watched(note("N1", "A1", "X1", 10))),
        NextStep::Done(done) if units(&done.cost) == 10
    ));
    let plain = info("A1", "X1", None);
    assert!(matches!(
        send_debit_note(&plain, &cost, &Delivery::Sent(note("N1", "A1", "X1", 10))),
        NextStep::Done(done) if units(&done.cost) == 10
    ));
}

#[test]
fn invoices_are_tried_until_they_arrive() {
    let c = PaymentsConfig::new("s".to_string());
    assert!(matches!(issue_invoice_attempt(&c, "A1", None), Attempt::RetryAfter(5_000)));
    match issue_invoice_attempt(&c, "A1", Some(invoice("I1", "A1", 3))) {
        Attempt::Deliver(msg) => {
            assert_eq!(msg.agreement_id, "A1");
            assert_eq!(msg.invoice_id, "I1");
        }
        _ => panic!("an issued invoice is reported"),
    }
    assert!(matches!(send_invoice_attempt(&c, "A1", false), Attempt::RetryAfter(50_000)));
    match send_invoice_attempt(&c, "A1", true) {
        Attempt::Deliver(msg) => assert_eq!(msg.agreement_id, "A1"),
        _ => panic!("a sent invoice is reported"),
    }
    assert!(matches!(
        final_debit_note_attempt(&c, &info("A1", "X1", None), Err(DebitNoteError::NotIssued)),
        Attempt::RetryAfter(50_000)
    ));
}
