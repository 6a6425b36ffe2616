//! The events that the market has for the owner of an offer.

use crate::market::events_helper::{Proposal, ProposalError, ProposalView};
use crate::payments::agreement::Timestamp;
use vstd::prelude::*;

verus! {

/// What the market tells the owner of an offer.
pub enum ProviderEvent {
    /// The other side has made a proposal.
    ProposalEvent { event_date: Timestamp, proposal: Proposal },
    /// An agreement has come for approval.
    AgreementEvent { event_date: Timestamp, agreement_id: String },
    /// The other side asks for the value of a property.
    PropertyQueryEvent { event_date: Timestamp },
}

/// The proposal of an event, if the event is a proposal.
pub open spec fn proposal_of(event: ProviderEvent) -> Option<ProposalView> {
    match event {
        ProviderEvent::ProposalEvent { proposal, .. } => Some(proposal@),
        _ => None,
    }
}

/// The proposal of the one event that is awaited. The caller has made sure
/// that there is exactly one event; `i` tells the waits of a test apart.
pub fn expect_proposal(events: Vec<ProviderEvent>, i: u8) -> (r: Result<Proposal, ProposalError>)
    requires
        events@.len() == 1,
    ensures
        match r {
            Ok(p) => proposal_of(events@[0]) == Some(p@),
            Err(e) => proposal_of(events@[0]) is None && e == ProposalError::InvalidEventType,
        },
{
    let mut events = events;
    match events.pop() {
        Some(ProviderEvent::ProposalEvent { proposal, .. }) => Ok(proposal),
        _ => Err(ProposalError::InvalidEventType),
    }
}

} // verus!
