//! Help for those who wait for a proposal among the events of the market.

pub mod provider;
pub mod requestor;

use crate::keyed::Key;
use vstd::prelude::*;

verus! {

/// A proposal in a negotiation.
pub struct Proposal {
    /// The id of the proposal, once the market has given it one.
    pub proposal_id: Option<String>,
    pub properties: String,
    pub constraints: String,
}

/// A [`Proposal`] as contracts see it.
pub struct ProposalView {
    pub proposal_id: Option<Key>,
    pub properties: Seq<char>,
    pub constraints: Seq<char>,
}

impl View for Proposal {
    type V = ProposalView;

    open spec fn view(&self) -> ProposalView {
        ProposalView {
            proposal_id: match self.proposal_id {
                Some(id) => Some(id@),
                None => None,
            },
            properties: self.properties@,
            constraints: self.constraints@,
        }
    }
}

/// Why no proposal could be had.
#[derive(Clone, Copy, PartialEq, Eq, Structural, Debug)]
pub enum ProposalError {
    /// The event is not a proposal.
    InvalidEventType,
    /// The proposal has no id yet.
    MissingProposalId,
}

/// Gives the id of a proposal.
pub trait ClientProposalHelper {
    /// The id that contracts expect, if there is one.
    spec fn id(&self) -> Option<Key>;

    /// The id of the proposal; an error where it has none.
    fn get_proposal_id(&self) -> (r: Result<String, ProposalError>)
        ensures
            match r {
                Ok(id) => self.id() == Some(id@),
                Err(e) => self.id() is None && e == ProposalError::MissingProposalId,
            },
    ;
}

impl ClientProposalHelper for Proposal {
    open spec fn id(&self) -> Option<Key> {
        self@.proposal_id
    }

    fn get_proposal_id(&self) -> (r: Result<String, ProposalError>) {
        match &self.proposal_id {
            Some(id) => Ok(id.clone()),
            None => Err(ProposalError::MissingProposalId),
        }
    }
}

} // verus!
