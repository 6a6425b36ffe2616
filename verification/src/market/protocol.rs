//! What the nodes of the market tell one another about offers, and what a
//! node answers: whether the message is to be passed on.

use crate::keyed::Key;
use crate::market::db::Offer;
use vstd::prelude::*;

verus! {

/// Why a message about an offer is not passed on.
pub enum StopPropagateReason {
    /// The offer is known and active.
    AlreadyExists,
    /// The offer is known and was unsubscribed.
    AlreadyUnsubscribed,
    /// The offer is known and has expired.
    Expired,
    /// The message could not be taken; the text says why.
    Error(String),
}

/// A [`StopPropagateReason`] as contracts see it.
pub enum StopReasonView {
    AlreadyExists,
    AlreadyUnsubscribed,
    Expired,
    Error(Seq<char>),
}

impl View for StopPropagateReason {
    type V = StopReasonView;

    open spec fn view(&self) -> StopReasonView {
        match self {
            StopPropagateReason::AlreadyExists => StopReasonView::AlreadyExists,
            StopPropagateReason::AlreadyUnsubscribed => StopReasonView::AlreadyUnsubscribed,
            StopPropagateReason::Expired => StopReasonView::Expired,
            StopPropagateReason::Error(text) => StopReasonView::Error(text@),
        }
    }
}

/// Whether a message is passed on to the other nodes.
pub enum Propagate {
    /// Pass it on.
    True,
    /// Drop it, for this reason.
    False(StopPropagateReason),
}

/// A [`Propagate`] as contracts see it.
pub enum PropagateView {
    True,
    False(StopReasonView),
}

impl View for Propagate {
    type V = PropagateView;

    open spec fn view(&self) -> PropagateView {
        match self {
            Propagate::True => PropagateView::True,
            Propagate::False(reason) => PropagateView::False(reason@),
        }
    }
}

/// Another node passes on an offer.
pub struct OfferReceived {
    pub offer: Offer,
}

/// Another node passes on that the node `node_id` has unsubscribed an offer.
pub struct OfferUnsubscribed {
    pub node_id: String,
    pub subscription_id: String,
}

/// Another node asks for the offers that it has missed.
pub struct RetrieveOffers {
    pub newer_than: u64,
}

/// What goes out to the other nodes.
pub enum Broadcast {
    /// Tell the others of this offer.
    Offer(Offer),
    /// Tell the others that the node `node_id` has unsubscribed an offer.
    Unsubscribe { node_id: String, subscription_id: String },
}

/// A [`Broadcast`] as contracts see it.
pub enum BroadcastView {
    Offer(crate::market::db::Subscription),
    Unsubscribe { node_id: Key, subscription_id: Key },
}

impl View for Broadcast {
    type V = BroadcastView;

    open spec fn view(&self) -> BroadcastView {
        match self {
            Broadcast::Offer(offer) => BroadcastView::Offer(offer@),
            Broadcast::Unsubscribe { node_id, subscription_id } => BroadcastView::Unsubscribe {
                node_id: node_id@,
                subscription_id: subscription_id@,
            },
        }
    }
}

} // verus!
