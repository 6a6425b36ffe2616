//! The matcher: the subscriptions of the local agent, and the answers to
//! what other nodes pass on about offers.
//!
//! An offer is passed on only when it is new to this node. Whether it is new
//! is asked of the store, which also remembers unsubscribed and expired
//! offers: an offer that was ever seen is never taken in and never passed on
//! again.

use crate::keyed::Key;
use crate::market::db::{
    DbError, Demand, Offer, OfferState, OfferStateView, StoreState, Subscription,
    SubscriptionStore, UnsubscribeError,
};
use crate::market::protocol::{
    Broadcast, BroadcastView, OfferReceived, OfferUnsubscribed, Propagate, PropagateView,
    RetrieveOffers, StopPropagateReason, StopReasonView,
};
use crate::payments::agreement::Timestamp;
use vstd::prelude::*;
use vstd::string::*;

verus! {

/// Why a demand could not be handled.
pub enum DemandError {
    /// The demand could not be stored.
    SaveDemandFailure(DbError),
    /// The demand could not be removed.
    RemoveDemandFailure(DbError, String),
    /// No demand is stored under the id.
    DemandNotExists(String),
}

/// Why an offer could not be handled.
pub enum OfferError {
    /// The offer could not be stored.
    SaveOfferFailure(DbError),
    /// The offer with the id could not be unsubscribed.
    UnsubscribeOfferFailure(UnsubscribeError, String),
    /// No offer is stored under the id.
    OfferNotExists(String),
}

/// Why the matcher refused a request.
pub enum MatcherError {
    DemandError(DemandError),
    OfferError(OfferError),
    InternalError(String),
}

/// The text of a store error.
pub open spec fn db_error_text(e: DbError) -> Seq<char> {
    match e {
        DbError::AlreadyExists => "a record with this id exists already"@,
    }
}

/// The text of an error of unsubscribing the offer `id`.
pub open spec fn unsubscribe_error_text(e: UnsubscribeError, id: Key) -> Seq<char> {
    match e {
        UnsubscribeError::OfferNotFound => "Offer ["@ + id + "] not found."@,
        UnsubscribeError::AlreadyUnsubscribed => "Offer ["@ + id + "] already unsubscribed."@,
        UnsubscribeError::OfferExpired => "Can't unsubscribe expired Offer ["@ + id + "]."@,
    }
}

/// The text of a demand error.
pub open spec fn demand_error_text(e: DemandError) -> Seq<char> {
    match e {
        DemandError::SaveDemandFailure(db) => "Failed to save Demand. Error: "@ + db_error_text(db)
            + "."@,
        DemandError::RemoveDemandFailure(db, id) => "Failed to remove Demand ["@ + id@
            + "]. Error: "@ + db_error_text(db) + "."@,
        DemandError::DemandNotExists(id) => "Demand ["@ + id@ + "] doesn't exist."@,
    }
}

/// The text of an offer error.
pub open spec fn offer_error_text(e: OfferError) -> Seq<char> {
    match e {
        OfferError::SaveOfferFailure(db) => "Failed to save Offer. Error: "@ + db_error_text(db)
            + "."@,
        OfferError::UnsubscribeOfferFailure(u, id) => "Failed to remove Offer ["@ + id@
            + "]. Error: "@ + unsubscribe_error_text(u, id@) + "."@,
        OfferError::OfferNotExists(id) => "Offer ["@ + id@ + "] doesn't exist."@,
    }
}

/// The text of an internal error with the cause `cause`.
pub open spec fn internal_error_text(cause: Seq<char>) -> Seq<char> {
    "Internal error: "@ + cause + "."@
}

/// The text of a matcher error.
pub open spec fn matcher_error_text(e: MatcherError) -> Seq<char> {
    match e {
        MatcherError::DemandError(d) => demand_error_text(d),
        MatcherError::OfferError(o) => offer_error_text(o),
        MatcherError::InternalError(cause) => internal_error_text(cause@),
    }
}

/// The three texts in a row.
fn join3(a: &str, b: &str, c: &str) -> (r: String)
    ensures
        r@ == a@ + b@ + c@,
{
    let mut r = a.to_owned();
    r.append(b);
    r.append(c);
    r
}

/// The text of a store error.
pub fn db_error_message(e: DbError) -> (r: String)
    ensures
        r@ == db_error_text(e),
{
    match e {
        DbError::AlreadyExists => "a record with this id exists already".to_owned(),
    }
}

/// The text of an error of unsubscribing the offer `id`.
pub fn unsubscribe_error_message(e: UnsubscribeError, id: &str) -> (r: String)
    ensures
        r@ == unsubscribe_error_text(e, id@),
{
    match e {
        UnsubscribeError::OfferNotFound => join3("Offer [", id, "] not found."),
        UnsubscribeError::AlreadyUnsubscribed => join3("Offer [", id, "] already unsubscribed."),
        UnsubscribeError::OfferExpired => join3("Can't unsubscribe expired Offer [", id, "]."),
    }
}

impl DemandError {
    /// The error in words.
    pub fn message(&self) -> (r: String)
        ensures
            r@ == demand_error_text(*self),
    {
        match self {
            DemandError::SaveDemandFailure(db) => join3(
                "Failed to save Demand. Error: ",
                db_error_message(*db).as_str(),
                ".",
            ),
            DemandError::RemoveDemandFailure(db, id) => {
                let mut r = join3("Failed to remove Demand [", id.as_str(), "]. Error: ");
                r.append(db_error_message(*db).as_str());
                r.append(".");
                r
            },
            DemandError::DemandNotExists(id) => join3("Demand [", id.as_str(), "] doesn't exist."),
        }
    }
}

impl OfferError {
    /// The error in words.
    pub fn message(&self) -> (r: String)
        ensures
            r@ == offer_error_text(*self),
    {
        match self {
            OfferError::SaveOfferFailure(db) => join3(
                "Failed to save Offer. Error: ",
                db_error_message(*db).as_str(),
                ".",
            ),
            OfferError::UnsubscribeOfferFailure(u, id) => {
                let mut r = join3("Failed to remove Offer [", id.as_str(), "]. Error: ");
                r.append(unsubscribe_error_message(*u, id.as_str()).as_str());
                r.append(".");
                r
            },
            OfferError::OfferNotExists(id) => join3("Offer [", id.as_str(), "] doesn't exist."),
        }
    }
}

impl MatcherError {
    /// The error in words.
    pub fn message(&self) -> (r: String)
        ensures
            r@ == matcher_error_text(*self),
    {
        match self {
            MatcherError::DemandError(d) => d.message(),
            MatcherError::OfferError(o) => o.message(),
            MatcherError::InternalError(cause) => join3("Internal error: ", cause.as_str(), "."),
        }
    }
}

/// What an offer does that another node has passed on, and whether it is
/// passed on further. `validation` is the outcome of checking the offer's
/// id against its contents: `Err` with the cause where they do not fit.
///
/// An offer that the store has seen, be it active, unsubscribed or expired,
/// changes nothing and goes no further. A new offer is stored and passed on
/// if its id is valid; else it is dropped.
pub open spec fn received(
    s: StoreState,
    offer: Subscription,
    validation: Result<(), String>,
    now: Timestamp,
) -> (StoreState, PropagateView) {
    match s.offer_state(offer.id, now) {
        OfferStateView::Active(_) => (s, PropagateView::False(StopReasonView::AlreadyExists)),
        OfferStateView::Unsubscribed(_) => (
            s,
            PropagateView::False(StopReasonView::AlreadyUnsubscribed),
        ),
        OfferStateView::Expired(_) => (s, PropagateView::False(StopReasonView::Expired)),
        OfferStateView::NotFound => match validation {
            Ok(_) => (s.with_offer(offer), PropagateView::True),
            Err(cause) => (
                s,
                PropagateView::False(StopReasonView::Error(internal_error_text(cause@))),
            ),
        },
    }
}

/// What the news does that another node's offer was unsubscribed, and
/// whether it is passed on. An active offer gets its tombstone, loses its
/// record, and the news goes on; for any other offer nothing changes and the
/// news stops.
pub open spec fn unsubscribed(s: StoreState, id: Key, now: Timestamp) -> (
    StoreState,
    PropagateView,
) {
    match s.unsubscribe_result(id, now) {
        Ok(_) => (s.unsubscribed_offer(id).without_offer(id), PropagateView::True),
        Err(UnsubscribeError::OfferExpired) => (s, PropagateView::False(StopReasonView::Expired)),
        Err(UnsubscribeError::AlreadyUnsubscribed) => (
            s,
            PropagateView::False(StopReasonView::AlreadyUnsubscribed),
        ),
        Err(e) => (s, PropagateView::False(StopReasonView::Error(unsubscribe_error_text(e, id)))),
    }
}

/// Takes an offer that another node has passed on.
pub fn on_offer_received(
    store: &mut SubscriptionStore,
    msg: &OfferReceived,
    validation: Result<(), String>,
    now: Timestamp,
) -> (r: Propagate)
    requires
        old(store).wf(),
    ensures
        final(store).wf(),
        final(store)@ == received(old(store)@, msg.offer@, validation, now).0,
        r@ == received(old(store)@, msg.offer@, validation, now).1,
{
    match store.get_offer_state(msg.offer.id.as_str(), now) {
        OfferState::Active(_) => Propagate::False(StopPropagateReason::AlreadyExists),
        OfferState::Unsubscribed(_) => Propagate::False(StopPropagateReason::AlreadyUnsubscribed),
        OfferState::Expired(_) => Propagate::False(StopPropagateReason::Expired),
        OfferState::NotFound => match validation {
            Err(cause) => Propagate::False(
                StopPropagateReason::Error(MatcherError::InternalError(cause).message()),
            ),
            Ok(_) => {
                match store.create_offer(&msg.offer) {
                    Ok(_) => Propagate::True,
                    Err(e) => Propagate::False(
                        StopPropagateReason::Error(
                            MatcherError::OfferError(OfferError::SaveOfferFailure(e)).message(),
                        ),
                    ),
                }
            },
        },
    }
}

/// Takes the news that another node's offer was unsubscribed.
pub fn on_offer_unsubscribed(store: &mut SubscriptionStore, msg: &OfferUnsubscribed, now: Timestamp) -> (r:
    Propagate)
    requires
        old(store).wf(),
    ensures
        final(store).wf(),
        final(store)@ == unsubscribed(old(store)@, msg.subscription_id@, now).0,
        r@ == unsubscribed(old(store)@, msg.subscription_id@, now).1,
{
    match store.mark_offer_as_unsubscribed(msg.subscription_id.as_str(), now) {
        Ok(_) => {
            let _ = store.remove_offer(msg.subscription_id.as_str());
            Propagate::True
        },
        Err(UnsubscribeError::OfferExpired) => Propagate::False(StopPropagateReason::Expired),
        Err(UnsubscribeError::AlreadyUnsubscribed) => Propagate::False(
            StopPropagateReason::AlreadyUnsubscribed,
        ),
        Err(e) => Propagate::False(
            StopPropagateReason::Error(
                unsubscribe_error_message(e, msg.subscription_id.as_str()),
            ),
        ),
    }
}

/// Answers a node that asks for the offers it has missed. No offers are
/// handed out this way: the node learns of them as they are passed on.
pub fn on_retrieve_offers(msg: &RetrieveOffers) -> (r: Vec<Offer>)
    ensures
        r@.len() == 0,
{
    Vec::new()
}

/// Stores the offers and demands of the local agent and of other nodes.
pub struct Matcher {
    store: SubscriptionStore,
}

impl View for Matcher {
    type V = StoreState;

    closed spec fn view(&self) -> StoreState {
        self.store@
    }
}

impl Matcher {
    /// The store of the matcher is well formed.
    pub closed spec fn wf(&self) -> bool {
        self.store.wf()
    }

    /// A matcher over the store `store`.
    pub fn new(store: SubscriptionStore) -> (m: Matcher)
        requires
            store.wf(),
        ensures
            m.wf(),
            m@ == store@,
    {
        Matcher { store }
    }

    /// Stores an offer of the local agent and asks to tell the other nodes
    /// of it. `validation` is the outcome of checking the offer's id against
    /// its contents. An offer whose id is not valid is refused with the
    /// cause, and so is one that is stored already.
    pub fn subscribe_offer(&mut self, model_offer: &Offer, validation: Result<(), String>) -> (r:
        Result<Broadcast, MatcherError>)
        requires
            old(self).wf(),
        ensures
            final(self).wf(),
            match r {
                Ok(b) => {
                    &&& validation is Ok
                    &&& !old(self)@.offers.contains_key(model_offer.id@)
                    &&& final(self)@ == old(self)@.with_offer(model_offer@)
                    &&& b@ == BroadcastView::Offer(model_offer@)
                },
                Err(e) => {
                    &&& final(self)@ == old(self)@
                    &&& match validation {
                        Err(cause) => e matches MatcherError::InternalError(text) && text@
                            == cause@,
                        Ok(_) => {
                            &&& old(self)@.offers.contains_key(model_offer.id@)
                            &&& e matches MatcherError::OfferError(
                                OfferError::SaveOfferFailure(DbError::AlreadyExists),
                            )
                        },
                    }
                },
            },
    {
        match validation {
            Err(cause) => {
                return Err(MatcherError::InternalError(cause));
            },
            Ok(_) => {},
        }
        match self.store.create_offer(model_offer) {
            Ok(_) => Ok(Broadcast::Offer(model_offer.clone())),
            Err(e) => Err(MatcherError::OfferError(OfferError::SaveOfferFailure(e))),
        }
    }

    /// Stores a demand of the local agent. A demand that is stored already
    /// is refused.
    pub fn subscribe_demand(&mut self, model_demand: &Demand) -> (r: Result<(), MatcherError>)
        requires
            old(self).wf(),
        ensures
            final(self).wf(),
            match r {
                Ok(_) => {
                    &&& !old(self)@.demands.contains_key(model_demand.id@)
                    &&& final(self)@ == old(self)@.with_demand(model_demand@)
                },
                Err(e) => {
                    &&& old(self)@.demands.contains_key(model_demand.id@)
                    &&& final(self)@ == old(self)@
                    &&& e matches MatcherError::DemandError(
                        DemandError::SaveDemandFailure(DbError::AlreadyExists),
                    )
                },
            },
    {
        match self.store.create_demand(model_demand) {
            Ok(_) => Ok(()),
            Err(e) => Err(MatcherError::DemandError(DemandError::SaveDemandFailure(e))),
        }
    }

    /// Unsubscribes an offer of the local agent, whose node is `node_id`,
    /// and asks to tell the other nodes. The record of the offer is kept. An
    /// offer that is not active is refused with the error of the store.
    pub fn unsubscribe_offer(&mut self, node_id: &str, subscription_id: &str, now: Timestamp) -> (r:
        Result<Broadcast, MatcherError>)
        requires
            old(self).wf(),
        ensures
            final(self).wf(),
            final(self)@ == old(self)@.after_unsubscribe(subscription_id@, now),
            match r {
                Ok(b) => {
                    &&& old(self)@.unsubscribe_result(subscription_id@, now) is Ok
                    &&& b@ == (BroadcastView::Unsubscribe {
                        node_id: node_id@,
                        subscription_id: subscription_id@,
                    })
                },
                Err(e) => {
                    &&& e matches MatcherError::OfferError(
                        OfferError::UnsubscribeOfferFailure(cause, id),
                    )
                    &&& old(self)@.unsubscribe_result(subscription_id@, now) == Err::<
                        (),
                        UnsubscribeError,
                    >(cause)
                    &&& id@ == subscription_id@
                },
            },
    {
        match self.store.mark_offer_as_unsubscribed(subscription_id, now) {
            Ok(_) => Ok(
                Broadcast::Unsubscribe {
                    node_id: node_id.to_owned(),
                    subscription_id: subscription_id.to_owned(),
                },
            ),
            Err(e) => Err(
                MatcherError::OfferError(
                    OfferError::UnsubscribeOfferFailure(e, subscription_id.to_owned()),
                ),
            ),
        }
    }

    /// Removes a demand of the local agent. A demand that is not stored is
    /// refused.
    pub fn unsubscribe_demand(&mut self, subscription_id: &str) -> (r: Result<(), MatcherError>)
        requires
            old(self).wf(),
        ensures
            final(self).wf(),
            final(self)@ == old(self)@.without_demand(subscription_id@),
            match r {
                Ok(_) => old(self)@.demands.contains_key(subscription_id@),
                Err(e) => {
                    &&& !old(self)@.demands.contains_key(subscription_id@)
                    &&& e matches MatcherError::DemandError(DemandError::DemandNotExists(id))
                    &&& id@ == subscription_id@
                },
            },
    {
        if self.store.remove_demand(subscription_id) {
            Ok(())
        } else {
            Err(
                MatcherError::DemandError(
                    DemandError::DemandNotExists(subscription_id.to_owned()),
                ),
            )
        }
    }

    /// The offer `subscription_id` if it is active at the instant `now`.
    pub fn get_offer(&self, subscription_id: &str, now: Timestamp) -> (r: Option<Offer>)
        requires
            self.wf(),
        ensures
            match r {
                Some(o) => self@.offer_state(subscription_id@, now) == OfferStateView::Active(o@),
                None => !(self@.offer_state(subscription_id@, now) is Active),
            },
    {
        self.store.get_offer(subscription_id, now)
    }

    /// The demand `subscription_id` if it is stored and its time is not
    /// over at the instant `now`.
    pub fn get_demand(&self, subscription_id: &str, now: Timestamp) -> (r: Option<Demand>)
        requires
            self.wf(),
        ensures
            match r {
                Some(d) => self@.demands.contains_key(subscription_id@) && d@
                    == self@.demands[subscription_id@] && d.expiration_ts > now,
                None => !self@.demands.contains_key(subscription_id@)
                    || self@.demands[subscription_id@].expiration_ts <= now,
            },
    {
        self.store.get_demand(subscription_id, now)
    }

    /// What the store knows of the offer `subscription_id` at `now`.
    pub fn get_offer_state(&self, subscription_id: &str, now: Timestamp) -> (r: OfferState)
        requires
            self.wf(),
        ensures
            r@ == self@.offer_state(subscription_id@, now),
    {
        self.store.get_offer_state(subscription_id, now)
    }

    /// Takes an offer that another node has passed on.
    pub fn offer_received(
        &mut self,
        msg: &OfferReceived,
        validation: Result<(), String>,
        now: Timestamp,
    ) -> (r: Propagate)
        requires
            old(self).wf(),
        ensures
            final(self).wf(),
            final(self)@ == received(old(self)@, msg.offer@, validation, now).0,
            r@ == received(old(self)@, msg.offer@, validation, now).1,
    {
        on_offer_received(&mut self.store, msg, validation, now)
    }

    /// Takes the news that another node's offer was unsubscribed.
    pub fn offer_unsubscribed(&mut self, msg: &OfferUnsubscribed, now: Timestamp) -> (r: Propagate)
        requires
            old(self).wf(),
        ensures
            final(self).wf(),
            final(self)@ == unsubscribed(old(self)@, msg.subscription_id@, now).0,
            r@ == unsubscribed(old(self)@, msg.subscription_id@, now).1,
    {
        on_offer_unsubscribed(&mut self.store, msg, now)
    }
}

} // verus!
