//! The store of offers and demands.
//!
//! An offer that was unsubscribed leaves a tombstone, and the tombstone stays
//! when the offer's record is removed: a node answers for every offer that it
//! has ever seen whether it is active, unsubscribed, expired or unknown.

use crate::keyed::{Key, StrMap};
use crate::payments::agreement::Timestamp;
use vstd::prelude::*;

verus! {

/// A subscription, as contracts see it.
pub struct Subscription {
    pub id: Key,
    pub node_id: Key,
    pub properties: Seq<char>,
    pub constraints: Seq<char>,
    pub creation_ts: Timestamp,
    pub expiration_ts: Timestamp,
}

/// What a provider offers on the market.
pub struct Offer {
    /// The id of the subscription.
    pub id: String,
    /// The node that made the offer.
    pub node_id: String,
    pub properties: String,
    pub constraints: String,
    pub creation_ts: Timestamp,
    pub expiration_ts: Timestamp,
}

/// What a requestor asks for on the market.
pub struct Demand {
    /// The id of the subscription.
    pub id: String,
    /// The node that made the demand.
    pub node_id: String,
    pub properties: String,
    pub constraints: String,
    pub creation_ts: Timestamp,
    pub expiration_ts: Timestamp,
}

impl View for Offer {
    type V = Subscription;

    open spec fn view(&self) -> Subscription {
        Subscription {
            id: self.id@,
            node_id: self.node_id@,
            properties: self.properties@,
            constraints: self.constraints@,
            creation_ts: self.creation_ts,
            expiration_ts: self.expiration_ts,
        }
    }
}

impl View for Demand {
    type V = Subscription;

    open spec fn view(&self) -> Subscription {
        Subscription {
            id: self.id@,
            node_id: self.node_id@,
            properties: self.properties@,
            constraints: self.constraints@,
            creation_ts: self.creation_ts,
            expiration_ts: self.expiration_ts,
        }
    }
}

impl Offer {
    pub fn clone(&self) -> (r: Self)
        ensures
            r@ == self@,
    {
        Offer {
            id: self.id.clone(),
            node_id: self.node_id.clone(),
            properties: self.properties.clone(),
            constraints: self.constraints.clone(),
            creation_ts: self.creation_ts,
            expiration_ts: self.expiration_ts,
        }
    }
}

impl Demand {
    pub fn clone(&self) -> (r: Self)
        ensures
            r@ == self@,
    {
        Demand {
            id: self.id.clone(),
            node_id: self.node_id.clone(),
            properties: self.properties.clone(),
            constraints: self.constraints.clone(),
            creation_ts: self.creation_ts,
            expiration_ts: self.expiration_ts,
        }
    }
}

/// What is kept of an offer that is no longer active.
pub struct Tombstone {
    pub id: String,
    pub expiration_ts: Timestamp,
}

/// A [`Tombstone`] as contracts see it.
pub struct TombstoneView {
    pub id: Key,
    pub expiration_ts: Timestamp,
}

impl View for Tombstone {
    type V = TombstoneView;

    open spec fn view(&self) -> TombstoneView {
        TombstoneView { id: self.id@, expiration_ts: self.expiration_ts }
    }
}

/// The tombstone of a subscription.
pub open spec fn tombstone_of(s: Subscription) -> TombstoneView {
    TombstoneView { id: s.id, expiration_ts: s.expiration_ts }
}

/// What the store knows of an offer.
pub enum OfferState {
    /// The offer is stored and can be matched.
    Active(Offer),
    /// The offer was unsubscribed.
    Unsubscribed(Tombstone),
    /// The offer is stored and its time is over.
    Expired(Tombstone),
    /// The store has never seen the offer.
    NotFound,
}

/// An [`OfferState`] as contracts see it.
pub enum OfferStateView {
    Active(Subscription),
    Unsubscribed(TombstoneView),
    Expired(TombstoneView),
    NotFound,
}

impl View for OfferState {
    type V = OfferStateView;

    open spec fn view(&self) -> OfferStateView {
        match self {
            OfferState::Active(o) => OfferStateView::Active(o@),
            OfferState::Unsubscribed(t) => OfferStateView::Unsubscribed(t@),
            OfferState::Expired(t) => OfferStateView::Expired(t@),
            OfferState::NotFound => OfferStateView::NotFound,
        }
    }
}

/// Why the store refused to take a record.
#[derive(Clone, Copy, PartialEq, Eq, Structural, Debug)]
pub enum DbError {
    /// A record with this id is stored already.
    AlreadyExists,
}

/// Why an offer could not be unsubscribed.
#[derive(Clone, Copy, PartialEq, Eq, Structural, Debug)]
pub enum UnsubscribeError {
    /// The store has never seen the offer.
    OfferNotFound,
    /// The offer was unsubscribed before.
    AlreadyUnsubscribed,
    /// The time of the offer is over.
    OfferExpired,
}

/// The store, as contracts see it.
pub struct StoreState {
    /// The records of the offers, by subscription id.
    pub offers: Map<Key, Subscription>,
    /// The tombstones of the unsubscribed offers, by subscription id.
    pub unsubscribed: Map<Key, TombstoneView>,
    /// The records of the demands, by subscription id.
    pub demands: Map<Key, Subscription>,
}

impl StoreState {
    /// Every record and every tombstone stands under its own id.
    pub open spec fn wf(self) -> bool {
        &&& forall|k: Key| #[trigger] self.offers.contains_key(k) ==> self.offers[k].id == k
        &&& forall|k: Key| #[trigger]
            self.unsubscribed.contains_key(k) ==> self.unsubscribed[k].id == k
        &&& forall|k: Key| #[trigger] self.demands.contains_key(k) ==> self.demands[k].id == k
    }

    /// A store that has seen nothing.
    pub open spec fn empty() -> StoreState {
        StoreState { offers: Map::empty(), unsubscribed: Map::empty(), demands: Map::empty() }
    }

    /// What the store knows of the offer `id` at the instant `now`. A
    /// tombstone counts before the record, and a record whose time is over
    /// counts as expired.
    pub open spec fn offer_state(self, id: Key, now: Timestamp) -> OfferStateView {
        if self.unsubscribed.contains_key(id) {
            OfferStateView::Unsubscribed(self.unsubscribed[id])
        } else if self.offers.contains_key(id) {
            if self.offers[id].expiration_ts > now {
                OfferStateView::Active(self.offers[id])
            } else {
                OfferStateView::Expired(tombstone_of(self.offers[id]))
            }
        } else {
            OfferStateView::NotFound
        }
    }

    /// The store with the record of `offer`.
    pub open spec fn with_offer(self, offer: Subscription) -> StoreState {
        StoreState { offers: self.offers.insert(offer.id, offer), ..self }
    }

    /// The store without the record of the offer `id`; a tombstone stays.
    pub open spec fn without_offer(self, id: Key) -> StoreState {
        StoreState { offers: self.offers.remove(id), ..self }
    }

    /// The store with a tombstone for the active offer `id`.
    pub open spec fn unsubscribed_offer(self, id: Key) -> StoreState {
        StoreState {
            unsubscribed: self.unsubscribed.insert(id, tombstone_of(self.offers[id])),
            ..self
        }
    }

    /// The answer to an attempt to unsubscribe the offer `id` at `now`.
    pub open spec fn unsubscribe_result(self, id: Key, now: Timestamp) -> Result<
        (),
        UnsubscribeError,
    > {
        match self.offer_state(id, now) {
            OfferStateView::Active(_) => Ok(()),
            OfferStateView::Unsubscribed(_) => Err(UnsubscribeError::AlreadyUnsubscribed),
            OfferStateView::Expired(_) => Err(UnsubscribeError::OfferExpired),
            OfferStateView::NotFound => Err(UnsubscribeError::OfferNotFound),
        }
    }

    /// The store after an attempt to unsubscribe the offer `id` at `now`.
    pub open spec fn after_unsubscribe(self, id: Key, now: Timestamp) -> StoreState {
        if self.unsubscribe_result(id, now) is Ok {
            self.unsubscribed_offer(id)
        } else {
            self
        }
    }

    /// The store with the record of `demand`.
    pub open spec fn with_demand(self, demand: Subscription) -> StoreState {
        StoreState { demands: self.demands.insert(demand.id, demand), ..self }
    }

    /// The store without the record of the demand `id`.
    pub open spec fn without_demand(self, id: Key) -> StoreState {
        StoreState { demands: self.demands.remove(id), ..self }
    }
}

/// A store state that differs from a well-formed one in the record or the
/// tombstone under one id is well formed if what stands there has that id.
pub proof fn lemma_store_wf(old: StoreState, new: StoreState, id: Key)
    requires
        old.wf(),
        new.offers == old.offers || new.offers == old.offers.remove(id) || (
        new.offers.contains_key(id) && new.offers[id].id == id && new.offers == old.offers.insert(
            id,
            new.offers[id],
        )),
        new.unsubscribed == old.unsubscribed || (new.unsubscribed.contains_key(id)
            && new.unsubscribed[id].id == id && new.unsubscribed == old.unsubscribed.insert(
            id,
            new.unsubscribed[id],
        )),
        new.demands == old.demands || new.demands == old.demands.remove(id) || (
        new.demands.contains_key(id) && new.demands[id].id == id && new.demands
            == old.demands.insert(id, new.demands[id])),
    ensures
        new.wf(),
{
    assert forall|k: Key| #[trigger] new.offers.contains_key(k) implies new.offers[k].id == k by {
        if k != id {
            assert(old.offers.contains_key(k));
        }
    }
    assert forall|k: Key| #[trigger] new.unsubscribed.contains_key(k) implies new.unsubscribed[k].id
        == k by {
        if k != id {
            assert(old.unsubscribed.contains_key(k));
        }
    }
    assert forall|k: Key| #[trigger] new.demands.contains_key(k) implies new.demands[k].id == k by {
        if k != id {
            assert(old.demands.contains_key(k));
        }
    }
}

/// The offers and demands that a node has stored.
pub struct SubscriptionStore {
    offers: StrMap<Offer>,
    unsubscribed: StrMap<Tombstone>,
    demands: StrMap<Demand>,
}

impl View for SubscriptionStore {
    type V = StoreState;

    closed spec fn view(&self) -> StoreState {
        StoreState {
            offers: self.offers@.map_values(|o: Offer| o@),
            unsubscribed: self.unsubscribed@.map_values(|t: Tombstone| t@),
            demands: self.demands@.map_values(|d: Demand| d@),
        }
    }
}

impl SubscriptionStore {
    /// No id has two records of a kind, and every record and tombstone
    /// stands under its own id.
    pub closed spec fn wf(&self) -> bool {
        &&& self.offers.wf()
        &&& self.unsubscribed.wf()
        &&& self.demands.wf()
        &&& self@.wf()
    }

    /// The view of a well-formed store is well formed.
    pub proof fn lemma_wf(&self)
        requires
            self.wf(),
        ensures
            self@.wf(),
    {
    }

    /// A store that has seen nothing.
    pub fn new() -> (s: Self)
        ensures
            s.wf(),
            s@ == StoreState::empty(),
    {
        let s = SubscriptionStore {
            offers: StrMap::new(),
            unsubscribed: StrMap::new(),
            demands: StrMap::new(),
        };
        assert(s@.offers =~= Map::empty());
        assert(s@.unsubscribed =~= Map::empty());
        assert(s@.demands =~= Map::empty());
        s
    }

    /// Stores the record of an offer. An offer whose record is stored
    /// already is refused, and nothing changes.
    pub fn create_offer(&mut self, offer: &Offer) -> (r: Result<(), DbError>)
        requires
            old(self).wf(),
        ensures
            final(self).wf(),
            r == if old(self)@.offers.contains_key(offer.id@) {
                Err::<(), DbError>(DbError::AlreadyExists)
            } else {
                Ok(())
            },
            final(self)@ == if r is Ok {
                old(self)@.with_offer(offer@)
            } else {
                old(self)@
            },
    {
        if self.offers.contains_key(offer.id.as_str()) {
            return Err(DbError::AlreadyExists);
        }
        let o = offer.clone();
        self.offers.insert(offer.id.clone(), o);
        assert(self@.offers =~= old(self)@.offers.insert(offer.id@, offer@));
        proof {
            lemma_store_wf(old(self)@, self@, offer.id@);
        }
        Ok(())
    }

    /// What the store knows of the offer `id` at the instant `now`.
    pub fn get_offer_state(&self, id: &str, now: Timestamp) -> (r: OfferState)
        requires
            self.wf(),
        ensures
            r@ == self@.offer_state(id@, now),
    {
        match self.unsubscribed.get(id) {
            Some(t) => OfferState::Unsubscribed(
                Tombstone { id: t.id.clone(), expiration_ts: t.expiration_ts },
            ),
            None => match self.offers.get(id) {
                Some(o) => {
                    if o.expiration_ts > now {
                        OfferState::Active(o.clone())
                    } else {
                        OfferState::Expired(
                            Tombstone { id: o.id.clone(), expiration_ts: o.expiration_ts },
                        )
                    }
                },
                None => OfferState::NotFound,
            },
        }
    }

    /// The offer `id` if it is active at the instant `now`.
    pub fn get_offer(&self, id: &str, now: Timestamp) -> (r: Option<Offer>)
        requires
            self.wf(),
        ensures
            match r {
                Some(o) => self@.offer_state(id@, now) == OfferStateView::Active(o@),
                None => !(self@.offer_state(id@, now) is Active),
            },
    {
        match self.get_offer_state(id, now) {
            OfferState::Active(o) => Some(o),
            _ => None,
        }
    }

    /// Marks an active offer as unsubscribed: it gets a tombstone. An offer
    /// that is unsubscribed already, expired or unknown is refused with the
    /// error that says which, and nothing changes.
    pub fn mark_offer_as_unsubscribed(&mut self, id: &str, now: Timestamp) -> (r: Result<
        (),
        UnsubscribeError,
    >)
        requires
            old(self).wf(),
        ensures
            final(self).wf(),
            r == old(self)@.unsubscribe_result(id@, now),
            final(self)@ == old(self)@.after_unsubscribe(id@, now),
    {
        match self.get_offer_state(id, now) {
            OfferState::Active(o) => {
                let t = Tombstone { id: o.id, expiration_ts: o.expiration_ts };
                self.unsubscribed.insert(id.to_owned(), t);
                assert(self@.unsubscribed =~= old(self)@.unsubscribed.insert(
                    id@,
                    tombstone_of(old(self)@.offers[id@]),
                ));
                proof {
                    assert(old(self)@.offers[id@].id == id@);
                    lemma_store_wf(old(self)@, self@, id@);
                }
                Ok(())
            },
            OfferState::Unsubscribed(_) => Err(UnsubscribeError::AlreadyUnsubscribed),
            OfferState::Expired(_) => Err(UnsubscribeError::OfferExpired),
            OfferState::NotFound => Err(UnsubscribeError::OfferNotFound),
        }
    }

    /// Removes the record of an offer and says whether there was one. A
    /// tombstone of the offer stays.
    pub fn remove_offer(&mut self, id: &str) -> (removed: bool)
        requires
            old(self).wf(),
        ensures
            final(self).wf(),
            removed == old(self)@.offers.contains_key(id@),
            final(self)@ == old(self)@.without_offer(id@),
    {
        let r = self.offers.remove(id);
        assert(self@.offers =~= old(self)@.offers.remove(id@));
        proof {
            lemma_store_wf(old(self)@, self@, id@);
        }
        r.is_some()
    }

    /// Stores the record of a demand. A demand whose record is stored
    /// already is refused, and nothing changes.
    pub fn create_demand(&mut self, demand: &Demand) -> (r: Result<(), DbError>)
        requires
            old(self).wf(),
        ensures
            final(self).wf(),
            r == if old(self)@.demands.contains_key(demand.id@) {
                Err::<(), DbError>(DbError::AlreadyExists)
            } else {
                Ok(())
            },
            final(self)@ == if r is Ok {
                old(self)@.with_demand(demand@)
            } else {
                old(self)@
            },
    {
        if self.demands.contains_key(demand.id.as_str()) {
            return Err(DbError::AlreadyExists);
        }
        let d = demand.clone();
        self.demands.insert(demand.id.clone(), d);
        assert(self@.demands =~= old(self)@.demands.insert(demand.id@, demand@));
        proof {
            lemma_store_wf(old(self)@, self@, demand.id@);
        }
        Ok(())
    }

    /// The demand `id` if it is stored and its time is not over at `now`.
    pub fn get_demand(&self, id: &str, now: Timestamp) -> (r: Option<Demand>)
        requires
            self.wf(),
        ensures
            match r {
                Some(d) => self@.demands.contains_key(id@) && d@ == self@.demands[id@]
                    && d.expiration_ts > now,
                None => !self@.demands.contains_key(id@) || self@.demands[id@].expiration_ts
                    <= now,
            },
    {
        match self.demands.get(id) {
            Some(d) => {
                if d.expiration_ts > now {
                    Some(d.clone())
                } else {
                    None
                }
            },
            None => None,
        }
    }

    /// Removes the record of a demand and says whether there was one.
    pub fn remove_demand(&mut self, id: &str) -> (removed: bool)
        requires
            old(self).wf(),
        ensures
            final(self).wf(),
            removed == old(self)@.demands.contains_key(id@),
            final(self)@ == old(self)@.without_demand(id@),
    {
        let r = self.demands.remove(id);
        assert(self@.demands =~= old(self)@.demands.remove(id@));
        proof {
            lemma_store_wf(old(self)@, self@, id@);
        }
        r.is_some()
    }
}

} // verus!
