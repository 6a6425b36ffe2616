//! What holds of the matcher for every store and every message: the laws
//! that keep the passing on of offers from going round for ever.

use crate::keyed::Key;
use crate::market::db::{Offer, OfferStateView, StoreState, Subscription};
use crate::market::matcher::{received, unsubscribed};
use crate::market::protocol::{PropagateView, StopReasonView};
use crate::payments::agreement::Timestamp;
use vstd::prelude::*;

verus! {

/// An offer that another node has passed on is stored exactly when the
/// store had never seen it and its id is valid. It is then stored as it
/// came; in every other case the store stays as it was.
pub proof fn law_stored_iff_new_and_valid(
    s: StoreState,
    offer: Subscription,
    validation: Result<(), String>,
    now: Timestamp,
)
    ensures
        ({
            let t = received(s, offer, validation, now).0;
            let taken = s.offer_state(offer.id, now) is NotFound && validation is Ok;
            &&& (!s.offers.contains_key(offer.id) && t.offers.contains_key(offer.id)) <==> taken
            &&& taken ==> t == s.with_offer(offer) && t.offers[offer.id] == offer
            &&& !taken ==> t == s
            &&& received(s, offer, validation, now).1 is True <==> taken
        }),
{
}

/// An offer that the store has seen goes no further: be it active,
/// unsubscribed or expired, the store stays as it was and the answer is not
/// to pass it on, with the reason that names the state.
pub proof fn law_known_offer_is_not_passed_on(
    s: StoreState,
    offer: Subscription,
    validation: Result<(), String>,
    now: Timestamp,
)
    requires
        !(s.offer_state(offer.id, now) is NotFound),
    ensures
        received(s, offer, validation, now).0 == s,
        received(s, offer, validation, now).1 == PropagateView::False(
            match s.offer_state(offer.id, now) {
                OfferStateView::Active(_) => StopReasonView::AlreadyExists,
                OfferStateView::Unsubscribed(_) => StopReasonView::AlreadyUnsubscribed,
                _ => StopReasonView::Expired,
            },
        ),
{
}

/// An offer that the store has seen is never new again. Whatever offers
/// and whatever news of unsubscribed offers arrive, and whether the local
/// agent subscribes or unsubscribes offers, the store still knows the offer
/// at every later instant.
pub proof fn law_seen_offer_is_never_new(
    s: StoreState,
    id: Key,
    now: Timestamp,
    other: Subscription,
    validation: Result<(), String>,
    other_id: Key,
    at: Timestamp,
    later: Timestamp,
)
    requires
        !(s.offer_state(id, now) is NotFound),
    ensures
        !(received(s, other, validation, at).0.offer_state(id, later) is NotFound),
        !(unsubscribed(s, other_id, at).0.offer_state(id, later) is NotFound),
        !(s.with_offer(other).offer_state(id, later) is NotFound),
        !(s.after_unsubscribe(other_id, at).offer_state(id, later) is NotFound),
{
}

/// An offer that the local agent subscribed and then unsubscribed is
/// unsubscribed in the store for good, and when it comes back from another
/// node it is refused as already unsubscribed and changes nothing. The offer
/// is new to the store when it is subscribed, and its time is not over when
/// it is unsubscribed.
pub proof fn law_unsubscribed_offer_is_refused(
    s: StoreState,
    offer: Subscription,
    validation: Result<(), String>,
    subscribed_at: Timestamp,
    unsubscribed_at: Timestamp,
    received_at: Timestamp,
)
    requires
        s.offer_state(offer.id, subscribed_at) is NotFound,
        unsubscribed_at < offer.expiration_ts,
    ensures
        ({
            let t = s.with_offer(offer).after_unsubscribe(offer.id, unsubscribed_at);
            &&& s.with_offer(offer).unsubscribe_result(offer.id, unsubscribed_at) is Ok
            &&& t.offer_state(offer.id, received_at) is Unsubscribed
            &&& received(t, offer, validation, received_at).0 == t
            &&& received(t, offer, validation, received_at).1 == PropagateView::False(
                StopReasonView::AlreadyUnsubscribed,
            )
        }),
{
}

/// The news that an offer was unsubscribed is passed on once: after it was
/// taken the offer is unsubscribed in the store, and the same news, when it
/// comes again, changes nothing and stops.
pub proof fn law_unsubscribe_is_passed_on_once(
    s: StoreState,
    id: Key,
    now: Timestamp,
    later: Timestamp,
)
    requires
        unsubscribed(s, id, now).1 is True,
    ensures
        ({
            let t = unsubscribed(s, id, now).0;
            &&& t.offer_state(id, later) is Unsubscribed
            &&& unsubscribed(t, id, later).0 == t
            &&& unsubscribed(t, id, later).1 == PropagateView::False(
                StopReasonView::AlreadyUnsubscribed,
            )
        }),
{
}

/// What reaches the matcher, from other nodes and from the local agent.
pub enum Arrival {
    /// Another node passes on an offer; `validation` is the outcome of
    /// checking its id.
    Received { offer: Offer, validation: Result<(), String>, at: Timestamp },
    /// Another node passes on that an offer was unsubscribed.
    Unsubscribed { subscription_id: Key, at: Timestamp },
    /// The local agent subscribes an offer that the store does not hold.
    Subscribed { offer: Offer },
    /// The local agent unsubscribes an offer.
    LocalUnsubscribed { subscription_id: Key, at: Timestamp },
}

/// The store has seen the offer `id`: it holds its record or its tombstone.
pub open spec fn known(s: StoreState, id: Key) -> bool {
    s.offers.contains_key(id) || s.unsubscribed.contains_key(id)
}

/// The store after one arrival.
pub open spec fn after(s: StoreState, a: Arrival) -> StoreState {
    match a {
        Arrival::Received { offer, validation, at } => received(s, offer@, validation, at).0,
        Arrival::Unsubscribed { subscription_id, at } => unsubscribed(s, subscription_id, at).0,
        Arrival::Subscribed { offer } => if s.offers.contains_key(offer.id@) {
            s
        } else {
            s.with_offer(offer@)
        },
        Arrival::LocalUnsubscribed { subscription_id, at } => s.after_unsubscribe(
            subscription_id,
            at,
        ),
    }
}

/// The store after the arrivals in their order.
pub open spec fn run(s: StoreState, arrivals: Seq<Arrival>) -> StoreState
    decreases arrivals.len(),
{
    if arrivals.len() == 0 {
        s
    } else {
        after(run(s, arrivals.drop_last()), arrivals.last())
    }
}

/// The store knows an offer exactly when its state is not `NotFound`,
/// whatever the instant.
pub proof fn lemma_known(s: StoreState, id: Key, now: Timestamp)
    ensures
        known(s, id) <==> !(s.offer_state(id, now) is NotFound),
{
}

/// The passing on of an offer comes to an end. Once a node has seen an
/// offer, whatever arrives afterwards and in whatever order, the node knows
/// the offer, and an arrival of the same offer is not passed on and leaves
/// the store as it is.
pub proof fn law_propagation_ends(
    s: StoreState,
    arrivals: Seq<Arrival>,
    offer: Subscription,
    validation: Result<(), String>,
    now: Timestamp,
)
    requires
        known(s, offer.id),
    ensures
        known(run(s, arrivals), offer.id),
        !(run(s, arrivals).offer_state(offer.id, now) is NotFound),
        !(received(run(s, arrivals), offer, validation, now).1 is True),
        received(run(s, arrivals), offer, validation, now).0 == run(s, arrivals),
    decreases arrivals.len(),
{
    if arrivals.len() > 0 {
        law_propagation_ends(s, arrivals.drop_last(), offer, validation, now);
    }
    lemma_known(run(s, arrivals), offer.id, now);
}

/// An offer is passed on at most once by a node: the arrival that is passed
/// on makes the offer known, so that no later arrival of it is.
pub proof fn law_passed_on_once(
    s: StoreState,
    offer: Subscription,
    validation: Result<(), String>,
    now: Timestamp,
)
    requires
        received(s, offer, validation, now).1 is True,
    ensures
        !known(s, offer.id),
        known(received(s, offer, validation, now).0, offer.id),
{
}

} // verus!
