use provider_runtime::market::db::{
    DbError, Demand, Offer, OfferState, SubscriptionStore, UnsubscribeError,
};
use provider_runtime::market::events_helper::provider::{self, ProviderEvent};
use provider_runtime::market::events_helper::requestor::{self, RequestorEvent};
use provider_runtime::market::events_helper::{ClientProposalHelper, Proposal, ProposalError};
use provider_runtime::market::matcher::{
    db_error_message, on_offer_received, on_offer_unsubscribed, on_retrieve_offers,
    unsubscribe_error_message, DemandError, Matcher, MatcherError, OfferError,
};
use provider_runtime::market::protocol::{
    Broadcast, OfferReceived, OfferUnsubscribed, Propagate, RetrieveOffers, StopPropagateReason,
};

fn offer(id: &str, expires: u64) -> Offer {
    Offer {
        id: id.to_string(),
        node_id: "0xnode".to_string(),
        properties: "{}".to_string(),
        constraints: "()".to_string(),
        creation_ts: 10,
        expiration_ts: expires,
    }
}

fn demand(id: &str, expires: u64) -> Demand {
    Demand {
        id: id.to_string(),
        node_id: "0xnode".to_string(),
        properties: "{}".to_string(),
        constraints: "()".to_string(),
        creation_ts: 10,
        expiration_ts: expires,
    }
}

fn received(id: &str, expires: u64) -> OfferReceived {
    OfferReceived { offer: offer(id, expires) }
}

fn is_active(state: &OfferState) -> bool {
    matches!(state, OfferState::Active(_))
}

#[test]
fn gossip_storm_prevention() {
    let mut m = Matcher::new(SubscriptionStore::new());
    assert!(matches!(m.offer_received(&received("O", 1_000), Ok(()), 100), Propagate::True));
    assert!(is_active(&m.get_offer_state("O", 100)));
    for turn in 0..4 {
        let answer = m.offer_received(&received("O", 1_000), Ok(()), 101 + turn);
        assert!(matches!(answer, Propagate::False(StopPropagateReason::AlreadyExists)));
        assert!(is_active(&m.get_offer_state("O", 101 + turn)));
    }
    let stored = m.get_offer("O", 200).unwrap();
    assert_eq!(stored.id, "O");
    assert_eq!(stored.expiration_ts, 1_000);
}

#[test]
fn unsubscribe_races_gossip() {
    let mut m = Matcher::new(SubscriptionStore::new());
    match m.subscribe_offer(&offer("O", 1_000), Ok(())) {
        Ok(Broadcast::Offer(o)) => assert_eq!(o.id, "O"),
        _ => panic!("a new offer is told to the others"),
    }
    match m.unsubscribe_offer("0xnode", "O", 200) {
        Ok(Broadcast::Unsubscribe { node_id, subscription_id }) => {
            assert_eq!(node_id, "0xnode");
            assert_eq!(subscription_id, "O");
        }
        _ => panic!("an unsubscribed offer is told to the others"),
    }
    assert!(matches!(m.get_offer_state("O", 300), OfferState::Unsubscribed(_)));
    let answer = m.offer_received(&received("O", 1_000), Ok(()), 300);
    assert!(matches!(answer, Propagate::False(StopPropagateReason::AlreadyUnsubscribed)));
    assert!(matches!(m.get_offer_state("O", 300), OfferState::Unsubscribed(_)));
    assert!(m.get_offer("O", 300).is_none());
}

#[test]
fn expired_offer_is_not_taken_again() {
    let mut m = Matcher::new(SubscriptionStore::new());
    assert!(matches!(m.offer_received(&received("O", 500), Ok(()), 100), Propagate::True));
    assert!(matches!(m.get_offer_state("O", 499), OfferState::Active(_)));
    match m.get_offer_state("O", 500) {
        OfferState::Expired(t) => {
            assert_eq!(t.id, "O");
            assert_eq!(t.expiration_ts, 500);
        }
        _ => panic!("the time of the offer is over"),
    }
    for _ in 0..3 {
        let answer = m.offer_received(&received("O", 500), Ok(()), 600);
        assert!(matches!(answer, Propagate::False(StopPropagateReason::Expired)));
    }
    assert!(m.get_offer("O", 600).is_none());
}

#[test]
fn forged_offer_is_dropped_and_not_stored() {
    let mut m = Matcher::new(SubscriptionStore::new());
    let answer = m.offer_received(&received("O", 500), Err("hash mismatch".to_string()), 100);
    match answer {
        Propagate::False(StopPropagateReason::Error(text)) => {
            assert_eq!(text, "Internal error: hash mismatch.")
        }
        _ => panic!("a forged offer goes no further"),
    }
    assert!(matches!(m.get_offer_state("O", 100), OfferState::NotFound));
    // The same offer with a valid id is new and is taken.
    assert!(matches!(m.offer_received(&received("O", 500), Ok(()), 100), Propagate::True));
}

#[test]
fn unsubscribed_news_is_passed_on_once() {
    let mut store = SubscriptionStore::new();
    assert!(matches!(
        on_offer_received(&mut store, &received("O", 1_000), Ok(()), 100),
        Propagate::True
    ));
    let news = OfferUnsubscribed { node_id: "0xnode".to_string(), subscription_id: "O".to_string() };
    assert!(matches!(on_offer_unsubscribed(&mut store, &news, 200), Propagate::True));
    // The record is gone, the tombstone stays.
    assert!(store.get_offer("O", 200).is_none());
    assert!(matches!(store.get_offer_state("O", 200), OfferState::Unsubscribed(_)));
    assert!(matches!(
        on_offer_unsubscribed(&mut store, &news, 201),
        Propagate::False(StopPropagateReason::AlreadyUnsubscribed)
    ));
    assert!(matches!(
        on_offer_received(&mut store, &received("O", 1_000), Ok(()), 202),
        Propagate::False(StopPropagateReason::AlreadyUnsubscribed)
    ));
}

#[test]
fn unsubscribed_news_of_other_offers_stops() {
    let mut store = SubscriptionStore::new();
    let unknown = OfferUnsubscribed { node_id: "0xnode".to_string(), subscription_id: "nobody".to_string() };
    match on_offer_unsubscribed(&mut store, &unknown, 10) {
        Propagate::False(StopPropagateReason::Error(text)) => {
            assert_eq!(text, "Offer [nobody] not found.")
        }
        _ => panic!("news of an unknown offer stops"),
    }
    store.create_offer(&offer("old", 50)).unwrap();
    let old = OfferUnsubscribed { node_id: "0xnode".to_string(), subscription_id: "old".to_string() };
    assert!(matches!(
        on_offer_unsubscribed(&mut store, &old, 50),
        Propagate::False(StopPropagateReason::Expired)
    ));
    assert!(matches!(store.get_offer_state("old", 50), OfferState::Expired(_)));
}

#[test]
fn local_offer_with_a_forged_id_is_refused() {
    let mut m = Matcher::new(SubscriptionStore::new());
    match m.subscribe_offer(&offer("O", 100), Err("hash mismatch".to_string())) {
        Err(MatcherError::InternalError(text)) => assert_eq!(text, "hash mismatch"),
        _ => panic!("an offer with a forged id is refused"),
    }
    assert!(matches!(m.get_offer_state("O", 10), OfferState::NotFound));
}

#[test]
fn retrieve_offers_hands_out_nothing() {
    assert!(on_retrieve_offers(&RetrieveOffers { newer_than: 0 }).is_empty());
}

#[test]
fn store_tells_the_four_states_apart() {
    let mut store = SubscriptionStore::new();
    assert!(matches!(store.get_offer_state("O", 0), OfferState::NotFound));
    assert_eq!(store.mark_offer_as_unsubscribed("O", 0), Err(UnsubscribeError::OfferNotFound));
    assert_eq!(store.create_offer(&offer("O", 100)), Ok(()));
    assert_eq!(store.create_offer(&offer("O", 100)), Err(DbError::AlreadyExists));
    assert!(matches!(store.get_offer_state("O", 99), OfferState::Active(_)));
    assert!(matches!(store.get_offer_state("O", 100), OfferState::Expired(_)));
    assert_eq!(store.mark_offer_as_unsubscribed("O", 100), Err(UnsubscribeError::OfferExpired));
    assert_eq!(store.mark_offer_as_unsubscribed("O", 50), Ok(()));
    assert_eq!(
        store.mark_offer_as_unsubscribed("O", 51),
        Err(UnsubscribeError::AlreadyUnsubscribed)
    );
    match store.get_offer_state("O", 1_000) {
        OfferState::Unsubscribed(t) => {
            assert_eq!(t.id, "O");
            assert_eq!(t.expiration_ts, 100);
        }
        _ => panic!("the tombstone counts before the record"),
    }
    assert!(store.remove_offer("O"));
    assert!(!store.remove_offer("O"));
    assert!(matches!(store.get_offer_state("O", 0), OfferState::Unsubscribed(_)));
}

#[test]
fn demands_are_stored_and_removed() {
    let mut m = Matcher::new(SubscriptionStore::new());
    assert!(m.subscribe_demand(&demand("D", 100)).is_ok());
    assert!(matches!(
        m.subscribe_demand(&demand("D", 100)),
        Err(MatcherError::DemandError(DemandError::SaveDemandFailure(DbError::AlreadyExists)))
    ));
    assert_eq!(m.get_demand("D", 50).unwrap().id, "D");
    assert!(m.get_demand("D", 100).is_none());
    assert!(m.get_demand("other", 50).is_none());
    assert!(m.unsubscribe_demand("D").is_ok());
    match m.unsubscribe_demand("D") {
        Err(MatcherError::DemandError(DemandError::DemandNotExists(id))) => assert_eq!(id, "D"),
        _ => panic!("a demand is removed once"),
    }
    assert!(m.get_demand("D", 50).is_none());
}

#[test]
fn local_offers_are_refused_when_they_are_not_active() {
    let mut m = Matcher::new(SubscriptionStore::new());
    assert!(m.subscribe_offer(&offer("O", 100), Ok(())).is_ok());
    assert!(matches!(
        m.subscribe_offer(&offer("O", 100), Ok(())),
        Err(MatcherError::OfferError(OfferError::SaveOfferFailure(DbError::AlreadyExists)))
    ));
    match m.unsubscribe_offer("0xnode", "nobody", 10) {
        Err(MatcherError::OfferError(OfferError::UnsubscribeOfferFailure(
            UnsubscribeError::OfferNotFound,
            id,
        ))) => assert_eq!(id, "nobody"),
        _ => panic!("an unknown offer cannot be unsubscribed"),
    }
    assert!(matches!(
        m.unsubscribe_offer("0xnode", "O", 100),
        Err(MatcherError::OfferError(OfferError::UnsubscribeOfferFailure(
            UnsubscribeError::OfferExpired,
            _
        )))
    ));
    assert!(m.unsubscribe_offer("0xnode", "O", 99).is_ok());
    assert!(matches!(
        m.unsubscribe_offer("0xnode", "O", 99),
        Err(MatcherError::OfferError(OfferError::UnsubscribeOfferFailure(
            UnsubscribeError::AlreadyUnsubscribed,
            _
        )))
    ));
}

#[test]
fn errors_read_as_expected() {
    assert_eq!(db_error_message(DbError::AlreadyExists), "a record with this id exists already");
    assert_eq!(
        unsubscribe_error_message(UnsubscribeError::OfferExpired, "O"),
        "Can't unsubscribe expired Offer [O]."
    );
    assert_eq!(
        unsubscribe_error_message(UnsubscribeError::AlreadyUnsubscribed, "O"),
        "Offer [O] already unsubscribed."
    );
    assert_eq!(
        DemandError::SaveDemandFailure(DbError::AlreadyExists).message(),
        "Failed to save Demand. Error: a record with this id exists already."
    );
    assert_eq!(
        DemandError::RemoveDemandFailure(DbError::AlreadyExists, "D".to_string()).message(),
        "Failed to remove Demand [D]. Error: a record with this id exists already."
    );
    assert_eq!(DemandError::DemandNotExists("D".to_string()).message(), "Demand [D] doesn't exist.");
    assert_eq!(
        OfferError::SaveOfferFailure(DbError::AlreadyExists).message(),
        "Failed to save Offer. Error: a record with this id exists already."
    );
    assert_eq!(
        OfferError::UnsubscribeOfferFailure(UnsubscribeError::OfferNotFound, "O".to_string())
            .message(),
        "Failed to remove Offer [O]. Error: Offer [O] not found.."
    );
    assert_eq!(OfferError::OfferNotExists("O".to_string()).message(), "Offer [O] doesn't exist.");
    assert_eq!(
        MatcherError::InternalError("boom".to_string()).message(),
        "Internal error: boom."
    );
    assert_eq!(
        MatcherError::OfferError(OfferError::OfferNotExists("O".to_string())).message(),
        "Offer [O] doesn't exist."
    );
    assert_eq!(
        MatcherError::DemandError(DemandError::DemandNotExists("D".to_string())).message(),
        "Demand [D] doesn't exist."
    );
}

#[test]
fn one_awaited_event_gives_its_proposal() {
    let proposal = || Proposal {
        proposal_id: Some("P-1".to_string()),
        properties: "{}".to_string(),
        constraints: "()".to_string(),
    };
    let got = provider::expect_proposal(
        vec![ProviderEvent::ProposalEvent { event_date: 1, proposal: proposal() }],
        0,
    )
    .unwrap();
    assert_eq!(got.get_proposal_id(), Ok("P-1".to_string()));
    assert_eq!(
        provider::expect_proposal(
            vec![ProviderEvent::AgreementEvent { event_date: 1, agreement_id: "A".to_string() }],
            1
        )
        .err(),
        Some(ProposalError::InvalidEventType)
    );
    let got = requestor::expect_proposal(
        vec![RequestorEvent::ProposalEvent { event_date: 1, proposal: proposal() }],
        2,
    )
    .unwrap();
    assert_eq!(got.properties, "{}");
    assert_eq!(
        requestor::expect_proposal(vec![RequestorEvent::PropertyQueryEvent { event_date: 1 }], 3)
            .err(),
        Some(ProposalError::InvalidEventType)
    );
    let nameless =
        Proposal { proposal_id: None, properties: String::new(), constraints: String::new() };
    assert_eq!(nameless.get_proposal_id(), Err(ProposalError::MissingProposalId));
}
