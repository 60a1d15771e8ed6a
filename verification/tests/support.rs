use prediction_market::registry::Registry;
use prediction_market::{AuthContext, Error, Identity, Market, MarketStatus, Position};

fn id(name: &str) -> Identity {
    Identity::new(name.to_string())
}

fn market(question: &str) -> Market {
    Market {
        creator: id("creator"),
        question: question.to_string(),
        deadline: 3600,
        status: MarketStatus::Open,
        total_yes: 0,
        total_no: 0,
        pool_balance: 0,
    }
}

#[test]
fn error_codes_are_fixed() {
    assert_eq!(Error::AlreadyInitialized.code(), 1);
    assert_eq!(Error::NotInitialized.code(), 2);
    assert_eq!(Error::Unauthorized.code(), 3);
    assert_eq!(Error::MarketNotFound.code(), 4);
    assert_eq!(Error::MarketClosed.code(), 5);
    assert_eq!(Error::MarketNotResolved.code(), 6);
    assert_eq!(Error::MarketAlreadyResolved.code(), 7);
    assert_eq!(Error::DeadlineNotReached.code(), 8);
    assert_eq!(Error::InvalidAmount.code(), 9);
    assert_eq!(Error::NothingToClaim.code(), 10);
    assert_eq!(Error::AlreadyClaimed.code(), 11);
    assert_eq!(Error::InvalidDeadline.code(), 12);
}

#[test]
fn error_codes_lead_back_to_the_errors() {
    for code in 1..=12u32 {
        assert_eq!(Error::from_code(code).unwrap().code(), code);
    }
    assert_eq!(Error::from_code(0), None);
    assert_eq!(Error::from_code(13), None);
    assert_eq!(Error::from_code(u32::MAX), None);
    assert_eq!(Error::from_code(10), Some(Error::NothingToClaim));
}

#[test]
fn errors_are_ordered_by_their_codes() {
    let all: Vec<Error> = (1..=12u32).map(|code| Error::from_code(code).unwrap()).collect();
    for pair in all.windows(2) {
        assert!(pair[0] < pair[1]);
        assert!(pair[0].code() < pair[1].code());
    }
    assert_eq!(all.iter().max(), Some(&Error::InvalidDeadline));
    assert_eq!(all.iter().min(), Some(&Error::AlreadyInitialized));
}

#[test]
fn identities_are_compared_by_their_text() {
    assert!(id("alice").same_as(&id("alice")));
    assert!(!id("alice").same_as(&id("bob")));
    assert!(!id("alice").same_as(&id("alice ")));
    assert!(id("").same_as(&id("")));
    assert!(id("alice").clone().same_as(&id("alice")));
}

#[test]
fn nobody_is_authorized_by_default() {
    let auth = AuthContext::none();
    assert_eq!(auth.assert_identity(&id("alice")), Err(Error::Unauthorized));
    assert_eq!(auth.assert_identity(&id("")), Err(Error::Unauthorized));
}

#[test]
fn only_who_authorized_is_accepted() {
    let auth = AuthContext::of(id("alice"));
    assert_eq!(auth.assert_identity(&id("alice")), Ok(()));
    assert_eq!(auth.assert_identity(&id("bob")), Err(Error::Unauthorized));
}

#[test]
fn further_identities_can_be_granted() {
    let mut auth = AuthContext::of(id("alice"));
    auth.grant(id("bob"));
    auth.grant(id("alice"));
    assert_eq!(auth.assert_identity(&id("alice")), Ok(()));
    assert_eq!(auth.assert_identity(&id("bob")), Ok(()));
    assert_eq!(auth.assert_identity(&id("carol")), Err(Error::Unauthorized));
}

#[test]
fn registry_numbers_markets_from_zero() {
    let mut registry = Registry::new();
    assert_eq!(registry.next_id(), 0);
    assert_eq!(registry.get(0).err(), Some(Error::MarketNotFound));
    assert_eq!(registry.allocate(market("first")), 0);
    assert_eq!(registry.allocate(market("second")), 1);
    assert_eq!(registry.next_id(), 2);
    assert_eq!(registry.get(0).unwrap().question, "first");
    assert_eq!(registry.get(1).unwrap().question, "second");
    assert_eq!(registry.get(2).err(), Some(Error::MarketNotFound));
    assert_eq!(registry.get(u64::MAX).err(), Some(Error::MarketNotFound));
}

#[test]
fn registry_replaces_a_market_in_place() {
    let mut registry = Registry::new();
    registry.allocate(market("first"));
    registry.allocate(market("second"));
    let mut changed = market("first");
    changed.total_yes = 5;
    changed.pool_balance = 5;
    registry.put(0, changed);
    assert_eq!(registry.get(0).unwrap().total_yes, 5);
    assert_eq!(registry.get(1).unwrap().total_yes, 0);
    assert_eq!(registry.next_id(), 2);
}

#[test]
fn registry_keeps_one_position_for_each_user_and_market() {
    let mut registry = Registry::new();
    let empty = Position::empty();
    assert_eq!(empty, Position { yes_shares: 0, no_shares: 0, claimed: false });
    assert_eq!(registry.get_position(0, &id("alice")), empty);

    let first = Position { yes_shares: 1, no_shares: 2, claimed: false };
    let second = Position { yes_shares: 3, no_shares: 4, claimed: true };
    registry.put_position(0, id("alice"), first);
    registry.put_position(1, id("alice"), second);
    assert_eq!(registry.get_position(0, &id("alice")), first);
    assert_eq!(registry.get_position(1, &id("alice")), second);
    assert_eq!(registry.get_position(0, &id("bob")), empty);
    assert_eq!(registry.get_position(2, &id("alice")), empty);

    registry.put_position(0, id("alice"), second);
    assert_eq!(registry.get_position(0, &id("alice")), second);
    assert_eq!(registry.get_position(1, &id("alice")), second);
    registry.put_position(0, id("bob"), first);
    assert_eq!(registry.get_position(0, &id("bob")), first);
    assert_eq!(registry.get_position(0, &id("alice")), second);
}
