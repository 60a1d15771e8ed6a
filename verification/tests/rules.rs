use prediction_market::rules::{
    buy, check_buy, check_claim, check_create, check_resolve, check_room, claim, create, resolve,
};
use prediction_market::{
    AuthContext, Config, Effect, Error, Identity, Market, MarketStatus, Position, Side,
};

fn id(name: &str) -> Identity {
    Identity::new(name.to_string())
}

fn config() -> Option<Config> {
    Some(Config { admin: id("admin"), token: id("token") })
}

fn open_market(deadline: u64) -> Market {
    Market {
        creator: id("creator"),
        question: "Will it rain tomorrow?".to_string(),
        deadline,
        status: MarketStatus::Open,
        total_yes: 0,
        total_no: 0,
        pool_balance: 0,
    }
}

fn staked_market(total_yes: i128, total_no: i128, status: MarketStatus) -> Market {
    Market { total_yes, total_no, pool_balance: total_yes + total_no, status, ..open_market(100) }
}

#[test]
fn create_gives_an_open_market_without_stake() {
    let auth = AuthContext::of(id("alice"));
    let creation =
        create(&config(), &auth, 7, id("alice"), "Test?".to_string(), 3600, 0).ok().unwrap();
    assert_eq!(creation.market.creator.key, "alice");
    assert_eq!(creation.market.question, "Test?");
    assert_eq!(creation.market.deadline, 3600);
    assert_eq!(creation.market.status, MarketStatus::Open);
    assert_eq!(creation.market.total_yes, 0);
    assert_eq!(creation.market.total_no, 0);
    assert_eq!(creation.market.pool_balance, 0);
    match creation.event {
        Effect::Created { market_id, creator } => {
            assert_eq!(market_id, 7);
            assert_eq!(creator.key, "alice");
        }
        other => panic!("unexpected effect {:?}", other),
    }
}

#[test]
fn create_checks_in_order() {
    let alice = id("alice");
    let auth = AuthContext::of(id("alice"));
    let nobody = AuthContext::none();
    // nothing is set up: that comes first, whatever else is wrong
    assert_eq!(check_create(&None, &nobody, &alice, 0, 10), Err(Error::NotInitialized));
    // then the authorization
    assert_eq!(check_create(&config(), &nobody, &alice, 0, 10), Err(Error::Unauthorized));
    assert_eq!(
        check_create(&config(), &AuthContext::of(id("bob")), &alice, 20, 10),
        Err(Error::Unauthorized)
    );
    // then the deadline, which must be strictly later than now
    assert_eq!(check_create(&config(), &auth, &alice, 9, 10), Err(Error::InvalidDeadline));
    assert_eq!(check_create(&config(), &auth, &alice, 10, 10), Err(Error::InvalidDeadline));
    assert_eq!(check_create(&config(), &auth, &alice, 11, 10), Ok(()));
    assert_eq!(check_create(&config(), &auth, &alice, u64::MAX, u64::MAX), Err(Error::InvalidDeadline));
    assert_eq!(check_create(&config(), &auth, &alice, u64::MAX, u64::MAX - 1), Ok(()));
}

#[test]
fn create_fails_as_its_check_does() {
    let auth = AuthContext::of(id("alice"));
    let past = create(&config(), &auth, 0, id("alice"), "Test?".to_string(), 500, 1000);
    assert_eq!(past.err(), Some(Error::InvalidDeadline));
    let unset = create(&None, &auth, 0, id("alice"), "Test?".to_string(), 1500, 1000);
    assert_eq!(unset.err(), Some(Error::NotInitialized));
    let stranger = create(&config(), &auth, 0, id("bob"), "Test?".to_string(), 1500, 1000);
    assert_eq!(stranger.err(), Some(Error::Unauthorized));
}

#[test]
fn buy_checks_in_order() {
    let alice = id("alice");
    let auth = AuthContext::of(id("alice"));
    let nobody = AuthContext::none();
    let market = Some(open_market(100));
    assert_eq!(check_buy(&None, &nobody, &alice, &None, 0, 200), Err(Error::NotInitialized));
    assert_eq!(check_buy(&config(), &nobody, &alice, &None, 0, 200), Err(Error::Unauthorized));
    // the amount is looked at before the market
    assert_eq!(check_buy(&config(), &auth, &alice, &None, 0, 200), Err(Error::InvalidAmount));
    assert_eq!(check_buy(&config(), &auth, &alice, &None, -5, 200), Err(Error::InvalidAmount));
    assert_eq!(check_buy(&config(), &auth, &alice, &market, i128::MIN, 0), Err(Error::InvalidAmount));
    assert_eq!(check_buy(&config(), &auth, &alice, &None, 1, 200), Err(Error::MarketNotFound));
    assert_eq!(check_buy(&config(), &auth, &alice, &market, 1, 200), Err(Error::MarketClosed));
    // the deadline itself is too late
    assert_eq!(check_buy(&config(), &auth, &alice, &market, 1, 100), Err(Error::MarketClosed));
    assert_eq!(check_buy(&config(), &auth, &alice, &market, 1, 99), Ok(()));
    let resolved = Some(staked_market(5, 5, MarketStatus::Resolved(Side::No)));
    assert_eq!(check_buy(&config(), &auth, &alice, &resolved, 1, 0), Err(Error::MarketClosed));
}

#[test]
fn buy_adds_to_one_side_and_to_the_pool() {
    let alice = id("alice");
    let auth = AuthContext::of(id("alice"));
    let market = staked_market(10, 20, MarketStatus::Open);
    let position = Position { yes_shares: 4, no_shares: 6, claimed: false };
    let yes = buy(&config(), &auth, &alice, 3, Some(market.clone()), position, Side::Yes, 5, 50)
        .ok()
        .unwrap();
    assert_eq!(yes.market.total_yes, 15);
    assert_eq!(yes.market.total_no, 20);
    assert_eq!(yes.market.pool_balance, 35);
    assert_eq!(yes.market.status, MarketStatus::Open);
    assert_eq!(yes.market.deadline, 100);
    assert_eq!(yes.position, Position { yes_shares: 9, no_shares: 6, claimed: false });
    match yes.transfer {
        Effect::Deposit { token, from, amount } => {
            assert_eq!(token.key, "token");
            assert_eq!(from.key, "alice");
            assert_eq!(amount, 5);
        }
        other => panic!("unexpected effect {:?}", other),
    }
    match yes.event {
        Effect::Bought { market_id, buyer, side, amount } => {
            assert_eq!(market_id, 3);
            assert_eq!(buyer.key, "alice");
            assert_eq!(side, Side::Yes);
            assert_eq!(amount, 5);
        }
        other => panic!("unexpected effect {:?}", other),
    }
    let no = buy(&config(), &auth, &alice, 3, Some(market), position, Side::No, 7, 50)
        .ok()
        .unwrap();
    assert_eq!(no.market.total_yes, 10);
    assert_eq!(no.market.total_no, 27);
    assert_eq!(no.market.pool_balance, 37);
    assert_eq!(no.position, Position { yes_shares: 4, no_shares: 13, claimed: false });
}

#[test]
fn buy_fails_as_its_check_does() {
    let alice = id("alice");
    let auth = AuthContext::of(id("alice"));
    let position = Position::empty();
    let closed = buy(&config(), &auth, &alice, 0, Some(open_market(100)), position, Side::Yes, 5, 100);
    assert_eq!(closed.err(), Some(Error::MarketClosed));
    let missing = buy(&config(), &auth, &alice, 0, None, position, Side::Yes, 5, 0);
    assert_eq!(missing.err(), Some(Error::MarketNotFound));
    let nothing = buy(&config(), &auth, &alice, 0, Some(open_market(100)), position, Side::Yes, 0, 0);
    assert_eq!(nothing.err(), Some(Error::InvalidAmount));
}

#[test]
fn room_for_a_stake() {
    let position = Position { yes_shares: 10, no_shares: 0, claimed: false };
    let market = staked_market(10, 20, MarketStatus::Open);
    assert!(check_room(&market, &position, Side::Yes, 1));
    assert!(check_room(&market, &position, Side::Yes, i128::MAX - 30));
    assert!(!check_room(&market, &position, Side::Yes, i128::MAX - 29));
    assert!(!check_room(&market, &position, Side::No, i128::MAX));
    assert!(check_room(&market, &position, Side::No, 0));
    assert!(check_room(&market, &position, Side::No, -1));
    let full = staked_market(i128::MAX, 0, MarketStatus::Open);
    assert!(!check_room(&full, &Position::empty(), Side::No, 1));
}

#[test]
fn resolve_checks_in_order() {
    let admin = AuthContext::of(id("admin"));
    let alice = AuthContext::of(id("alice"));
    let market = Some(open_market(100));
    assert_eq!(check_resolve(&None, &admin, &None, 0), Err(Error::NotInitialized));
    assert_eq!(check_resolve(&config(), &alice, &market, 200), Err(Error::Unauthorized));
    assert_eq!(check_resolve(&config(), &AuthContext::none(), &None, 200), Err(Error::Unauthorized));
    assert_eq!(check_resolve(&config(), &admin, &None, 200), Err(Error::MarketNotFound));
    let resolved = Some(staked_market(1, 1, MarketStatus::Resolved(Side::Yes)));
    // an outcome is final even before the deadline is looked at
    assert_eq!(check_resolve(&config(), &admin, &resolved, 0), Err(Error::MarketAlreadyResolved));
    assert_eq!(check_resolve(&config(), &admin, &resolved, 200), Err(Error::MarketAlreadyResolved));
    assert_eq!(check_resolve(&config(), &admin, &market, 99), Err(Error::DeadlineNotReached));
    // the deadline itself is late enough
    assert_eq!(check_resolve(&config(), &admin, &market, 100), Ok(()));
    assert_eq!(check_resolve(&config(), &admin, &market, 101), Ok(()));
}

#[test]
fn resolve_sets_the_outcome_and_nothing_else() {
    let admin = AuthContext::of(id("admin"));
    let market = staked_market(10, 20, MarketStatus::Open);
    let resolution = resolve(&config(), &admin, 4, Some(market), Side::No, 100).ok().unwrap();
    assert_eq!(resolution.market.status, MarketStatus::Resolved(Side::No));
    assert_eq!(resolution.market.total_yes, 10);
    assert_eq!(resolution.market.total_no, 20);
    assert_eq!(resolution.market.pool_balance, 30);
    assert_eq!(resolution.market.deadline, 100);
    match resolution.event {
        Effect::Resolved { market_id, outcome } => {
            assert_eq!(market_id, 4);
            assert_eq!(outcome, Side::No);
        }
        other => panic!("unexpected effect {:?}", other),
    }
    let early = resolve(&config(), &admin, 4, Some(open_market(100)), Side::No, 5);
    assert_eq!(early.err(), Some(Error::DeadlineNotReached));
}

#[test]
fn claim_checks_in_order() {
    let alice = id("alice");
    let auth = AuthContext::of(id("alice"));
    let fresh = Position { yes_shares: 1, no_shares: 0, claimed: false };
    let paid = Position { yes_shares: 1, no_shares: 0, claimed: true };
    let open = Some(staked_market(1, 0, MarketStatus::Open));
    let resolved = Some(staked_market(1, 0, MarketStatus::Resolved(Side::Yes)));
    assert_eq!(check_claim(&None, &auth, &alice, &resolved, &fresh), Err(Error::NotInitialized));
    assert_eq!(
        check_claim(&config(), &AuthContext::none(), &alice, &resolved, &fresh),
        Err(Error::Unauthorized)
    );
    assert_eq!(check_claim(&config(), &auth, &alice, &None, &paid), Err(Error::MarketNotFound));
    // a paid position is refused before the market's status is looked at
    assert_eq!(check_claim(&config(), &auth, &alice, &open, &paid), Err(Error::AlreadyClaimed));
    assert_eq!(check_claim(&config(), &auth, &alice, &resolved, &paid), Err(Error::AlreadyClaimed));
    assert_eq!(check_claim(&config(), &auth, &alice, &open, &fresh), Err(Error::MarketNotResolved));
    assert_eq!(check_claim(&config(), &auth, &alice, &resolved, &fresh), Ok(()));
}

#[test]
fn claim_marks_the_position_and_asks_for_the_transfer() {
    let alice = id("alice");
    let auth = AuthContext::of(id("alice"));
    let market = Some(staked_market(10, 20, MarketStatus::Resolved(Side::Yes)));
    let position = Position { yes_shares: 5, no_shares: 3, claimed: false };
    let granted = claim(&config(), &auth, &alice, 2, &market, position).ok().unwrap();
    assert_eq!(granted.payout, 15);
    assert_eq!(granted.position, Position { yes_shares: 5, no_shares: 3, claimed: true });
    match granted.transfer {
        Some(Effect::Payout { token, to, amount }) => {
            assert_eq!(token.key, "token");
            assert_eq!(to.key, "alice");
            assert_eq!(amount, 15);
        }
        other => panic!("unexpected transfer {:?}", other),
    }
    match granted.event {
        Effect::Claimed { market_id, user, payout } => {
            assert_eq!(market_id, 2);
            assert_eq!(user.key, "alice");
            assert_eq!(payout, 15);
        }
        other => panic!("unexpected effect {:?}", other),
    }
}

#[test]
fn claim_of_nothing_moves_nothing() {
    let bob = id("bob");
    let auth = AuthContext::of(id("bob"));
    let market = Some(staked_market(10, 20, MarketStatus::Resolved(Side::Yes)));
    let loser = Position { yes_shares: 0, no_shares: 20, claimed: false };
    let granted = claim(&config(), &auth, &bob, 2, &market, loser).ok().unwrap();
    assert_eq!(granted.payout, 0);
    assert!(granted.transfer.is_none());
    assert!(granted.position.claimed);
    match granted.event {
        Effect::Claimed { payout, .. } => assert_eq!(payout, 0),
        other => panic!("unexpected effect {:?}", other),
    }
    let none = claim(&config(), &auth, &bob, 2, &market, Position::empty()).ok().unwrap();
    assert_eq!(none.payout, 0);
    assert!(none.transfer.is_none());
}

#[test]
fn claim_fails_as_its_check_does() {
    let alice = id("alice");
    let auth = AuthContext::of(id("alice"));
    let open = Some(staked_market(1, 0, MarketStatus::Open));
    let fresh = Position { yes_shares: 1, no_shares: 0, claimed: false };
    let paid = Position { yes_shares: 1, no_shares: 0, claimed: true };
    assert_eq!(
        claim(&config(), &auth, &alice, 0, &open, fresh).err(),
        Some(Error::MarketNotResolved)
    );
    assert_eq!(claim(&config(), &auth, &alice, 0, &open, paid).err(), Some(Error::AlreadyClaimed));
    assert_eq!(claim(&config(), &auth, &alice, 0, &None, fresh).err(), Some(Error::MarketNotFound));
}
