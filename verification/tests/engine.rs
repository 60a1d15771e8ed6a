use prediction_market::{
    AuthContext, Effect, Error, Identity, Market, MarketStatus, Position, PredictionMarket, Side,
};
use std::collections::HashMap;

/// An engine with its administrator and a clock, and a ledger of the asset
/// that carries out the transfers that the engine asks for.
struct TestSetup {
    engine: PredictionMarket,
    admin: Identity,
    token: Identity,
    now: u64,
    balances: HashMap<String, i128>,
    custody: i128,
    events: Vec<Effect>,
    generated: u32,
}

impl TestSetup {
    fn generate(&mut self) -> Identity {
        self.generated += 1;
        Identity::new(format!("account-{}", self.generated))
    }

    fn mint(&mut self, to: &Identity, amount: i128) {
        *self.balances.entry(to.key.clone()).or_insert(0) += amount;
    }

    fn balance(&self, of: &Identity) -> i128 {
        self.balances.get(&of.key).copied().unwrap_or(0)
    }

    /// Carries out what the engine has asked for since the last call.
    fn settle(&mut self) {
        for effect in self.engine.take_effects() {
            match effect {
                Effect::Deposit { token, from, amount } => {
                    assert_eq!(token.key, self.token.key);
                    let balance = self.balances.entry(from.key.clone()).or_insert(0);
                    assert!(*balance >= amount, "insufficient balance");
                    *balance -= amount;
                    self.custody += amount;
                }
                Effect::Payout { token, to, amount } => {
                    assert_eq!(token.key, self.token.key);
                    assert!(self.custody >= amount, "insufficient custody");
                    self.custody -= amount;
                    *self.balances.entry(to.key.clone()).or_insert(0) += amount;
                }
                event => self.events.push(event),
            }
        }
    }

    fn advance(&mut self, seconds: u64) {
        self.now += seconds;
    }

    fn create_market(
        &mut self,
        creator: &Identity,
        question: &str,
        deadline: u64,
    ) -> Result<u64, Error> {
        let auth = AuthContext::of(creator.clone());
        let result =
            self.engine
                .create_market(&auth, creator.clone(), question.to_string(), deadline, self.now);
        self.settle();
        result
    }

    fn buy_shares(
        &mut self,
        buyer: &Identity,
        market_id: u64,
        side: Side,
        amount: i128,
    ) -> Result<(), Error> {
        let auth = AuthContext::of(buyer.clone());
        let result =
            self.engine
                .buy_shares(&auth, buyer.clone(), market_id, side, amount, self.now);
        self.settle();
        result
    }

    fn resolve_market(&mut self, market_id: u64, outcome: Side) -> Result<(), Error> {
        let auth = AuthContext::of(self.admin.clone());
        let result = self.engine.resolve_market(&auth, market_id, outcome, self.now);
        self.settle();
        result
    }

    fn claim_winnings(&mut self, user: &Identity, market_id: u64) -> Result<i128, Error> {
        let auth = AuthContext::of(user.clone());
        let result = self.engine.claim_winnings(&auth, user.clone(), market_id);
        self.settle();
        result
    }

    fn get_market(&self, market_id: u64) -> Market {
        self.engine.get_market(market_id).unwrap()
    }

    fn get_position(&self, market_id: u64, user: &Identity) -> Position {
        self.engine.get_position(market_id, user)
    }
}

fn setup() -> TestSetup {
    let mut s = TestSetup {
        engine: PredictionMarket::new(),
        admin: Identity::new("administrator".to_string()),
        token: Identity::new("asset".to_string()),
        now: 0,
        balances: HashMap::new(),
        custody: 0,
        events: Vec::new(),
        generated: 0,
    };
    s.engine.initialize(s.admin.clone(), s.token.clone()).unwrap();
    s
}

fn create_test_market(s: &mut TestSetup, deadline_offset: u64) -> u64 {
    let deadline = s.now + deadline_offset;
    let admin = s.admin.clone();
    s.create_market(&admin, "Will it rain tomorrow?", deadline).unwrap()
}

// ===== Initialization Tests =====

#[test]
fn test_initialize() {
    let s = setup();
    assert_eq!(s.engine.get_market_count(), 0);
}

#[test]
fn test_initialize_twice_fails() {
    let mut s = setup();
    let token_addr = s.generate();
    let result = s.engine.initialize(s.admin.clone(), token_addr);
    assert!(result.is_err());
    assert_eq!(result, Err(Error::AlreadyInitialized));
    assert_eq!(s.engine.get_token().unwrap().key, "asset");
}

// ===== Create Market Tests =====

#[test]
fn test_create_market() {
    let mut s = setup();
    let market_id = create_test_market(&mut s, 3600);
    assert_eq!(market_id, 0);
    assert_eq!(s.engine.get_market_count(), 1);

    let market = s.get_market(market_id);
    assert_eq!(market.status, MarketStatus::Open);
    assert_eq!(market.total_yes, 0);
    assert_eq!(market.total_no, 0);
    assert_eq!(market.pool_balance, 0);
}

#[test]
fn test_create_multiple_markets() {
    let mut s = setup();
    let id0 = create_test_market(&mut s, 3600);
    let id1 = create_test_market(&mut s, 7200);
    assert_eq!(id0, 0);
    assert_eq!(id1, 1);
    assert_eq!(s.engine.get_market_count(), 2);
}

#[test]
fn test_create_market_past_deadline_fails() {
    let mut s = setup();
    // Set the time to 1000
    s.now = 1000;
    let admin = s.admin.clone();
    let result = s.create_market(
        &admin, "Test?", 500, // past deadline
    );
    assert!(result.is_err());
    assert_eq!(result, Err(Error::InvalidDeadline));
    assert_eq!(s.engine.get_market_count(), 0);
}

// ===== Buy Shares Tests =====

#[test]
fn test_buy_yes_shares() {
    let mut s = setup();
    let alice = s.generate();
    s.mint(&alice, 10_000_000);

    let market_id = create_test_market(&mut s, 3600);
    s.buy_shares(&alice, market_id, Side::Yes, 10_000_000).unwrap();

    let market = s.get_market(market_id);
    assert_eq!(market.total_yes, 10_000_000);
    assert_eq!(market.total_no, 0);
    assert_eq!(market.pool_balance, 10_000_000);

    let pos = s.get_position(market_id, &alice);
    assert_eq!(pos.yes_shares, 10_000_000);
    assert_eq!(pos.no_shares, 0);
    assert_eq!(pos.claimed, false);

    assert_eq!(s.balance(&alice), 0);
}

#[test]
fn test_buy_no_shares() {
    let mut s = setup();
    let bob = s.generate();
    s.mint(&bob, 20_000_000);

    let market_id = create_test_market(&mut s, 3600);
    s.buy_shares(&bob, market_id, Side::No, 20_000_000).unwrap();

    let market = s.get_market(market_id);
    assert_eq!(market.total_yes, 0);
    assert_eq!(market.total_no, 20_000_000);
    assert_eq!(market.pool_balance, 20_000_000);
}

#[test]
fn test_buy_multiple_times() {
    let mut s = setup();
    let alice = s.generate();
    s.mint(&alice, 30_000_000);

    let market_id = create_test_market(&mut s, 3600);
    s.buy_shares(&alice, market_id, Side::Yes, 10_000_000).unwrap();
    s.buy_shares(&alice, market_id, Side::No, 20_000_000).unwrap();

    let pos = s.get_position(market_id, &alice);
    assert_eq!(pos.yes_shares, 10_000_000);
    assert_eq!(pos.no_shares, 20_000_000);
}

#[test]
fn test_buy_after_deadline_fails() {
    let mut s = setup();
    let alice = s.generate();
    s.mint(&alice, 10_000_000);

    let market_id = create_test_market(&mut s, 3600);

    // Advance past deadline
    s.advance(3601);

    let result = s.buy_shares(&alice, market_id, Side::Yes, 10_000_000);
    assert!(result.is_err());
    assert_eq!(result, Err(Error::MarketClosed));
    assert_eq!(s.balance(&alice), 10_000_000);
}

#[test]
fn test_buy_zero_amount_fails() {
    let mut s = setup();
    let alice = s.generate();

    let market_id = create_test_market(&mut s, 3600);
    let result = s.buy_shares(&alice, market_id, Side::Yes, 0);
    assert!(result.is_err());
    assert_eq!(result, Err(Error::InvalidAmount));
}

#[test]
fn test_buy_nonexistent_market_fails() {
    let mut s = setup();
    let alice = s.generate();
    s.mint(&alice, 10_000_000);

    let result = s.buy_shares(&alice, 999, Side::Yes, 10_000_000);
    assert!(result.is_err());
    assert_eq!(result, Err(Error::MarketNotFound));
}

// ===== Resolve Market Tests =====

#[test]
fn test_resolve_market() {
    let mut s = setup();
    let market_id = create_test_market(&mut s, 3600);

    // Advance past deadline
    s.advance(3601);

    s.resolve_market(market_id, Side::Yes).unwrap();

    let market = s.get_market(market_id);
    assert_eq!(market.status, MarketStatus::Resolved(Side::Yes));
}

#[test]
fn test_resolve_before_deadline_fails() {
    let mut s = setup();
    let market_id = create_test_market(&mut s, 3600);

    let result = s.resolve_market(market_id, Side::Yes);
    assert!(result.is_err());
    assert_eq!(result, Err(Error::DeadlineNotReached));
}

#[test]
fn test_resolve_already_resolved_fails() {
    let mut s = setup();
    let market_id = create_test_market(&mut s, 3600);

    s.advance(3601);

    s.resolve_market(market_id, Side::Yes).unwrap();
    let result = s.resolve_market(market_id, Side::No);
    assert!(result.is_err());
    assert_eq!(result, Err(Error::MarketAlreadyResolved));
    assert_eq!(s.get_market(market_id).status, MarketStatus::Resolved(Side::Yes));
}

// ===== Claim Winnings Tests =====

#[test]
fn test_winner_takes_all() {
    let mut s = setup();
    let alice = s.generate();
    let bob = s.generate();
    s.mint(&alice, 10_000_000); // 1 unit
    s.mint(&bob, 20_000_000); // 2 units

    let market_id = create_test_market(&mut s, 3600);

    // Alice bets YES, Bob bets NO
    s.buy_shares(&alice, market_id, Side::Yes, 10_000_000).unwrap();
    s.buy_shares(&bob, market_id, Side::No, 20_000_000).unwrap();

    // Resolve as YES
    s.advance(3601);
    s.resolve_market(market_id, Side::Yes).unwrap();

    // Alice wins entire pool (30M = 3 units)
    let payout = s.claim_winnings(&alice, market_id).unwrap();
    assert_eq!(payout, 30_000_000);
    assert_eq!(s.balance(&alice), 30_000_000);

    // Bob gets nothing
    let payout_bob = s.claim_winnings(&bob, market_id).unwrap();
    assert_eq!(payout_bob, 0);
    assert_eq!(s.balance(&bob), 0);
}

#[test]
fn test_proportional_payout() {
    let mut s = setup();
    let alice = s.generate();
    let bob = s.generate();
    let charlie = s.generate();

    s.mint(&alice, 10_000_000); // 1 unit
    s.mint(&bob, 20_000_000); // 2 units
    s.mint(&charlie, 30_000_000); // 3 units

    let market_id = create_test_market(&mut s, 3600);

    // Alice: 1 YES, Bob: 2 YES, Charlie: 3 NO
    s.buy_shares(&alice, market_id, Side::Yes, 10_000_000).unwrap();
    s.buy_shares(&bob, market_id, Side::Yes, 20_000_000).unwrap();
    s.buy_shares(&charlie, market_id, Side::No, 30_000_000).unwrap();

    // Pool = 6 units. Resolve YES. Total YES = 3 units.
    s.advance(3601);
    s.resolve_market(market_id, Side::Yes).unwrap();

    // Alice: 1/3 of 60M = 20M
    let payout_alice = s.claim_winnings(&alice, market_id).unwrap();
    assert_eq!(payout_alice, 20_000_000);

    // Bob: 2/3 of 60M = 40M
    let payout_bob = s.claim_winnings(&bob, market_id).unwrap();
    assert_eq!(payout_bob, 40_000_000);

    // Charlie: 0
    let payout_charlie = s.claim_winnings(&charlie, market_id).unwrap();
    assert_eq!(payout_charlie, 0);
}

#[test]
fn test_no_winners_refund() {
    let mut s = setup();
    let alice = s.generate();
    let bob = s.generate();

    s.mint(&alice, 10_000_000);
    s.mint(&bob, 20_000_000);

    let market_id = create_test_market(&mut s, 3600);

    // Both bet YES
    s.buy_shares(&alice, market_id, Side::Yes, 10_000_000).unwrap();
    s.buy_shares(&bob, market_id, Side::Yes, 20_000_000).unwrap();

    // Resolve as NO -- no winners
    s.advance(3601);
    s.resolve_market(market_id, Side::No).unwrap();

    // Both get proportional refund
    let payout_alice = s.claim_winnings(&alice, market_id).unwrap();
    assert_eq!(payout_alice, 10_000_000); // 1/3 of 30M

    let payout_bob = s.claim_winnings(&bob, market_id).unwrap();
    assert_eq!(payout_bob, 20_000_000); // 2/3 of 30M
}

#[test]
fn test_double_claim_fails() {
    let mut s = setup();
    let alice = s.generate();
    s.mint(&alice, 10_000_000);

    let market_id = create_test_market(&mut s, 3600);
    s.buy_shares(&alice, market_id, Side::Yes, 10_000_000).unwrap();

    s.advance(3601);
    s.resolve_market(market_id, Side::Yes).unwrap();

    s.claim_winnings(&alice, market_id).unwrap();
    let result = s.claim_winnings(&alice, market_id);
    assert!(result.is_err());
    assert_eq!(result, Err(Error::AlreadyClaimed));
    assert_eq!(s.balance(&alice), 10_000_000);
}

#[test]
fn test_claim_from_open_market_fails() {
    let mut s = setup();
    let alice = s.generate();
    s.mint(&alice, 10_000_000);

    let market_id = create_test_market(&mut s, 3600);
    s.buy_shares(&alice, market_id, Side::Yes, 10_000_000).unwrap();

    let result = s.claim_winnings(&alice, market_id);
    assert!(result.is_err());
    assert_eq!(result, Err(Error::MarketNotResolved));
}

#[test]
fn test_claim_with_no_position() {
    let mut s = setup();
    let alice = s.generate();
    let bob = s.generate();
    s.mint(&alice, 10_000_000);

    let market_id = create_test_market(&mut s, 3600);
    s.buy_shares(&alice, market_id, Side::Yes, 10_000_000).unwrap();

    s.advance(3601);
    s.resolve_market(market_id, Side::Yes).unwrap();

    // Bob has no position, payout should be 0
    let payout = s.claim_winnings(&bob, market_id).unwrap();
    assert_eq!(payout, 0);
}

// ===== View Function Tests =====

#[test]
fn test_get_market_not_found() {
    let s = setup();
    let result = s.engine.get_market(999);
    assert!(result.is_err());
    assert_eq!(result.unwrap_err(), Error::MarketNotFound);
}

#[test]
fn test_get_position_no_position() {
    let mut s = setup();
    let alice = s.generate();
    let market_id = create_test_market(&mut s, 3600);

    let pos = s.get_position(market_id, &alice);
    assert_eq!(pos.yes_shares, 0);
    assert_eq!(pos.no_shares, 0);
    assert_eq!(pos.claimed, false);
}

// ===== Full End-to-End Flow =====

#[test]
fn test_full_flow() {
    let mut s = setup();
    let alice = s.generate();
    let bob = s.generate();

    // Fund users
    s.mint(&alice, 50_000_000); // 5 units
    s.mint(&bob, 50_000_000); // 5 units

    // Create market
    let admin = s.admin.clone();
    let deadline = s.now + 86400; // 1 day
    let market_id = s.create_market(&admin, "Will ETH hit $10k?", deadline).unwrap();

    // Alice buys 3 units YES
    s.buy_shares(&alice, market_id, Side::Yes, 30_000_000).unwrap();

    // Bob buys 2 units NO
    s.buy_shares(&bob, market_id, Side::No, 20_000_000).unwrap();

    // Verify market state
    let market = s.get_market(market_id);
    assert_eq!(market.total_yes, 30_000_000);
    assert_eq!(market.total_no, 20_000_000);
    assert_eq!(market.pool_balance, 50_000_000);

    // Verify balances
    assert_eq!(s.balance(&alice), 20_000_000); // 5 - 3 = 2 units left
    assert_eq!(s.balance(&bob), 30_000_000); // 5 - 2 = 3 units left

    // Advance time and resolve as YES
    s.advance(86401);
    s.resolve_market(market_id, Side::Yes).unwrap();

    // Alice claims: only YES buyer, gets entire pool (5 units)
    let payout = s.claim_winnings(&alice, market_id).unwrap();
    assert_eq!(payout, 50_000_000);
    assert_eq!(s.balance(&alice), 70_000_000); // 2 + 5 = 7 units

    // Bob gets nothing
    let payout_bob = s.claim_winnings(&bob, market_id).unwrap();
    assert_eq!(payout_bob, 0);
    assert_eq!(s.balance(&bob), 30_000_000); // unchanged
}
