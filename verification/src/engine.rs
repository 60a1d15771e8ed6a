//! The engine itself: the configuration, the store and the requests to the
//! host, behind the operations that users call.

use vstd::prelude::*;
use crate::auth::AuthContext;
use crate::effects::Effect;
use crate::errors::Error;
use crate::model::{
    lemma_buy_shares_wf, lemma_claim_winnings_wf, lemma_create_market_wf, lemma_position_covered,
    lemma_resolve_market_wf, State,
};
use crate::payout::lemma_payout_bounds;
use crate::registry::Registry;
use crate::rules;
use crate::types::{Config, Identity, Market, Position, Side};

verus! {

/// A settlement engine for binary-outcome prediction markets.
///
/// Time and authorization come from outside: every operation that depends
/// on them takes the current time and the identities that stand behind the
/// call. What the engine wants done outside, transfers of the asset and
/// events, it records for its host to take over with `take_effects`.
pub struct PredictionMarket {
    config: Option<Config>,
    registry: Registry,
    outbox: Vec<Effect>,
}

impl View for PredictionMarket {
    type V = State;

    closed spec fn view(&self) -> State {
        State {
            config: self.config,
            markets: self.registry.markets(),
            records: self.registry.records(),
            effects: self.outbox@,
        }
    }
}

impl PredictionMarket {
    /// An engine that has not been initialized.
    pub fn new() -> (engine: PredictionMarket)
        ensures
            engine@ == State::empty(),
            engine@.wf(),
    {
        PredictionMarket { config: None, registry: Registry::new(), outbox: Vec::new() }
    }

    /// Sets the administrator and the asset. The first call wins; every
    /// later one fails with `AlreadyInitialized`.
    pub fn initialize(&mut self, admin: Identity, token: Identity) -> (result: Result<(), Error>)
        requires
            old(self)@.wf(),
        ensures
            result == old(self)@.initialize_result(),
            final(self)@ == old(self)@.initialize(admin, token),
            final(self)@.wf(),
    {
        if self.config.is_some() {
            return Err(Error::AlreadyInitialized);
        }
        self.config = Some(Config { admin, token });
        Ok(())
    }

    /// Creates a market that is open until `deadline` and returns its
    /// identifier. The engine must be initialized, `creator` must have
    /// authorized the call, and `deadline` must be later than `now`.
    ///
    /// Identifiers are 64 bits wide, so one must be left.
    pub fn create_market(
        &mut self,
        auth: &AuthContext,
        creator: Identity,
        question: String,
        deadline: u64,
        now: u64,
    ) -> (result: Result<u64, Error>)
        requires
            old(self)@.wf(),
            old(self)@.markets.len() < u64::MAX,
        ensures
            result == old(self)@.create_market_result(auth@, creator@, deadline, now),
            final(self)@ == old(self)@.create_market(auth@, creator, question, deadline, now),
            final(self)@.wf(),
    {
        proof {
            lemma_create_market_wf(self@, auth@, creator, question, deadline, now);
        }
        let market_id = self.registry.next_id();
        match rules::create(&self.config, auth, market_id, creator, question, deadline, now) {
            Ok(creation) => {
                self.registry.allocate(creation.market);
                self.outbox.push(creation.event);
                Ok(market_id)
            },
            Err(error) => Err(error),
        }
    }

    /// Stakes `amount` of the asset on `side` of the market `market_id`,
    /// for `buyer`, who must have authorized the call. The market must be
    /// open and its deadline must lie ahead.
    ///
    /// The pool must stay within the range of the currency. It does where
    /// stakes are paid for, since there is no more of an asset than that
    /// range holds.
    pub fn buy_shares(
        &mut self,
        auth: &AuthContext,
        buyer: Identity,
        market_id: u64,
        side: Side,
        amount: i128,
        now: u64,
    ) -> (result: Result<(), Error>)
        requires
            old(self)@.wf(),
            old(self)@.buy_shares_result(auth@, buyer@, market_id, amount, now) is Ok
                ==> old(self)@.markets[market_id as int].pool_balance + amount <= i128::MAX,
        ensures
            result == old(self)@.buy_shares_result(auth@, buyer@, market_id, amount, now),
            final(self)@ == old(self)@.buy_shares(auth@, buyer, market_id, side, amount, now),
            final(self)@.wf(),
    {
        proof {
            lemma_buy_shares_wf(self@, auth@, buyer, market_id, side, amount, now);
            if market_id < self@.markets.len() {
                lemma_position_covered(self@, market_id, buyer@);
            }
        }
        let market = match self.registry.get(market_id) {
            Ok(market) => Some(market),
            Err(_) => None,
        };
        let position = self.registry.get_position(market_id, &buyer);
        let decision = rules::buy(
            &self.config,
            auth,
            &buyer,
            market_id,
            market,
            position,
            side,
            amount,
            now,
        );
        match decision {
            Ok(purchase) => {
                self.registry.put(market_id, purchase.market);
                self.registry.put_position(market_id, buyer, purchase.position);
                self.outbox.push(purchase.transfer);
                self.outbox.push(purchase.event);
                Ok(())
            },
            Err(error) => Err(error),
        }
    }

    /// Gives the market `market_id` its outcome. Only the administrator
    /// may, and only once the deadline has come.
    pub fn resolve_market(
        &mut self,
        auth: &AuthContext,
        market_id: u64,
        outcome: Side,
        now: u64,
    ) -> (result: Result<(), Error>)
        requires
            old(self)@.wf(),
        ensures
            result == old(self)@.resolve_market_result(auth@, market_id, now),
            final(self)@ == old(self)@.resolve_market(auth@, market_id, outcome, now),
            final(self)@.wf(),
    {
        proof {
            lemma_resolve_market_wf(self@, auth@, market_id, outcome, now);
        }
        let market = match self.registry.get(market_id) {
            Ok(market) => Some(market),
            Err(_) => None,
        };
        match rules::resolve(&self.config, auth, market_id, market, outcome, now) {
            Ok(resolution) => {
                self.registry.put(market_id, resolution.market);
                self.outbox.push(resolution.event);
                Ok(())
            },
            Err(error) => Err(error),
        }
    }

    /// Pays `user`, who must have authorized the call, for the position in
    /// the resolved market `market_id`, once, and returns the amount. The
    /// position is marked as paid before the transfer is asked for.
    pub fn claim_winnings(&mut self, auth: &AuthContext, user: Identity, market_id: u64) -> (result:
        Result<i128, Error>)
        requires
            old(self)@.wf(),
        ensures
            result == old(self)@.claim_winnings_result(auth@, user@, market_id),
            final(self)@ == old(self)@.claim_winnings(auth@, user, market_id),
            final(self)@.wf(),
    {
        proof {
            lemma_claim_winnings_wf(self@, auth@, user, market_id);
            if market_id < self@.markets.len() {
                let market = self@.markets[market_id as int];
                lemma_position_covered(self@, market_id, user@);
                lemma_payout_bounds(
                    market,
                    self@.position(market_id, user@),
                    market.status->Resolved_0,
                );
            }
        }
        let market = match self.registry.get(market_id) {
            Ok(market) => Some(market),
            Err(_) => None,
        };
        let position = self.registry.get_position(market_id, &user);
        match rules::claim(&self.config, auth, &user, market_id, &market, position) {
            Ok(claim) => {
                self.registry.put_position(market_id, user, claim.position);
                match claim.transfer {
                    Some(transfer) => {
                        self.outbox.push(transfer);
                    },
                    None => {},
                }
                self.outbox.push(claim.event);
                Ok(claim.payout)
            },
            Err(error) => Err(error),
        }
    }

    /// The market `market_id`.
    pub fn get_market(&self, market_id: u64) -> (result: Result<Market, Error>)
        requires
            self@.wf(),
        ensures
            result == match self@.market(market_id) {
                Some(market) => Ok::<Market, Error>(market),
                None => Err::<Market, Error>(Error::MarketNotFound),
            },
    {
        self.registry.get(market_id)
    }

    /// The position of `user` in the market `market_id`; the empty position
    /// where the user never staked on it. Reading stores nothing.
    pub fn get_position(&self, market_id: u64, user: &Identity) -> (position: Position)
        requires
            self@.wf(),
        ensures
            position == self@.position(market_id, user@),
    {
        self.registry.get_position(market_id, user)
    }

    /// The number of markets created so far.
    pub fn get_market_count(&self) -> (count: u64)
        requires
            self@.wf(),
        ensures
            count == self@.market_count(),
    {
        self.registry.next_id()
    }

    /// The administrator.
    pub fn get_admin(&self) -> (result: Result<Identity, Error>)
        ensures
            result == match self@.config {
                Some(config) => Ok::<Identity, Error>(config.admin),
                None => Err::<Identity, Error>(Error::NotInitialized),
            },
    {
        match &self.config {
            Some(config) => Ok(config.admin.clone()),
            None => Err(Error::NotInitialized),
        }
    }

    /// The asset in which stakes and winnings are paid.
    pub fn get_token(&self) -> (result: Result<Identity, Error>)
        ensures
            result == match self@.config {
                Some(config) => Ok::<Identity, Error>(config.token),
                None => Err::<Identity, Error>(Error::NotInitialized),
            },
    {
        match &self.config {
            Some(config) => Ok(config.token.clone()),
            None => Err(Error::NotInitialized),
        }
    }

    /// Hands over, in order, what the host has been asked to do since the
    /// last call, and forgets it.
    pub fn take_effects(&mut self) -> (effects: Vec<Effect>)
        ensures
            effects@ == old(self)@.effects,
            final(self)@ == old(self)@.take_effects(),
            old(self)@.wf() ==> final(self)@.wf(),
    {
        let mut effects: Vec<Effect> = Vec::new();
        core::mem::swap(&mut self.outbox, &mut effects);
        effects
    }
}

} // verus!
