//! The engine as a mathematical object: its state, and each operation as a
//! function from the state before to the result and the state after.

use vstd::prelude::*;
use crate::effects::Effect;
use crate::errors::Error;
use crate::payout::payout_amount;
use crate::registry::{
    distinct, holds, index_of, lemma_staked_bounds, lemma_staked_push, lemma_staked_update,
    lemma_stored_distinct, lemma_stored_position, position_of, staked, stored,
    PositionRecord,
};
use crate::rules::{
    buy_error, claim_error, create_error, created, granted, purchased, resolve_error, resolved,
};
use crate::types::{Config, Identity, Market, Position, Side};

verus! {

/// All that the engine knows at one moment.
pub struct State {
    /// The administrator and the asset, once the engine is initialized.
    pub config: Option<Config>,
    /// The markets; a market's identifier is its index.
    pub markets: Seq<Market>,
    /// The positions, in the order of each user's first stake.
    pub records: Seq<PositionRecord>,
    /// What the host has been asked to do and has not yet taken over.
    pub effects: Seq<Effect>,
}

impl State {
    /// The engine before anything has happened.
    pub open spec fn empty() -> State {
        State {
            config: None,
            markets: Seq::empty(),
            records: Seq::empty(),
            effects: Seq::empty(),
        }
    }

    /// What holds of the state at all times.
    ///
    /// Markets exist only once the engine is initialized. Of every market,
    /// no total is negative, the pool is the sum of the two totals, and
    /// each total is the sum of what the positions hold on that side. Every
    /// position belongs to one market and one user, holds no negative
    /// stake, and is marked as paid only in a resolved market.
    pub open spec fn wf(self) -> bool {
        &&& self.markets.len() <= u64::MAX
        &&& self.config is None ==> self.markets.len() == 0
        &&& forall|id: int| 0 <= id < self.markets.len() ==> (#[trigger] self.markets[id]).wf()
        &&& distinct(self.records)
        &&& forall|i: int| 0 <= i < self.records.len() ==> self.keeps(#[trigger] self.records[i])
        &&& forall|id: u64, side: Side|
            id < self.markets.len() ==> #[trigger] staked(self.records, id, side)
                == self.markets[id as int].total(side)
    }

    /// Whether `record` can stand in this state: it is a position in one
    /// of the markets, holds no negative stake, and is marked as paid only
    /// if that market is resolved.
    pub open spec fn keeps(self, record: PositionRecord) -> bool {
        &&& record.market_id < self.markets.len()
        &&& record.position.wf()
        &&& record.position.claimed ==> self.markets[record.market_id as int].status is Resolved
    }

    /// The number of markets, which is the identifier of the next one.
    pub open spec fn market_count(self) -> nat {
        self.markets.len()
    }

    /// The market `market_id`, if it exists.
    pub open spec fn market(self, market_id: u64) -> Option<Market> {
        if market_id < self.markets.len() {
            Some(self.markets[market_id as int])
        } else {
            None
        }
    }

    /// The pool of the market `market_id`; nothing where there is no such market.
    pub open spec fn pool(self, market_id: u64) -> int {
        if market_id < self.markets.len() {
            self.markets[market_id as int].pool_balance as int
        } else {
            0
        }
    }

    /// The position of `user` in the market `market_id`; the empty position
    /// where the user never staked on it.
    pub open spec fn position(self, market_id: u64, user: Seq<char>) -> Position {
        position_of(self.records, market_id, user)
    }

    /// What `initialize` returns.
    pub open spec fn initialize_result(self) -> Result<(), Error> {
        if self.config is Some {
            Err(Error::AlreadyInitialized)
        } else {
            Ok(())
        }
    }

    /// The state after `initialize`.
    pub open spec fn initialize(self, admin: Identity, token: Identity) -> State {
        if self.config is Some {
            self
        } else {
            State { config: Some(Config { admin, token }), ..self }
        }
    }

    /// What `create_market` returns: the new market's identifier, which is
    /// the number of markets before it.
    pub open spec fn create_market_result(
        self,
        auth: Set<Seq<char>>,
        creator: Seq<char>,
        deadline: u64,
        now: u64,
    ) -> Result<u64, Error> {
        match create_error(self.config, auth, creator, deadline, now) {
            Some(error) => Err(error),
            None => Ok(self.markets.len() as u64),
        }
    }

    /// The state after `create_market`.
    pub open spec fn create_market(
        self,
        auth: Set<Seq<char>>,
        creator: Identity,
        question: String,
        deadline: u64,
        now: u64,
    ) -> State {
        if create_error(self.config, auth, creator@, deadline, now) is Some {
            self
        } else {
            let creation = created(self.markets.len() as u64, creator, question, deadline);
            State {
                markets: self.markets.push(creation.market),
                effects: self.effects.push(creation.event),
                ..self
            }
        }
    }

    /// What `buy_shares` returns.
    pub open spec fn buy_shares_result(
        self,
        auth: Set<Seq<char>>,
        buyer: Seq<char>,
        market_id: u64,
        amount: i128,
        now: u64,
    ) -> Result<(), Error> {
        match buy_error(self.config, auth, buyer, self.market(market_id), amount, now) {
            Some(error) => Err(error),
            None => Ok(()),
        }
    }

    /// The state after `buy_shares`.
    pub open spec fn buy_shares(
        self,
        auth: Set<Seq<char>>,
        buyer: Identity,
        market_id: u64,
        side: Side,
        amount: i128,
        now: u64,
    ) -> State {
        if buy_error(self.config, auth, buyer@, self.market(market_id), amount, now) is Some {
            self
        } else {
            let purchase = purchased(
                self.config->Some_0.token,
                buyer,
                market_id,
                self.markets[market_id as int],
                self.position(market_id, buyer@),
                side,
                amount,
            );
            State {
                config: self.config,
                markets: self.markets.update(market_id as int, purchase.market),
                records: stored(self.records, market_id, buyer, purchase.position),
                effects: self.effects.push(purchase.transfer).push(purchase.event),
            }
        }
    }

    /// What `resolve_market` returns.
    pub open spec fn resolve_market_result(
        self,
        auth: Set<Seq<char>>,
        market_id: u64,
        now: u64,
    ) -> Result<(), Error> {
        match resolve_error(self.config, auth, self.market(market_id), now) {
            Some(error) => Err(error),
            None => Ok(()),
        }
    }

    /// The state after `resolve_market`.
    pub open spec fn resolve_market(
        self,
        auth: Set<Seq<char>>,
        market_id: u64,
        outcome: Side,
        now: u64,
    ) -> State {
        if resolve_error(self.config, auth, self.market(market_id), now) is Some {
            self
        } else {
            let resolution = resolved(market_id, self.markets[market_id as int], outcome);
            State {
                markets: self.markets.update(market_id as int, resolution.market),
                effects: self.effects.push(resolution.event),
                ..self
            }
        }
    }

    /// The amount due to `user` in the market `market_id`, which is resolved.
    pub open spec fn payout(self, market_id: u64, user: Seq<char>) -> int {
        let market = self.markets[market_id as int];
        payout_amount(market, self.position(market_id, user), market.status->Resolved_0)
    }

    /// What `claim_winnings` returns: the amount due.
    pub open spec fn claim_winnings_result(
        self,
        auth: Set<Seq<char>>,
        user: Seq<char>,
        market_id: u64,
    ) -> Result<i128, Error> {
        match claim_error(
            self.config,
            auth,
            user,
            self.market(market_id),
            self.position(market_id, user),
        ) {
            Some(error) => Err(error),
            None => Ok(self.payout(market_id, user) as i128),
        }
    }

    /// The state after `claim_winnings`.
    pub open spec fn claim_winnings(self, auth: Set<Seq<char>>, user: Identity, market_id: u64)
        -> State {
        if claim_error(
            self.config,
            auth,
            user@,
            self.market(market_id),
            self.position(market_id, user@),
        ) is Some {
            self
        } else {
            let claim = granted(
                self.config->Some_0.token,
                user,
                market_id,
                self.markets[market_id as int],
                self.position(market_id, user@),
            );
            State {
                records: stored(self.records, market_id, user, claim.position),
                effects: match claim.transfer {
                    Some(transfer) => self.effects.push(transfer).push(claim.event),
                    None => self.effects.push(claim.event),
                },
                ..self
            }
        }
    }

    /// The state after the host has taken over what it was asked to do.
    pub open spec fn take_effects(self) -> State {
        State { effects: Seq::empty(), ..self }
    }
}

/// Storing a position changes the sum for its own market by what the
/// position gained, and no other sum.
pub proof fn lemma_staked_stored(
    records: Seq<PositionRecord>,
    market_id: u64,
    user: Identity,
    position: Position,
    other_market: u64,
    side: Side,
)
    requires
        distinct(records),
    ensures
        staked(stored(records, market_id, user, position), other_market, side) == staked(
            records,
            other_market,
            side,
        ) + (if other_market == market_id {
            position.shares(side) - position_of(records, market_id, user@).shares(side)
        } else {
            0
        }),
{
    if holds(records, market_id, user@) {
        let i = index_of(records, market_id, user@);
        lemma_staked_update(
            records,
            i,
            PositionRecord { position, ..records[i] },
            other_market,
            side,
        );
    } else {
        let record = PositionRecord { market_id, user, position };
        lemma_staked_push(records, record, other_market, side);
    }
}

/// In a well-formed state every position is well-formed and holds no more
/// on either side than its market has taken on it.
pub proof fn lemma_position_covered(state: State, market_id: u64, user: Seq<char>)
    requires
        state.wf(),
        market_id < state.markets.len(),
    ensures
        state.position(market_id, user).wf(),
        state.position(market_id, user).yes_shares <= state.markets[market_id as int].total_yes,
        state.position(market_id, user).no_shares <= state.markets[market_id as int].total_no,
        state.position(market_id, user).claimed ==> state.markets[market_id as int].status
            is Resolved,
{
    if holds(state.records, market_id, user) {
        lemma_staked_bounds(state.records, market_id, Side::Yes);
        lemma_staked_bounds(state.records, market_id, Side::No);
    }
}

/// Initializing keeps the state well-formed.
pub proof fn lemma_initialize_wf(state: State, admin: Identity, token: Identity)
    requires
        state.wf(),
    ensures
        state.initialize(admin, token).wf(),
{
}

/// Creating a market keeps the state well-formed, as long as identifiers are left.
pub proof fn lemma_create_market_wf(
    state: State,
    auth: Set<Seq<char>>,
    creator: Identity,
    question: String,
    deadline: u64,
    now: u64,
)
    requires
        state.wf(),
        state.markets.len() < u64::MAX,
    ensures
        state.create_market(auth, creator, question, deadline, now).wf(),
{
    let after = state.create_market(auth, creator, question, deadline, now);
    if create_error(state.config, auth, creator@, deadline, now) is None {
        assert forall|i: int| 0 <= i < after.records.len() implies after.keeps(
            #[trigger] after.records[i],
        ) by {
            assert(state.keeps(state.records[i]));
        }
        assert forall|m: u64, side: Side| m < after.markets.len() implies #[trigger] staked(
            after.records,
            m,
            side,
        ) == after.markets[m as int].total(side) by {
            if m >= state.markets.len() {
                lemma_staked_none(state.records, m, side);
            }
        }
    }
}

/// A market in which nobody has a position has no stake.
pub proof fn lemma_staked_none(records: Seq<PositionRecord>, market_id: u64, side: Side)
    requires
        forall|i: int| 0 <= i < records.len() ==> (#[trigger] records[i]).market_id != market_id,
    ensures
        staked(records, market_id, side) == 0,
    decreases records.len(),
{
    if records.len() > 0 {
        lemma_staked_none(records.drop_last(), market_id, side);
    }
}

/// Taking a stake keeps the state well-formed, as long as the pool stays
/// within the range of the currency.
pub proof fn lemma_buy_shares_wf(
    state: State,
    auth: Set<Seq<char>>,
    buyer: Identity,
    market_id: u64,
    side: Side,
    amount: i128,
    now: u64,
)
    requires
        state.wf(),
        state.buy_shares_result(auth, buyer@, market_id, amount, now) is Ok
            ==> state.markets[market_id as int].pool_balance + amount <= i128::MAX,
    ensures
        state.buy_shares(auth, buyer, market_id, side, amount, now).wf(),
{
    let after = state.buy_shares(auth, buyer, market_id, side, amount, now);
    if buy_error(state.config, auth, buyer@, state.market(market_id), amount, now) is None {
        let grown = state.position(market_id, buyer@).with_stake(side, amount);
        lemma_position_covered(state, market_id, buyer@);
        lemma_stored_distinct(state.records, market_id, buyer, grown);
        assert forall|i: int| 0 <= i < after.records.len() implies after.keeps(
            #[trigger] after.records[i],
        ) by {
            if i < state.records.len() {
                assert(state.keeps(state.records[i]));
            }
        }
        assert forall|m: u64, other: Side| m < after.markets.len() implies #[trigger] staked(
            after.records,
            m,
            other,
        ) == after.markets[m as int].total(other) by {
            lemma_staked_stored(state.records, market_id, buyer, grown, m, other);
        }
    }
}

/// Resolving a market keeps the state well-formed.
pub proof fn lemma_resolve_market_wf(
    state: State,
    auth: Set<Seq<char>>,
    market_id: u64,
    outcome: Side,
    now: u64,
)
    requires
        state.wf(),
    ensures
        state.resolve_market(auth, market_id, outcome, now).wf(),
{
    let after = state.resolve_market(auth, market_id, outcome, now);
    if resolve_error(state.config, auth, state.market(market_id), now) is None {
        assert forall|i: int| 0 <= i < after.records.len() implies after.keeps(
            #[trigger] after.records[i],
        ) by {
            assert(state.keeps(state.records[i]));
        }
    }
}

/// Paying a claim keeps the state well-formed.
pub proof fn lemma_claim_winnings_wf(
    state: State,
    auth: Set<Seq<char>>,
    user: Identity,
    market_id: u64,
)
    requires
        state.wf(),
    ensures
        state.claim_winnings(auth, user, market_id).wf(),
{
    let after = state.claim_winnings(auth, user, market_id);
    let position = state.position(market_id, user@);
    if claim_error(state.config, auth, user@, state.market(market_id), position) is None {
        lemma_position_covered(state, market_id, user@);
        lemma_stored_distinct(state.records, market_id, user, position.paid());
        assert forall|i: int| 0 <= i < after.records.len() implies after.keeps(
            #[trigger] after.records[i],
        ) by {
            if i < state.records.len() {
                assert(state.keeps(state.records[i]));
            }
        }
        assert forall|m: u64, side: Side| m < after.markets.len() implies #[trigger] staked(
            after.records,
            m,
            side,
        ) == after.markets[m as int].total(side) by {
            lemma_staked_stored(state.records, market_id, user, position.paid(), m, side);
        }
    }
}

/// A stake that was taken is added to the buyer's position in that market.
/// Every other position stays as it was.
pub proof fn lemma_buy_shares_positions(
    state: State,
    auth: Set<Seq<char>>,
    buyer: Identity,
    market_id: u64,
    side: Side,
    amount: i128,
    now: u64,
    other_market: u64,
    other_user: Seq<char>,
)
    requires
        state.wf(),
        state.buy_shares_result(auth, buyer@, market_id, amount, now) is Ok,
    ensures
        state.buy_shares(auth, buyer, market_id, side, amount, now).position(
            other_market,
            other_user,
        ) == (if other_market == market_id && other_user == buyer@ {
            state.position(market_id, buyer@).with_stake(side, amount)
        } else {
            state.position(other_market, other_user)
        }),
{
    lemma_stored_position(
        state.records,
        market_id,
        buyer,
        state.position(market_id, buyer@).with_stake(side, amount),
        other_market,
        other_user,
    );
}

/// A claim that was granted marks the claimant's position in that market
/// as paid. Every other position stays as it was.
pub proof fn lemma_claim_winnings_positions(
    state: State,
    auth: Set<Seq<char>>,
    user: Identity,
    market_id: u64,
    other_market: u64,
    other_user: Seq<char>,
)
    requires
        state.wf(),
        state.claim_winnings_result(auth, user@, market_id) is Ok,
    ensures
        state.claim_winnings(auth, user, market_id).position(other_market, other_user) == (if
            other_market == market_id && other_user == user@ {
            state.position(market_id, user@).paid()
        } else {
            state.position(other_market, other_user)
        }),
{
    lemma_stored_position(
        state.records,
        market_id,
        user,
        state.position(market_id, user@).paid(),
        other_market,
        other_user,
    );
}

} // verus!
