//! What holds of the engine over time: after any calls, in any order.

use vstd::prelude::*;
use crate::accounts::{lemma_paid_out_nothing, lemma_paid_out_stored, lemma_paid_within_pool};
use crate::errors::Error;
use crate::model::{
    lemma_buy_shares_positions, lemma_buy_shares_wf, lemma_claim_winnings_positions,
    lemma_claim_winnings_wf, lemma_create_market_wf, lemma_initialize_wf,
    lemma_position_covered, lemma_resolve_market_wf, State,
};
use crate::payout::lemma_payout_bounds;
use crate::types::{Identity, Side};

verus! {

/// One call of an operation that can change the state, with its arguments.
pub enum Call {
    Initialize { admin: Identity, token: Identity },
    CreateMarket {
        auth: Set<Seq<char>>,
        creator: Identity,
        question: String,
        deadline: u64,
        now: u64,
    },
    BuyShares {
        auth: Set<Seq<char>>,
        buyer: Identity,
        market_id: u64,
        side: Side,
        amount: i128,
        now: u64,
    },
    ResolveMarket { auth: Set<Seq<char>>, market_id: u64, outcome: Side, now: u64 },
    ClaimWinnings { auth: Set<Seq<char>>, user: Identity, market_id: u64 },
    TakeEffects,
}

impl State {
    /// Whether `call` succeeds in this state.
    pub open spec fn succeeds(self, call: Call) -> bool {
        match call {
            Call::Initialize { admin, token } => self.initialize_result() is Ok,
            Call::CreateMarket { auth, creator, question, deadline, now } => self.create_market_result(
                auth,
                creator@,
                deadline,
                now,
            ) is Ok,
            Call::BuyShares { auth, buyer, market_id, side, amount, now } => self.buy_shares_result(
                auth,
                buyer@,
                market_id,
                amount,
                now,
            ) is Ok,
            Call::ResolveMarket { auth, market_id, outcome, now } => self.resolve_market_result(
                auth,
                market_id,
                now,
            ) is Ok,
            Call::ClaimWinnings { auth, user, market_id } => self.claim_winnings_result(
                auth,
                user@,
                market_id,
            ) is Ok,
            Call::TakeEffects => true,
        }
    }

    /// Whether this state can take `call` within the limits of the
    /// machine: a market to create still gets an identifier, and a stake
    /// to take leaves the pool within the range of the currency.
    pub open spec fn admits(self, call: Call) -> bool {
        match call {
            Call::CreateMarket { .. } => self.markets.len() < u64::MAX,
            Call::BuyShares { auth, buyer, market_id, side, amount, now } => self.succeeds(call)
                ==> self.markets[market_id as int].pool_balance + amount <= i128::MAX,
            _ => true,
        }
    }

    /// The state after `call`.
    pub open spec fn after(self, call: Call) -> State {
        match call {
            Call::Initialize { admin, token } => self.initialize(admin, token),
            Call::CreateMarket { auth, creator, question, deadline, now } => self.create_market(
                auth,
                creator,
                question,
                deadline,
                now,
            ),
            Call::BuyShares { auth, buyer, market_id, side, amount, now } => self.buy_shares(
                auth,
                buyer,
                market_id,
                side,
                amount,
                now,
            ),
            Call::ResolveMarket { auth, market_id, outcome, now } => self.resolve_market(
                auth,
                market_id,
                outcome,
                now,
            ),
            Call::ClaimWinnings { auth, user, market_id } => self.claim_winnings(
                auth,
                user,
                market_id,
            ),
            Call::TakeEffects => self.take_effects(),
        }
    }
}

/// The state after `calls`, made in order from `state`.
pub open spec fn run(state: State, calls: Seq<Call>) -> State
    decreases calls.len(),
{
    if calls.len() == 0 {
        state
    } else {
        run(state, calls.drop_last()).after(calls.last())
    }
}

/// Whether every one of `calls`, made in order from `state`, stays within
/// the limits of the machine.
pub open spec fn admitted(state: State, calls: Seq<Call>) -> bool
    decreases calls.len(),
{
    calls.len() == 0 || (admitted(state, calls.drop_last()) && run(
        state,
        calls.drop_last(),
    ).admits(calls.last()))
}

/// How many of `calls`, made in order from `state`, create a market.
pub open spec fn creations(state: State, calls: Seq<Call>) -> nat
    decreases calls.len(),
{
    if calls.len() == 0 {
        0
    } else {
        let created: nat = if calls.last() is CreateMarket && run(
            state,
            calls.drop_last(),
        ).succeeds(calls.last()) {
            1
        } else {
            0
        };
        creations(state, calls.drop_last()) + created
    }
}

/// The sum of the stakes that `calls`, made in order from `state`, place
/// on the market `market_id`.
pub open spec fn stakes_taken(state: State, calls: Seq<Call>, market_id: u64) -> int
    decreases calls.len(),
{
    if calls.len() == 0 {
        0
    } else {
        let taken: int = match calls.last() {
            Call::BuyShares { auth, buyer, market_id: id, side, amount, now } => if id
                == market_id && run(state, calls.drop_last()).succeeds(calls.last()) {
                amount as int
            } else {
                0
            },
            _ => 0,
        };
        stakes_taken(state, calls.drop_last(), market_id) + taken
    }
}

/// Every call keeps the state well-formed.
pub proof fn lemma_call_keeps_wf(state: State, call: Call)
    requires
        state.wf(),
        state.admits(call),
    ensures
        state.after(call).wf(),
{
    match call {
        Call::Initialize { admin, token } => {
            lemma_initialize_wf(state, admin, token);
        },
        Call::CreateMarket { auth, creator, question, deadline, now } => {
            lemma_create_market_wf(state, auth, creator, question, deadline, now);
        },
        Call::BuyShares { auth, buyer, market_id, side, amount, now } => {
            lemma_buy_shares_wf(state, auth, buyer, market_id, side, amount, now);
        },
        Call::ResolveMarket { auth, market_id, outcome, now } => {
            lemma_resolve_market_wf(state, auth, market_id, outcome, now);
        },
        Call::ClaimWinnings { auth, user, market_id } => {
            lemma_claim_winnings_wf(state, auth, user, market_id);
        },
        Call::TakeEffects => {},
    }
}

/// The state is well-formed at every point: from a well-formed state, any
/// calls in any order lead to a well-formed state. So in every market, at
/// all times, the pool is the sum of the two totals and no total is
/// negative.
pub proof fn lemma_always_wf(state: State, calls: Seq<Call>)
    requires
        state.wf(),
        admitted(state, calls),
    ensures
        run(state, calls).wf(),
    decreases calls.len(),
{
    if calls.len() > 0 {
        lemma_always_wf(state, calls.drop_last());
        lemma_call_keeps_wf(run(state, calls.drop_last()), calls.last());
    }
}

/// Markets are never removed, and each one that is created adds one.
pub proof fn lemma_markets_count_creations(state: State, calls: Seq<Call>)
    requires
        state.wf(),
        admitted(state, calls),
    ensures
        run(state, calls).market_count() == state.market_count() + creations(state, calls),
    decreases calls.len(),
{
    if calls.len() > 0 {
        lemma_markets_count_creations(state, calls.drop_last());
    }
}

/// Identifiers are handed out in the order of creation, from zero. After
/// any calls on a new engine, the number of markets is the number of
/// markets that those calls created, and a market that is created next
/// gets that number as its identifier.
pub proof fn lemma_identifiers_count_creations(
    earlier: Seq<Call>,
    auth: Set<Seq<char>>,
    creator: Identity,
    deadline: u64,
    now: u64,
)
    requires
        admitted(State::empty(), earlier),
    ensures
        run(State::empty(), earlier).market_count() == creations(State::empty(), earlier),
        run(State::empty(), earlier).create_market_result(auth, creator@, deadline, now) is Ok
            ==> run(State::empty(), earlier).create_market_result(auth, creator@, deadline, now)
            == Ok::<u64, Error>(creations(State::empty(), earlier) as u64),
{
    lemma_markets_count_creations(State::empty(), earlier);
}

/// The pool of a market is the sum of all that was staked on it: after any
/// calls, it has grown by exactly the stakes that those calls placed on the
/// market, and it is the sum of the market's two totals.
pub proof fn lemma_pool_is_sum_of_stakes(state: State, calls: Seq<Call>, market_id: u64)
    requires
        state.wf(),
        admitted(state, calls),
    ensures
        run(state, calls).pool(market_id) == state.pool(market_id) + stakes_taken(
            state,
            calls,
            market_id,
        ),
        market_id < run(state, calls).markets.len() ==> {
            let market = run(state, calls).markets[market_id as int];
            market.pool_balance == market.total_yes + market.total_no
        },
    decreases calls.len(),
{
    lemma_always_wf(state, calls);
    if calls.len() > 0 {
        lemma_pool_is_sum_of_stakes(state, calls.drop_last(), market_id);
    }
}

/// A resolved market is frozen: no call changes its outcome, its totals or
/// its pool, and no call removes it. Claims are paid without the pool
/// being reduced.
pub proof fn lemma_resolved_market_is_frozen(state: State, calls: Seq<Call>, market_id: u64)
    requires
        market_id < state.markets.len(),
        state.markets[market_id as int].status is Resolved,
    ensures
        market_id < run(state, calls).markets.len(),
        run(state, calls).markets[market_id as int] == state.markets[market_id as int],
    decreases calls.len(),
{
    if calls.len() > 0 {
        lemma_resolved_market_is_frozen(state, calls.drop_last(), market_id);
    }
}

/// A position that was paid stays paid: no call clears the mark.
pub proof fn lemma_paid_stays_paid(
    state: State,
    calls: Seq<Call>,
    market_id: u64,
    user: Seq<char>,
)
    requires
        state.wf(),
        admitted(state, calls),
        state.position(market_id, user).claimed,
    ensures
        run(state, calls).position(market_id, user).claimed,
    decreases calls.len(),
{
    if calls.len() > 0 {
        let before = run(state, calls.drop_last());
        lemma_paid_stays_paid(state, calls.drop_last(), market_id, user);
        lemma_always_wf(state, calls.drop_last());
        match calls.last() {
            Call::BuyShares { auth, buyer, market_id: id, side, amount, now } => {
                if before.succeeds(calls.last()) {
                    lemma_buy_shares_positions(
                        before,
                        auth,
                        buyer,
                        id,
                        side,
                        amount,
                        now,
                        market_id,
                        user,
                    );
                }
            },
            Call::ClaimWinnings { auth, user: claimant, market_id: id } => {
                if before.succeeds(calls.last()) {
                    lemma_claim_winnings_positions(before, auth, claimant, id, market_id, user);
                }
            },
            _ => {},
        }
    }
}

/// The configuration, once set, is kept: no call changes it.
pub proof fn lemma_configuration_is_kept(state: State, calls: Seq<Call>)
    requires
        state.config is Some,
    ensures
        run(state, calls).config == state.config,
    decreases calls.len(),
{
    if calls.len() > 0 {
        lemma_configuration_is_kept(state, calls.drop_last());
    }
}

/// No position is paid twice: once a position is paid, every later claim
/// of that user on that market fails with `AlreadyClaimed`, whatever has
/// happened in between.
pub proof fn lemma_paid_position_is_never_paid_again(
    state: State,
    calls: Seq<Call>,
    auth: Set<Seq<char>>,
    user: Identity,
    market_id: u64,
)
    requires
        state.wf(),
        admitted(state, calls),
        market_id < state.markets.len(),
        state.position(market_id, user@).claimed,
        auth.contains(user@),
    ensures
        run(state, calls).claim_winnings_result(auth, user@, market_id) == Err::<i128, Error>(
            Error::AlreadyClaimed,
        ),
        run(state, calls).claim_winnings(auth, user, market_id) == run(state, calls),
{
    lemma_paid_stays_paid(state, calls, market_id, user@);
    lemma_configuration_is_kept(state, calls);
    lemma_markets_count_creations(state, calls);
}

/// The sum of what `calls`, made in order from `state`, pay to claimants
/// in the market `market_id`: the amounts that the granted claims return.
pub open spec fn claims_paid(state: State, calls: Seq<Call>, market_id: u64) -> int
    decreases calls.len(),
{
    if calls.len() == 0 {
        0
    } else {
        claims_paid(state, calls.drop_last(), market_id) + run(state, calls.drop_last()).pays(
            calls.last(),
            market_id,
        )
    }
}

impl State {
    /// What `call`, made in this state, pays to a claimant in the market
    /// `market_id`: the amount that it returns, if it is a claim on that
    /// market and is granted.
    pub open spec fn pays(self, call: Call, market_id: u64) -> int {
        match call {
            Call::ClaimWinnings { auth, user, market_id: id } => if id == market_id {
                match self.claim_winnings_result(auth, user@, id) {
                    Ok(payout) => payout as int,
                    Err(_) => 0,
                }
            } else {
                0
            },
            _ => 0,
        }
    }
}

/// Every call adds to what a market has paid exactly what it pays out of it.
pub proof fn lemma_call_pays(state: State, call: Call, market_id: u64)
    requires
        state.wf(),
        state.admits(call),
    ensures
        state.after(call).paid(market_id) == state.paid(market_id) + state.pays(call, market_id),
{
    let after = state.after(call);
    lemma_call_keeps_wf(state, call);
    match call {
        Call::BuyShares { auth, buyer, market_id: id, side, amount, now } => {
            if state.succeeds(call) && id != market_id && market_id < state.markets.len() {
                let market = state.markets[market_id as int];
                if market.status is Resolved {
                    lemma_paid_out_stored(
                        state.records,
                        id,
                        buyer,
                        state.position(id, buyer@).with_stake(side, amount),
                        market_id,
                        market,
                        market.status->Resolved_0,
                    );
                }
            }
        },
        Call::ResolveMarket { auth, market_id: id, outcome, now } => {
            if state.succeeds(call) && id == market_id {
                assert forall|i: int| 0 <= i < state.records.len() implies !((
                #[trigger] state.records[i]).market_id == market_id
                    && state.records[i].position.claimed) by {
                    assert(state.keeps(state.records[i]));
                }
                lemma_paid_out_nothing(
                    state.records,
                    market_id,
                    after.markets[market_id as int],
                    outcome,
                );
            }
        },
        Call::ClaimWinnings { auth, user, market_id: id } => {
            if state.succeeds(call) && market_id < state.markets.len() {
                let market = state.markets[market_id as int];
                if market.status is Resolved {
                    lemma_position_covered(state, id, user@);
                    lemma_payout_bounds(
                        state.markets[id as int],
                        state.position(id, user@),
                        state.markets[id as int].status->Resolved_0,
                    );
                    lemma_paid_out_stored(
                        state.records,
                        id,
                        user,
                        state.position(id, user@).paid(),
                        market_id,
                        market,
                        market.status->Resolved_0,
                    );
                }
            }
        },
        _ => {},
    }
}

/// What a market has paid is what it had paid before and what the calls
/// since have paid out of it.
pub proof fn lemma_claims_add_up(state: State, calls: Seq<Call>, market_id: u64)
    requires
        state.wf(),
        admitted(state, calls),
    ensures
        run(state, calls).paid(market_id) == state.paid(market_id) + claims_paid(
            state,
            calls,
            market_id,
        ),
    decreases calls.len(),
{
    if calls.len() > 0 {
        lemma_claims_add_up(state, calls.drop_last(), market_id);
        lemma_always_wf(state, calls.drop_last());
        lemma_call_pays(run(state, calls.drop_last()), calls.last(), market_id);
    }
}

/// No market pays out more than was staked on it. Whatever is called on a
/// new engine, in whatever order, the amounts that the claims on a market
/// return add up to no more than the market's pool.
pub proof fn lemma_claims_within_pool(calls: Seq<Call>, market_id: u64)
    requires
        admitted(State::empty(), calls),
    ensures
        claims_paid(State::empty(), calls, market_id) <= run(State::empty(), calls).pool(
            market_id,
        ),
{
    lemma_claims_add_up(State::empty(), calls, market_id);
    lemma_always_wf(State::empty(), calls);
    lemma_paid_within_pool(run(State::empty(), calls), market_id);
}

} // verus!
