//! What follows from the rules, operation by operation.
//!
//! Each statement here is about the results and the states that the
//! operations of the engine are specified to give, and holds for every
//! state and every argument that its preconditions admit.

use vstd::arithmetic::div_mod::lemma_div_multiples_vanish;
use vstd::prelude::*;
use crate::errors::Error;
use crate::model::{lemma_claim_winnings_positions, lemma_position_covered, State};
use crate::payout::payout_amount;
use crate::registry::holds;
use crate::types::{Identity, Market, MarketStatus, Position, Side};

verus! {

/// A market whose deadline is not strictly in the future is not created:
/// the request fails with `InvalidDeadline`, and the state, the number of
/// markets with it, stays as it was.
pub proof fn lemma_deadline_must_be_future(
    state: State,
    auth: Set<Seq<char>>,
    creator: Identity,
    question: String,
    deadline: u64,
    now: u64,
)
    requires
        state.config is Some,
        auth.contains(creator@),
        deadline <= now,
    ensures
        state.create_market_result(auth, creator@, deadline, now) == Err::<u64, Error>(
            Error::InvalidDeadline,
        ),
        state.create_market(auth, creator, question, deadline, now) == state,
{
}

/// A market that is created gets the number of markets before it as its
/// identifier, and is one more market.
pub proof fn lemma_creation_takes_next_identifier(
    state: State,
    auth: Set<Seq<char>>,
    creator: Identity,
    question: String,
    deadline: u64,
    now: u64,
)
    requires
        state.markets.len() < u64::MAX,
        state.config is Some,
        auth.contains(creator@),
        deadline > now,
    ensures
        state.create_market_result(auth, creator@, deadline, now) == Ok::<u64, Error>(
            state.market_count() as u64,
        ),
        state.create_market(auth, creator, question, deadline, now).market_count()
            == state.market_count() + 1,
        state.create_market(auth, creator, question, deadline, now).market(
            state.market_count() as u64,
        ) == Some(Market::opened(creator, question, deadline)),
{
}

/// A stake that is not strictly positive is refused with `InvalidAmount`,
/// whatever the market, and the state stays as it was.
pub proof fn lemma_stake_must_be_positive(
    state: State,
    auth: Set<Seq<char>>,
    buyer: Identity,
    market_id: u64,
    side: Side,
    amount: i128,
    now: u64,
)
    requires
        state.config is Some,
        auth.contains(buyer@),
        amount <= 0,
    ensures
        state.buy_shares_result(auth, buyer@, market_id, amount, now) == Err::<(), Error>(
            Error::InvalidAmount,
        ),
        state.buy_shares(auth, buyer, market_id, side, amount, now) == state,
{
}

/// A market takes no stake at or after its deadline, nor once it is
/// resolved: the request fails with `MarketClosed`, never with
/// `MarketAlreadyResolved`, and the state stays as it was.
pub proof fn lemma_closed_market_takes_no_stake(
    state: State,
    auth: Set<Seq<char>>,
    buyer: Identity,
    market_id: u64,
    side: Side,
    amount: i128,
    now: u64,
)
    requires
        state.config is Some,
        auth.contains(buyer@),
        amount > 0,
        market_id < state.markets.len(),
        now >= state.markets[market_id as int].deadline || state.markets[market_id as int].status
            is Resolved,
    ensures
        state.buy_shares_result(auth, buyer@, market_id, amount, now) == Err::<(), Error>(
            Error::MarketClosed,
        ),
        state.buy_shares(auth, buyer, market_id, side, amount, now) == state,
{
}

/// No request to stake fails with `MarketAlreadyResolved`.
pub proof fn lemma_stake_never_reports_resolution(
    state: State,
    auth: Set<Seq<char>>,
    buyer: Identity,
    market_id: u64,
    amount: i128,
    now: u64,
)
    ensures
        state.buy_shares_result(auth, buyer@, market_id, amount, now) != Err::<(), Error>(
            Error::MarketAlreadyResolved,
        ),
{
}

/// A stake that is taken adds `amount` to the total of its side and to the
/// pool of its market, and leaves the other total alone.
pub proof fn lemma_stake_adds_to_pool(
    state: State,
    auth: Set<Seq<char>>,
    buyer: Identity,
    market_id: u64,
    side: Side,
    amount: i128,
    now: u64,
)
    requires
        state.wf(),
        state.buy_shares_result(auth, buyer@, market_id, amount, now) is Ok,
        state.markets[market_id as int].pool_balance + amount <= i128::MAX,
    ensures
        ({
            let before = state.markets[market_id as int];
            let after = state.buy_shares(
                auth,
                buyer,
                market_id,
                side,
                amount,
                now,
            ).markets[market_id as int];
            &&& after.pool_balance == before.pool_balance + amount
            &&& after.total(side) == before.total(side) + amount
            &&& after.total_yes + after.total_no == after.pool_balance
            &&& after.status == before.status
            &&& after.deadline == before.deadline
        }),
{
}

/// A market is not resolved before its deadline: the request fails with
/// `DeadlineNotReached`, and the state stays as it was.
pub proof fn lemma_resolution_awaits_deadline(
    state: State,
    auth: Set<Seq<char>>,
    market_id: u64,
    outcome: Side,
    now: u64,
)
    requires
        state.config is Some,
        auth.contains(state.config->Some_0.admin@),
        market_id < state.markets.len(),
        state.markets[market_id as int].status is Open,
        now < state.markets[market_id as int].deadline,
    ensures
        state.resolve_market_result(auth, market_id, now) == Err::<(), Error>(
            Error::DeadlineNotReached,
        ),
        state.resolve_market(auth, market_id, outcome, now) == state,
{
}

/// Only the administrator resolves: a request that the administrator has
/// not authorized fails with `Unauthorized`, and the state stays as it was.
pub proof fn lemma_resolution_needs_administrator(
    state: State,
    auth: Set<Seq<char>>,
    market_id: u64,
    outcome: Side,
    now: u64,
)
    requires
        state.config is Some,
        !auth.contains(state.config->Some_0.admin@),
    ensures
        state.resolve_market_result(auth, market_id, now) == Err::<(), Error>(Error::Unauthorized),
        state.resolve_market(auth, market_id, outcome, now) == state,
{
}

/// A market is resolved once. After a resolution with the outcome `first`,
/// a second request fails with `MarketAlreadyResolved`, whatever outcome it
/// names and whenever it comes, and the market keeps `first`.
pub proof fn lemma_resolution_is_final(
    state: State,
    auth: Set<Seq<char>>,
    market_id: u64,
    first: Side,
    now: u64,
    again_auth: Set<Seq<char>>,
    second: Side,
    later: u64,
)
    requires
        state.resolve_market_result(auth, market_id, now) is Ok,
        again_auth.contains(state.config->Some_0.admin@),
    ensures
        ({
            let resolved = state.resolve_market(auth, market_id, first, now);
            &&& resolved.markets[market_id as int].status == MarketStatus::Resolved(first)
            &&& resolved.resolve_market_result(again_auth, market_id, later) == Err::<(), Error>(
                Error::MarketAlreadyResolved,
            )
            &&& resolved.resolve_market(again_auth, market_id, second, later) == resolved
        }),
{
}

/// The only winner takes the whole pool: a position that holds all of the
/// stake on the winning side is worth the pool.
pub proof fn lemma_sole_winner_takes_pool(market: Market, position: Position, winning: Side)
    requires
        market.wf(),
        0 < market.total(winning),
        position.shares(winning) == market.total(winning),
    ensures
        payout_amount(market, position, winning) == market.pool_balance,
{
    let total = market.total(winning);
    lemma_div_multiples_vanish(market.pool_balance as int, total);
}

/// A position without stake on the winning side is worth nothing where
/// somebody else backed that side.
pub proof fn lemma_loser_gets_nothing(market: Market, position: Position, winning: Side)
    requires
        0 < market.total(winning),
        position.shares(winning) == 0,
    ensures
        payout_amount(market, position, winning) == 0,
{
}

/// Where nobody backed the winning side, every position is refunded in
/// proportion to all that it staked: its whole stake times the pool,
/// divided by the whole stake of the market, rounded down.
pub proof fn lemma_refund_without_winners(market: Market, position: Position, winning: Side)
    requires
        market.total(winning) == 0,
        0 < market.total_yes + market.total_no,
    ensures
        payout_amount(market, position, winning) == ((position.yes_shares + position.no_shares)
            * market.pool_balance) / (market.total_yes + market.total_no),
{
}

/// Winner takes all: a user who alone backed the winning side, while all
/// others backed the losing side, claims the whole pool.
pub proof fn lemma_sole_winner_claims_pool(
    state: State,
    auth: Set<Seq<char>>,
    user: Identity,
    market_id: u64,
    winning: Side,
)
    requires
        state.wf(),
        state.config is Some,
        auth.contains(user@),
        market_id < state.markets.len(),
        state.markets[market_id as int].status == MarketStatus::Resolved(winning),
        !state.position(market_id, user@).claimed,
        0 < state.markets[market_id as int].total(winning),
        state.position(market_id, user@).shares(winning) == state.markets[market_id as int].total(
            winning,
        ),
    ensures
        state.claim_winnings_result(auth, user@, market_id) == Ok::<i128, Error>(
            state.markets[market_id as int].pool_balance,
        ),
{
    lemma_sole_winner_takes_pool(
        state.markets[market_id as int],
        state.position(market_id, user@),
        winning,
    );
}

/// No-winner refund: where all stakes are on the losing side, everybody
/// who claims is paid the whole own stake times the pool, divided by the
/// whole stake of the market, rounded down.
pub proof fn lemma_refund_is_claimed_without_winners(
    state: State,
    auth: Set<Seq<char>>,
    user: Identity,
    market_id: u64,
    winning: Side,
)
    requires
        state.wf(),
        state.config is Some,
        auth.contains(user@),
        market_id < state.markets.len(),
        state.markets[market_id as int].status == MarketStatus::Resolved(winning),
        !state.position(market_id, user@).claimed,
        state.markets[market_id as int].total(winning) == 0,
        0 < state.markets[market_id as int].pool_balance,
    ensures
        ({
            let market = state.markets[market_id as int];
            let position = state.position(market_id, user@);
            state.claim_winnings_result(auth, user@, market_id) == Ok::<i128, Error>(
                (((position.yes_shares + position.no_shares) * market.pool_balance) / (
                market.total_yes + market.total_no)) as i128,
            )
        }),
{
}

/// Winnings are claimed from resolved markets only: on an open market the
/// request fails with `MarketNotResolved`, and the state stays as it was.
pub proof fn lemma_claim_needs_outcome(
    state: State,
    auth: Set<Seq<char>>,
    user: Identity,
    market_id: u64,
)
    requires
        state.wf(),
        state.config is Some,
        auth.contains(user@),
        market_id < state.markets.len(),
        state.markets[market_id as int].status is Open,
    ensures
        state.claim_winnings_result(auth, user@, market_id) == Err::<i128, Error>(
            Error::MarketNotResolved,
        ),
        state.claim_winnings(auth, user, market_id) == state,
{
    lemma_position_covered(state, market_id, user@);
}

/// A user who never staked on a resolved market claims without error and
/// is paid nothing.
pub proof fn lemma_claim_without_position_pays_nothing(
    state: State,
    auth: Set<Seq<char>>,
    user: Identity,
    market_id: u64,
)
    requires
        state.config is Some,
        auth.contains(user@),
        market_id < state.markets.len(),
        state.markets[market_id as int].status is Resolved,
        !holds(state.records, market_id, user@),
    ensures
        state.claim_winnings_result(auth, user@, market_id) == Ok::<i128, Error>(0),
{
    let market = state.markets[market_id as int];
    let total = market.total_yes + market.total_no;
    if total != 0 {
        assert((0 * market.pool_balance) / total == 0) by (nonlinear_arith)
            requires
                total != 0,
        ;
    }
}

/// A position is paid once. After a claim was granted, every further claim
/// of the same user on the same market fails with `AlreadyClaimed`, and the
/// state stays as it was.
pub proof fn lemma_claim_is_paid_once(
    state: State,
    auth: Set<Seq<char>>,
    user: Identity,
    market_id: u64,
    again_auth: Set<Seq<char>>,
)
    requires
        state.wf(),
        state.claim_winnings_result(auth, user@, market_id) is Ok,
        again_auth.contains(user@),
    ensures
        ({
            let paid = state.claim_winnings(auth, user, market_id);
            &&& paid.position(market_id, user@).claimed
            &&& paid.claim_winnings_result(again_auth, user@, market_id) == Err::<i128, Error>(
                Error::AlreadyClaimed,
            )
            &&& paid.claim_winnings(again_auth, user, market_id) == paid
        }),
{
    lemma_claim_winnings_positions(state, auth, user, market_id, market_id, user@);
}

/// Claims of different users do not touch each other: what a user is due
/// and whether the claim is granted is the same before and after another
/// user was paid, in whichever market.
pub proof fn lemma_claims_are_independent(
    state: State,
    auth: Set<Seq<char>>,
    user: Identity,
    market_id: u64,
    other_auth: Set<Seq<char>>,
    other: Identity,
    other_market: u64,
)
    requires
        state.wf(),
        !(other@ == user@ && other_market == market_id),
    ensures
        state.claim_winnings(other_auth, other, other_market).claim_winnings_result(
            auth,
            user@,
            market_id,
        ) == state.claim_winnings_result(auth, user@, market_id),
{
    if state.claim_winnings_result(other_auth, other@, other_market) is Ok {
        lemma_claim_winnings_positions(
            state,
            other_auth,
            other,
            other_market,
            market_id,
            user@,
        );
    }
}

/// Whoever asks for a market that does not exist is told `MarketNotFound`:
/// the lookup finds nothing, and a stake, a resolution and a claim that
/// pass the checks before the lookup all fail with it.
pub proof fn lemma_unknown_market(
    state: State,
    auth: Set<Seq<char>>,
    caller: Identity,
    market_id: u64,
    amount: i128,
    now: u64,
)
    requires
        market_id >= state.markets.len(),
    ensures
        state.market(market_id) is None,
        state.config is Some && auth.contains(caller@) && amount > 0 ==> state.buy_shares_result(
            auth,
            caller@,
            market_id,
            amount,
            now,
        ) == Err::<(), Error>(Error::MarketNotFound),
        state.config is Some && auth.contains(state.config->Some_0.admin@)
            ==> state.resolve_market_result(auth, market_id, now) == Err::<(), Error>(
            Error::MarketNotFound,
        ),
        state.config is Some && auth.contains(caller@) ==> state.claim_winnings_result(
            auth,
            caller@,
            market_id,
        ) == Err::<i128, Error>(Error::MarketNotFound),
{
}

/// Each operation fails in its own few ways, and none fails with
/// `NothingToClaim`.
pub proof fn lemma_failures_of_each_operation(
    state: State,
    auth: Set<Seq<char>>,
    caller: Identity,
    market_id: u64,
    amount: i128,
    deadline: u64,
    now: u64,
)
    ensures
        match state.initialize_result() {
            Ok(_) => true,
            Err(error) => error == Error::AlreadyInitialized,
        },
        match state.create_market_result(auth, caller@, deadline, now) {
            Ok(_) => true,
            Err(error) => error == Error::NotInitialized || error == Error::Unauthorized || error
                == Error::InvalidDeadline,
        },
        match state.buy_shares_result(auth, caller@, market_id, amount, now) {
            Ok(_) => true,
            Err(error) => error == Error::NotInitialized || error == Error::Unauthorized || error
                == Error::InvalidAmount || error == Error::MarketNotFound || error
                == Error::MarketClosed,
        },
        match state.resolve_market_result(auth, market_id, now) {
            Ok(_) => true,
            Err(error) => error == Error::NotInitialized || error == Error::Unauthorized || error
                == Error::MarketNotFound || error == Error::MarketAlreadyResolved || error
                == Error::DeadlineNotReached,
        },
        match state.claim_winnings_result(auth, caller@, market_id) {
            Ok(_) => true,
            Err(error) => error == Error::NotInitialized || error == Error::Unauthorized || error
                == Error::MarketNotFound || error == Error::AlreadyClaimed || error
                == Error::MarketNotResolved,
        },
{
}

/// Nothing changes the state when it fails.
pub proof fn lemma_failure_changes_nothing(
    state: State,
    auth: Set<Seq<char>>,
    caller: Identity,
    other: Identity,
    question: String,
    market_id: u64,
    side: Side,
    amount: i128,
    deadline: u64,
    now: u64,
)
    ensures
        state.initialize_result() is Err ==> state.initialize(caller, other) == state,
        state.create_market_result(auth, caller@, deadline, now) is Err ==> state.create_market(
            auth,
            caller,
            question,
            deadline,
            now,
        ) == state,
        state.buy_shares_result(auth, caller@, market_id, amount, now) is Err ==> state.buy_shares(
            auth,
            caller,
            market_id,
            side,
            amount,
            now,
        ) == state,
        state.resolve_market_result(auth, market_id, now) is Err ==> state.resolve_market(
            auth,
            market_id,
            side,
            now,
        ) == state,
        state.claim_winnings_result(auth, caller@, market_id) is Err ==> state.claim_winnings(
            auth,
            caller,
            market_id,
        ) == state,
{
}

} // verus!
