//! The rules of a market's life, on single records.
//!
//! Each operation is decided here from the records that it touches: the
//! configuration, the market and the caller's position. A decision is
//! either the first rule that the request breaks, or the records as they
//! are to be stored together with what the host has to do. Nothing is
//! stored here; the caller that holds the records does that.

use vstd::prelude::*;
use crate::auth::AuthContext;
use crate::effects::Effect;
use crate::errors::Error;
use crate::payout::{compute_payout, payout_amount};
use crate::types::{Config, Identity, Market, MarketStatus, Position, Side};

verus! {

/// The rule that a request to create a market breaks, if it breaks one.
pub open spec fn create_error(
    config: Option<Config>,
    auth: Set<Seq<char>>,
    creator: Seq<char>,
    deadline: u64,
    now: u64,
) -> Option<Error> {
    if config is None {
        Some(Error::NotInitialized)
    } else if !auth.contains(creator) {
        Some(Error::Unauthorized)
    } else if deadline <= now {
        Some(Error::InvalidDeadline)
    } else {
        None
    }
}

/// The rule that a request to stake `amount` breaks, if it breaks one.
/// `market` is the market that the request names, if it exists.
pub open spec fn buy_error(
    config: Option<Config>,
    auth: Set<Seq<char>>,
    buyer: Seq<char>,
    market: Option<Market>,
    amount: i128,
    now: u64,
) -> Option<Error> {
    if config is None {
        Some(Error::NotInitialized)
    } else if !auth.contains(buyer) {
        Some(Error::Unauthorized)
    } else if amount <= 0 {
        Some(Error::InvalidAmount)
    } else if market is None {
        Some(Error::MarketNotFound)
    } else if !market->Some_0.accepts_stakes(now) {
        Some(Error::MarketClosed)
    } else {
        None
    }
}

/// The rule that a request to resolve a market breaks, if it breaks one.
/// `market` is the market that the request names, if it exists.
pub open spec fn resolve_error(
    config: Option<Config>,
    auth: Set<Seq<char>>,
    market: Option<Market>,
    now: u64,
) -> Option<Error> {
    if config is None {
        Some(Error::NotInitialized)
    } else if !auth.contains(config->Some_0.admin@) {
        Some(Error::Unauthorized)
    } else if market is None {
        Some(Error::MarketNotFound)
    } else if market->Some_0.status != MarketStatus::Open {
        Some(Error::MarketAlreadyResolved)
    } else if now < market->Some_0.deadline {
        Some(Error::DeadlineNotReached)
    } else {
        None
    }
}

/// The rule that a request to claim winnings breaks, if it breaks one.
/// `market` is the market that the request names, if it exists, and
/// `position` the claimant's position in it.
pub open spec fn claim_error(
    config: Option<Config>,
    auth: Set<Seq<char>>,
    user: Seq<char>,
    market: Option<Market>,
    position: Position,
) -> Option<Error> {
    if config is None {
        Some(Error::NotInitialized)
    } else if !auth.contains(user) {
        Some(Error::Unauthorized)
    } else if market is None {
        Some(Error::MarketNotFound)
    } else if position.claimed {
        Some(Error::AlreadyClaimed)
    } else if market->Some_0.status is Open {
        Some(Error::MarketNotResolved)
    } else {
        None
    }
}

/// Whether `market` and `position` can take `amount` more on `side`
/// without any of their sums leaving the range of the currency.
pub open spec fn has_room(market: Market, position: Position, side: Side, amount: i128) -> bool {
    &&& market.total(side) + amount <= i128::MAX
    &&& market.pool_balance + amount <= i128::MAX
    &&& position.shares(side) + amount <= i128::MAX
}

/// A market that was created, and the event that tells of it.
pub struct Creation {
    pub market: Market,
    pub event: Effect,
}

/// A stake that was taken: the market and the position after it, the
/// transfer that pays for it and the event that tells of it.
pub struct Purchase {
    pub market: Market,
    pub position: Position,
    pub transfer: Effect,
    pub event: Effect,
}

/// A market that got its outcome, and the event that tells of it.
pub struct Resolution {
    pub market: Market,
    pub event: Effect,
}

/// A claim that was granted: the position after it, the amount due, the
/// transfer that pays it where it is more than nothing, and the event that
/// tells of it.
pub struct Claim {
    pub position: Position,
    pub payout: i128,
    pub transfer: Option<Effect>,
    pub event: Effect,
}

/// What creating the market `market_id` comes to.
pub open spec fn created(market_id: u64, creator: Identity, question: String, deadline: u64)
    -> Creation {
    Creation {
        market: Market::opened(creator, question, deadline),
        event: Effect::Created { market_id, creator },
    }
}

/// What `buyer`'s stake of `amount` on `side` of `market` comes to, for a
/// buyer who holds `position` so far.
pub open spec fn purchased(
    token: Identity,
    buyer: Identity,
    market_id: u64,
    market: Market,
    position: Position,
    side: Side,
    amount: i128,
) -> Purchase {
    Purchase {
        market: market.with_stake(side, amount),
        position: position.with_stake(side, amount),
        transfer: Effect::Deposit { token, from: buyer, amount },
        event: Effect::Bought { market_id, buyer, side, amount },
    }
}

/// What giving `market` the outcome `outcome` comes to.
pub open spec fn resolved(market_id: u64, market: Market, outcome: Side) -> Resolution {
    Resolution {
        market: market.resolved_as(outcome),
        event: Effect::Resolved { market_id, outcome },
    }
}

/// What a granted claim of `user` on `market`, which is resolved, comes to:
/// the position is marked as paid, and the amount due is transferred
/// unless it is nothing.
pub open spec fn granted(
    token: Identity,
    user: Identity,
    market_id: u64,
    market: Market,
    position: Position,
) -> Claim {
    let payout = payout_amount(market, position, market.status->Resolved_0) as i128;
    Claim {
        position: position.paid(),
        payout,
        transfer: if payout > 0 {
            Some(Effect::Payout { token, to: user, amount: payout })
        } else {
            None
        },
        event: Effect::Claimed { market_id, user, payout },
    }
}

/// Whether `market` and `position` can take `amount` more on `side`
/// without any of their sums leaving the range of the currency.
pub fn check_room(market: &Market, position: &Position, side: Side, amount: i128) -> (room: bool)
    ensures
        room == has_room(*market, *position, side, amount),
{
    if amount <= 0 {
        return true;
    }
    let limit: i128 = i128::MAX - amount;
    let total: i128 = match side {
        Side::Yes => market.total_yes,
        Side::No => market.total_no,
    };
    let shares: i128 = match side {
        Side::Yes => position.yes_shares,
        Side::No => position.no_shares,
    };
    total <= limit && market.pool_balance <= limit && shares <= limit
}

/// Says whether a request to create a market breaks a rule, and which.
pub fn check_create(
    config: &Option<Config>,
    auth: &AuthContext,
    creator: &Identity,
    deadline: u64,
    now: u64,
) -> (result: Result<(), Error>)
    ensures
        result == match create_error(*config, auth@, creator@, deadline, now) {
            Some(error) => Err::<(), Error>(error),
            None => Ok::<(), Error>(()),
        },
{
    if config.is_none() {
        return Err(Error::NotInitialized);
    }
    if auth.assert_identity(creator).is_err() {
        return Err(Error::Unauthorized);
    }
    if deadline <= now {
        return Err(Error::InvalidDeadline);
    }
    Ok(())
}

/// Says whether a request to stake `amount` breaks a rule, and which.
/// `market` is the market that the request names, if it exists.
pub fn check_buy(
    config: &Option<Config>,
    auth: &AuthContext,
    buyer: &Identity,
    market: &Option<Market>,
    amount: i128,
    now: u64,
) -> (result: Result<(), Error>)
    ensures
        result == match buy_error(*config, auth@, buyer@, *market, amount, now) {
            Some(error) => Err::<(), Error>(error),
            None => Ok::<(), Error>(()),
        },
{
    if config.is_none() {
        return Err(Error::NotInitialized);
    }
    if auth.assert_identity(buyer).is_err() {
        return Err(Error::Unauthorized);
    }
    if amount <= 0 {
        return Err(Error::InvalidAmount);
    }
    match market {
        None => Err(Error::MarketNotFound),
        Some(market) => {
            if market.status != MarketStatus::Open {
                return Err(Error::MarketClosed);
            }
            if now >= market.deadline {
                return Err(Error::MarketClosed);
            }
            Ok(())
        },
    }
}

/// Says whether a request to resolve a market breaks a rule, and which.
/// `market` is the market that the request names, if it exists.
pub fn check_resolve(
    config: &Option<Config>,
    auth: &AuthContext,
    market: &Option<Market>,
    now: u64,
) -> (result: Result<(), Error>)
    ensures
        result == match resolve_error(*config, auth@, *market, now) {
            Some(error) => Err::<(), Error>(error),
            None => Ok::<(), Error>(()),
        },
{
    match config {
        None => {
            return Err(Error::NotInitialized);
        },
        Some(config) => {
            if auth.assert_identity(&config.admin).is_err() {
                return Err(Error::Unauthorized);
            }
        },
    }
    match market {
        None => Err(Error::MarketNotFound),
        Some(market) => {
            if market.status != MarketStatus::Open {
                return Err(Error::MarketAlreadyResolved);
            }
            if now < market.deadline {
                return Err(Error::DeadlineNotReached);
            }
            Ok(())
        },
    }
}

/// Says whether a request to claim winnings breaks a rule, and which.
/// `market` is the market that the request names, if it exists, and
/// `position` the claimant's position in it.
pub fn check_claim(
    config: &Option<Config>,
    auth: &AuthContext,
    user: &Identity,
    market: &Option<Market>,
    position: &Position,
) -> (result: Result<(), Error>)
    ensures
        result == match claim_error(*config, auth@, user@, *market, *position) {
            Some(error) => Err::<(), Error>(error),
            None => Ok::<(), Error>(()),
        },
{
    if config.is_none() {
        return Err(Error::NotInitialized);
    }
    if auth.assert_identity(user).is_err() {
        return Err(Error::Unauthorized);
    }
    match market {
        None => Err(Error::MarketNotFound),
        Some(market) => {
            if position.claimed {
                return Err(Error::AlreadyClaimed);
            }
            match market.status {
                MarketStatus::Open => Err(Error::MarketNotResolved),
                MarketStatus::Resolved(_) => Ok(()),
            }
        },
    }
}

/// Decides a request of `creator` to create the market that will be `market_id`.
pub fn create(
    config: &Option<Config>,
    auth: &AuthContext,
    market_id: u64,
    creator: Identity,
    question: String,
    deadline: u64,
    now: u64,
) -> (result: Result<Creation, Error>)
    ensures
        result == match create_error(*config, auth@, creator@, deadline, now) {
            Some(error) => Err::<Creation, Error>(error),
            None => Ok::<Creation, Error>(created(market_id, creator, question, deadline)),
        },
{
    match check_create(config, auth, &creator, deadline, now) {
        Err(error) => Err(error),
        Ok(()) => {
            let event = Effect::Created { market_id, creator: creator.clone() };
            let market = Market {
                creator,
                question,
                deadline,
                status: MarketStatus::Open,
                total_yes: 0,
                total_no: 0,
                pool_balance: 0,
            };
            Ok(Creation { market, event })
        },
    }
}

/// Decides a request of `buyer` to stake `amount` on `side` of the market
/// `market_id`. `market` is that market, if it exists, and `position` the
/// buyer's position in it so far.
pub fn buy(
    config: &Option<Config>,
    auth: &AuthContext,
    buyer: &Identity,
    market_id: u64,
    market: Option<Market>,
    position: Position,
    side: Side,
    amount: i128,
    now: u64,
) -> (result: Result<Purchase, Error>)
    requires
        buy_error(*config, auth@, buyer@, market, amount, now) is None ==> has_room(
            market->Some_0,
            position,
            side,
            amount,
        ),
    ensures
        result == match buy_error(*config, auth@, buyer@, market, amount, now) {
            Some(error) => Err::<Purchase, Error>(error),
            None => Ok::<Purchase, Error>(
                purchased(
                    config->Some_0.token,
                    *buyer,
                    market_id,
                    market->Some_0,
                    position,
                    side,
                    amount,
                ),
            ),
        },
{
    match check_buy(config, auth, buyer, &market, amount, now) {
        Err(error) => {
            return Err(error);
        },
        Ok(()) => {},
    }
    let token = match config {
        Some(config) => config.token.clone(),
        None => {
            return Err(Error::NotInitialized);
        },
    };
    let mut market = match market {
        Some(market) => market,
        None => {
            return Err(Error::MarketNotFound);
        },
    };
    let mut position = position;
    match side {
        Side::Yes => {
            market.total_yes = market.total_yes + amount;
            position.yes_shares = position.yes_shares + amount;
        },
        Side::No => {
            market.total_no = market.total_no + amount;
            position.no_shares = position.no_shares + amount;
        },
    }
    market.pool_balance = market.pool_balance + amount;
    let transfer = Effect::Deposit { token, from: buyer.clone(), amount };
    let event = Effect::Bought { market_id, buyer: buyer.clone(), side, amount };
    Ok(Purchase { market, position, transfer, event })
}

/// Decides a request to give the market `market_id` the outcome `outcome`.
/// `market` is that market, if it exists.
pub fn resolve(
    config: &Option<Config>,
    auth: &AuthContext,
    market_id: u64,
    market: Option<Market>,
    outcome: Side,
    now: u64,
) -> (result: Result<Resolution, Error>)
    ensures
        result == match resolve_error(*config, auth@, market, now) {
            Some(error) => Err::<Resolution, Error>(error),
            None => Ok::<Resolution, Error>(resolved(market_id, market->Some_0, outcome)),
        },
{
    match check_resolve(config, auth, &market, now) {
        Err(error) => {
            return Err(error);
        },
        Ok(()) => {},
    }
    let mut market = match market {
        Some(market) => market,
        None => {
            return Err(Error::MarketNotFound);
        },
    };
    market.status = MarketStatus::Resolved(outcome);
    Ok(Resolution { market, event: Effect::Resolved { market_id, outcome } })
}

/// Decides a request of `user` to be paid for the position in the market
/// `market_id`. `market` is that market, if it exists, and `position` the
/// user's position in it.
pub fn claim(
    config: &Option<Config>,
    auth: &AuthContext,
    user: &Identity,
    market_id: u64,
    market: &Option<Market>,
    position: Position,
) -> (result: Result<Claim, Error>)
    requires
        claim_error(*config, auth@, user@, *market, position) is None ==> {
            &&& market->Some_0.wf()
            &&& position.wf()
            &&& payout_amount(market->Some_0, position, market->Some_0.status->Resolved_0)
                <= i128::MAX
        },
    ensures
        result == match claim_error(*config, auth@, user@, *market, position) {
            Some(error) => Err::<Claim, Error>(error),
            None => Ok::<Claim, Error>(
                granted(config->Some_0.token, *user, market_id, market->Some_0, position),
            ),
        },
{
    match check_claim(config, auth, user, market, &position) {
        Err(error) => {
            return Err(error);
        },
        Ok(()) => {},
    }
    let token = match config {
        Some(config) => config.token.clone(),
        None => {
            return Err(Error::NotInitialized);
        },
    };
    let market = match market {
        Some(market) => market,
        None => {
            return Err(Error::MarketNotFound);
        },
    };
    let winning = match market.status {
        MarketStatus::Resolved(side) => side,
        MarketStatus::Open => {
            return Err(Error::MarketNotResolved);
        },
    };
    let payout = compute_payout(market, &position, winning);
    let mut position = position;
    position.claimed = true;
    let transfer = if payout > 0 {
        Some(Effect::Payout { token, to: user.clone(), amount: payout })
    } else {
        None
    };
    let event = Effect::Claimed { market_id, user: user.clone(), payout };
    Ok(Claim { position, payout, transfer, event })
}

} // verus!
