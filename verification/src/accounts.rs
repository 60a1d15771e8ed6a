//! What a market owes and what it has paid.
//!
//! The sums here run over all positions in one market. They show that a
//! market never owes, and so never pays, more than its pool.

use vstd::arithmetic::div_mod::{lemma_div_multiples_vanish, lemma_fundamental_div_mod};
use vstd::prelude::*;
use crate::model::State;
use crate::payout::{lemma_payout_bounds, lemma_quotient_is_largest, payout_amount};
use crate::registry::{
    distinct, holds, index_of, position_of, staked, stored, PositionRecord,
};
use crate::types::{Identity, Market, MarketStatus, Position, Side};

verus! {

/// The sum, over all positions in the market `market_id`, of what is due
/// to them when `winning` is the outcome.
pub open spec fn payouts(
    records: Seq<PositionRecord>,
    market_id: u64,
    market: Market,
    winning: Side,
) -> int
    decreases records.len(),
{
    if records.len() == 0 {
        0
    } else {
        payouts(records.drop_last(), market_id, market, winning) + (if records.last().market_id
            == market_id {
            payout_amount(market, records.last().position, winning)
        } else {
            0
        })
    }
}

/// Two quotients, each rounded down, are together no more than the
/// quotient of the sum.
pub proof fn lemma_quotients_add_up(a: int, b: int, divisor: int)
    requires
        0 < divisor,
    ensures
        a / divisor + b / divisor <= (a + b) / divisor,
{
    lemma_fundamental_div_mod(a, divisor);
    lemma_fundamental_div_mod(b, divisor);
    assert((a / divisor + b / divisor) * divisor <= a + b) by (nonlinear_arith)
        requires
            a == divisor * (a / divisor) + a % divisor,
            b == divisor * (b / divisor) + b % divisor,
            0 <= a % divisor,
            0 <= b % divisor,
    ;
    lemma_quotient_is_largest(a / divisor + b / divisor, divisor, a + b);
}

/// What is due to a group of positions is no more than the share of the
/// pool that their stakes taken together would earn.
proof fn lemma_payouts_below_joint_share(
    records: Seq<PositionRecord>,
    market_id: u64,
    market: Market,
    winning: Side,
)
    requires
        market.wf(),
        forall|i: int| 0 <= i < records.len() ==> (#[trigger] records[i]).position.wf(),
    ensures
        0 < market.total(winning) ==> payouts(records, market_id, market, winning) <= (staked(
            records,
            market_id,
            winning,
        ) * market.pool_balance) / market.total(winning),
        market.total(winning) == 0 && 0 < market.pool_balance ==> payouts(
            records,
            market_id,
            market,
            winning,
        ) <= ((staked(records, market_id, Side::Yes) + staked(records, market_id, Side::No))
            * market.pool_balance) / (market.pool_balance as int),
        market.total(winning) == 0 && market.pool_balance == 0 ==> payouts(
            records,
            market_id,
            market,
            winning,
        ) == 0,
    decreases records.len(),
{
    let pool = market.pool_balance as int;
    if records.len() == 0 {
        assert(0 * pool == 0) by (nonlinear_arith);
    } else {
        let front = records.drop_last();
        let last = records.last();
        lemma_payouts_below_joint_share(front, market_id, market, winning);
        if last.market_id == market_id {
            if 0 < market.total(winning) {
                let before = staked(front, market_id, winning);
                let own = last.position.shares(winning);
                assert((before + own) * pool == before * pool + own * pool) by (nonlinear_arith);
                lemma_quotients_add_up(before * pool, own * pool, market.total(winning));
                if own == 0 {
                    assert((own * pool) / market.total(winning) == 0) by (nonlinear_arith)
                        requires
                            own == 0,
                            0 < market.total(winning),
                    ;
                }
            } else if 0 < pool {
                let before = staked(front, market_id, Side::Yes) + staked(
                    front,
                    market_id,
                    Side::No,
                );
                let own = last.position.yes_shares + last.position.no_shares;
                assert((before + own) * pool == before * pool + own * pool) by (nonlinear_arith);
                lemma_quotients_add_up(before * pool, own * pool, pool);
            }
        }
    }
}

/// All that can ever be paid out of a market is no more than its pool:
/// whichever side wins, the sum of what is due to the positions in the
/// market is at most the pool. What rounding leaves over stays there.
pub proof fn lemma_payouts_within_pool(state: State, market_id: u64, winning: Side)
    requires
        state.wf(),
        market_id < state.markets.len(),
    ensures
        payouts(state.records, market_id, state.markets[market_id as int], winning)
            <= state.markets[market_id as int].pool_balance,
{
    let market = state.markets[market_id as int];
    let pool = market.pool_balance as int;
    lemma_payouts_below_joint_share(state.records, market_id, market, winning);
    if 0 < market.total(winning) {
        lemma_div_multiples_vanish(pool, market.total(winning));
    } else if 0 < pool {
        lemma_div_multiples_vanish(pool, pool);
    }
}

/// What `record` adds to the sum of what the market `market_id` has paid.
pub open spec fn paid_in(record: PositionRecord, market_id: u64, market: Market, winning: Side)
    -> int {
    if record.market_id == market_id && record.position.claimed {
        payout_amount(market, record.position, winning)
    } else {
        0
    }
}

/// The sum of what has been paid to the positions in the market
/// `market_id`, whose outcome is `winning`: what is due to those that are
/// marked as paid.
pub open spec fn paid_out(
    records: Seq<PositionRecord>,
    market_id: u64,
    market: Market,
    winning: Side,
) -> int
    decreases records.len(),
{
    if records.len() == 0 {
        0
    } else {
        paid_out(records.drop_last(), market_id, market, winning) + paid_in(
            records.last(),
            market_id,
            market,
            winning,
        )
    }
}

/// What has been paid is part of what is due.
proof fn lemma_paid_out_within_payouts(
    records: Seq<PositionRecord>,
    market_id: u64,
    market: Market,
    winning: Side,
)
    requires
        market.wf(),
        forall|i: int| 0 <= i < records.len() ==> (#[trigger] records[i]).position.wf(),
    ensures
        0 <= paid_out(records, market_id, market, winning) <= payouts(
            records,
            market_id,
            market,
            winning,
        ),
    decreases records.len(),
{
    if records.len() > 0 {
        let front = records.drop_last();
        lemma_paid_out_within_payouts(front, market_id, market, winning);
        lemma_payout_bounds(market, records.last().position, winning);
    }
}

/// No market pays out more than it has taken in: the sum of what has been
/// paid to the positions of a resolved market is at most its pool, however
/// many of them have claimed.
pub proof fn lemma_paid_out_within_pool(state: State, market_id: u64, winning: Side)
    requires
        state.wf(),
        market_id < state.markets.len(),
        state.markets[market_id as int].status == MarketStatus::Resolved(winning),
    ensures
        0 <= paid_out(state.records, market_id, state.markets[market_id as int], winning)
            <= state.markets[market_id as int].pool_balance,
{
    lemma_paid_out_within_payouts(
        state.records,
        market_id,
        state.markets[market_id as int],
        winning,
    );
    lemma_payouts_within_pool(state, market_id, winning);
}

/// A record that comes last adds what it was paid to the sum.
proof fn lemma_paid_out_push(
    records: Seq<PositionRecord>,
    record: PositionRecord,
    market_id: u64,
    market: Market,
    winning: Side,
)
    ensures
        paid_out(records.push(record), market_id, market, winning) == paid_out(
            records,
            market_id,
            market,
            winning,
        ) + paid_in(record, market_id, market, winning),
{
    assert(records.push(record).drop_last() =~= records);
}

/// Replacing a record changes the sum by the difference of what the two were paid.
proof fn lemma_paid_out_update(
    records: Seq<PositionRecord>,
    i: int,
    record: PositionRecord,
    market_id: u64,
    market: Market,
    winning: Side,
)
    requires
        0 <= i < records.len(),
    ensures
        paid_out(records.update(i, record), market_id, market, winning) == paid_out(
            records,
            market_id,
            market,
            winning,
        ) - paid_in(records[i], market_id, market, winning) + paid_in(
            record,
            market_id,
            market,
            winning,
        ),
    decreases records.len(),
{
    let after = records.update(i, record);
    if i == records.len() - 1 {
        assert(after.drop_last() =~= records.drop_last());
    } else {
        lemma_paid_out_update(records.drop_last(), i, record, market_id, market, winning);
        assert(after.drop_last() =~= records.drop_last().update(i, record));
    }
}

/// Storing a position changes what its own market has paid by the
/// difference between what the position was paid before and after, and
/// changes it for no other market.
pub proof fn lemma_paid_out_stored(
    records: Seq<PositionRecord>,
    market_id: u64,
    user: Identity,
    position: Position,
    other_market: u64,
    market: Market,
    winning: Side,
)
    requires
        distinct(records),
    ensures
        paid_out(stored(records, market_id, user, position), other_market, market, winning)
            == paid_out(records, other_market, market, winning) + (if other_market == market_id {
            let before = position_of(records, market_id, user@);
            (if position.claimed {
                payout_amount(market, position, winning)
            } else {
                0
            }) - (if before.claimed {
                payout_amount(market, before, winning)
            } else {
                0
            })
        } else {
            0
        }),
{
    if holds(records, market_id, user@) {
        let i = index_of(records, market_id, user@);
        let record = PositionRecord { position, ..records[i] };
        lemma_paid_out_update(records, i, record, other_market, market, winning);
    } else {
        let record = PositionRecord { market_id, user, position };
        lemma_paid_out_push(records, record, other_market, market, winning);
    }
}

/// A market in which no position is marked as paid has paid nothing.
pub proof fn lemma_paid_out_nothing(
    records: Seq<PositionRecord>,
    market_id: u64,
    market: Market,
    winning: Side,
)
    requires
        forall|i: int|
            0 <= i < records.len() ==> !((#[trigger] records[i]).market_id == market_id
                && records[i].position.claimed),
    ensures
        paid_out(records, market_id, market, winning) == 0,
    decreases records.len(),
{
    if records.len() > 0 {
        lemma_paid_out_nothing(records.drop_last(), market_id, market, winning);
    }
}

impl State {
    /// All that the market `market_id` has paid so far: nothing while it
    /// is open, and what is due to the positions that are marked as paid
    /// once it is resolved.
    pub open spec fn paid(self, market_id: u64) -> int {
        match self.market(market_id) {
            Some(market) => match market.status {
                MarketStatus::Resolved(winning) => paid_out(
                    self.records,
                    market_id,
                    market,
                    winning,
                ),
                MarketStatus::Open => 0,
            },
            None => 0,
        }
    }
}

/// No market has paid more than its pool holds.
pub proof fn lemma_paid_within_pool(state: State, market_id: u64)
    requires
        state.wf(),
    ensures
        0 <= state.paid(market_id) <= state.pool(market_id),
{
    match state.market(market_id) {
        Some(market) => {
            assert(market.wf());
            match market.status {
                MarketStatus::Resolved(winning) => {
                    lemma_paid_out_within_pool(state, market_id, winning);
                },
                MarketStatus::Open => {},
            }
        },
        None => {},
    }
}

} // verus!
