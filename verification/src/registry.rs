//! The store of markets and positions.
//!
//! Markets are numbered from zero in the order of their creation, so the
//! store keeps them as a sequence and a market's identifier is its place in
//! it. Positions come into being with a user's first stake on a market;
//! the store keeps one record for each pair of market and user.

use vstd::prelude::*;
use crate::errors::Error;
use crate::types::{Identity, Market, Position, Side};

verus! {

/// The position of one user in one market, as the store holds it.
#[derive(Debug)]
pub struct PositionRecord {
    pub market_id: u64,
    pub user: Identity,
    pub position: Position,
}

impl Clone for PositionRecord {
    fn clone(&self) -> (res: Self)
        ensures
            res == *self,
    {
        PositionRecord {
            market_id: self.market_id,
            user: self.user.clone(),
            position: self.position,
        }
    }
}

/// Whether `record` is the position of `user` in the market `market_id`.
pub open spec fn is_for(record: PositionRecord, market_id: u64, user: Seq<char>) -> bool {
    record.market_id == market_id && record.user@ == user
}

/// Whether `records` has a position of `user` in the market `market_id`.
pub open spec fn holds(records: Seq<PositionRecord>, market_id: u64, user: Seq<char>) -> bool {
    exists|i: int| 0 <= i < records.len() && is_for(#[trigger] records[i], market_id, user)
}

/// The place in `records` of the position of `user` in the market `market_id`.
pub open spec fn index_of(records: Seq<PositionRecord>, market_id: u64, user: Seq<char>) -> int {
    choose|i: int| 0 <= i < records.len() && is_for(#[trigger] records[i], market_id, user)
}

/// The position of `user` in the market `market_id`: the one in `records`,
/// or the empty position where there is none.
pub open spec fn position_of(records: Seq<PositionRecord>, market_id: u64, user: Seq<char>)
    -> Position {
    if holds(records, market_id, user) {
        records[index_of(records, market_id, user)].position
    } else {
        Position::empty()
    }
}

/// No two records are for the same user in the same market.
pub open spec fn distinct(records: Seq<PositionRecord>) -> bool {
    forall|i: int, j: int|
        0 <= i < j < records.len() ==> !is_for(
            #[trigger] records[i],
            (#[trigger] records[j]).market_id,
            records[j].user@,
        )
}

/// `records` after `position` was stored for `user` in the market
/// `market_id`: it takes the place of the user's earlier position there, or
/// comes last.
pub open spec fn stored(
    records: Seq<PositionRecord>,
    market_id: u64,
    user: Identity,
    position: Position,
) -> Seq<PositionRecord> {
    if holds(records, market_id, user@) {
        let i = index_of(records, market_id, user@);
        records.update(i, PositionRecord { position, ..records[i] })
    } else {
        records.push(PositionRecord { market_id, user, position })
    }
}

/// What `record` adds to the stake on `side` of the market `market_id`.
pub open spec fn stake_in(record: PositionRecord, market_id: u64, side: Side) -> int {
    if record.market_id == market_id {
        record.position.shares(side)
    } else {
        0
    }
}

/// The sum, over all positions in the market `market_id`, of the stake on `side`.
pub open spec fn staked(records: Seq<PositionRecord>, market_id: u64, side: Side) -> int
    decreases records.len(),
{
    if records.len() == 0 {
        0
    } else {
        staked(records.drop_last(), market_id, side) + stake_in(records.last(), market_id, side)
    }
}

/// Among distinct records, the one found for a user and a market is the only one.
pub proof fn lemma_found(records: Seq<PositionRecord>, i: int, market_id: u64, user: Seq<char>)
    requires
        distinct(records),
        0 <= i < records.len(),
        is_for(records[i], market_id, user),
    ensures
        holds(records, market_id, user),
        index_of(records, market_id, user) == i,
        position_of(records, market_id, user) == records[i].position,
{
}

/// Storing a position keeps the records distinct.
pub proof fn lemma_stored_distinct(
    records: Seq<PositionRecord>,
    market_id: u64,
    user: Identity,
    position: Position,
)
    requires
        distinct(records),
    ensures
        distinct(stored(records, market_id, user, position)),
{
}

/// After a position was stored, that user has it in that market, and every
/// other position is as it was.
pub proof fn lemma_stored_position(
    records: Seq<PositionRecord>,
    market_id: u64,
    user: Identity,
    position: Position,
    other_market: u64,
    other_user: Seq<char>,
)
    requires
        distinct(records),
    ensures
        position_of(stored(records, market_id, user, position), other_market, other_user) == (if
            other_market == market_id && other_user == user@ {
            position
        } else {
            position_of(records, other_market, other_user)
        }),
{
    let after = stored(records, market_id, user, position);
    lemma_stored_distinct(records, market_id, user, position);
    let k: int = if holds(records, market_id, user@) {
        index_of(records, market_id, user@)
    } else {
        records.len() as int
    };
    if other_market == market_id && other_user == user@ {
        lemma_found(after, k, market_id, user@);
    } else if holds(records, other_market, other_user) {
        lemma_found(after, index_of(records, other_market, other_user), other_market, other_user);
    }
}

/// A record that comes last adds its stake to the sum.
pub proof fn lemma_staked_push(
    records: Seq<PositionRecord>,
    record: PositionRecord,
    market_id: u64,
    side: Side,
)
    ensures
        staked(records.push(record), market_id, side) == staked(records, market_id, side)
            + stake_in(record, market_id, side),
{
    assert(records.push(record).drop_last() =~= records);
}

/// Replacing a record changes the sum by the difference of the two stakes.
pub proof fn lemma_staked_update(
    records: Seq<PositionRecord>,
    i: int,
    record: PositionRecord,
    market_id: u64,
    side: Side,
)
    requires
        0 <= i < records.len(),
    ensures
        staked(records.update(i, record), market_id, side) == staked(records, market_id, side)
            - stake_in(records[i], market_id, side) + stake_in(record, market_id, side),
    decreases records.len(),
{
    let after = records.update(i, record);
    if i == records.len() - 1 {
        assert(after.drop_last() =~= records.drop_last());
    } else {
        lemma_staked_update(records.drop_last(), i, record, market_id, side);
        assert(after.drop_last() =~= records.drop_last().update(i, record));
    }
}

/// Where no stake is negative, no sum is, and no position holds more than
/// the sum for its market.
pub proof fn lemma_staked_bounds(records: Seq<PositionRecord>, market_id: u64, side: Side)
    requires
        forall|i: int| 0 <= i < records.len() ==> (#[trigger] records[i]).position.wf(),
    ensures
        0 <= staked(records, market_id, side),
        forall|i: int|
            0 <= i < records.len() ==> stake_in(#[trigger] records[i], market_id, side) <= staked(
                records,
                market_id,
                side,
            ),
    decreases records.len(),
{
    if records.len() > 0 {
        let front = records.drop_last();
        lemma_staked_bounds(front, market_id, side);
        assert forall|i: int| 0 <= i < records.len() implies stake_in(
            #[trigger] records[i],
            market_id,
            side,
        ) <= staked(records, market_id, side) by {
            if i < front.len() {
                assert(front[i] == records[i]);
            }
        }
    }
}

/// The store: the markets in the order of their creation, and the positions.
pub struct Registry {
    markets: Vec<Market>,
    positions: Vec<PositionRecord>,
}

impl Registry {
    /// The markets; a market's identifier is its index.
    pub closed spec fn markets(&self) -> Seq<Market> {
        self.markets@
    }

    /// The positions, each user's in each market once.
    pub closed spec fn records(&self) -> Seq<PositionRecord> {
        self.positions@
    }

    /// Every identifier fits its type, and no position is kept twice.
    pub open spec fn wf(&self) -> bool {
        &&& self.markets().len() <= u64::MAX
        &&& distinct(self.records())
    }

    /// A store without markets or positions.
    pub fn new() -> (registry: Registry)
        ensures
            registry.wf(),
            registry.markets() == Seq::<Market>::empty(),
            registry.records() == Seq::<PositionRecord>::empty(),
    {
        Registry { markets: Vec::new(), positions: Vec::new() }
    }

    /// The identifier that the next market will get: the number of markets so far.
    pub fn next_id(&self) -> (id: u64)
        requires
            self.wf(),
        ensures
            id == self.markets().len(),
    {
        self.markets.len() as u64
    }

    /// The market `market_id`.
    pub fn get(&self, market_id: u64) -> (result: Result<Market, Error>)
        requires
            self.wf(),
        ensures
            market_id < self.markets().len() ==> result == Ok::<Market, Error>(
                self.markets()[market_id as int],
            ),
            market_id >= self.markets().len() ==> result == Err::<Market, Error>(
                Error::MarketNotFound,
            ),
    {
        if market_id < self.markets.len() as u64 {
            Ok(self.markets[market_id as usize].clone())
        } else {
            Err(Error::MarketNotFound)
        }
    }

    /// Stores a new market and returns the identifier that it got.
    pub fn allocate(&mut self, market: Market) -> (market_id: u64)
        requires
            old(self).wf(),
            old(self).markets().len() < u64::MAX,
        ensures
            final(self).wf(),
            market_id == old(self).markets().len(),
            final(self).markets() == old(self).markets().push(market),
            final(self).records() == old(self).records(),
    {
        let market_id = self.markets.len() as u64;
        self.markets.push(market);
        market_id
    }

    /// Stores `market` in place of the market `market_id`.
    pub fn put(&mut self, market_id: u64, market: Market)
        requires
            old(self).wf(),
            market_id < old(self).markets().len(),
        ensures
            final(self).wf(),
            final(self).markets() == old(self).markets().update(market_id as int, market),
            final(self).records() == old(self).records(),
    {
        assert(market_id < self.markets.len());
        let i: usize = market_id as usize;
        self.markets[i] = market;
    }

    /// Where the position of `user` in the market `market_id` is kept, if it is.
    fn find(&self, market_id: u64, user: &Identity) -> (found: Option<usize>)
        requires
            self.wf(),
        ensures
            found is Some <==> holds(self.records(), market_id, user@),
            found is Some ==> found->Some_0 == index_of(self.records(), market_id, user@),
    {
        let mut i: usize = 0;
        while i < self.positions.len()
            invariant
                self.wf(),
                i <= self.positions@.len(),
                forall|j: int|
                    0 <= j < i ==> !is_for(#[trigger] self.positions@[j], market_id, user@),
            decreases self.positions@.len() - i,
        {
            if self.positions[i].market_id == market_id && self.positions[i].user.same_as(user) {
                proof {
                    lemma_found(self.positions@, i as int, market_id, user@);
                }
                return Some(i);
            }
            i = i + 1;
        }
        None
    }

    /// The position of `user` in the market `market_id`; the empty position
    /// where the user has none. Reading stores nothing.
    pub fn get_position(&self, market_id: u64, user: &Identity) -> (position: Position)
        requires
            self.wf(),
        ensures
            position == position_of(self.records(), market_id, user@),
    {
        match self.find(market_id, user) {
            Some(i) => self.positions[i].position,
            None => Position::empty(),
        }
    }

    /// Stores `position` as the position of `user` in the market `market_id`.
    pub fn put_position(&mut self, market_id: u64, user: Identity, position: Position)
        requires
            old(self).wf(),
        ensures
            final(self).wf(),
            final(self).markets() == old(self).markets(),
            final(self).records() == stored(old(self).records(), market_id, user, position),
    {
        proof {
            lemma_stored_distinct(self.records(), market_id, user, position);
        }
        match self.find(market_id, &user) {
            Some(i) => {
                self.positions[i].position = position;
            },
            None => {
                self.positions.push(PositionRecord { market_id, user, position });
            },
        }
    }
}

} // verus!
