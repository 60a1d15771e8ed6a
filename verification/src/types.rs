//! The records that the engine keeps: markets, positions and the identities
//! that own them.

use vstd::prelude::*;

verus! {

/// An account or contract, known by the text of its address.
///
/// Two identities are the same party exactly when their texts are equal.
#[derive(Debug)]
pub struct Identity {
    pub key: String,
}

impl View for Identity {
    type V = Seq<char>;

    open spec fn view(&self) -> Seq<char> {
        self.key@
    }
}

impl Clone for Identity {
    fn clone(&self) -> (res: Self)
        ensures
            res == *self,
    {
        Identity { key: self.key.clone() }
    }
}

impl Identity {
    /// The identity with the address `key`.
    pub fn new(key: String) -> (id: Identity)
        ensures
            id.key == key,
    {
        Identity { key }
    }

    /// Whether both values name the same party.
    pub fn same_as(&self, other: &Identity) -> (same: bool)
        ensures
            same == (self@ == other@),
    {
        self.key == other.key
    }
}

/// One of the two mutually exclusive outcomes of a proposition.
#[derive(Copy, Clone, Debug, PartialEq, Eq, Structural)]
pub enum Side {
    Yes,
    No,
}

/// Where a market stands in its life: it opens, and is resolved once.
#[derive(Copy, Clone, Debug, PartialEq, Eq, Structural)]
pub enum MarketStatus {
    Open,
    Resolved(Side),
}

/// One proposition with its deadline, its outcome and the stake on each side.
#[derive(Debug)]
pub struct Market {
    /// The identity that opened the market.
    pub creator: Identity,
    /// The proposition, in words.
    pub question: String,
    /// The time at which betting closes and resolution becomes possible.
    pub deadline: u64,
    pub status: MarketStatus,
    /// All that was ever staked on `Yes`.
    pub total_yes: i128,
    /// All that was ever staked on `No`.
    pub total_no: i128,
    /// All that was ever staked on the market. Claims do not reduce it.
    pub pool_balance: i128,
}

impl Clone for Market {
    fn clone(&self) -> (res: Self)
        ensures
            res == *self,
    {
        Market {
            creator: self.creator.clone(),
            question: self.question.clone(),
            deadline: self.deadline,
            status: self.status,
            total_yes: self.total_yes,
            total_no: self.total_no,
            pool_balance: self.pool_balance,
        }
    }
}

impl Market {
    /// The totals are stakes: none is negative, and the pool is their sum.
    pub open spec fn wf(self) -> bool {
        &&& 0 <= self.total_yes
        &&& 0 <= self.total_no
        &&& self.pool_balance == self.total_yes + self.total_no
    }

    /// A market as it stands right after its creation.
    pub open spec fn opened(creator: Identity, question: String, deadline: u64) -> Market {
        Market {
            creator,
            question,
            deadline,
            status: MarketStatus::Open,
            total_yes: 0,
            total_no: 0,
            pool_balance: 0,
        }
    }

    /// All that was staked on `side`.
    pub open spec fn total(self, side: Side) -> int {
        match side {
            Side::Yes => self.total_yes as int,
            Side::No => self.total_no as int,
        }
    }

    /// The market after `amount` more was staked on `side`, where the
    /// sums stay within the range of the currency.
    pub open spec fn with_stake(self, side: Side, amount: i128) -> Market {
        match side {
            Side::Yes => Market {
                total_yes: (self.total_yes + amount) as i128,
                pool_balance: (self.pool_balance + amount) as i128,
                ..self
            },
            Side::No => Market {
                total_no: (self.total_no + amount) as i128,
                pool_balance: (self.pool_balance + amount) as i128,
                ..self
            },
        }
    }

    /// The market with `outcome` as its result.
    pub open spec fn resolved_as(self, outcome: Side) -> Market {
        Market { status: MarketStatus::Resolved(outcome), ..self }
    }

    /// Whether stakes are taken at the time `now`.
    pub open spec fn accepts_stakes(self, now: u64) -> bool {
        self.status == MarketStatus::Open && now < self.deadline
    }
}

/// What one user has staked on each side of one market, and whether the
/// user has been paid.
#[derive(Copy, Clone, Debug, PartialEq, Eq, Structural)]
pub struct Position {
    pub yes_shares: i128,
    pub no_shares: i128,
    pub claimed: bool,
}

impl Position {
    /// No stake is negative.
    pub open spec fn wf(self) -> bool {
        0 <= self.yes_shares && 0 <= self.no_shares
    }

    /// The position of a user who never staked on the market.
    pub open spec fn spec_empty() -> Position {
        Position { yes_shares: 0, no_shares: 0, claimed: false }
    }

    /// The position of a user who never staked on the market.
    #[verifier::when_used_as_spec(spec_empty)]
    pub fn empty() -> (position: Position)
        ensures
            position == Position::spec_empty(),
    {
        Position { yes_shares: 0, no_shares: 0, claimed: false }
    }

    /// The user's stake on `side`.
    pub open spec fn shares(self, side: Side) -> int {
        match side {
            Side::Yes => self.yes_shares as int,
            Side::No => self.no_shares as int,
        }
    }

    /// The position after `amount` more was staked on `side`, where the
    /// sum stays within the range of the currency.
    pub open spec fn with_stake(self, side: Side, amount: i128) -> Position {
        match side {
            Side::Yes => Position { yes_shares: (self.yes_shares + amount) as i128, ..self },
            Side::No => Position { no_shares: (self.no_shares + amount) as i128, ..self },
        }
    }

    /// The position once it has been paid.
    pub open spec fn paid(self) -> Position {
        Position { claimed: true, ..self }
    }
}

/// The two identities that the engine is set up with, once.
#[derive(Debug)]
pub struct Config {
    /// The only identity that may resolve markets.
    pub admin: Identity,
    /// The asset in which stakes are paid and winnings are paid out.
    pub token: Identity,
}

impl Clone for Config {
    fn clone(&self) -> (res: Self)
        ensures
            res == *self,
    {
        Config { admin: self.admin.clone(), token: self.token.clone() }
    }
}

} // verus!
