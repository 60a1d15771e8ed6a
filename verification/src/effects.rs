//! What the engine asks of the world around it.
//!
//! The engine moves no asset and notifies nobody. Each operation records, in
//! order, the transfers that its host has to carry out and the events that
//! it has to publish.

use vstd::prelude::*;
use crate::types::{Identity, Side};

verus! {

/// One request to the host: a transfer of the asset, or an event to publish.
#[derive(Debug)]
pub enum Effect {
    /// Move `amount` of `token` from `from` into the engine's custody.
    Deposit { token: Identity, from: Identity, amount: i128 },
    /// Move `amount` of `token` out of the engine's custody to `to`.
    Payout { token: Identity, to: Identity, amount: i128 },
    /// A market was created.
    Created { market_id: u64, creator: Identity },
    /// A stake was placed.
    Bought { market_id: u64, buyer: Identity, side: Side, amount: i128 },
    /// A market got its outcome.
    Resolved { market_id: u64, outcome: Side },
    /// A position was paid out.
    Claimed { market_id: u64, user: Identity, payout: i128 },
}

impl Clone for Effect {
    fn clone(&self) -> (res: Self)
        ensures
            res == *self,
    {
        match self {
            Effect::Deposit { token, from, amount } => Effect::Deposit {
                token: token.clone(),
                from: from.clone(),
                amount: *amount,
            },
            Effect::Payout { token, to, amount } => Effect::Payout {
                token: token.clone(),
                to: to.clone(),
                amount: *amount,
            },
            Effect::Created { market_id, creator } => Effect::Created {
                market_id: *market_id,
                creator: creator.clone(),
            },
            Effect::Bought { market_id, buyer, side, amount } => Effect::Bought {
                market_id: *market_id,
                buyer: buyer.clone(),
                side: *side,
                amount: *amount,
            },
            Effect::Resolved { market_id, outcome } => Effect::Resolved {
                market_id: *market_id,
                outcome: *outcome,
            },
            Effect::Claimed { market_id, user, payout } => Effect::Claimed {
                market_id: *market_id,
                user: user.clone(),
                payout: *payout,
            },
        }
    }
}

} // verus!
