//! A settlement engine for binary-outcome prediction markets.
//!
//! Users stake a fungible asset on one of two sides of a proposition, an
//! administrator resolves the outcome once the deadline has passed, and the
//! winners withdraw a proportional share of the pooled stake.

pub mod accounts;
pub mod auth;
pub mod effects;
pub mod engine;
pub mod errors;
pub mod history;
pub mod laws;
pub mod model;
pub mod payout;
pub mod registry;
pub mod rules;
pub mod types;

pub use auth::AuthContext;
pub use effects::Effect;
pub use engine::PredictionMarket;
pub use errors::Error;
pub use types::{Config, Identity, Market, MarketStatus, Position, Side};
