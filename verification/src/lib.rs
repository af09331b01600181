//! Settlement engine for a two-party price-movement wager.
//!
//! A host opens a game predicting that a tracked price will rise (or fall)
//! past a configured percentage threshold relative to the price at creation
//! time. An opponent may join while the price has not yet drifted past a
//! join tolerance band; once either threshold is crossed, the winner claims
//! both stakes. The library holds the three parts with correctness risk:
//! the fixed-point threshold detector, the game lifecycle state machine,
//! and the escrow accounting that ties stakes to open games.

pub mod error;
pub mod fluctuation;
pub mod laws;
pub mod market;
pub mod state;

pub use error::Error;
pub use fluctuation::check_price_fluctuation;
pub use market::Market;
pub use state::{Config, Game, Games, Prices};
