//! Market-making decisions for a pair of complementary binary-outcome tokens: book,
//! inventory and resting-order state, and the pure reconciliation that turns a
//! snapshot of that state into order actions.
pub mod actions;
pub mod book;
pub mod config;
pub mod events;
pub mod feed;
pub mod fixed;
pub mod gamma;
pub mod market;
pub mod orders;
pub mod position;
pub mod pricing;
pub mod sizing;
pub mod strategy;

pub use actions::Action;
pub use book::Book;
pub use config::{Config, Credentials, General};
pub use events::Side;
pub use feed::{parse_ticks, PolymarketFeed, Quote, QuoteFilter};
pub use fixed::{Fixed, SCALE};
pub use market::Market;
pub use orders::{OrderTracker, StandingOrder};
pub use position::{Position, PAYOUT_TICKS};
pub use pricing::{calc_max_bid, NOTIONAL_TICKS};
pub use sizing::{
    calc_size, calc_size_15m, calc_size_5m, calc_size_with_limit, can_place, MarketDuration,
};
pub use strategy::{
    build_ladder, check_rebalance, crash_filtered, reconcile, Ladder, Rung, StrategyConfig, MIN_RUNG_PRICE,
    TAKE_PRICE_CEILING,
};
