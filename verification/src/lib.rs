//! Decision logic of a price-replication liquidity bot: it follows best
//! bid/ask quotes from an exchange's book-ticker stream and, for each market,
//! replaces its liquidity positions on a DEX with one new position.
//!
//! The modules hold what the bot decides; reading quotes, querying the chain
//! and submitting transactions happen around them.
pub mod feed;
pub mod ledger;
pub mod market;
pub mod node;
pub mod notes;
pub mod ownership;
pub mod positions;
pub mod quote_filter;
pub mod rebalance;
pub mod reconnect;
pub mod response;
pub mod symbol_map;
pub mod text;
pub mod trader;
