//! Execution core of a perpetual-swap trading engine: fixed-point amounts,
//! instrument metadata, position sizing, order planning, request signing,
//! retry policies, the price feed and the risk loop's decisions.
pub mod fixed;
pub mod instruments;
pub mod sizing;
pub mod decision;
pub mod signing;
pub mod executor;
pub mod transport;
pub mod risk;
pub mod feed;
pub mod config;
pub mod market;
pub mod notify;
