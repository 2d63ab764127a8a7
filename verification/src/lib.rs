//! Core of a synthetic perpetual-futures exchange.
//!
//! Traders hold leveraged long or short exposure against a virtual
//! constant-product market maker. The crate has two halves and what they
//! stand on:
//!
//! * [`vamm`]: the reserve pricing engine. Swap prices, reserve snapshots,
//!   the time-weighted average price, funding settlement and rebasing.
//! * [`engine`]: the position state machine and ledger. It decides which
//!   swap a request needs and reconciles the swap's result into the
//!   trader's position and margin.
//! * [`exchange`]: engine and market in one process. A request is carried
//!   through all its steps, or leaves no trace.
//! * [`pricefeed`]: the index prices that funding is measured against.
//! * [`controller`]: the messages for an engine that runs elsewhere.
//! * [`math`], [`digest`], [`text`], [`error`]: fixed-point arithmetic,
//!   storage keys, string comparison and the reasons for refusal.
//!
//! Every amount is an unsigned fixed-point number held as its mantissa
//! (`u128`); the mantissa of one whole unit is the `decimals` parameter of
//! the component's configuration.
pub mod controller;
pub mod digest;
pub mod engine;
pub mod error;
pub mod exchange;
pub mod math;
pub mod pricefeed;
pub mod text;
pub mod vamm;
