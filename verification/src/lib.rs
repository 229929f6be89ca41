//! Account-state layer of an on-chain order-book exchange.
//!
//! Defines how market state and per-user trading state are laid out in
//! fixed-size binary records, how user order lists are mutated in place
//! inside a fixed-capacity buffer, and how taker/maker fees are computed
//! from a discount-token holding tier using 32.32 fixed-point arithmetic.

pub mod error;
pub mod fees;
pub mod fp32;
pub mod state;
