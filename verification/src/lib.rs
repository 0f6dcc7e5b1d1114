//! Accounting core of a constant-product automated market maker.
//!
//! The crate tracks the reserves of a two-asset liquidity pool, accounts
//! liquidity-provider shares, and computes swap outputs under a fixed 0.3%
//! trading fee. Every operation is a pure state transition over checked
//! integer arithmetic: it either returns an updated pool plus a result
//! quantity, or fails without touching the pool. Asset custody, caller
//! authorization and storage binding are the calling boundary's concern.

pub mod arith;
pub mod error;
pub mod pool;
