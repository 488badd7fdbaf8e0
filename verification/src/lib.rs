//! Accounting core of a two-asset liquidity pool.
//!
//! The pool holds reserves of two fungible assets, grants proportional
//! ownership shares on deposit, and releases reserves on withdrawal and on
//! swaps. All share and reserve arithmetic is checked: no operation may
//! create value out of thin air or wrap silently.

pub mod errors;
pub mod instructions;
pub mod math;
pub mod seed;
pub mod state;
