//! Verified core of the ollamaMQ gateway: the token registry that
//! authenticates API callers, and the decision logic of the terminal
//! dashboard (ordering of rows, selection, key handling, totals).

pub mod auth;
pub mod order;
pub mod snapshot;
pub mod dashboard;
