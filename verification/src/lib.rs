//! A payments engine's core: money arithmetic, the per-account ledger with its
//! dispute life cycle, and the decision logic of the actors that order,
//! route and aggregate account traffic.

pub mod actors;
pub mod domain;
pub mod order;
pub mod records;
