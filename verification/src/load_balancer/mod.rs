//! The load-balancing strategies and the handle that a selection returns.

pub mod factory;
pub mod least_connections_lb;
pub mod round_robin_lb;
pub mod weighted_round_robin_lb;
