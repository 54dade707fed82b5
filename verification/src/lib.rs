//! A reverse-proxy gateway core: load-balancing strategies, the request
//! router, the forwarding decisions and the connection-acceptance rules.

pub mod types;
pub mod config;
pub mod server;
pub mod load_balancer;
pub mod proxy_service;

pub use load_balancer::factory::{Balancer, LoadBalancer, LoadBalancerFactory, SelectedLB};
pub use load_balancer::least_connections_lb::LeastConnectionsStrategy;
pub use load_balancer::round_robin_lb::RoundRobinStrategy;
pub use load_balancer::weighted_round_robin_lb::WeightedRoundRobin;
pub use types::LbAlgorithm;
