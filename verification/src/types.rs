//! The in-memory topology that configuration produces.

use vstd::prelude::*;

verus! {

/// Listener settings: the port, and the TLS switch with its two PEM paths.
#[derive(Debug, Clone)]
pub struct ServerSettings {
    pub enable_https: bool,
    pub port: u16,
    pub cert_path: Option<String>,
    pub key_path: Option<String>,
}

/// An ordered list of path patterns mapped to one backend group.
#[derive(Debug, Clone)]
pub struct Frontend {
    pub path_prefix: Vec<String>,
    pub backend: String,
}

/// One physical server: its address and an optional weight.
#[derive(Debug, Clone)]
pub struct BackendServer {
    pub server: String,
    pub weight: Option<u32>,
}

/// A named group of servers that share one load-balancing algorithm.
#[derive(Debug, Clone)]
pub struct Backend {
    pub name: String,
    pub servers: Vec<BackendServer>,
    pub lb_algorithm: LbAlgorithm,
}

/// The fixed set of load-balancing algorithms.
#[derive(Debug, Clone, Copy, PartialEq, Eq, Structural)]
pub enum LbAlgorithm {
    RoundRobin,
    LeastConnections,
    WeightedRoundRobin,
}

/// The weight a server counts with: its own, or 1 where none is set.
pub open spec fn weight_or_one(weight: Option<u32>) -> u32 {
    match weight {
        Some(w) => w,
        None => 1u32,
    }
}

impl BackendServer {
    /// The weight this server counts with, as a specification value.
    pub open spec fn spec_effective_weight(&self) -> u32 {
        weight_or_one(self.weight)
    }

    /// The weight this server counts with: its own, or 1 where none is set.
    pub fn effective_weight(&self) -> (w: u32)
        ensures
            w == self.spec_effective_weight(),
    {
        match self.weight {
            Some(w) => w,
            None => 1u32,
        }
    }
}

/// The algorithm of a backend group that names none.
pub fn default_lb_algorithm() -> (r: LbAlgorithm)
    ensures
        r == LbAlgorithm::RoundRobin,
{
    LbAlgorithm::RoundRobin
}

/// The port of a listener that names none.
pub fn default_port() -> (r: u16)
    ensures
        r == 3000,
{
    3000u16
}

impl Default for ServerSettings {
    fn default() -> (r: Self)
        ensures
            !r.enable_https,
            r.port == 3000,
            r.cert_path is None,
            r.key_path is None,
    {
        ServerSettings { enable_https: false, port: default_port(), cert_path: None, key_path: None }
    }
}

} // verus!
