//! The selection handle and the contract that every strategy meets.

use vstd::prelude::*;
use crate::types::{BackendServer, LbAlgorithm};
use super::least_connections_lb::{
    counts_after_release,
    counts_after_select,
    idle_counts,
    LeastConnectionsStrategy,
};
use super::round_robin_lb::{advance, RoundRobinStrategy};
use super::weighted_round_robin_lb::{backend_addresses, weights_of, WeightedRoundRobin};

verus! {

/// The result of a selection: the chosen server's address and what its
/// release has to undo.
///
/// Only a strategy makes a handle, and only a release marks it as released:
/// the first release of a handle runs its release action, and every later
/// one finds the mark and changes nothing.
#[derive(Debug)]
pub struct SelectedLB {
    pub server: String,
    slot: Option<usize>,
    released: bool,
}

impl SelectedLB {
    /// The chosen server's address.
    pub closed spec fn address(&self) -> Seq<char> {
        self.server@
    }

    /// The chosen server's address.
    pub fn server_address(&self) -> (r: &str)
        ensures
            r@ == self.address(),
    {
        self.server.as_str()
    }

    /// The per-server counter that the release decrements, as a
    /// specification value.
    pub closed spec fn spec_slot(&self) -> Option<usize> {
        self.slot
    }

    /// Whether the handle was released, as a specification value.
    pub closed spec fn spec_is_released(&self) -> bool {
        self.released
    }

    /// The per-server counter that the release decrements: the chosen
    /// server's index, or none for a strategy that keeps no per-selection
    /// state.
    #[verifier::when_used_as_spec(spec_slot)]
    pub fn slot(&self) -> (r: Option<usize>)
        ensures
            r == self.spec_slot(),
    {
        self.slot
    }

    /// Whether the handle was released.
    #[verifier::when_used_as_spec(spec_is_released)]
    pub fn is_released(&self) -> (r: bool)
        ensures
            r == self.spec_is_released(),
    {
        self.released
    }

    /// A handle for a selection that was just made.
    pub(crate) fn fresh(server: String, slot: Option<usize>) -> (h: Self)
        ensures
            h.address() == server@,
            h.slot() == slot,
            !h.is_released(),
    {
        SelectedLB { server, slot, released: false }
    }

    /// Marks the handle as released.
    pub(crate) fn mark_released(&mut self)
        ensures
            is_released_form(*old(self), *final(self)),
    {
        self.released = true;
    }
}

/// The addresses of a server list, in configured order.
pub open spec fn addresses_of(servers: Seq<String>) -> Seq<Seq<char>> {
    Seq::new(servers.len(), |i: int| servers[i]@)
}

/// `r` is what a selection returns when `choice` is the chosen index into
/// `addresses`: nothing where there is no choice, else a fresh handle for
/// the chosen server.
pub open spec fn is_selection(
    addresses: Seq<Seq<char>>,
    choice: Option<int>,
    r: Option<SelectedLB>,
) -> bool {
    match choice {
        None => r is None,
        Some(i) => {
            &&& 0 <= i < addresses.len()
            &&& r is Some
            &&& r->0.address() == addresses[i]
            &&& !r->0.is_released()
        },
    }
}

/// A handle after its release: the same selection, marked as released.
pub open spec fn is_released_form(before: SelectedLB, after: SelectedLB) -> bool {
    &&& after.address() == before.address()
    &&& after.slot() == before.slot()
    &&& after.is_released()
}

/// What every strategy offers: select a server, and release a selection.
pub trait LoadBalancer {
    /// The strategy's internal invariant.
    spec fn inv(&self) -> bool;

    /// The servers' addresses in configured order.
    spec fn addresses(&self) -> Seq<Seq<char>>;

    /// The index of the server that the next selection returns, if any.
    spec fn choice(&self) -> Option<int>;

    /// Selects a server. Returns nothing for an empty server list, and in
    /// general a fresh handle for the server at `choice()`.
    fn next(&mut self) -> (r: Option<SelectedLB>)
        requires
            old(self).inv(),
        ensures
            final(self).inv(),
            final(self).addresses() == old(self).addresses(),
            is_selection(old(self).addresses(), old(self).choice(), r),
            old(self).addresses().len() == 0 ==> r is None,
    ;

    /// Releases a selection: runs its release action unless it has run
    /// before, and marks the handle as released.
    fn release(&mut self, handle: &mut SelectedLB)
        requires
            old(self).inv(),
        ensures
            final(self).inv(),
            final(self).addresses() == old(self).addresses(),
            is_released_form(*old(handle), *final(handle)),
            old(handle).is_released() ==> final(self).choice() == old(self).choice(),
    ;
}

/// One strategy instance of any of the algorithms.
pub enum Balancer {
    RoundRobin(RoundRobinStrategy),
    LeastConnections(LeastConnectionsStrategy),
    WeightedRoundRobin(WeightedRoundRobin),
}

impl Balancer {
    /// The algorithm that this instance runs.
    pub open spec fn algorithm(&self) -> LbAlgorithm {
        match self {
            Balancer::RoundRobin(_) => LbAlgorithm::RoundRobin,
            Balancer::LeastConnections(_) => LbAlgorithm::LeastConnections,
            Balancer::WeightedRoundRobin(_) => LbAlgorithm::WeightedRoundRobin,
        }
    }

    /// The active count of each server where the algorithm keeps one, and
    /// the empty sequence where it keeps none.
    pub open spec fn counts(&self) -> Seq<usize> {
        match self {
            Balancer::LeastConnections(lc) => lc.counts(),
            _ => Seq::empty(),
        }
    }

    /// The servers' weights where the algorithm counts with them, and the
    /// empty sequence where it does not.
    pub open spec fn weights(&self) -> Seq<u32> {
        match self {
            Balancer::WeightedRoundRobin(wrr) => wrr.weights(),
            _ => Seq::empty(),
        }
    }

    /// The same algorithm over the same servers with the same weights.
    pub open spec fn same_servers(&self, other: &Self) -> bool {
        &&& self.algorithm() == other.algorithm()
        &&& self.addresses() == other.addresses()
        &&& self.weights() == other.weights()
    }

    /// The position counter where the algorithm keeps one, else zero.
    pub open spec fn position(&self) -> nat {
        match self {
            Balancer::RoundRobin(rr) => rr.position(),
            Balancer::LeastConnections(_) => 0,
            Balancer::WeightedRoundRobin(wrr) => wrr.position(),
        }
    }

    /// The position counter after a selection.
    pub open spec fn position_after_select(&self) -> nat {
        match self {
            Balancer::LeastConnections(_) => 0,
            _ => advance(self.position()),
        }
    }

    /// There are no more counters than a machine word can index.
    pub proof fn lemma_counts_bounded(&self)
        ensures
            self.counts().len() <= usize::MAX,
    {
        match self {
            Balancer::LeastConnections(lc) => {
                vstd::std_specs::vec::axiom_spec_len(&lc.servers);
            },
            _ => {},
        }
    }

    /// Over an empty server list there is nothing to select.
    pub proof fn lemma_empty_has_no_choice(&self)
        requires
            self.inv(),
            self.addresses().len() == 0,
        ensures
            self.choice() is None,
    {
        match self {
            Balancer::WeightedRoundRobin(wrr) => {
                wrr.lemma_one_weight_per_server();
            },
            _ => {},
        }
    }
}

impl LoadBalancer for Balancer {
    open spec fn inv(&self) -> bool {
        match self {
            Balancer::RoundRobin(rr) => rr.inv(),
            Balancer::LeastConnections(lc) => lc.inv(),
            Balancer::WeightedRoundRobin(wrr) => wrr.inv(),
        }
    }

    open spec fn addresses(&self) -> Seq<Seq<char>> {
        match self {
            Balancer::RoundRobin(rr) => rr.addresses(),
            Balancer::LeastConnections(lc) => lc.addresses(),
            Balancer::WeightedRoundRobin(wrr) => wrr.addresses(),
        }
    }

    open spec fn choice(&self) -> Option<int> {
        match self {
            Balancer::RoundRobin(rr) => rr.choice(),
            Balancer::LeastConnections(lc) => lc.choice(),
            Balancer::WeightedRoundRobin(wrr) => wrr.choice(),
        }
    }

    fn next(&mut self) -> (r: Option<SelectedLB>)
        ensures
            final(self).same_servers(old(self)),
            final(self).counts() == counts_after_select(old(self).counts()),
            final(self).position() == old(self).position_after_select(),
            r is Some ==> r->0.slot() == (match old(self).algorithm() {
                LbAlgorithm::LeastConnections => Some(old(self).choice()->0 as usize),
                _ => None,
            }),
    {
        match self {
            Balancer::RoundRobin(rr) => rr.next(),
            Balancer::LeastConnections(lc) => lc.next(),
            Balancer::WeightedRoundRobin(wrr) => wrr.next(),
        }
    }

    fn release(&mut self, handle: &mut SelectedLB)
        ensures
            final(self).same_servers(old(self)),
            final(self).counts() == counts_after_release(
                old(self).counts(),
                old(handle).slot(),
                old(handle).is_released(),
            ),
            final(self).position() == old(self).position(),
    {
        match self {
            Balancer::RoundRobin(rr) => rr.release(handle),
            Balancer::LeastConnections(lc) => lc.release(handle),
            Balancer::WeightedRoundRobin(wrr) => wrr.release(handle),
        }
    }
}

/// `b` is the strategy that `algorithm` names over `servers`, with every
/// counter at zero.
pub open spec fn is_fresh(algorithm: LbAlgorithm, servers: Seq<BackendServer>, b: Balancer) -> bool {
    &&& b.inv()
    &&& b.algorithm() == algorithm
    &&& b.addresses() == backend_addresses(servers)
    &&& b.weights() == (match algorithm {
        LbAlgorithm::WeightedRoundRobin => weights_of(servers),
        _ => Seq::empty(),
    })
    &&& b.position() == 0
    &&& b.counts() == (match algorithm {
        LbAlgorithm::LeastConnections => idle_counts(servers.len()),
        _ => Seq::empty(),
    })
}

/// Builds the strategy instance for a backend group.
pub struct LoadBalancerFactory;

impl LoadBalancerFactory {
    /// The strategy that `algorithm` names, over `server_backends` in their
    /// configured order, with every counter at zero. Weights count for
    /// weighted round robin only.
    pub fn create(algorithm: LbAlgorithm, server_backends: Vec<BackendServer>) -> (r: Balancer)
        ensures
            is_fresh(algorithm, server_backends@, r),
    {
        match algorithm {
            LbAlgorithm::RoundRobin => {
                let r = RoundRobinStrategy::new(server_names(&server_backends));
                assert(r.addresses() =~= backend_addresses(server_backends@));
                Balancer::RoundRobin(r)
            },
            LbAlgorithm::LeastConnections => {
                let r = LeastConnectionsStrategy::new(server_names(&server_backends));
                assert(r.addresses() =~= backend_addresses(server_backends@));
                Balancer::LeastConnections(r)
            },
            LbAlgorithm::WeightedRoundRobin => Balancer::WeightedRoundRobin(
                WeightedRoundRobin::new(server_backends),
            ),
        }
    }
}

/// The addresses of a configured server list, in order.
pub fn server_names(server_backends: &Vec<BackendServer>) -> (names: Vec<String>)
    ensures
        names@.len() == server_backends@.len(),
        forall|i: int| 0 <= i < names@.len() ==> names@[i] == server_backends@[i].server,
{
    let mut names: Vec<String> = Vec::new();
    let mut i: usize = 0;
    while i < server_backends.len()
        invariant
            i <= server_backends@.len(),
            names@.len() == i,
            forall|j: int| 0 <= j < i ==> names@[j] == server_backends@[j].server,
        decreases server_backends@.len() - i,
    {
        names.push(server_backends[i].server.clone());
        i += 1;
    }
    names
}

} // verus!
