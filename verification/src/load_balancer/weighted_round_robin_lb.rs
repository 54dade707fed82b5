//! Weighted round robin: servers laid out in contiguous weight-sized
//! buckets, and one position counter that every selection advances.

use vstd::prelude::*;
use crate::types::{weight_or_one, BackendServer};
use super::factory::{LoadBalancer, SelectedLB};
use super::round_robin_lb::{advance, advance_by, lemma_advance_by};

verus! {

/// The sum of the first `n` weights.
pub open spec fn weight_sum(weights: Seq<u32>, n: int) -> nat
    decreases n,
{
    if n <= 0 || n > weights.len() {
        0
    } else {
        weight_sum(weights, n - 1) + weights[n - 1] as nat
    }
}

/// The sum of all weights.
pub open spec fn total_weight(weights: Seq<u32>) -> nat {
    weight_sum(weights, weights.len() as int)
}

/// Server `i` occupies the bucket that holds `position`: the weights
/// before it sum to at most `position`, and with its own to more.
pub open spec fn is_bucket(weights: Seq<u32>, position: nat, i: int) -> bool {
    &&& 0 <= i < weights.len()
    &&& weight_sum(weights, i) <= position < weight_sum(weights, i + 1)
}

/// The server whose bucket holds `position`.
pub open spec fn bucket_of(weights: Seq<u32>, position: nat) -> int {
    choose|i: int| is_bucket(weights, position, i)
}

/// The index that weighted round robin picks when its counter stands at
/// `position`: the bucket of `position mod total`, and nothing where the
/// total weight is zero.
pub open spec fn weighted_choice(weights: Seq<u32>, position: nat) -> Option<int> {
    if total_weight(weights) == 0 {
        None
    } else {
        Some(bucket_of(weights, position % total_weight(weights)))
    }
}

/// The weights that a server list counts with, in configured order.
pub open spec fn weights_of(servers: Seq<BackendServer>) -> Seq<u32> {
    Seq::new(servers.len(), |i: int| weight_or_one(servers[i].weight))
}

/// The addresses of a configured server list, in order.
pub open spec fn backend_addresses(servers: Seq<BackendServer>) -> Seq<Seq<char>> {
    Seq::new(servers.len(), |i: int| servers[i].server@)
}

/// Prefix sums of weights grow with the prefix.
pub proof fn lemma_weight_sum_monotone(weights: Seq<u32>, a: int, b: int)
    requires
        0 <= a <= b <= weights.len(),
    ensures
        weight_sum(weights, a) <= weight_sum(weights, b),
    decreases b - a,
{
    if a < b {
        lemma_weight_sum_monotone(weights, a, b - 1);
    }
}

/// At most one server's bucket holds a position.
pub proof fn lemma_bucket_unique(weights: Seq<u32>, position: nat, i: int, j: int)
    requires
        is_bucket(weights, position, i),
        is_bucket(weights, position, j),
    ensures
        i == j,
        bucket_of(weights, position) == i,
{
    if i < j {
        lemma_weight_sum_monotone(weights, i + 1, j);
    } else if j < i {
        lemma_weight_sum_monotone(weights, j + 1, i);
    }
    let k = bucket_of(weights, position);
    if i < k {
        lemma_weight_sum_monotone(weights, i + 1, k);
    } else if k < i {
        lemma_weight_sum_monotone(weights, k + 1, i);
    }
}

/// Every position below the sum of the first `n` weights lies in the
/// bucket of one of the first `n` servers.
pub proof fn lemma_bucket_exists(weights: Seq<u32>, position: nat, n: int)
    requires
        0 <= n <= weights.len(),
        position < weight_sum(weights, n),
    ensures
        is_bucket(weights, position, bucket_of(weights, position)),
        bucket_of(weights, position) < n,
    decreases n,
{
    if position < weight_sum(weights, n - 1) {
        lemma_bucket_exists(weights, position, n - 1);
    } else {
        lemma_bucket_unique(weights, position, n - 1, n - 1);
    }
}

/// Counting from zero, the `k`-th selection of a fresh strategy picks the
/// server whose bucket holds `k mod total`, for every `k` that the counter
/// can hold; that server exists.
pub proof fn lemma_weighted_kth(weights: Seq<u32>, k: nat)
    requires
        total_weight(weights) > 0,
        k <= usize::MAX,
    ensures
        weighted_choice(weights, advance_by(0, k)) == Some(
            bucket_of(weights, k % total_weight(weights)),
        ),
        is_bucket(weights, k % total_weight(weights), bucket_of(weights, k % total_weight(weights))),
{
    lemma_advance_by(0, k);
    let total = total_weight(weights);
    assert(k % total < total) by (nonlinear_arith)
        requires
            total > 0,
    ;
    lemma_bucket_exists(weights, k % total, weights.len() as int);
}

/// Weighted round robin repeats after as many selections as the total
/// weight says.
pub proof fn lemma_weighted_cycle(weights: Seq<u32>, k: nat)
    requires
        total_weight(weights) > 0,
        k + total_weight(weights) <= usize::MAX,
    ensures
        weighted_choice(weights, advance_by(0, k + total_weight(weights))) == weighted_choice(
            weights,
            advance_by(0, k),
        ),
{
    let total = total_weight(weights);
    lemma_advance_by(0, k);
    lemma_advance_by(0, k + total);
    assert((k + total) % total == k % total) by (nonlinear_arith)
        requires
            total > 0,
    ;
}

/// Picks servers in proportion to their weights, in blocks: each server is
/// returned as many times in a row as its weight says, then the next.
pub struct WeightedRoundRobin {
    servers: Vec<(String, u32)>,
    current: usize,
    total_weight: u128,
}

impl WeightedRoundRobin {
    /// The number of selections made so far, as the counter holds it.
    pub closed spec fn position(&self) -> nat {
        self.current as nat
    }

    /// The servers' weights in configured order.
    pub closed spec fn weights(&self) -> Seq<u32> {
        Seq::new(self.servers@.len(), |i: int| self.servers@[i].1)
    }

    /// Every server has a weight.
    pub proof fn lemma_one_weight_per_server(&self)
        ensures
            self.weights().len() == self.addresses().len(),
    {
    }

    /// A strategy over `servers` whose counter stands at zero. A server
    /// without a weight counts with weight 1.
    pub fn new(servers: Vec<BackendServer>) -> (r: Self)
        ensures
            r.inv(),
            r.addresses() == backend_addresses(servers@),
            r.weights() == weights_of(servers@),
            r.position() == 0,
    {
        let mut slots: Vec<(String, u32)> = Vec::new();
        let mut total: u128 = 0;
        let mut i: usize = 0;
        while i < servers.len()
            invariant
                i <= servers.len(),
                slots@.len() == i,
                forall|j: int|
                    0 <= j < i ==> (#[trigger] slots@[j]).0 == servers@[j].server && slots@[j].1
                        == weight_or_one(servers@[j].weight),
                total == weight_sum(weights_of(servers@), i as int),
                total <= i * 0xFFFF_FFFF,
            decreases servers.len() - i,
        {
            let weight: u32 = servers[i].effective_weight();
            slots.push((servers[i].server.clone(), weight));
            total = total + weight as u128;
            i += 1;
        }
        let r = WeightedRoundRobin { servers: slots, current: 0, total_weight: total };
        assert(r.weights() =~= weights_of(servers@));
        assert(r.addresses() =~= backend_addresses(servers@));
        r
    }

    /// Advances the counter and returns the index of the server whose bucket
    /// holds the position that the counter stood at.
    pub fn next_server(&mut self) -> (r: Option<usize>)
        requires
            old(self).inv(),
        ensures
            final(self).inv(),
            final(self).addresses() == old(self).addresses(),
            final(self).weights() == old(self).weights(),
            final(self).position() == advance(old(self).position()),
            match r {
                Some(i) => old(self).choice() == Some(i as int) && i < old(self).addresses().len(),
                None => old(self).choice() is None,
            },
    {
        let current: usize = self.current;
        self.current = current.wrapping_add(1);
        if self.total_weight == 0 {
            return None;
        }
        let position: u128 = (current as u128) % self.total_weight;
        let mut cumulative: u128 = 0;
        let mut i: usize = 0;
        while i < self.servers.len()
            invariant
                i <= self.servers@.len(),
                self.inv(),
                self.servers == old(self).servers,
                self.current as nat == advance(old(self).current as nat),
                position < self.total_weight,
                position as nat == old(self).position() % total_weight(self.weights()),
                cumulative == weight_sum(self.weights(), i as int),
                cumulative <= position,
            decreases self.servers@.len() - i,
        {
            proof {
                lemma_weight_sum_monotone(self.weights(), i + 1, self.servers@.len() as int);
            }
            cumulative = cumulative + self.servers[i].1 as u128;
            if position < cumulative {
                proof {
                    lemma_bucket_unique(self.weights(), position as nat, i as int, i as int);
                }
                return Some(i);
            }
            i += 1;
        }
        proof {
            assert(false);
        }
        None
    }
}

impl LoadBalancer for WeightedRoundRobin {
    closed spec fn inv(&self) -> bool {
        self.total_weight as nat == total_weight(self.weights())
    }

    closed spec fn addresses(&self) -> Seq<Seq<char>> {
        Seq::new(self.servers@.len(), |i: int| self.servers@[i].0@)
    }

    open spec fn choice(&self) -> Option<int> {
        weighted_choice(self.weights(), self.position())
    }

    fn next(&mut self) -> (r: Option<SelectedLB>)
        ensures
            final(self).weights() == old(self).weights(),
            final(self).position() == advance(old(self).position()),
            r is Some ==> r->0.slot() is None,
    {
        match self.next_server() {
            Some(i) => {
                let server: String = self.servers[i].0.clone();
                Some(SelectedLB::fresh(server, None))
            },
            None => None,
        }
    }

    fn release(&mut self, handle: &mut SelectedLB)
        ensures
            final(self).weights() == old(self).weights(),
            final(self).position() == old(self).position(),
    {
        handle.mark_released();
    }
}

} // verus!
