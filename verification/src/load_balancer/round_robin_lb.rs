//! Round robin: one position counter that every selection advances.

use vstd::prelude::*;
use super::factory::{addresses_of, LoadBalancer, SelectedLB};

verus! {

/// The counter's value after one more selection: it wraps past `usize::MAX`.
pub open spec fn advance(position: nat) -> nat {
    if position >= usize::MAX { 0 } else { position + 1 }
}

/// The counter's value after `k` more selections.
pub open spec fn advance_by(position: nat, k: nat) -> nat
    decreases k,
{
    if k == 0 { position } else { advance(advance_by(position, (k - 1) as nat)) }
}

/// The index that round robin picks among `n` servers when its counter
/// stands at `position`: `position mod n`, and nothing where `n` is zero.
pub open spec fn round_robin_choice(n: nat, position: nat) -> Option<int> {
    if n == 0 { None } else { Some((position % n) as int) }
}

/// Cycles through the servers in configured order.
pub struct RoundRobinStrategy {
    servers: Vec<String>,
    current: usize,
}

impl RoundRobinStrategy {
    /// The number of selections made so far, as the counter holds it.
    pub closed spec fn position(&self) -> nat {
        self.current as nat
    }

    /// A strategy over `servers` whose counter stands at zero.
    pub fn new(servers: Vec<String>) -> (r: Self)
        ensures
            r.addresses() == addresses_of(servers@),
            r.position() == 0,
    {
        RoundRobinStrategy { servers, current: 0 }
    }
}

impl LoadBalancer for RoundRobinStrategy {
    open spec fn inv(&self) -> bool {
        true
    }

    closed spec fn addresses(&self) -> Seq<Seq<char>> {
        addresses_of(self.servers@)
    }

    open spec fn choice(&self) -> Option<int> {
        round_robin_choice(self.addresses().len(), self.position())
    }

    fn next(&mut self) -> (r: Option<SelectedLB>)
        ensures
            final(self).position() == advance(old(self).position()),
            r is Some ==> r->0.slot() is None,
    {
        let current: usize = self.current;
        self.current = current.wrapping_add(1);
        let n: usize = self.servers.len();
        if n == 0 {
            return None;
        }
        let server: String = self.servers[current % n].clone();
        Some(SelectedLB::fresh(server, None))
    }

    fn release(&mut self, handle: &mut SelectedLB)
        ensures
            final(self).position() == old(self).position(),
    {
        handle.mark_released();
    }
}

/// While the counter has not wrapped, `k` selections advance it by `k`.
pub proof fn lemma_advance_by(position: nat, k: nat)
    requires
        position + k <= usize::MAX,
    ensures
        advance_by(position, k) == position + k,
    decreases k,
{
    if k > 0 {
        lemma_advance_by(position, (k - 1) as nat);
    }
}

/// Counting from zero, the `k`-th selection of a fresh strategy over `n`
/// servers picks server `k mod n`, for every `k` that the counter can hold.
pub proof fn lemma_round_robin_kth(n: nat, k: nat)
    requires
        n > 0,
        k <= usize::MAX,
    ensures
        round_robin_choice(n, advance_by(0, k)) == Some((k % n) as int),
{
    lemma_advance_by(0, k);
}

/// Round robin is cyclical: `n` selections later the same server is picked
/// again, and the selection after the first `n` returns to the first
/// server.
pub proof fn lemma_round_robin_cycle(n: nat, k: nat)
    requires
        n > 0,
        k + n <= usize::MAX,
    ensures
        round_robin_choice(n, advance_by(0, k + n)) == round_robin_choice(n, advance_by(0, k)),
        round_robin_choice(n, advance_by(0, n)) == Some(0int),
{
    lemma_advance_by(0, k);
    lemma_advance_by(0, k + n);
    lemma_advance_by(0, n);
    assert((k + n) % n == k % n) by (nonlinear_arith)
        requires
            n > 0,
    ;
    assert(n % n == 0) by (nonlinear_arith)
        requires
            n > 0,
    ;
}

} // verus!
