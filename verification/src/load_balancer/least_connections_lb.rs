//! Least connections: one active-count counter per server.

use vstd::prelude::*;
use super::factory::{addresses_of, LoadBalancer, SelectedLB};

verus! {

/// A counter after one more selection: it wraps past `usize::MAX`.
pub open spec fn count_up(count: usize) -> usize {
    if count == usize::MAX { 0usize } else { (count + 1) as usize }
}

/// A counter after one release: it wraps below zero.
pub open spec fn count_down(count: usize) -> usize {
    if count == 0 { usize::MAX } else { (count - 1) as usize }
}

/// The counters of `n` servers that hold no selection.
pub open spec fn idle_counts(n: nat) -> Seq<usize> {
    Seq::new(n, |i: int| 0usize)
}

/// `i` is the first index of `counts` that holds their minimum.
pub open spec fn is_first_min(counts: Seq<usize>, i: int) -> bool {
    &&& 0 <= i < counts.len()
    &&& forall|j: int| 0 <= j < counts.len() ==> counts[i] <= #[trigger] counts[j]
    &&& forall|j: int| 0 <= j < i ==> counts[i] < #[trigger] counts[j]
}

/// The first index that holds the minimum of `counts`.
pub open spec fn first_min(counts: Seq<usize>) -> int {
    choose|i: int| is_first_min(counts, i)
}

/// The index that least connections picks: the first that holds the
/// minimum, and nothing where there is no server.
pub open spec fn least_connections_choice(counts: Seq<usize>) -> Option<int> {
    if counts.len() == 0 { None } else { Some(first_min(counts)) }
}

/// The counters after a selection: the chosen server's counter goes up by
/// one.
pub open spec fn counts_after_select(counts: Seq<usize>) -> Seq<usize> {
    match least_connections_choice(counts) {
        Some(i) => counts.update(i, count_up(counts[i])),
        None => counts,
    }
}

/// The counters after the release of a handle with the given slot and
/// released flag: the slot's counter goes down by one, unless the handle
/// was released before or names no counter.
pub open spec fn counts_after_release(counts: Seq<usize>, slot: Option<usize>, released: bool) -> Seq<usize> {
    match slot {
        Some(i) => if !released && i < counts.len() {
            counts.update(i as int, count_down(counts[i as int]))
        } else {
            counts
        },
        None => counts,
    }
}

/// Picks the server with the fewest active selections, the first of them
/// in configured order.
pub struct LeastConnectionsStrategy {
    pub servers: Vec<(String, usize)>,
}

impl LeastConnectionsStrategy {
    /// The active count of each server, in configured order.
    pub open spec fn counts(&self) -> Seq<usize> {
        Seq::new(self.servers@.len(), |i: int| self.servers@[i].1)
    }

    /// A strategy over `servers` with every counter at zero.
    pub fn new(servers: Vec<String>) -> (r: Self)
        ensures
            r.addresses() == addresses_of(servers@),
            r.counts() == idle_counts(servers@.len()),
    {
        let mut slots: Vec<(String, usize)> = Vec::new();
        let mut i: usize = 0;
        while i < servers.len()
            invariant
                i <= servers.len(),
                slots@.len() == i,
                forall|j: int| 0 <= j < i ==> (#[trigger] slots@[j]).0 == servers@[j] && slots@[j].1 == 0,
            decreases servers.len() - i,
        {
            slots.push((servers[i].clone(), 0usize));
            i += 1;
        }
        let r = LeastConnectionsStrategy { servers: slots };
        assert(r.addresses() =~= addresses_of(servers@));
        assert(r.counts() =~= idle_counts(servers@.len()));
        r
    }

    /// The first index that holds the minimum of the counters.
    fn least_loaded(&self) -> (best: usize)
        requires
            self.servers@.len() > 0,
        ensures
            is_first_min(self.counts(), best as int),
    {
        let mut best: usize = 0;
        let mut i: usize = 1;
        while i < self.servers.len()
            invariant
                1 <= i <= self.servers@.len(),
                best < i,
                forall|j: int| 0 <= j < i ==> self.servers@[best as int].1 <= self.servers@[j].1,
                forall|j: int| 0 <= j < best ==> self.servers@[best as int].1 < self.servers@[j].1,
            decreases self.servers@.len() - i,
        {
            if self.servers[i].1 < self.servers[best].1 {
                best = i;
            }
            i += 1;
        }
        best
    }
}

/// At most one index is the first that holds the minimum.
pub proof fn lemma_first_min_unique(counts: Seq<usize>, i: int, j: int)
    requires
        is_first_min(counts, i),
        is_first_min(counts, j),
    ensures
        i == j,
        first_min(counts) == i,
{
    if i < j {
        assert(counts[j] < counts[i]);
        assert(counts[i] <= counts[j]);
    } else if j < i {
        assert(counts[i] < counts[j]);
        assert(counts[j] <= counts[i]);
    }
    let k = first_min(counts);
    if k < i {
        assert(counts[i] < counts[k]);
        assert(counts[k] <= counts[i]);
    } else if i < k {
        assert(counts[k] < counts[i]);
        assert(counts[i] <= counts[k]);
    }
}

/// The first index that holds the minimum among the first `n` counters.
proof fn first_min_of_prefix(counts: Seq<usize>, n: int) -> (i: int)
    requires
        1 <= n <= counts.len(),
    ensures
        0 <= i < n,
        forall|j: int| 0 <= j < n ==> counts[i] <= #[trigger] counts[j],
        forall|j: int| 0 <= j < i ==> counts[i] < #[trigger] counts[j],
    decreases n,
{
    if n == 1 {
        0
    } else {
        let p = first_min_of_prefix(counts, n - 1);
        if counts[n - 1] < counts[p] {
            n - 1
        } else {
            p
        }
    }
}

/// Where there is a server, one index is the first that holds the minimum.
pub proof fn lemma_first_min_exists(counts: Seq<usize>)
    requires
        counts.len() > 0,
    ensures
        is_first_min(counts, first_min(counts)),
{
    let i = first_min_of_prefix(counts, counts.len() as int);
    assert(is_first_min(counts, i));
}

/// The counters of `n` servers of which the first `k` hold one selection
/// each.
pub open spec fn first_busy(n: nat, k: nat) -> Seq<usize> {
    Seq::new(n, |i: int| if i < k { 1usize } else { 0usize })
}

/// Idle servers are visited in configured order: after the first `k` of
/// `n` idle servers were selected once each, the next selection picks
/// server `k`.
pub proof fn lemma_idle_servers_visited_in_order(n: nat, k: nat)
    requires
        k < n,
    ensures
        first_busy(n, 0) == idle_counts(n),
        least_connections_choice(first_busy(n, k)) == Some(k as int),
        counts_after_select(first_busy(n, k)) == first_busy(n, k + 1),
{
    assert(first_busy(n, 0) =~= idle_counts(n));
    let counts = first_busy(n, k);
    assert(is_first_min(counts, k as int));
    lemma_first_min_unique(counts, k as int, k as int);
    assert(counts_after_select(counts) =~= first_busy(n, k + 1));
}

/// Once every server holds one selection, the server whose selection is
/// released is the one that the next selection picks.
pub proof fn lemma_released_server_is_next(n: nat, slot: usize)
    requires
        slot < n,
    ensures
        least_connections_choice(counts_after_release(first_busy(n, n), Some(slot), false))
            == Some(slot as int),
{
    let counts = counts_after_release(first_busy(n, n), Some(slot), false);
    assert(is_first_min(counts, slot as int));
    lemma_first_min_unique(counts, slot as int, slot as int);
}

/// A release decrements the counter that the handle names by exactly one
/// and leaves every other counter alone; releasing the same handle a second
/// time changes nothing.
pub proof fn lemma_release_once(counts: Seq<usize>, slot: usize)
    requires
        slot < counts.len(),
    ensures
        counts_after_release(counts, Some(slot), false) == counts.update(
            slot as int,
            count_down(counts[slot as int]),
        ),
        counts_after_release(counts_after_release(counts, Some(slot), false), Some(slot), true)
            == counts_after_release(counts, Some(slot), false),
{
}

/// A selection followed by the release of its handle leaves every counter
/// at the value it had before the selection.
pub proof fn lemma_release_restores(counts: Seq<usize>)
    requires
        counts.len() <= usize::MAX,
    ensures
        least_connections_choice(counts) matches Some(i) ==> 0 <= i < counts.len()
            && counts_after_release(counts_after_select(counts), Some(i as usize), false)
            == counts,
        least_connections_choice(counts) is None ==> counts_after_select(counts) == counts,
{
    if counts.len() > 0 {
        lemma_first_min_exists(counts);
        let i = first_min(counts);
        assert(counts_after_release(counts_after_select(counts), Some(i as usize), false)
            =~= counts);
    }
}

impl LoadBalancer for LeastConnectionsStrategy {
    open spec fn inv(&self) -> bool {
        true
    }

    open spec fn addresses(&self) -> Seq<Seq<char>> {
        Seq::new(self.servers@.len(), |i: int| self.servers@[i].0@)
    }

    open spec fn choice(&self) -> Option<int> {
        least_connections_choice(self.counts())
    }

    fn next(&mut self) -> (r: Option<SelectedLB>)
        ensures
            final(self).counts() == counts_after_select(old(self).counts()),
            r is Some ==> r->0.slot() == Some(first_min(old(self).counts()) as usize),
    {
        if self.servers.len() == 0 {
            return None;
        }
        let best: usize = self.least_loaded();
        proof {
            lemma_first_min_unique(self.counts(), best as int, best as int);
        }
        let server: String = self.servers[best].0.clone();
        let count: usize = self.servers[best].1;
        self.servers[best].1 = count.wrapping_add(1);
        assert(self.addresses() =~= old(self).addresses());
        assert(self.counts() =~= counts_after_select(old(self).counts()));
        Some(SelectedLB::fresh(server, Some(best)))
    }

    fn release(&mut self, handle: &mut SelectedLB)
        ensures
            final(self).counts() == counts_after_release(
                old(self).counts(),
                old(handle).slot(),
                old(handle).is_released(),
            ),
    {
        if !handle.is_released() {
            handle.mark_released();
            match handle.slot() {
                Some(i) => {
                    if i < self.servers.len() {
                        let count: usize = self.servers[i].1;
                        self.servers[i].1 = count.wrapping_sub(1);
                    }
                },
                None => {},
            }
        }
        assert(self.addresses() =~= old(self).addresses());
        assert(self.counts() =~= counts_after_release(
            old(self).counts(),
            old(handle).slot(),
            old(handle).is_released(),
        ));
    }
}

} // verus!
