//! Worker selection: the routing strategy and the pool of worker handles.

use crate::models::Tier;
use crate::node_client::NodeClient;
use std::sync::atomic::{AtomicUsize, Ordering};
use vstd::arithmetic::div_mod::{
    lemma_add_mod_noop_right, lemma_fundamental_div_mod, lemma_fundamental_div_mod_converse,
    lemma_mod_add_multiples_vanish, lemma_mod_bound, lemma_mod_equivalence, lemma_mod_self_0,
    lemma_small_mod,
};
use vstd::prelude::*;

verus! {

/// A routing strategy: picks a worker for a request of the given tier. The
/// value picked is a raw index; the pool reduces it modulo its size, so every
/// value is a valid pick.
pub trait NodeRouter: Send + Sync {
    fn pick(&self, tier: Tier) -> usize;
}

/// Round-robin routing over a counter that all users of the router share.
/// Each pick takes the counter's value and adds one to it, in a single
/// atomic step. The tier plays no part.
pub struct RoundRobinRouter {
    next: AtomicUsize,
}

impl RoundRobinRouter {
    /// A router whose counter is at zero.
    pub fn new() -> RoundRobinRouter {
        RoundRobinRouter { next: AtomicUsize::new(0) }
    }
}

impl Default for RoundRobinRouter {
    fn default() -> RoundRobinRouter {
        RoundRobinRouter::new()
    }
}

impl NodeRouter for RoundRobinRouter {
    /// Takes the counter's value and adds one to it, wrapping at the end of
    /// `usize`. Nothing is promised of the value: the counter is shared, so
    /// what a call sees depends on the calls that others have made. The pool
    /// resolves every value to one of its workers.
    fn pick(&self, _tier: Tier) -> usize {
        self.next.fetch_add(1, Ordering::Relaxed)
    }
}

/// The worker handles, in configured order. A pool is never empty and does
/// not change once made.
#[derive(Debug)]
pub struct NodePool {
    nodes: Vec<NodeClient>,
}

impl View for NodePool {
    type V = Seq<NodeClient>;

    closed spec fn view(&self) -> Seq<NodeClient> {
        self.nodes@
    }
}

impl NodePool {
    #[verifier::type_invariant]
    spec fn non_empty(self) -> bool {
        self.nodes@.len() > 0
    }

    /// The position in the pool that the raw index `idx` resolves to.
    pub open spec fn slot(&self, idx: int) -> int {
        idx % (self@.len() as int)
    }

    /// The worker that the raw index `idx` resolves to.
    pub open spec fn node_at(&self, idx: int) -> NodeClient {
        self@[self.slot(idx)]
    }

    /// Whether one of as many consecutive raw indices as the pool has
    /// workers, the first being `start`, resolves to position `at`.
    pub open spec fn window_hits(&self, start: int, at: int) -> bool {
        exists|j: int| 0 <= j < self@.len() && #[trigger] self.slot(start + j) == at
    }

    /// A pool of `nodes`, in their order; none if there are no nodes.
    pub fn new(nodes: Vec<NodeClient>) -> (r: Option<NodePool>)
        ensures
            match r {
                Some(pool) => pool@ == nodes@ && nodes@.len() > 0,
                None => nodes@.len() == 0,
            },
    {
        if nodes.len() == 0 {
            None
        } else {
            Some(NodePool { nodes })
        }
    }

    /// The number of workers, which is at least one.
    pub fn len(&self) -> (n: usize)
        ensures
            n == self@.len(),
            n > 0,
    {
        proof {
            use_type_invariant(self);
        }
        self.nodes.len()
    }

    /// The workers, in configured order.
    pub fn nodes(&self) -> (r: &Vec<NodeClient>)
        ensures
            r@ == self@,
            r@.len() > 0,
    {
        proof {
            use_type_invariant(self);
        }
        &self.nodes
    }

    /// The worker that the raw index `idx` resolves to: the one at `idx`
    /// modulo the pool's size.
    pub fn get(&self, idx: usize) -> (node: &NodeClient)
        ensures
            self@.len() > 0,
            0 <= self.slot(idx as int) < self@.len(),
            *node == self.node_at(idx as int),
    {
        proof {
            use_type_invariant(self);
        }
        &self.nodes[idx % self.nodes.len()]
    }
}

/// Raw indices that differ by the pool's size resolve to the same worker.
pub proof fn lemma_pool_wraparound(pool: NodePool, i: int)
    requires
        pool@.len() > 0,
        0 <= i,
    ensures
        pool.slot(i + pool@.len()) == pool.slot(i),
        pool.node_at(i + pool@.len()) == pool.node_at(i),
{
    lemma_mod_add_multiples_vanish(i, pool@.len() as int);
}

/// Every raw index resolves to a position in the pool, and the next raw
/// index to the next position, the last one being followed by the first.
pub proof fn lemma_slot_step(pool: NodePool, i: int)
    requires
        pool@.len() > 0,
        0 <= i,
    ensures
        0 <= pool.slot(i) < pool@.len(),
        pool.slot(i + 1) == if pool.slot(i) + 1 == pool@.len() {
            0
        } else {
            pool.slot(i) + 1
        },
{
    let k = pool@.len() as int;
    let x = i;
    lemma_mod_bound(x, k);
    lemma_fundamental_div_mod(x, k);
    if x % k + 1 == k {
        assert(x + 1 == (x / k + 1) * k + 0) by (nonlinear_arith)
            requires
                x == k * (x / k) + x % k,
                x % k + 1 == k,
        ;
        lemma_fundamental_div_mod_converse(x + 1, k, x / k + 1, 0);
    } else {
        assert(x + 1 == (x / k) * k + (x % k + 1)) by (nonlinear_arith)
            requires
                x == k * (x / k) + x % k,
        ;
        lemma_fundamental_div_mod_converse(x + 1, k, x / k, x % k + 1);
    }
}

/// Round-robin coverage. Over a pool of size K, a counter that starts at
/// zero resolves pick by pick to the positions 0, 1, ..., K-1 in this order,
/// and the pick after them to position 0 again. From any start, K
/// consecutive counter values resolve to K different positions, and each
/// position of the pool is among them.
pub proof fn lemma_round_robin_coverage(pool: NodePool, start: int)
    requires
        pool@.len() > 0,
        0 <= start,
    ensures
        forall|j: int| 0 <= j < pool@.len() ==> #[trigger] pool.slot(j) == j,
        pool.slot(pool@.len() as int) == 0,
        forall|i: int, j: int|
            0 <= i < j < pool@.len() ==> #[trigger] pool.slot(start + i) != #[trigger] pool.slot(
                start + j,
            ),
        forall|at: int| 0 <= at < pool@.len() ==> #[trigger] pool.window_hits(start, at),
{
    let k = pool@.len() as int;
    assert forall|j: int| 0 <= j < k implies #[trigger] pool.slot(j) == j by {
        lemma_small_mod(j as nat, k as nat);
    }
    lemma_mod_self_0(k);
    assert forall|i: int, j: int| 0 <= i < j < k implies #[trigger] pool.slot(start + i)
        != #[trigger] pool.slot(start + j) by {
        lemma_mod_equivalence(start + j, start + i, k);
        lemma_small_mod((j - i) as nat, k as nat);
    }
    assert forall|at: int| 0 <= at < k implies #[trigger] pool.window_hits(start, at) by {
        let j = (at - start) % k;
        lemma_mod_bound(at - start, k);
        lemma_add_mod_noop_right(start, at - start, k);
        lemma_small_mod(at as nat, k as nat);
        assert(pool.slot(start + j) == at);
    }
}

} // verus!
