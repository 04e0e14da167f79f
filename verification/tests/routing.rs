//! The round-robin router and the worker pool.

use auria::models::Tier;
use auria::node_client::NodeClient;
use auria::routing::{NodePool, NodeRouter, RoundRobinRouter};

fn pool_of(k: usize) -> NodePool {
    let mut nodes = Vec::new();
    for i in 0..k {
        nodes.push(NodeClient::new(&format!("http://10.0.0.{}:8080", i + 1)).unwrap());
    }
    NodePool::new(nodes).unwrap()
}

#[test]
fn empty_pool_is_refused() {
    assert!(NodePool::new(Vec::new()).is_none());
}

#[test]
fn pool_keeps_its_nodes_in_order() {
    let pool = pool_of(3);
    assert_eq!(pool.len(), 3);
    assert_eq!(pool.nodes().len(), 3);
    assert_eq!(pool.nodes()[0].base(), "http://10.0.0.1:8080/");
    assert_eq!(pool.nodes()[1].base(), "http://10.0.0.2:8080/");
    assert_eq!(pool.nodes()[2].base(), "http://10.0.0.3:8080/");
}

#[test]
fn pool_get_reduces_modulo_size() {
    let pool = pool_of(3);
    assert_eq!(pool.get(0).base(), "http://10.0.0.1:8080/");
    assert_eq!(pool.get(1).base(), "http://10.0.0.2:8080/");
    assert_eq!(pool.get(2).base(), "http://10.0.0.3:8080/");
    assert_eq!(pool.get(3).base(), "http://10.0.0.1:8080/");
    assert_eq!(pool.get(7).base(), "http://10.0.0.2:8080/");
    assert_eq!(pool.get(usize::MAX).base(), pool.nodes()[usize::MAX % 3].base());
}

#[test]
fn pool_wraps_around() {
    for k in 1..6usize {
        let pool = pool_of(k);
        for i in 0..20usize {
            assert_eq!(pool.get(i).base(), pool.get(i + k).base());
        }
    }
}

#[test]
fn pool_of_one_always_gives_its_node() {
    let pool = pool_of(1);
    for i in [0usize, 1, 2, 99, usize::MAX] {
        assert_eq!(pool.get(i).base(), "http://10.0.0.1:8080/");
    }
}

#[test]
fn round_robin_counts_from_zero() {
    let router = RoundRobinRouter::new();
    for expected in 0..10usize {
        assert_eq!(router.pick(Tier::Standard), expected);
    }
}

#[test]
fn round_robin_ignores_the_tier() {
    let router = RoundRobinRouter::default();
    assert_eq!(router.pick(Tier::Nano), 0);
    assert_eq!(router.pick(Tier::Max), 1);
    assert_eq!(router.pick(Tier::Pro), 2);
    assert_eq!(router.pick(Tier::Standard), 3);
}

#[test]
fn round_robin_covers_the_pool() {
    for k in 1..6usize {
        let pool = pool_of(k);
        let router = RoundRobinRouter::new();
        for expected in 0..k {
            let idx = router.pick(Tier::Standard);
            assert_eq!(idx % pool.len(), expected);
            assert_eq!(pool.get(idx).base(), pool.nodes()[expected].base());
        }
        let again = router.pick(Tier::Standard);
        assert_eq!(again % pool.len(), 0);
        assert_eq!(pool.get(again).base(), pool.nodes()[0].base());
    }
}

#[test]
fn round_robin_is_shared_between_its_users() {
    let router = std::sync::Arc::new(RoundRobinRouter::new());
    let other = router.clone();
    let mut seen = Vec::new();
    for _ in 0..50 {
        seen.push(router.pick(Tier::Standard));
        seen.push(other.pick(Tier::Pro));
    }
    let expected: Vec<usize> = (0..100).collect();
    assert_eq!(seen, expected);
}
