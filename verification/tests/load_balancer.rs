use oxidegate::types::BackendServer;
use oxidegate::{
    Balancer, LbAlgorithm, LeastConnectionsStrategy, LoadBalancer, LoadBalancerFactory,
    RoundRobinStrategy, WeightedRoundRobin,
};

fn three_servers() -> Vec<String> {
    vec![
        "server1".to_string(),
        "server2".to_string(),
        "server3".to_string(),
    ]
}

fn weighted(weights: &[Option<u32>]) -> Vec<BackendServer> {
    let mut servers = Vec::new();
    for (i, w) in weights.iter().enumerate() {
        servers.push(BackendServer {
            server: format!("server{}", i + 1),
            weight: *w,
        });
    }
    servers
}

#[test]
fn test_least_connections_strategy() {
    let servers = three_servers();
    let mut strategy = LeastConnectionsStrategy::new(servers.clone());

    for (_, connections) in &strategy.servers {
        assert_eq!(*connections, 0);
    }

    let first = strategy.next().unwrap();
    assert_eq!(first.server, "server1");
    assert_eq!(strategy.servers[0].1, 1);

    let mut selected = strategy.next().unwrap();
    assert_eq!(selected.server, "server2");
    assert_eq!(strategy.servers[1].1, 1);

    strategy.release(&mut selected);
    assert_eq!(strategy.servers[1].1, 0);

    let selected = strategy.next().unwrap();
    assert_eq!(selected.server, "server2");
    assert_eq!(strategy.servers[1].1, 1);

    let selected = strategy.next().unwrap();
    assert_eq!(selected.server, "server3");
    assert_eq!(strategy.servers[2].1, 1);

    let selected = strategy.next().unwrap();
    assert_eq!(selected.server, "server1");
    assert_eq!(strategy.servers[0].1, 2);
}

#[test]
fn test_round_robin_strategy() {
    let servers = three_servers();
    let mut strategy = RoundRobinStrategy::new(servers.clone());

    let selected = strategy.next().unwrap();
    assert_eq!(selected.server, "server1");

    let selected = strategy.next().unwrap();
    assert_eq!(selected.server, "server2");

    let selected = strategy.next().unwrap();
    assert_eq!(selected.server, "server3");

    let selected = strategy.next().unwrap();
    assert_eq!(selected.server, "server1");
}

#[test]
fn test_weighted_round_robin_strategy() {
    let servers = vec![
        BackendServer {
            server: "server1".to_string(),
            weight: Some(1),
        },
        BackendServer {
            server: "server2".to_string(),
            weight: Some(2),
        },
        BackendServer {
            server: "server3".to_string(),
            weight: Some(3),
        },
    ];

    let mut strategy = WeightedRoundRobin::new(servers.clone());

    let expected_servers = vec![
        "server1", "server2", "server2", "server3", "server3", "server3",
    ];

    for expected in expected_servers {
        let selected = strategy.next().unwrap();
        assert_eq!(selected.server, expected);
    }
}

#[test]
fn test_load_balancer_factory() {
    let servers = vec![
        BackendServer {
            server: "server1".to_string(),
            weight: Some(1),
        },
        BackendServer {
            server: "server2".to_string(),
            weight: Some(1),
        },
    ];

    let mut round_robin_lb = LoadBalancerFactory::create(LbAlgorithm::RoundRobin, servers.clone());
    let mut least_connections_lb =
        LoadBalancerFactory::create(LbAlgorithm::LeastConnections, servers.clone());

    let selected = round_robin_lb.next().unwrap();
    assert_eq!(selected.server, "server1");

    let selected = round_robin_lb.next().unwrap();
    assert_eq!(selected.server, "server2");

    let selected = least_connections_lb.next().unwrap();
    assert_eq!(selected.server, "server1");

    let selected = least_connections_lb.next().unwrap();
    assert_eq!(selected.server, "server2");
}

#[test]
fn factory_builds_the_named_algorithm() {
    let servers = weighted(&[Some(1), Some(2)]);
    assert!(matches!(
        LoadBalancerFactory::create(LbAlgorithm::RoundRobin, servers.clone()),
        Balancer::RoundRobin(_)
    ));
    assert!(matches!(
        LoadBalancerFactory::create(LbAlgorithm::LeastConnections, servers.clone()),
        Balancer::LeastConnections(_)
    ));
    let mut wrr = LoadBalancerFactory::create(LbAlgorithm::WeightedRoundRobin, servers);
    assert!(matches!(wrr, Balancer::WeightedRoundRobin(_)));
    let picked: Vec<String> = (0..4).map(|_| wrr.next().unwrap().server).collect();
    assert_eq!(picked, vec!["server1", "server2", "server2", "server1"]);
}

#[test]
fn round_robin_kth_selection_is_k_mod_n() {
    let servers: Vec<String> = (0..5).map(|i| format!("s{}", i)).collect();
    let mut strategy = RoundRobinStrategy::new(servers.clone());
    for k in 0..23usize {
        let selected = strategy.next().unwrap();
        assert_eq!(selected.server, servers[k % 5]);
        assert_eq!(selected.slot(), None);
        assert!(!selected.is_released());
    }
}

#[test]
fn round_robin_returns_to_first_after_n() {
    let mut strategy = RoundRobinStrategy::new(vec!["a".to_string(), "b".to_string()]);
    assert_eq!(strategy.next().unwrap().server, "a");
    assert_eq!(strategy.next().unwrap().server, "b");
    assert_eq!(strategy.next().unwrap().server, "a");
}

#[test]
fn round_robin_release_changes_nothing_but_the_handle() {
    let mut strategy = RoundRobinStrategy::new(three_servers());
    let mut handle = strategy.next().unwrap();
    strategy.release(&mut handle);
    assert!(handle.is_released());
    assert_eq!(handle.server, "server1");
    assert_eq!(strategy.next().unwrap().server, "server2");
}

#[test]
fn weighted_sequence_repeats_identically() {
    let mut strategy = WeightedRoundRobin::new(weighted(&[Some(1), Some(2), Some(3)]));
    let expected = ["server1", "server2", "server2", "server3", "server3", "server3"];
    for round in 0..2 {
        for e in expected.iter() {
            let selected = strategy.next().unwrap();
            assert_eq!(&selected.server, e, "round {}", round);
        }
    }
}

#[test]
fn weighted_next_server_gives_bucket_index() {
    let mut strategy = WeightedRoundRobin::new(weighted(&[Some(2), Some(1)]));
    assert_eq!(strategy.next_server(), Some(0));
    assert_eq!(strategy.next_server(), Some(0));
    assert_eq!(strategy.next_server(), Some(1));
    assert_eq!(strategy.next_server(), Some(0));
}

#[test]
fn weight_defaults_to_one() {
    let mut strategy = WeightedRoundRobin::new(weighted(&[None, Some(2), None]));
    let picked: Vec<String> = (0..5).map(|_| strategy.next().unwrap().server).collect();
    assert_eq!(picked, vec!["server1", "server2", "server2", "server3", "server1"]);
    assert_eq!(weighted(&[None])[0].effective_weight(), 1);
    assert_eq!(weighted(&[Some(7)])[0].effective_weight(), 7);
}

#[test]
fn weighted_skips_zero_weight_and_gives_none_without_weight() {
    let mut strategy = WeightedRoundRobin::new(weighted(&[Some(0), Some(1)]));
    assert_eq!(strategy.next().unwrap().server, "server2");
    assert_eq!(strategy.next().unwrap().server, "server2");
    let mut none = WeightedRoundRobin::new(weighted(&[Some(0), Some(0)]));
    assert!(none.next().is_none());
}

#[test]
fn weighted_handles_large_weights() {
    let mut strategy = WeightedRoundRobin::new(weighted(&[Some(u32::MAX), Some(u32::MAX)]));
    assert_eq!(strategy.next().unwrap().server, "server1");
    assert_eq!(strategy.next_server(), Some(0));
}

#[test]
fn least_connections_visits_each_then_returns_to_released() {
    let mut strategy = LeastConnectionsStrategy::new(three_servers());
    let mut first = strategy.next().unwrap();
    let second = strategy.next().unwrap();
    let third = strategy.next().unwrap();
    assert_eq!(first.server, "server1");
    assert_eq!(second.server, "server2");
    assert_eq!(third.server, "server3");
    assert_eq!(first.slot(), Some(0));
    assert_eq!(second.slot(), Some(1));
    assert_eq!(third.slot(), Some(2));
    strategy.release(&mut first);
    let again = strategy.next().unwrap();
    assert_eq!(again.server, "server1");
}

#[test]
fn least_connections_release_decrements_exactly_once() {
    let mut strategy = LeastConnectionsStrategy::new(three_servers());
    let _a = strategy.next().unwrap();
    let _b = strategy.next().unwrap();
    let _c = strategy.next().unwrap();
    let mut d = strategy.next().unwrap();
    assert_eq!(d.server, "server1");
    assert_eq!(strategy.servers[0].1, 2);
    strategy.release(&mut d);
    assert!(d.is_released());
    assert_eq!(strategy.servers[0].1, 1);
    assert_eq!(strategy.servers[1].1, 1);
    assert_eq!(strategy.servers[2].1, 1);
    strategy.release(&mut d);
    assert_eq!(strategy.servers[0].1, 1);
    assert_eq!(strategy.servers[1].1, 1);
    assert_eq!(strategy.servers[2].1, 1);
}

#[test]
fn least_connections_breaks_ties_by_order() {
    let mut strategy = LeastConnectionsStrategy::new(three_servers());
    strategy.servers[0].1 = 4;
    strategy.servers[1].1 = 2;
    strategy.servers[2].1 = 2;
    let selected = strategy.next().unwrap();
    assert_eq!(selected.server, "server2");
    assert_eq!(strategy.servers[1].1, 3);
    let selected = strategy.next().unwrap();
    assert_eq!(selected.server, "server3");
}

#[test]
fn least_connections_ignores_handles_without_a_counter() {
    let mut strategy = LeastConnectionsStrategy::new(three_servers());
    let _a = strategy.next().unwrap();
    let mut stateless = RoundRobinStrategy::new(three_servers()).next().unwrap();
    strategy.release(&mut stateless);
    assert!(stateless.is_released());
    let mut wider = LeastConnectionsStrategy::new(vec![
        "a".to_string(),
        "b".to_string(),
        "c".to_string(),
        "d".to_string(),
    ]);
    wider.servers[3].1 = 0;
    wider.servers[0].1 = 1;
    wider.servers[1].1 = 1;
    wider.servers[2].1 = 1;
    let mut beyond = wider.next().unwrap();
    assert_eq!(beyond.slot(), Some(3));
    strategy.release(&mut beyond);
    assert!(beyond.is_released());
    assert_eq!(beyond.server_address(), "d");
    assert_eq!(strategy.servers[0].1, 1);
    assert_eq!(strategy.servers[1].1, 0);
    assert_eq!(strategy.servers[2].1, 0);
}

#[test]
fn empty_server_list_selects_nothing() {
    assert!(RoundRobinStrategy::new(Vec::new()).next().is_none());
    assert!(LeastConnectionsStrategy::new(Vec::new()).next().is_none());
    assert!(WeightedRoundRobin::new(Vec::new()).next().is_none());
    assert_eq!(WeightedRoundRobin::new(Vec::new()).next_server(), None);
    let algorithms = [
        LbAlgorithm::RoundRobin,
        LbAlgorithm::LeastConnections,
        LbAlgorithm::WeightedRoundRobin,
    ];
    for algorithm in algorithms {
        let mut balancer = LoadBalancerFactory::create(algorithm, Vec::new());
        assert!(balancer.next().is_none());
        assert!(balancer.next().is_none());
    }
}

#[test]
fn balancer_release_reaches_the_counter() {
    let mut balancer = LoadBalancerFactory::create(
        LbAlgorithm::LeastConnections,
        weighted(&[None, None]),
    );
    let mut handle = balancer.next().unwrap();
    match &balancer {
        Balancer::LeastConnections(lc) => assert_eq!(lc.servers[0].1, 1),
        _ => panic!("not least connections"),
    }
    balancer.release(&mut handle);
    balancer.release(&mut handle);
    match &balancer {
        Balancer::LeastConnections(lc) => {
            assert_eq!(lc.servers[0].1, 0);
            assert_eq!(lc.servers[1].1, 0);
        }
        _ => panic!("not least connections"),
    }
}
