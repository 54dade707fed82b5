use oxidegate::proxy_service::proxy_handler::{
    Dispatch, ForwardOutcome, ProxyHandler, Reply, BAD_GATEWAY, FORWARD_TIMEOUT_SECS,
    GATEWAY_TIMEOUT, SERVICE_UNAVAILABLE,
};
use oxidegate::types::BackendServer;
use oxidegate::{Balancer, LbAlgorithm, LoadBalancer, LoadBalancerFactory, SelectedLB};

fn handler(algorithm: LbAlgorithm, addresses: &[&str]) -> ProxyHandler {
    let servers = addresses
        .iter()
        .map(|a| BackendServer { server: a.to_string(), weight: None })
        .collect();
    ProxyHandler::new(LoadBalancerFactory::create(algorithm, servers))
}

fn counts(h: &ProxyHandler) -> Vec<usize> {
    match &h.load_balancer {
        Balancer::LeastConnections(lc) => lc.servers.iter().map(|s| s.1).collect(),
        _ => Vec::new(),
    }
}

fn forward(d: Dispatch) -> (String, SelectedLB, u64) {
    match d {
        Dispatch::Forward { target, handle, timeout_secs } => (target, handle, timeout_secs),
        Dispatch::Respond { status } => panic!("answered {}", status),
    }
}

#[test]
fn statuses_and_budget() {
    assert_eq!(SERVICE_UNAVAILABLE, 503);
    assert_eq!(BAD_GATEWAY, 502);
    assert_eq!(GATEWAY_TIMEOUT, 504);
    assert_eq!(FORWARD_TIMEOUT_SECS, 5);
}

#[test]
fn backend_uri_is_address_then_path_and_query() {
    assert_eq!(
        ProxyHandler::build_backend_uri("http://10.0.0.1:8080", Some("/a/b?c=d&e=f")),
        "http://10.0.0.1:8080/a/b?c=d&e=f"
    );
    assert_eq!(ProxyHandler::build_backend_uri("http://h", None), "http://h/");
    assert_eq!(ProxyHandler::build_backend_uri("", Some("")), "");
}

#[test]
fn no_server_answers_service_unavailable() {
    for algorithm in [
        LbAlgorithm::RoundRobin,
        LbAlgorithm::LeastConnections,
        LbAlgorithm::WeightedRoundRobin,
    ] {
        let mut h = handler(algorithm, &[]);
        assert!(matches!(h.handle(Some("/x")), Dispatch::Respond { status: 503 }));
    }
}

#[test]
fn handle_forwards_to_the_selected_server() {
    let mut h = handler(LbAlgorithm::RoundRobin, &["http://a:1", "http://b:2"]);
    let (target, handle, timeout) = forward(h.handle(Some("/p?q=1")));
    assert_eq!(target, "http://a:1/p?q=1");
    assert_eq!(handle.server, "http://a:1");
    assert_eq!(handle.slot(), None);
    assert!(!handle.is_released());
    assert_eq!(timeout, 5);
    let (target, _, _) = forward(h.handle(None));
    assert_eq!(target, "http://b:2/");
}

#[test]
fn target_that_is_no_uri_answers_bad_gateway_and_releases() {
    let mut h = handler(LbAlgorithm::LeastConnections, &["http://bad host", "http://b:2"]);
    let d = h.handle(Some("/x"));
    assert!(matches!(d, Dispatch::Respond { status: 502 }));
    assert_eq!(counts(&h), vec![0, 0]);
    let mut ok = handler(LbAlgorithm::LeastConnections, &["http://good-host:80"]);
    let (target, _, _) = forward(ok.handle(Some("/x")));
    assert_eq!(target, "http://good-host:80/x");
    assert_eq!(counts(&ok), vec![1]);
}

#[test]
fn plan_forward_follows_the_check() {
    let mut h = handler(LbAlgorithm::LeastConnections, &["http://a:1"]);
    let handle = h.load_balancer.next().unwrap();
    assert_eq!(counts(&h), vec![1]);
    let d = h.plan_forward(handle, "http://a:1/x".to_string(), true);
    let (target, handle, timeout) = forward(d);
    assert_eq!(target, "http://a:1/x");
    assert_eq!(timeout, 5);
    assert_eq!(counts(&h), vec![1]);
    let d = h.plan_forward(handle, "http://a:1/x".to_string(), false);
    assert!(matches!(d, Dispatch::Respond { status: 502 }));
    assert_eq!(counts(&h), vec![0]);
}

#[test]
fn failed_forward_answers_bad_gateway_and_restores_the_count() {
    let mut h = handler(LbAlgorithm::LeastConnections, &["http://127.0.0.1:1", "http://b:2"]);
    let baseline = counts(&h);
    let (_, handle, _) = forward(h.handle(Some("/x")));
    assert_eq!(counts(&h), vec![1, 0]);
    let reply = h.conclude(handle, ForwardOutcome::Failed);
    assert!(matches!(reply, Reply::Status { status: 502 }));
    assert_eq!(counts(&h), baseline);
}

#[test]
fn timed_out_forward_answers_gateway_timeout_and_restores_the_count() {
    let mut h = handler(LbAlgorithm::LeastConnections, &["http://slow:1", "http://b:2"]);
    let (_, _held, _) = forward(h.handle(Some("/x")));
    let baseline = counts(&h);
    assert_eq!(baseline, vec![1, 0]);
    let (target, handle, _) = forward(h.handle(Some("/y")));
    assert_eq!(target, "http://b:2/y");
    assert_eq!(counts(&h), vec![1, 1]);
    let reply = h.conclude(handle, ForwardOutcome::TimedOut);
    assert!(matches!(reply, Reply::Status { status: 504 }));
    assert_eq!(counts(&h), baseline);
}

#[test]
fn answered_forward_is_relayed_and_released_on_finish_only() {
    let mut h = handler(LbAlgorithm::LeastConnections, &["http://a:1"]);
    let (_, handle, _) = forward(h.handle(Some("/x")));
    let reply = h.conclude(handle, ForwardOutcome::Responded);
    let mut handle = match reply {
        Reply::Relay { handle } => handle,
        Reply::Status { status } => panic!("answered {}", status),
    };
    assert!(!handle.is_released());
    assert_eq!(counts(&h), vec![1]);
    h.finish(&mut handle);
    assert!(handle.is_released());
    assert_eq!(counts(&h), vec![0]);
    h.finish(&mut handle);
    assert_eq!(counts(&h), vec![0]);
}

#[test]
fn stateless_strategies_have_nothing_to_release() {
    let mut h = handler(LbAlgorithm::WeightedRoundRobin, &["http://a:1", "http://b:2"]);
    let (_, handle, _) = forward(h.handle(Some("/x")));
    assert!(matches!(h.conclude(handle, ForwardOutcome::TimedOut), Reply::Status { status: 504 }));
    let (target, _, _) = forward(h.handle(Some("/x")));
    assert_eq!(target, "http://b:2/x");
}
