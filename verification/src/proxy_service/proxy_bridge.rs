//! The router: an ordered table of frontends, each with its handler. The
//! first frontend with a pattern that matches the request's path gets the
//! request.

use vstd::prelude::*;
use vstd::string::*;
use vstd::utf8::encode_utf8;
use crate::config::{is_backend_named, is_first_unbound, Config, ConfigError};
use crate::load_balancer::factory::{
    is_fresh,
    is_released_form,
    Balancer,
    LoadBalancer,
    LoadBalancerFactory,
    SelectedLB,
};
use crate::load_balancer::weighted_round_robin_lb::{backend_addresses, weights_of};
use crate::types::{Backend, BackendServer, Frontend};
use super::proxy_handler::{
    is_dispatch,
    is_finished,
    is_reply,
    Dispatch,
    ForwardOutcome,
    ProxyHandler,
    Reply,
};

verus! {

/// The status that answers a request whose path no frontend matches.
pub const NOT_FOUND: u16 = 404;

/// The byte `/`.
pub const SLASH: u8 = 0x2F;

/// The byte `*`.
pub const STAR: u8 = 0x2A;

/// The pattern ends in `/*`.
pub open spec fn is_wildcard(pattern: Seq<u8>) -> bool {
    &&& pattern.len() >= 2
    &&& pattern[pattern.len() - 2] == SLASH
    &&& pattern[pattern.len() - 1] == STAR
}

/// The pattern is `/*`.
pub open spec fn is_catch_all(pattern: Seq<u8>) -> bool {
    pattern =~= seq![SLASH, STAR]
}

/// Whether a pattern matches a path, both as UTF-8 bytes: `/*` matches any
/// path; a pattern that ends in `/*` matches the paths that start with the
/// pattern less its `*`; any other pattern matches the path equal to it.
pub open spec fn pattern_matches(pattern: Seq<u8>, path: Seq<u8>) -> bool {
    if is_catch_all(pattern) {
        true
    } else if is_wildcard(pattern) {
        pattern.subrange(0, pattern.len() - 1).is_prefix_of(path)
    } else {
        path == pattern
    }
}

/// The patterns of a frontend as UTF-8 bytes, in configured order.
pub open spec fn patterns_of(frontend: Frontend) -> Seq<Seq<u8>> {
    Seq::new(frontend.path_prefix@.len(), |k: int| encode_utf8(frontend.path_prefix@[k]@))
}

/// One of the patterns matches the path.
pub open spec fn any_pattern_matches(patterns: Seq<Seq<u8>>, path: Seq<u8>) -> bool {
    exists|k: int| 0 <= k < patterns.len() && pattern_matches(#[trigger] patterns[k], path)
}

/// `/*` matches every path.
pub proof fn lemma_catch_all_matches(path: Seq<u8>)
    ensures
        pattern_matches(seq![SLASH, STAR], path),
{
}

/// A pattern `<prefix>/*` other than `/*` matches exactly the paths that
/// start with `<prefix>/`.
pub proof fn lemma_wildcard_matches_prefix(prefix: Seq<u8>, path: Seq<u8>)
    requires
        prefix.len() > 0,
    ensures
        pattern_matches(prefix + seq![SLASH, STAR], path) == (prefix + seq![SLASH]).is_prefix_of(
            path,
        ),
{
    let pattern = prefix + seq![SLASH, STAR];
    assert(is_wildcard(pattern));
    assert(!is_catch_all(pattern));
    assert(pattern.subrange(0, pattern.len() - 1) =~= prefix + seq![SLASH]);
}

/// A pattern that does not end in `/*` matches exactly the path equal to
/// it.
pub proof fn lemma_literal_matches_itself(pattern: Seq<u8>, path: Seq<u8>)
    requires
        !is_wildcard(pattern),
    ensures
        pattern_matches(pattern, path) == (path == pattern),
{
}

/// Whether the first `n` bytes of `prefix` start `path`.
fn starts_with_bytes(path: &[u8], prefix: &[u8], n: usize) -> (r: bool)
    requires
        n <= prefix@.len(),
    ensures
        r == prefix@.subrange(0, n as int).is_prefix_of(path@),
{
    if path.len() < n {
        return false;
    }
    let mut i: usize = 0;
    while i < n
        invariant
            i <= n <= prefix@.len(),
            n <= path@.len(),
            forall|j: int| 0 <= j < i ==> path@[j] == prefix@[j],
        decreases n - i,
    {
        if path[i] != prefix[i] {
            assert(prefix@.subrange(0, n as int)[i as int] != path@.subrange(0, n as int)[i as int]);
            return false;
        }
        i += 1;
    }
    assert(prefix@.subrange(0, n as int) =~= path@.subrange(0, n as int));
    true
}

/// Whether a pattern matches a path.
pub fn matches_pattern(pattern: &str, path: &str) -> (r: bool)
    ensures
        r == pattern_matches(pattern.spec_bytes(), path.spec_bytes()),
{
    let p: &[u8] = pattern.as_bytes();
    let q: &[u8] = path.as_bytes();
    let n: usize = p.len();
    if n >= 2 && p[n - 2] == SLASH && p[n - 1] == STAR {
        if n == 2 {
            true
        } else {
            starts_with_bytes(q, p, n - 1)
        }
    } else if q.len() == n {
        let same: bool = starts_with_bytes(q, p, n);
        assert(p@.subrange(0, n as int) =~= p@);
        assert(q@.subrange(0, n as int) =~= q@);
        same
    } else {
        false
    }
}

impl Frontend {
    /// Whether one of this frontend's patterns matches the path.
    pub fn matches(&self, path: &str) -> (r: bool)
        ensures
            r == any_pattern_matches(patterns_of(*self), path.spec_bytes()),
    {
        let mut k: usize = 0;
        while k < self.path_prefix.len()
            invariant
                k <= self.path_prefix@.len(),
                forall|j: int|
                    0 <= j < k ==> !pattern_matches(
                        #[trigger] patterns_of(*self)[j],
                        path.spec_bytes(),
                    ),
            decreases self.path_prefix@.len() - k,
        {
            if matches_pattern(self.path_prefix[k].as_str(), path) {
                assert(pattern_matches(patterns_of(*self)[k as int], path.spec_bytes()));
                return true;
            }
            k += 1;
        }
        false
    }
}

/// `entry` is the table's entry for `frontend`: the frontend itself, and a
/// handler over a fresh load balancer for the first backend group with the
/// name that the frontend gives.
pub open spec fn is_entry_for(
    backends: Seq<Backend>,
    frontend: Frontend,
    entry: (Frontend, ProxyHandler),
) -> bool {
    &&& entry.0.path_prefix@ == frontend.path_prefix@
    &&& entry.0.backend == frontend.backend
    &&& exists|k: int|
        0 <= k < backends.len() && is_backend_named(backends, frontend.backend@, Some(k as usize))
            && is_fresh(
            (#[trigger] backends[k]).lb_algorithm,
            backends[k].servers@,
            entry.1.load_balancer,
        )
}

/// A copy of a server list.
fn copy_servers(servers: &Vec<BackendServer>) -> (copy: Vec<BackendServer>)
    ensures
        copy@.len() == servers@.len(),
        forall|j: int|
            0 <= j < copy@.len() ==> (#[trigger] copy@[j]).server == servers@[j].server && copy@[j].weight
                == servers@[j].weight,
{
    let mut copy: Vec<BackendServer> = Vec::new();
    let mut j: usize = 0;
    while j < servers.len()
        invariant
            j <= servers@.len(),
            copy@.len() == j,
            forall|k: int|
                0 <= k < j ==> (#[trigger] copy@[k]).server == servers@[k].server && copy@[k].weight
                    == servers@[k].weight,
        decreases servers@.len() - j,
    {
        copy.push(BackendServer { server: servers[j].server.clone(), weight: servers[j].weight });
        j += 1;
    }
    copy
}

/// A copy of a frontend.
fn copy_frontend(frontend: &Frontend) -> (copy: Frontend)
    ensures
        copy.path_prefix@ == frontend.path_prefix@,
        copy.backend == frontend.backend,
{
    let mut patterns: Vec<String> = Vec::new();
    let mut j: usize = 0;
    while j < frontend.path_prefix.len()
        invariant
            j <= frontend.path_prefix@.len(),
            patterns@.len() == j,
            forall|k: int| 0 <= k < j ==> patterns@[k] == frontend.path_prefix@[k],
        decreases frontend.path_prefix@.len() - j,
    {
        patterns.push(frontend.path_prefix[j].clone());
        j += 1;
    }
    assert(patterns@ =~= frontend.path_prefix@);
    Frontend { path_prefix: patterns, backend: frontend.backend.clone() }
}

/// The route table: frontends in configured order, each with its handler.
pub struct ProxyBridge {
    proxy_handlers: Vec<(Frontend, ProxyHandler)>,
}

impl ProxyBridge {
    /// The table's entries in configured order.
    pub closed spec fn routes(&self) -> Seq<(Frontend, ProxyHandler)> {
        self.proxy_handlers@
    }

    /// Every handler's load balancer is in order.
    pub open spec fn inv(&self) -> bool {
        forall|i: int|
            0 <= i < self.routes().len() ==> (#[trigger] self.routes()[i]).1.load_balancer.inv()
    }

    /// The frontend at `i` matches the path.
    pub open spec fn matches_at(&self, i: int, path: Seq<u8>) -> bool {
        any_pattern_matches(patterns_of(self.routes()[i].0), path)
    }

    /// `r` is the route of the path: the first frontend that matches it, or
    /// none where no frontend does.
    pub open spec fn is_route(&self, path: Seq<u8>, r: Option<usize>) -> bool {
        match r {
            Some(i) => {
                &&& i < self.routes().len()
                &&& self.matches_at(i as int, path)
                &&& forall|j: int| 0 <= j < i ==> !self.matches_at(j, path)
            },
            None => forall|j: int| 0 <= j < self.routes().len() ==> !self.matches_at(j, path),
        }
    }

    /// Every entry but the one at `i` is as it was, and that one keeps its
    /// frontend.
    pub open spec fn same_but_handler(&self, before: &Self, i: int) -> bool {
        &&& self.routes().len() == before.routes().len()
        &&& forall|j: int|
            0 <= j < self.routes().len() && j != i ==> #[trigger] self.routes()[j]
                == before.routes()[j]
        &&& 0 <= i < self.routes().len() ==> self.routes()[i].0 == before.routes()[i].0
    }

    /// A router over the table.
    pub fn new(proxy_handlers: Vec<(Frontend, ProxyHandler)>) -> (r: Self)
        ensures
            r.routes() == proxy_handlers@,
    {
        ProxyBridge { proxy_handlers }
    }

    /// The route table of a configuration: one entry per frontend, in
    /// configured order, each with a handler over a fresh load balancer
    /// for the frontend's backend group. A frontend that names no
    /// configured group is an error, and the first such frontend is
    /// reported.
    pub fn from_config(config: &Config) -> (r: Result<Self, ConfigError>)
        ensures
            match r {
                Ok(bridge) => {
                    &&& is_first_unbound(*config, None)
                    &&& bridge.inv()
                    &&& bridge.routes().len() == config.frontends@.len()
                    &&& forall|i: int|
                        0 <= i < bridge.routes().len() ==> is_entry_for(
                            config.backends@,
                            config.frontends@[i],
                            #[trigger] bridge.routes()[i],
                        )
                },
                Err(ConfigError::UnknownBackend { frontend }) => is_first_unbound(
                    *config,
                    Some(frontend),
                ),
                Err(ConfigError::MissingTlsPaths) => false,
            },
    {
        let mut table: Vec<(Frontend, ProxyHandler)> = Vec::new();
        let mut i: usize = 0;
        while i < config.frontends.len()
            invariant
                i <= config.frontends@.len(),
                table@.len() == i,
                forall|j: int|
                    0 <= j < i ==> !is_backend_named(
                        config.backends@,
                        (#[trigger] config.frontends@[j]).backend@,
                        None,
                    ),
                forall|j: int|
                    0 <= j < i ==> is_entry_for(
                        config.backends@,
                        config.frontends@[j],
                        #[trigger] table@[j],
                    ) && table@[j].1.load_balancer.inv(),
            decreases config.frontends@.len() - i,
        {
            match config.find_backend(&config.frontends[i].backend) {
                None => {
                    return Err(ConfigError::UnknownBackend { frontend: i });
                },
                Some(k) => {
                    let backend: &Backend = &config.backends[k];
                    let servers: Vec<BackendServer> = copy_servers(&backend.servers);
                    assert(backend_addresses(servers@) =~= backend_addresses(backend.servers@));
                    assert(weights_of(servers@) =~= weights_of(backend.servers@));
                    let balancer: Balancer = LoadBalancerFactory::create(
                        backend.lb_algorithm,
                        servers,
                    );
                    let entry: (Frontend, ProxyHandler) = (
                        copy_frontend(&config.frontends[i]),
                        ProxyHandler::new(balancer),
                    );
                    assert(is_fresh(
                        config.backends@[k as int].lb_algorithm,
                        config.backends@[k as int].servers@,
                        entry.1.load_balancer,
                    ));
                    assert(is_entry_for(config.backends@, config.frontends@[i as int], entry));
                    assert(config.backends@[k as int].name@ == config.frontends@[i as int].backend@);
                    table.push(entry);
                },
            }
            i += 1;
        }
        Ok(ProxyBridge { proxy_handlers: table })
    }

    /// The number of entries.
    pub fn len(&self) -> (n: usize)
        ensures
            n == self.routes().len(),
    {
        self.proxy_handlers.len()
    }

    /// The route of a path: the index of the first frontend that matches
    /// it, if any.
    pub fn find_route(&self, path: &str) -> (r: Option<usize>)
        ensures
            self.is_route(path.spec_bytes(), r),
    {
        let mut i: usize = 0;
        while i < self.proxy_handlers.len()
            invariant
                i <= self.routes().len(),
                forall|j: int| 0 <= j < i ==> !self.matches_at(j, path.spec_bytes()),
            decreases self.routes().len() - i,
        {
            if self.proxy_handlers[i].0.matches(path) {
                return Some(i);
            }
            i += 1;
        }
        None
    }

    /// Routes a request: the first frontend that matches the path hands the
    /// request to its handler, whose dispatch is returned with the route;
    /// where no frontend matches, the answer is 404 and nothing changes.
    pub fn determine(&mut self, path: &str, path_and_query: Option<&str>) -> (r: (
        Option<usize>,
        Dispatch,
    ))
        requires
            old(self).inv(),
        ensures
            final(self).inv(),
            old(self).is_route(path.spec_bytes(), r.0),
            (forall|j: int|
                0 <= j < old(self).routes().len() ==> !old(self).matches_at(j, path.spec_bytes()))
                ==> r.1 == (Dispatch::Respond { status: NOT_FOUND }),
            match r.0 {
                Some(i) => final(self).same_but_handler(old(self), i as int) && is_dispatch(
                    old(self).routes()[i as int].1,
                    final(self).routes()[i as int].1,
                    path_and_query,
                    r.1,
                ),
                None => r.1 == (Dispatch::Respond { status: NOT_FOUND }) && final(self).routes()
                    == old(self).routes(),
            },
    {
        match self.find_route(path) {
            Some(i) => {
                assert(self.routes()[i as int].1.load_balancer.inv());
                let d: Dispatch = self.proxy_handlers[i].1.handle(path_and_query);
                assert(forall|j: int|
                    0 <= j < self.routes().len() ==> #[trigger] self.routes()[j] == (if j == i {
                        self.routes()[i as int]
                    } else {
                        old(self).routes()[j]
                    }));
                (Some(i), d)
            },
            None => (None, Dispatch::Respond { status: NOT_FOUND }),
        }
    }

    /// Answers a forward's outcome through the handler of the route that
    /// dispatched the request.
    pub fn conclude(&mut self, route: usize, handle: SelectedLB, outcome: ForwardOutcome) -> (r:
        Reply)
        requires
            old(self).inv(),
            route < old(self).routes().len(),
        ensures
            final(self).inv(),
            final(self).same_but_handler(old(self), route as int),
            is_reply(
                old(self).routes()[route as int].1,
                final(self).routes()[route as int].1,
                handle,
                outcome,
                r,
            ),
    {
        assert(self.routes()[route as int].1.load_balancer.inv());
        let r: Reply = self.proxy_handlers[route].1.conclude(handle, outcome);
        assert(forall|j: int|
            0 <= j < self.routes().len() ==> #[trigger] self.routes()[j] == (if j == route {
                self.routes()[route as int]
            } else {
                old(self).routes()[j]
            }));
        r
    }

    /// Releases the handle of a relayed response through the handler of the
    /// route that dispatched the request.
    pub fn finish(&mut self, route: usize, handle: &mut SelectedLB)
        requires
            old(self).inv(),
            route < old(self).routes().len(),
        ensures
            final(self).inv(),
            final(self).same_but_handler(old(self), route as int),
            is_finished(
                old(self).routes()[route as int].1,
                final(self).routes()[route as int].1,
                *old(handle),
            ),
            is_released_form(*old(handle), *final(handle)),
    {
        assert(self.routes()[route as int].1.load_balancer.inv());
        self.proxy_handlers[route].1.finish(handle);
        assert(forall|j: int|
            0 <= j < self.routes().len() ==> #[trigger] self.routes()[j] == (if j == route {
                self.routes()[route as int]
            } else {
                old(self).routes()[j]
            }));
    }
}

} // verus!
