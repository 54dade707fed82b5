//! The forwarding decisions of one frontend: which server a request goes
//! to, under which time budget, and what answers each outcome of the
//! forward.
//!
//! The network exchange itself is the caller's: `handle` says what to do,
//! the caller does it and reports the outcome to `conclude`.

use vstd::prelude::*;
use vstd::string::*;
use crate::load_balancer::factory::{is_released_form, Balancer, LoadBalancer, SelectedLB};
use crate::load_balancer::least_connections_lb::{
    counts_after_release,
    counts_after_select,
    lemma_release_restores,
};
use crate::types::LbAlgorithm;

verus! {

/// The status that answers a request when no server can be selected.
pub const SERVICE_UNAVAILABLE: u16 = 503;

/// The status that answers a request whose forward failed.
pub const BAD_GATEWAY: u16 = 502;

/// The status that answers a request whose forward ran out of time.
pub const GATEWAY_TIMEOUT: u16 = 504;

/// The time budget of one forward, in seconds: it covers sending the
/// request and receiving the response's head.
pub const FORWARD_TIMEOUT_SECS: u64 = 5;

/// Whether `hyper::Uri` accepts the text as a URI. What the parser accepts
/// is not written out here: this is only a name for its answer.
pub uninterp spec fn uri_accepts(target: Seq<char>) -> bool;

/// Parses the text with `hyper::Uri`'s `FromStr` impl and tells whether the
/// parser returned `Ok`.
///
/// Trusted, not proved: the parser reads the bytes of the text and nothing
/// else, so its answer is a function of the text. The contract claims no
/// more than that, by giving the answer the name `uri_accepts`.
#[verifier::external_body]
fn parses_as_uri(target: &str) -> (ok: bool)
    ensures
        ok == uri_accepts(target@),
{
    target.parse::<hyper::Uri>().is_ok()
}

/// How a forward ended.
#[derive(Debug, Clone, Copy, PartialEq, Eq, Structural)]
pub enum ForwardOutcome {
    /// The backend answered within the budget.
    Responded,
    /// The backend could not be reached, or broke the protocol.
    Failed,
    /// The budget ran out.
    TimedOut,
}

/// What to do with a request.
#[derive(Debug)]
pub enum Dispatch {
    /// Answer with this status and an empty body; nothing is forwarded.
    Respond { status: u16 },
    /// Forward to `target` with method, headers and body unchanged, within
    /// `timeout_secs`, and report the outcome together with `handle`.
    Forward { target: String, handle: SelectedLB, timeout_secs: u64 },
}

/// What answers the request once the forward has ended.
#[derive(Debug)]
pub enum Reply {
    /// Relay the backend's status, headers and body unchanged. The handle
    /// rides on the response and is released once the response has been
    /// delivered in full.
    Relay { handle: SelectedLB },
    /// Answer with this status and an empty body. The handle has been
    /// released.
    Status { status: u16 },
}

/// What is appended to the server's address: the request's path and query,
/// or `/` where the request has none.
pub open spec fn request_suffix(path_and_query: Option<&str>) -> Seq<char> {
    match path_and_query {
        Some(p) => p@,
        None => seq!['/'],
    }
}

/// The slot that a selection's handle carries: the chosen server's index
/// where the algorithm counts active selections, else none.
pub open spec fn slot_of_selection(algorithm: LbAlgorithm, choice: int) -> Option<usize> {
    match algorithm {
        LbAlgorithm::LeastConnections => Some(choice as usize),
        _ => None,
    }
}

/// The status that answers a forward's outcome, where the core produces
/// one; a backend's response is relayed instead.
pub open spec fn status_of(outcome: ForwardOutcome) -> Option<u16> {
    match outcome {
        ForwardOutcome::Responded => None,
        ForwardOutcome::Failed => Some(BAD_GATEWAY),
        ForwardOutcome::TimedOut => Some(GATEWAY_TIMEOUT),
    }
}

/// The counters once a forward's outcome is known: released at once unless
/// the backend answered.
pub open spec fn counts_after_outcome(
    counts: Seq<usize>,
    slot: Option<usize>,
    released: bool,
    outcome: ForwardOutcome,
) -> Seq<usize> {
    match outcome {
        ForwardOutcome::Responded => counts,
        _ => counts_after_release(counts, slot, released),
    }
}

/// `d` is the dispatch of a request with the given path and query, by a
/// handler that goes from `pre` to `post`.
pub open spec fn is_dispatch(
    pre: ProxyHandler,
    post: ProxyHandler,
    path_and_query: Option<&str>,
    d: Dispatch,
) -> bool {
    &&& post.load_balancer.inv()
    &&& post.load_balancer.same_servers(&pre.load_balancer)
    &&& post.load_balancer.position() == pre.load_balancer.position_after_select()
    &&& match pre.load_balancer.choice() {
        None => {
            &&& d == (Dispatch::Respond { status: SERVICE_UNAVAILABLE })
            &&& post.load_balancer.counts() == pre.load_balancer.counts()
        },
        Some(i) => {
            let address = pre.load_balancer.addresses()[i];
            let target = address + request_suffix(path_and_query);
            if uri_accepts(target) {
                &&& d matches Dispatch::Forward { target: t, handle, timeout_secs }
                &&& t@ == target
                &&& timeout_secs == FORWARD_TIMEOUT_SECS
                &&& handle.address() == address
                &&& handle.slot() == slot_of_selection(pre.load_balancer.algorithm(), i)
                &&& !handle.is_released()
                &&& post.load_balancer.counts() == counts_after_select(pre.load_balancer.counts())
            } else {
                &&& d == (Dispatch::Respond { status: BAD_GATEWAY })
                &&& post.load_balancer.counts() == pre.load_balancer.counts()
            }
        },
    }
}

/// `r` is the reply to a forward's outcome, by a handler that goes from
/// `pre` to `post`.
pub open spec fn is_reply(
    pre: ProxyHandler,
    post: ProxyHandler,
    handle: SelectedLB,
    outcome: ForwardOutcome,
    r: Reply,
) -> bool {
    &&& post.load_balancer.inv()
    &&& post.load_balancer.same_servers(&pre.load_balancer)
    &&& post.load_balancer.position() == pre.load_balancer.position()
    &&& post.load_balancer.counts() == counts_after_outcome(
        pre.load_balancer.counts(),
        handle.slot(),
        handle.is_released(),
        outcome,
    )
    &&& match status_of(outcome) {
        None => r == (Reply::Relay { handle }),
        Some(status) => r == (Reply::Status { status }),
    }
}

/// `post` is the handler `pre` after the release of `handle`.
pub open spec fn is_finished(pre: ProxyHandler, post: ProxyHandler, handle: SelectedLB) -> bool {
    &&& post.load_balancer.inv()
    &&& post.load_balancer.same_servers(&pre.load_balancer)
    &&& post.load_balancer.position() == pre.load_balancer.position()
    &&& post.load_balancer.counts() == counts_after_release(
        pre.load_balancer.counts(),
        handle.slot(),
        handle.is_released(),
    )
}

/// The forwarding logic of one frontend, over its backend group's
/// load balancer.
pub struct ProxyHandler {
    pub load_balancer: Balancer,
}

impl ProxyHandler {
    /// A handler over `balancer`.
    pub fn new(balancer: Balancer) -> (r: Self)
        ensures
            r.load_balancer == balancer,
    {
        ProxyHandler { load_balancer: balancer }
    }

    /// The backend target: the server's address with the request's path and
    /// query appended unmodified, or with `/` where the request has none.
    pub fn build_backend_uri(backend: &str, path_and_query: Option<&str>) -> (target: String)
        ensures
            target@ == backend@ + request_suffix(path_and_query),
    {
        let suffix: &str = match path_and_query {
            Some(p) => p,
            None => {
                proof {
                    reveal_strlit("/");
                }
                assert("/"@ =~= seq!['/']);
                "/"
            },
        };
        let mut target: String = backend.to_owned();
        target.append(suffix);
        target
    }

    /// Selects a server for a request and says what to do with the request:
    /// answer 503 where no server can be selected; forward to the selected
    /// server's address with the path and query appended, within the fixed
    /// budget; answer 502, with the selection released at once, where that
    /// target is no URI.
    pub fn handle(&mut self, path_and_query: Option<&str>) -> (d: Dispatch)
        requires
            old(self).load_balancer.inv(),
        ensures
            is_dispatch(*old(self), *final(self), path_and_query, d),
    {
        match self.load_balancer.next() {
            Some(handle) => {
                let target: String = Self::build_backend_uri(handle.server_address(), path_and_query);
                let parses: bool = parses_as_uri(target.as_str());
                proof {
                    assert(old(self).load_balancer.counts().len() <= usize::MAX) by {
                        old(self).load_balancer.lemma_counts_bounded();
                    }
                    lemma_release_restores(old(self).load_balancer.counts());
                }
                self.plan_forward(handle, target, parses)
            },
            None => Dispatch::Respond { status: SERVICE_UNAVAILABLE },
        }
    }

    /// The dispatch for a selection whose target has been checked: forward
    /// where the target is a URI, else release the selection and answer 502.
    pub fn plan_forward(&mut self, handle: SelectedLB, target: String, parses: bool) -> (d: Dispatch)
        requires
            old(self).load_balancer.inv(),
        ensures
            parses ==> d == (Dispatch::Forward { target, handle, timeout_secs: FORWARD_TIMEOUT_SECS })
                && *final(self) == *old(self),
            !parses ==> d == (Dispatch::Respond { status: BAD_GATEWAY }) && is_finished(
                *old(self),
                *final(self),
                handle,
            ),
    {
        if parses {
            Dispatch::Forward { target, handle, timeout_secs: FORWARD_TIMEOUT_SECS }
        } else {
            let mut handle = handle;
            self.load_balancer.release(&mut handle);
            Dispatch::Respond { status: BAD_GATEWAY }
        }
    }

    /// Answers a forward's outcome. A backend's response is relayed, and
    /// the handle stays with it until `finish`. A failure answers 502 and
    /// a timeout 504, and the handle is released at once.
    pub fn conclude(&mut self, handle: SelectedLB, outcome: ForwardOutcome) -> (r: Reply)
        requires
            old(self).load_balancer.inv(),
        ensures
            is_reply(*old(self), *final(self), handle, outcome, r),
    {
        match outcome {
            ForwardOutcome::Responded => Reply::Relay { handle },
            ForwardOutcome::Failed => {
                let mut handle = handle;
                self.load_balancer.release(&mut handle);
                Reply::Status { status: BAD_GATEWAY }
            },
            ForwardOutcome::TimedOut => {
                let mut handle = handle;
                self.load_balancer.release(&mut handle);
                Reply::Status { status: GATEWAY_TIMEOUT }
            },
        }
    }

    /// Releases the handle of a relayed response, once the response has
    /// been delivered in full. A handle that was released before changes
    /// nothing.
    pub fn finish(&mut self, handle: &mut SelectedLB)
        requires
            old(self).load_balancer.inv(),
        ensures
            is_finished(*old(self), *final(self), *old(handle)),
            is_released_form(*old(handle), *final(handle)),
    {
        self.load_balancer.release(handle);
    }
}

/// A request whose forward fails is answered 502, one whose forward runs
/// out of time 504, and either leaves every active count at the value it
/// had before the request.
pub proof fn lemma_failed_forward_restores_counts(
    before: ProxyHandler,
    dispatched: ProxyHandler,
    after: ProxyHandler,
    path_and_query: Option<&str>,
    d: Dispatch,
    outcome: ForwardOutcome,
    r: Reply,
)
    requires
        is_dispatch(before, dispatched, path_and_query, d),
        d is Forward,
        outcome != ForwardOutcome::Responded,
        is_reply(dispatched, after, d->handle, outcome, r),
    ensures
        outcome == ForwardOutcome::Failed ==> r == (Reply::Status { status: 502 }),
        outcome == ForwardOutcome::TimedOut ==> r == (Reply::Status { status: 504 }),
        after.load_balancer.counts() == before.load_balancer.counts(),
{
    before.load_balancer.lemma_counts_bounded();
    lemma_release_restores(before.load_balancer.counts());
}

/// A request whose forward is answered relays that answer, and once the
/// response has been delivered and the handle released, every active count
/// is at the value it had before the request. A second release of the
/// handle changes nothing.
pub proof fn lemma_relayed_forward_restores_counts(
    before: ProxyHandler,
    dispatched: ProxyHandler,
    relayed: ProxyHandler,
    after: ProxyHandler,
    again: ProxyHandler,
    path_and_query: Option<&str>,
    d: Dispatch,
    r: Reply,
    released: SelectedLB,
)
    requires
        is_dispatch(before, dispatched, path_and_query, d),
        d is Forward,
        is_reply(dispatched, relayed, d->handle, ForwardOutcome::Responded, r),
        is_finished(relayed, after, d->handle),
        released.slot() == d->handle.slot(),
        released.is_released(),
        is_finished(after, again, released),
    ensures
        r == (Reply::Relay { handle: d->handle }),
        relayed.load_balancer.counts() == dispatched.load_balancer.counts(),
        after.load_balancer.counts() == before.load_balancer.counts(),
        again.load_balancer.counts() == before.load_balancer.counts(),
{
    before.load_balancer.lemma_counts_bounded();
    lemma_release_restores(before.load_balancer.counts());
}

/// A handler over an empty server list answers every request 503.
pub proof fn lemma_no_server_is_unavailable(
    before: ProxyHandler,
    after: ProxyHandler,
    path_and_query: Option<&str>,
    d: Dispatch,
)
    requires
        before.load_balancer.inv(),
        before.load_balancer.addresses().len() == 0,
        is_dispatch(before, after, path_and_query, d),
    ensures
        d == (Dispatch::Respond { status: 503 }),
{
    before.load_balancer.lemma_empty_has_no_choice();
}

} // verus!
