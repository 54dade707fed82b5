//! The accept loop's decisions, for the plaintext and the TLS-terminating
//! listener alike. The loop itself, its sockets and its tasks are the
//! caller's: it reports each event and does what the answer says.

use vstd::prelude::*;

verus! {

/// How long the loop waits after a failed accept before it tries again, in
/// milliseconds.
pub const ACCEPT_BACKOFF_MILLIS: u64 = 10;

/// What an attempt to accept a connection gave.
#[derive(Debug, Clone, Copy, PartialEq, Eq, Structural)]
pub enum AcceptEvent {
    /// A connection was accepted.
    Connected,
    /// The attempt failed.
    Failed,
}

/// What the loop does next. Every action is followed by another attempt to
/// accept: none ends the loop.
#[derive(Debug, Clone, Copy, PartialEq, Eq, Structural)]
pub enum AcceptAction {
    /// Hand the connection to a task of its own, which serves its requests
    /// one after the other through the router.
    Serve,
    /// Hand the connection to a task of its own, which performs the TLS
    /// handshake first.
    Handshake,
    /// Log the failure and wait this many milliseconds.
    RetryAfter { millis: u64 },
}

/// How a TLS handshake ended.
#[derive(Debug, Clone, Copy, PartialEq, Eq, Structural)]
pub enum HandshakeEvent {
    Completed,
    Failed,
}

/// What a connection's task does after the handshake.
#[derive(Debug, Clone, Copy, PartialEq, Eq, Structural)]
pub enum ConnectionAction {
    /// Serve the connection's requests through the router.
    Serve,
    /// Log the failure and drop the connection; nothing else is affected.
    Drop,
}

/// The action that answers an accept event, as a specification value.
pub open spec fn accept_action(tls: bool, event: AcceptEvent) -> AcceptAction {
    match event {
        AcceptEvent::Connected => if tls {
            AcceptAction::Handshake
        } else {
            AcceptAction::Serve
        },
        AcceptEvent::Failed => AcceptAction::RetryAfter { millis: ACCEPT_BACKOFF_MILLIS },
    }
}

/// What the accept loop does with an event: a connection gets a task of
/// its own, with a handshake first where the listener terminates TLS; a
/// failure is followed by the fixed backoff.
pub fn on_accept(tls: bool, event: AcceptEvent) -> (action: AcceptAction)
    ensures
        action == accept_action(tls, event),
{
    match event {
        AcceptEvent::Connected => if tls {
            AcceptAction::Handshake
        } else {
            AcceptAction::Serve
        },
        AcceptEvent::Failed => AcceptAction::RetryAfter { millis: ACCEPT_BACKOFF_MILLIS },
    }
}

/// What a connection's task does once the handshake has ended: serve the
/// connection, or drop it where the handshake failed.
pub fn on_handshake(event: HandshakeEvent) -> (action: ConnectionAction)
    ensures
        action == (match event {
            HandshakeEvent::Completed => ConnectionAction::Serve,
            HandshakeEvent::Failed => ConnectionAction::Drop,
        }),
{
    match event {
        HandshakeEvent::Completed => ConnectionAction::Serve,
        HandshakeEvent::Failed => ConnectionAction::Drop,
    }
}

/// The protocols of the TLS listener's negotiation in order of
/// preference, as specification values: `h2`, then `http/1.1`.
pub open spec fn alpn_preference() -> Seq<Seq<u8>> {
    seq![
        seq![0x68u8, 0x32u8],
        seq![0x68u8, 0x74u8, 0x74u8, 0x70u8, 0x2Fu8, 0x31u8, 0x2Eu8, 0x31u8],
    ]
}

/// The protocols that the TLS listener offers in its negotiation, in order
/// of preference: `h2`, then `http/1.1`.
pub fn alpn_protocols() -> (protocols: Vec<Vec<u8>>)
    ensures
        protocols@.len() == 2,
        protocols@[0]@ == alpn_preference()[0],
        protocols@[1]@ == alpn_preference()[1],
{
    let h2: Vec<u8> = vec![0x68u8, 0x32u8];
    let http1: Vec<u8> = vec![0x68u8, 0x74u8, 0x74u8, 0x70u8, 0x2Fu8, 0x31u8, 0x2Eu8, 0x31u8];
    assert(h2@ =~= alpn_preference()[0]);
    assert(http1@ =~= alpn_preference()[1]);
    let mut protocols: Vec<Vec<u8>> = Vec::new();
    protocols.push(h2);
    protocols.push(http1);
    protocols
}

} // verus!
