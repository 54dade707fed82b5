//! How the listener starts, and what the accept loop does with each event.

pub mod acceptor;
pub mod server_manager;
