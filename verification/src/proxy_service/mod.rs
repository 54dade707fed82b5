//! The per-frontend forwarding decisions and the router over them.

pub mod proxy_bridge;
pub mod proxy_handler;
