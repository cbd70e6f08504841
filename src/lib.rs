//! Per-connection handler factories for a socket-based communication library.
//!
//! A [`Factory`] produces one handler for each new connection and is told when
//! that handler is retired and when the whole subsystem shuts down.

pub mod connections;
pub mod factory;
pub mod sender;

pub use connections::{lemma_retired_exactly_once, Connections, Role};
pub use factory::{lemma_hooks_match_connection_made, Factory, FnFactory};
pub use sender::{Sender, Token};
