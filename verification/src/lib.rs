//! A minimal forward proxy, as a state machine.
//!
//! A connection is a value that is told what happened on its two sockets and
//! answers with what to do next. Nothing here touches a socket: the caller
//! performs each [`connection::Action`] and reports the [`event::Event`] that
//! came of it. The opening request decides between a tunnel and plain
//! forwarding; after that, two relay channels pump bytes in both directions
//! until one side closes or a call fails.

pub mod channel;
pub mod connection;
pub mod event;
pub mod laws;
pub mod request;
pub mod target;
