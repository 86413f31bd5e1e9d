//! The decisions of `dtch`, a minimal terminal session runner.
//!
//! A session is a command that runs in a pseudo-terminal and is served on a
//! Unix socket. This crate holds what such a session is made of apart from the
//! system calls: the wire format of client requests, the names of sessions and
//! of their sockets, the replay history, and the order in which a session is
//! started, served and attached to.

pub mod attach;
pub mod child;
pub mod cleanup;
pub mod clients;
pub mod command;
pub mod line_buffer;
pub mod output;
pub mod peer_credentials;
pub mod protocol;
pub mod redraw;
pub mod registry;
pub mod relay;
pub mod resize;
pub mod server;
pub mod start;
pub mod terminal;
pub mod text;
pub mod trace;
