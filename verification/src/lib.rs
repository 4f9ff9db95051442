//! The nailgun protocol: its wire format, its client side and its server side.
//!
//! The library does no input or output of its own. It reads chunks from buffers and writes them to
//! buffers ([`codec`], over the format that [`wire`] defines), and it decides, one event at a time,
//! what an end of a connection does next. Whoever owns the sockets, the processes and the clock
//! performs what was decided and reports what came of it.
//!
//! - [`server`] and [`client`] are the two ends of a connection, and [`session`] states what holds of
//!   them together.
//! - [`server_proto`], [`client_proto`] and [`proto`] are ends in which the command tells its exit
//!   code with its output; the last hears the client and the command on one task.
//! - [`fork`] is a nail that runs commands as processes, and [`args`] reads the arguments of a client
//!   program.
pub mod args;
pub mod buffers;
pub mod chunk;
pub mod client;
pub mod client_proto;
pub mod codec;
pub mod config;
pub mod error;
pub mod execution;
pub mod fork;
pub mod nail;
pub mod paths;
pub mod proto;
pub mod server;
pub mod server_proto;
pub mod session;
pub mod text;
pub mod wire;

pub use crate::config::Config;
pub use crate::nail::Nail;
