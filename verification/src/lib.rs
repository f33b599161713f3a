//! Coordination kernel of a LAN chat client.
//!
//! Peers find each other by multicast, exchange text, and send each other
//! files and media streams over direct connections. This library holds what
//! such a client decides and remembers; what it does to the outside world
//! (the network, the terminal, the disk, the devices) is left to its caller.
//!
//! - [`message`] and [`encoder`]: the messages and their wire format.
//! - [`state`]: the session state, with the peers, the chat log, the input
//!   buffer, the transfers and the media windows.
//! - [`commands`]: the lines that the user enters as commands.
//! - [`action`]: deferred work that is done one quantum at a time, so that
//!   a long transfer never blocks the session.
//! - [`application`]: the dispatcher, which takes one event at a time and
//!   answers with the effects that the caller has to perform.
//! - [`util`]: text helpers.

pub mod action;
pub mod application;
pub mod commands;
pub mod encoder;
pub mod message;
pub mod state;
pub mod util;
