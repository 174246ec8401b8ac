//! A client-side engine for the line protocol of the Music Player Daemon: argument
//! quoting, reply parsing, the state of one connection (commands, command lists, idle
//! waits and their cancellation), and typed views of stored playlists. The engine does
//! no I/O: lines from the server are handed in, and the text to send is handed out.
use vstd::prelude::*;

pub mod codec;
pub mod command;
pub mod connection;
pub mod error;
pub mod playlists;
pub mod record;
pub mod response;
pub mod subsystem;
pub mod timestamp;

verus! {

} // verus!
