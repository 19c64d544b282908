//! The protocol core of a Moonlight game-streaming client.
//!
//! Nothing in here performs I/O. Each stream is a state machine that is handed
//! the time, the datagrams and the answers of the transport, and that says what
//! is to be done next.

pub mod audio;
pub mod bytes;
pub mod control;
pub mod net;
pub mod ping;
pub mod runtime;
pub mod search;
pub mod time;
pub mod version;
pub mod video;
