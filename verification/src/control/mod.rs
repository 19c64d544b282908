//! The control stream: input, pings and the connection itself.

pub mod host;
pub mod input;
pub mod input_batcher;
pub mod input_laws;
pub mod laws;
pub mod model;
pub mod packet;
pub mod permissions;
pub mod stream;
pub mod stream_laws;
