//! The audio stream: from datagrams of Opus data and parity to frames in order.

pub mod block;
pub mod call_laws;
pub mod crypto;
pub mod depayloader;
pub mod fec;
pub mod galois;
pub mod laws;
pub mod model;
pub mod packet;
pub mod sent;
pub mod wire;
