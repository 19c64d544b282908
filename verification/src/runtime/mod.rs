//! How streams are run: what is read, sent and waited for, and in which order.

pub mod call_laws;
pub mod connect;
pub mod driver;
pub mod laws;
pub mod stream;
