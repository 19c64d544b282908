//! The video stream: from reassembled frames to frames in order, and requests
//! for a new start when frames are lost.

pub mod call_laws;
pub mod frames;
pub mod laws;
pub mod stream;
