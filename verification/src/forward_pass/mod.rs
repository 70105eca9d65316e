//! What a forward pass computes with.

pub mod config;
pub mod shared_buffers;
pub mod sharing;
