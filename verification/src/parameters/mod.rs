//! The tensors of a weights file.

pub mod loader;
pub mod manifest;
pub mod stored;
