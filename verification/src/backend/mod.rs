//! What is asked of a device while a model is loaded and while it runs.

pub mod context;
pub mod encoder;
pub mod machine;
pub mod types;
