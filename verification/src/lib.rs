//! Verified planning of model loading and kernel encoding.
//!
//! The library decides which tensors of a weights file a model needs, checks
//! them against the shapes and data types that the model's configuration asks
//! for, and lists in order everything that a device has to do: create
//! allocations, fill them from the file, create kernels, run them. It never
//! touches a device or a file. What it issues is recorded in a
//! [`backend::context::Context`] while a model is loaded and in a
//! [`backend::encoder::Encoder`] while it runs; whoever owns the device carries
//! the records out, and hands a refusal back as a fault.
//!
//! What the records are for is stated by laws, public proof functions: by
//! [`backend::machine`], in which commands compute formulas, they say what a
//! loaded map, embedding or classifier computes of the tensors in a file.

pub mod array_element;
pub mod backend;
pub mod classifier;
pub mod classifier_parts;
pub mod config;
pub mod data_type;
pub mod embedding;
pub mod error;
pub mod forward_pass;
pub mod linear;
pub mod parameters;
pub mod registry;
pub mod string_map;
pub mod tables;
pub mod text;
pub mod weight_matrix;
