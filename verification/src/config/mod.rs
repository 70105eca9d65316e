//! The configurations of the parts of a model.

pub mod audio_decoder;
pub mod model;
pub mod text_decoder;
