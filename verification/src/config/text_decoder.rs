//! Parts that turn text into the codes of speech.

use vstd::prelude::*;

verus! {

/// A text decoder that gives out codes without looking at the text.
#[derive(Clone, Copy, Debug, PartialEq, Eq, Structural)]
pub struct StubTextDecoderConfig {
    pub num_codebooks: usize,
    pub codebook_size: usize,
}

} // verus!
