//! Linear maps.

pub mod block;
pub mod full_precision;
pub mod laws;
pub mod meaning;
pub mod qlora_wrapper;
pub mod quantized;
pub mod rht_wrapper;
pub mod storage;

use vstd::prelude::*;

use crate::backend::encoder::{Command, Encoder};
use crate::backend::types::{Allocation, DeviceError};

verus! {

/// A linear map that a device can apply to the rows of a matrix.
pub trait Linear {
    /// The commands that apply the map to `input`, where the first of them has
    /// the number `start`.
    spec fn plan(&self, input: Allocation, batch_dim: usize, start: int) -> Seq<Command>;

    /// Where those commands leave the product.
    spec fn output(&self, start: int) -> Allocation;

    /// Whether the sizes that the commands speak of fit into machine words.
    spec fn encodable(&self, batch_dim: usize) -> bool;

    /// Adds the commands that apply the map to the `batch_dim` rows of `input`.
    fn encode(&self, input: Allocation, batch_dim: usize, encoder: &mut Encoder) -> (res: Result<
        Allocation,
        DeviceError,
    >)
        requires
            self.encodable(batch_dim),
        ensures
            final(encoder)@ == old(encoder)@.emit(self.plan(input, batch_dim, old(encoder)@.next())),
            res == old(encoder)@.answer(
                self.plan(input, batch_dim, old(encoder)@.next()),
                self.output(old(encoder)@.next()),
            ),
    ;
}

} // verus!
