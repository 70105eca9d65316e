//! Element types of tensors and bit patterns of single-precision numbers.

use vstd::prelude::*;

verus! {

/// The element type of a tensor.
#[derive(Clone, Copy, Debug, PartialEq, Eq, Structural)]
pub enum DataType {
    BF16,
    F16,
    F32,
    F64,
    I4,
    U4,
    I8,
    U8,
    I16,
    U16,
    I32,
    U32,
    I64,
    U64,
}

impl DataType {
    /// Whether matrix kernels work on elements of this type.
    pub open spec fn spec_is_matmul_type(self) -> bool {
        self == DataType::F16 || self == DataType::BF16 || self == DataType::F32
    }

    /// Whether matrix kernels work on elements of this type.
    pub fn is_matmul_type(self) -> (res: bool)
        ensures
            res == self.spec_is_matmul_type(),
    {
        matches!(self, DataType::F16 | DataType::BF16 | DataType::F32)
    }
}

/// A single-precision number, held as its IEEE 754 bit pattern.
#[derive(Clone, Copy, Debug, PartialEq, Eq, Structural)]
pub struct F32Bits {
    pub bits: u32,
}

/// The bit pattern of the number one.
pub const F32_ONE_BITS: u32 = 0x3f80_0000;

impl F32Bits {
    /// The number one.
    pub open spec fn spec_one() -> F32Bits {
        F32Bits { bits: F32_ONE_BITS }
    }

    /// The number one.
    pub fn one() -> (res: F32Bits)
        ensures
            res == F32Bits::spec_one(),
    {
        F32Bits { bits: F32_ONE_BITS }
    }
}

} // verus!
