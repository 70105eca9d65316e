//! Handles to what a device holds, and descriptions of its kernels.

use vstd::prelude::*;

use crate::data_type::DataType;

verus! {

/// An error that the device, or the file that it reads, reported. The token
/// tells whoever carries out the requests which one it was.
#[derive(Clone, Copy, Debug, PartialEq, Eq, Structural)]
pub struct DeviceError {
    pub token: u64,
}

/// The refusal of one recorded entry: its number, and the error reported.
#[derive(Clone, Copy, Debug, PartialEq, Eq, Structural)]
pub struct Fault {
    pub at: usize,
    pub error: DeviceError,
}

/// A piece of device memory.
#[derive(Clone, Copy, Debug, PartialEq, Eq, Structural)]
pub enum Allocation {
    /// Created by the request with this number while the model was loaded.
    Resident(usize),
    /// Created by the command with this number while it runs.
    Scratch(usize),
    /// Brought in by the caller under this number.
    Bound(usize),
}

/// A kernel, by the number of the request that created it.
#[derive(Clone, Copy, Debug, PartialEq, Eq, Structural)]
pub struct Kernel {
    pub request: usize,
}

/// An open weights file.
#[derive(Clone, Copy, Debug, PartialEq, Eq, Structural)]
pub struct FileId {
    pub number: usize,
}

/// How quantized weights turn into numbers.
#[derive(Clone, Copy, Debug, PartialEq, Eq, Structural)]
pub enum QuantizationMethod {
    /// A scale and a bias for each group.
    ScaleBias,
    /// A scale and a zero point for each group.
    ScaleZeroPoint,
}

/// How quantized weights are stored.
#[derive(Clone, Copy, Debug, PartialEq, Eq, Structural)]
pub enum QuantizationMode {
    U4,
    U8,
}

impl QuantizationMode {
    /// The mode for a number of bits per weight, where there is one.
    pub open spec fn spec_from_bits(bits: u32) -> Option<QuantizationMode> {
        if bits == 4 {
            Some(QuantizationMode::U4)
        } else if bits == 8 {
            Some(QuantizationMode::U8)
        } else {
            None
        }
    }

    /// The mode for a number of bits per weight: four and eight have one.
    pub fn from_bits(bits: u32) -> (res: Option<QuantizationMode>)
        ensures
            res == QuantizationMode::spec_from_bits(bits),
    {
        match bits {
            4 => Some(QuantizationMode::U4),
            8 => Some(QuantizationMode::U8),
            _ => None,
        }
    }

    /// How many weights one stored element holds.
    pub open spec fn spec_packing_divisor(self) -> usize {
        match self {
            QuantizationMode::U4 => 2,
            QuantizationMode::U8 => 1,
        }
    }

    /// How many weights one stored element holds.
    pub fn packing_divisor(self) -> (res: usize)
        ensures
            res == self.spec_packing_divisor(),
    {
        match self {
            QuantizationMode::U4 => 2,
            QuantizationMode::U8 => 1,
        }
    }

    /// The type of a stored element.
    pub open spec fn spec_storage_type(self) -> DataType {
        DataType::U8
    }

    /// The type of a stored element.
    pub fn storage_type(self) -> (res: DataType)
        ensures
            res == self.spec_storage_type(),
    {
        match self {
            QuantizationMode::U4 => DataType::U8,
            QuantizationMode::U8 => DataType::U8,
        }
    }
}

/// On which side of a matrix product a Hadamard transform stands.
#[derive(Clone, Copy, Debug, PartialEq, Eq, Structural)]
pub enum HadamardTransformOrder {
    Input,
    Output,
}

/// What a quantized matrix kernel is made for.
#[derive(Clone, Copy, Debug, PartialEq, Eq, Structural)]
pub struct QuantizedMatmulConfiguration {
    pub data_type: DataType,
    pub group_size: usize,
    pub input_dim: usize,
    pub output_dim: usize,
    pub mode: QuantizationMode,
    pub quantization_method: QuantizationMethod,
    pub use_hadamard: bool,
}

/// A kernel to be created.
#[derive(Clone, Copy, Debug, PartialEq, Eq, Structural)]
pub enum KernelRequest {
    Matmul { data_type: DataType },
    QuantizedMatmul(QuantizedMatmulConfiguration),
    TensorAddBias { data_type: DataType, in_place: bool },
    HadamardTransform { data_type: DataType, order: HadamardTransformOrder },
    FullPrecisionEmbeddingLookup { data_type: DataType },
    QuantizedEmbeddingLookup {
        data_type: DataType,
        group_size: u32,
        mode: QuantizationMode,
        quantization_method: QuantizationMethod,
        use_hadamard: bool,
    },
}

/// The quotient of two numbers, rounded up.
pub open spec fn ceiling(n: int, d: int) -> int {
    (n + d - 1) / d
}

/// The quotient of two numbers, rounded up.
pub fn div_ceil(n: usize, d: usize) -> (res: usize)
    requires
        d > 0,
    ensures
        res == ceiling(n as int, d as int),
{
    let quotient: usize = n / d;
    proof {
        let (q, r) = (n as int / d as int, n as int % d as int);
        vstd::arithmetic::div_mod::lemma_fundamental_div_mod(n as int, d as int);
        if r == 0 {
            assert(n + d - 1 == q * d + (d - 1)) by (nonlinear_arith)
                requires
                    n == d * q + r,
                    r == 0,
            ;
            vstd::arithmetic::div_mod::lemma_fundamental_div_mod_converse(n + d - 1, d as int, q, d - 1);
        } else {
            assert(n + d - 1 == (q + 1) * d + (r - 1)) by (nonlinear_arith)
                requires
                    n == d * q + r,
            ;
            vstd::arithmetic::div_mod::lemma_fundamental_div_mod_converse(n + d - 1, d as int, q + 1, r - 1);
            assert(q < n) by (nonlinear_arith)
                requires
                    n == d * q + r,
                    r > 0,
                    d > 0,
                    q >= 0,
            ;
        }
    }
    if n % d == 0 {
        quotient
    } else {
        quotient + 1
    }
}

} // verus!
