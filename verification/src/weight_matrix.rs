//! How a weight matrix is stored.

use vstd::prelude::*;

verus! {

/// Which side of a matrix comes first in its stored shape.
#[derive(Clone, Copy, Debug, PartialEq, Eq, Structural)]
pub enum Layout {
    InputOutput,
    OutputInput,
}

/// On which sides of a matrix the signs of an incoherence transform stand.
#[derive(Clone, Copy, Debug, PartialEq, Eq, Structural)]
pub enum IncoherenceProcessingMode {
    Input,
    Output,
    InputOutput,
}

/// The block size of the incoherence transforms that the kernels know.
pub const INCOHERENCE_BLOCK_SIZE: usize = 32;

/// A matrix of plain numbers.
#[derive(Clone, Copy, Debug, PartialEq, Eq, Structural)]
pub struct FullPrecisionSpec {
    pub layout: Layout,
}

/// A matrix quantized with scales and biases.
#[derive(Clone, Copy, Debug, PartialEq, Eq, Structural)]
pub struct MLXSpec {
    pub bits: u32,
    pub group_size: usize,
    pub layout: Layout,
}

/// A matrix quantized with scales and zero points.
#[derive(Clone, Copy, Debug, PartialEq, Eq, Structural)]
pub struct AWQSpec {
    pub bits: u32,
    pub group_size: usize,
    pub is_symmetric: bool,
    pub layout: Layout,
}

/// A product of two thin matrices.
#[derive(Clone, Copy, Debug, PartialEq, Eq, Structural)]
pub struct LowRankSpec {
    pub rank: usize,
}

/// A quantized matrix with an adapter, an incoherence transform, or both.
#[derive(Debug, PartialEq, Eq)]
pub struct HybridSpec {
    pub quantization_spec: Box<AnyWeightMatrixSpec>,
    pub adapter_spec: Option<Box<AnyWeightMatrixSpec>>,
    pub incoherence_block_size: Option<usize>,
    pub incoherence_processing_mode: IncoherenceProcessingMode,
}

/// How a weight matrix is stored.
#[derive(Debug, PartialEq, Eq)]
pub enum AnyWeightMatrixSpec {
    FullPrecisionSpec(FullPrecisionSpec),
    MLXSpec(MLXSpec),
    AWQSpec(AWQSpec),
    LowRankSpec(LowRankSpec),
    HybridSpec(HybridSpec),
}

impl Clone for AnyWeightMatrixSpec {
    fn clone(&self) -> (res: Self)
        ensures
            res == *self,
        decreases self,
    {
        match self {
            AnyWeightMatrixSpec::FullPrecisionSpec(spec) => AnyWeightMatrixSpec::FullPrecisionSpec(*spec),
            AnyWeightMatrixSpec::MLXSpec(spec) => AnyWeightMatrixSpec::MLXSpec(*spec),
            AnyWeightMatrixSpec::AWQSpec(spec) => AnyWeightMatrixSpec::AWQSpec(*spec),
            AnyWeightMatrixSpec::LowRankSpec(spec) => AnyWeightMatrixSpec::LowRankSpec(*spec),
            AnyWeightMatrixSpec::HybridSpec(spec) => {
                AnyWeightMatrixSpec::HybridSpec(
                    HybridSpec {
                        quantization_spec: Box::new((&*spec.quantization_spec).clone()),
                        adapter_spec: match &spec.adapter_spec {
                            Some(adapter) => Some(Box::new((&**adapter).clone())),
                            None => None,
                        },
                        incoherence_block_size: spec.incoherence_block_size,
                        incoherence_processing_mode: spec.incoherence_processing_mode,
                    },
                )
            },
        }
    }
}

impl AnyWeightMatrixSpec {
    /// Whether no quantized part of the matrix is in groups of no weights.
    pub open spec fn grouped(self) -> bool
        decreases self,
    {
        match self {
            AnyWeightMatrixSpec::MLXSpec(spec) => spec.group_size > 0,
            AnyWeightMatrixSpec::AWQSpec(spec) => spec.group_size > 0,
            AnyWeightMatrixSpec::HybridSpec(spec) => {
                &&& spec.quantization_spec.grouped()
                &&& match spec.adapter_spec {
                    Some(adapter) => adapter.grouped(),
                    None => true,
                }
            },
            _ => true,
        }
    }

    /// Tells whether no quantized part of the matrix is in groups of no weights.
    pub fn is_grouped(&self) -> (res: bool)
        ensures
            res == self.grouped(),
        decreases self,
    {
        match self {
            AnyWeightMatrixSpec::MLXSpec(spec) => spec.group_size > 0,
            AnyWeightMatrixSpec::AWQSpec(spec) => spec.group_size > 0,
            AnyWeightMatrixSpec::HybridSpec(spec) => {
                let adapter_grouped = match &spec.adapter_spec {
                    Some(adapter) => (&**adapter).is_grouped(),
                    None => true,
                };
                (&*spec.quantization_spec).is_grouped() && adapter_grouped
            },
            _ => true,
        }
    }
}

} // verus!
