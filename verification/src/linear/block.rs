//! The linear map that a stored weight matrix stands for.

use vstd::pervasive::unreached;
use vstd::prelude::*;

use crate::backend::context::{Context, ContextView};
use crate::backend::encoder::{Command, Encoder};
use crate::backend::types::{Allocation, DeviceError, QuantizationMethod, QuantizationMode};
use crate::data_type::DataType;
use crate::linear::full_precision::{
    full_precision_outcome, FullPrecisionLinear, FullPrecisionLinearError,
};
use crate::linear::qlora_wrapper::{
    AdapterPlan, QLoRALinearWrapper, QLoRALinearWrapperError,
};
use crate::linear::quantized::{
    optional_tree, QuantizedLinear, QuantizedLinearError, QuantizedLinearPlan,
};
use crate::linear::rht_wrapper::{
    load_signs, rht_outcome, rht_prelude, rht_ready, signs_outcome, RHTLinearWrapper,
    RHTLinearWrapperError,
};
use crate::linear::Linear;
use crate::parameters::loader::{ParameterLoaderError, ParameterTree, TreeView};
use crate::weight_matrix::{
    AnyWeightMatrixSpec, HybridSpec, IncoherenceProcessingMode, Layout, INCOHERENCE_BLOCK_SIZE,
};

verus! {

/// A way of storing weights for which there is no linear map.
#[derive(Debug, PartialEq, Eq)]
pub enum UnsupportedLinear {
    /// The matrix as a whole.
    Spec(AnyWeightMatrixSpec),
    /// A quantized matrix and an adapter that do not go together.
    Hybrid { quantization: AnyWeightMatrixSpec, adapter: AnyWeightMatrixSpec },
    /// A matrix whose kernel cannot transform its output.
    FusedOutputHadamard(AnyWeightMatrixSpec),
}

/// Why a linear map could not be made.
#[derive(Debug, PartialEq, Eq)]
pub enum LinearBlockError<Name = String, Shape = Vec<usize>> {
    QuantizedLinearError(QuantizedLinearError<Name, Shape>),
    FullPrecisionLinearError(FullPrecisionLinearError<Name, Shape>),
    QLoRALinearWrapperError(QLoRALinearWrapperError<Name, Shape>),
    RHTLinearWrapperError(RHTLinearWrapperError<Name, Shape>),
    ParameterError(ParameterLoaderError<Name, Shape>),
    UnsupportedConfiguration(UnsupportedLinear),
}

/// A [`LinearBlockError`] with its text and shapes as sequences.
pub type LinearBlockErrorView = LinearBlockError<Seq<char>, Seq<usize>>;

impl LinearBlockError {
    /// The error with its text and shapes as sequences.
    pub open spec fn shown(self) -> LinearBlockErrorView
        decreases self,
    {
        match self {
            LinearBlockError::QuantizedLinearError(e) => LinearBlockError::QuantizedLinearError(e@),
            LinearBlockError::FullPrecisionLinearError(e) => LinearBlockError::FullPrecisionLinearError(e@),
            LinearBlockError::QLoRALinearWrapperError(e) => LinearBlockError::QLoRALinearWrapperError(
                e.shown(),
            ),
            LinearBlockError::RHTLinearWrapperError(e) => LinearBlockError::RHTLinearWrapperError(e.shown()),
            LinearBlockError::ParameterError(e) => LinearBlockError::ParameterError(e@),
            LinearBlockError::UnsupportedConfiguration(u) => LinearBlockError::UnsupportedConfiguration(u),
        }
    }
}

/// The numbers of a quantized matrix.
#[derive(Clone, Copy, Debug, PartialEq, Eq, Structural)]
pub struct Quantization {
    pub bits: u32,
    pub group_size: usize,
    pub method: QuantizationMethod,
}

impl Quantization {
    /// Whether the rows of a matrix for which there are kernels fall into groups.
    pub open spec fn groupable(self, data_type: DataType) -> bool {
        QuantizationMode::spec_from_bits(self.bits) is Some && data_type.spec_is_matmul_type()
            ==> self.group_size > 0
    }

    /// Tells whether the rows of a matrix for which there are kernels fall into groups.
    pub fn is_groupable(&self, data_type: DataType) -> (res: bool)
        ensures
            res == self.groupable(data_type),
    {
        QuantizationMode::from_bits(self.bits).is_none() || !data_type.is_matmul_type() || self.group_size > 0
    }
}

/// The numbers of a matrix that is quantized in the given layout.
pub open spec fn quantization(spec: AnyWeightMatrixSpec, layout: Layout) -> Option<Quantization> {
    match spec {
        AnyWeightMatrixSpec::MLXSpec(mlx) => if mlx.layout == layout {
            Some(
                Quantization {
                    bits: mlx.bits,
                    group_size: mlx.group_size,
                    method: QuantizationMethod::ScaleBias,
                },
            )
        } else {
            None
        },
        AnyWeightMatrixSpec::AWQSpec(awq) => if awq.layout == layout && !awq.is_symmetric {
            Some(
                Quantization {
                    bits: awq.bits,
                    group_size: awq.group_size,
                    method: QuantizationMethod::ScaleZeroPoint,
                },
            )
        } else {
            None
        },
        _ => None,
    }
}

/// The numbers of a matrix that is quantized in the given layout.
pub fn quantization_in(spec: &AnyWeightMatrixSpec, layout: Layout) -> (res: Option<Quantization>)
    ensures
        res == quantization(*spec, layout),
{
    match spec {
        AnyWeightMatrixSpec::MLXSpec(mlx) => {
            if mlx.layout == layout {
                Some(
                    Quantization {
                        bits: mlx.bits,
                        group_size: mlx.group_size,
                        method: QuantizationMethod::ScaleBias,
                    },
                )
            } else {
                None
            }
        },
        AnyWeightMatrixSpec::AWQSpec(awq) => {
            if awq.layout == layout && !awq.is_symmetric {
                Some(
                    Quantization {
                        bits: awq.bits,
                        group_size: awq.group_size,
                        method: QuantizationMethod::ScaleZeroPoint,
                    },
                )
            } else {
                None
            }
        },
        _ => None,
    }
}

/// Whether both sides of a hybrid matrix are transformed in blocks that the
/// kernels know.
pub open spec fn transformed_on_both_sides(hybrid: HybridSpec) -> bool {
    &&& hybrid.incoherence_block_size == Some(INCOHERENCE_BLOCK_SIZE)
    &&& hybrid.incoherence_processing_mode == IncoherenceProcessingMode::InputOutput
}

/// Whether both sides of a hybrid matrix are transformed.
fn is_transformed_on_both_sides(hybrid: &HybridSpec) -> (res: bool)
    ensures
        res == transformed_on_both_sides(*hybrid),
{
    match hybrid.incoherence_block_size {
        Some(size) => {
            size == INCOHERENCE_BLOCK_SIZE && hybrid.incoherence_processing_mode
                == IncoherenceProcessingMode::InputOutput
        },
        None => false,
    }
}

/// Whether a matrix is stored incoherently on both sides, without an adapter.
pub open spec fn rht_spec(spec: AnyWeightMatrixSpec) -> bool {
    match spec {
        AnyWeightMatrixSpec::HybridSpec(hybrid) => {
            hybrid.adapter_spec is None && transformed_on_both_sides(hybrid)
        },
        _ => false,
    }
}

/// Whether a matrix is stored incoherently on both sides, without an adapter.
pub fn is_rht(spec: &AnyWeightMatrixSpec) -> (res: bool)
    ensures
        res == rht_spec(*spec),
{
    match spec {
        AnyWeightMatrixSpec::HybridSpec(hybrid) => {
            hybrid.adapter_spec.is_none() && is_transformed_on_both_sides(hybrid)
        },
        _ => false,
    }
}

/// Which linear map a stored matrix stands for.
#[derive(Clone, Copy, Debug, PartialEq, Eq)]
pub enum LinearKind {
    FullPrecision,
    Quantized(Quantization),
    /// Stored incoherently.
    RHT,
    /// With an adapter: the quantized matrix and the adapter's rank, where the
    /// two go together, and whether the matrix is stored incoherently.
    Adapted { parts: Option<(Quantization, usize)>, incoherent: bool },
    Unsupported,
}

/// The quantized matrix of an adapted one and the rank of its adapter.
pub open spec fn adapted_parts(
    quantized: AnyWeightMatrixSpec,
    adapter: AnyWeightMatrixSpec,
) -> Option<(Quantization, usize)> {
    match adapter {
        AnyWeightMatrixSpec::LowRankSpec(low_rank) => match quantization(quantized, Layout::OutputInput) {
            Some(quantization) => Some((quantization, low_rank.rank)),
            None => None,
        },
        _ => None,
    }
}

/// Which linear map a stored matrix stands for.
pub open spec fn linear_kind(spec: AnyWeightMatrixSpec) -> LinearKind {
    match spec {
        AnyWeightMatrixSpec::FullPrecisionSpec(full) => if full.layout == Layout::OutputInput {
            LinearKind::FullPrecision
        } else {
            LinearKind::Unsupported
        },
        AnyWeightMatrixSpec::HybridSpec(hybrid) => match hybrid.adapter_spec {
            None => if transformed_on_both_sides(hybrid) {
                LinearKind::RHT
            } else {
                LinearKind::Unsupported
            },
            Some(adapter) => if hybrid.incoherence_block_size is None || transformed_on_both_sides(hybrid) {
                LinearKind::Adapted {
                    parts: adapted_parts(*hybrid.quantization_spec, *adapter),
                    incoherent: hybrid.incoherence_block_size is Some,
                }
            } else {
                LinearKind::Unsupported
            },
        },
        _ => match quantization(spec, Layout::OutputInput) {
            Some(quantization) => LinearKind::Quantized(quantization),
            None => LinearKind::Unsupported,
        },
    }
}

/// Tells which linear map a stored matrix stands for.
pub fn linear_kind_of(spec: &AnyWeightMatrixSpec) -> (res: LinearKind)
    ensures
        res == linear_kind(*spec),
{
    match spec {
        AnyWeightMatrixSpec::FullPrecisionSpec(full) => {
            if full.layout == Layout::OutputInput {
                LinearKind::FullPrecision
            } else {
                LinearKind::Unsupported
            }
        },
        AnyWeightMatrixSpec::HybridSpec(hybrid) => {
            let both_sides = is_transformed_on_both_sides(hybrid);
            match &hybrid.adapter_spec {
                None => {
                    if both_sides {
                        LinearKind::RHT
                    } else {
                        LinearKind::Unsupported
                    }
                },
                Some(adapter) => {
                    if hybrid.incoherence_block_size.is_none() || both_sides {
                        let parts = match &**adapter {
                            AnyWeightMatrixSpec::LowRankSpec(low_rank) => {
                                match quantization_in(&*hybrid.quantization_spec, Layout::OutputInput) {
                                    Some(quantization) => Some((quantization, low_rank.rank)),
                                    None => None,
                                }
                            },
                            _ => None,
                        };
                        LinearKind::Adapted { parts, incoherent: both_sides }
                    } else {
                        LinearKind::Unsupported
                    }
                },
            }
        },
        _ => match quantization_in(spec, Layout::OutputInput) {
            Some(quantization) => LinearKind::Quantized(quantization),
            None => LinearKind::Unsupported,
        },
    }
}

/// The sum of some sizes.
pub open spec fn total(dimensions: Seq<usize>) -> int
    decreases dimensions.len(),
{
    if dimensions.len() == 0 {
        0
    } else {
        total(dimensions.drop_last()) + dimensions.last()
    }
}

/// The first sizes come to no more than all of them.
proof fn total_grows(dimensions: Seq<usize>, n: int)
    requires
        0 <= n <= dimensions.len(),
    ensures
        0 <= total(dimensions.take(n)) <= total(dimensions),
    decreases dimensions.len(),
{
    if n == dimensions.len() {
        assert(dimensions.take(n) =~= dimensions);
        if n > 0 {
            total_grows(dimensions.drop_last(), n - 1);
        }
    } else {
        assert(dimensions.drop_last().take(n) =~= dimensions.take(n));
        total_grows(dimensions.drop_last(), n);
    }
}

/// The sum of a single size.
proof fn total_of_one(dimension: usize)
    ensures
        total(seq![dimension]) == dimension,
{
    assert(seq![dimension].drop_last() =~= Seq::empty());
    reveal_with_fuel(total, 2);
}

/// Adds up some sizes.
fn sum(dimensions: &[usize]) -> (res: usize)
    requires
        total(dimensions@) <= usize::MAX,
    ensures
        res == total(dimensions@),
{
    let mut sum: usize = 0;
    let mut i: usize = 0;
    while i < dimensions.len()
        invariant
            i <= dimensions@.len(),
            sum == total(dimensions@.take(i as int)),
            total(dimensions@) <= usize::MAX,
        decreases dimensions@.len() - i,
    {
        proof {
            total_grows(dimensions@, i + 1);
            assert(dimensions@.take(i + 1).drop_last() =~= dimensions@.take(i as int));
        }
        sum = sum + dimensions[i];
        i += 1;
    }
    assert(dimensions@.take(i as int) =~= dimensions@);
    sum
}

/// A linear map of any kind.
#[derive(Clone, Copy, Debug, PartialEq, Eq, Structural)]
pub enum LinearBlock {
    FullPrecision(FullPrecisionLinear),
    Quantized(QuantizedLinear),
    QLoRA(QLoRALinearWrapper),
    RHT(RHTLinearWrapper),
}

/// Whether the matrix of a map with a fused output transform falls into groups.
pub open spec fn fused_ready(weights_tree: TreeView, data_type: DataType) -> bool {
    match weights_tree.metadata("spec"@) {
        Ok(spec) => match quantization(spec, Layout::OutputInput) {
            Some(quantization) => quantization.groupable(data_type),
            None => true,
        },
        Err(_) => true,
    }
}

/// Tells whether the matrix of a map with a fused output transform falls into groups.
pub(crate) fn is_fused_ready(weights_tree: &ParameterTree<'_>, data_type: DataType) -> (res: bool)
    ensures
        res == fused_ready(weights_tree@, data_type),
{
    match weights_tree.metadata("spec") {
        Ok(spec) => match quantization_in(spec, Layout::OutputInput) {
            Some(quantization) => quantization.is_groupable(data_type),
            None => true,
        },
        Err(_) => true,
    }
}

/// What making a map with a fused output transform asks of the device, and what
/// comes of it.
pub open spec fn fused_outcome(
    context: ContextView,
    weights_tree: TreeView,
    bias_tree: Option<TreeView>,
    output_factors: Allocation,
    input_dim: usize,
    output_dim: usize,
    data_type: DataType,
) -> (ContextView, Result<QuantizedLinear, LinearBlockErrorView>) {
    match weights_tree.metadata("spec"@) {
        Err(e) => (context, Err(LinearBlockError::ParameterError(e))),
        Ok(spec) => match quantization(spec, Layout::OutputInput) {
            None => (
                context,
                Err(
                    LinearBlockError::UnsupportedConfiguration(UnsupportedLinear::FusedOutputHadamard(spec)),
                ),
            ),
            Some(quantization) => {
                let (after, made) = (QuantizedLinearPlan {
                    bits: quantization.bits,
                    group_size: quantization.group_size,
                    quantization_method: quantization.method,
                    input_dim,
                    output_dim,
                    data_type,
                    weights_tree,
                    bias_tree,
                    output_hadamard_factors: Some(output_factors),
                }).outcome(context);
                match made {
                    Ok(linear) => (after, Ok(linear)),
                    Err(e) => (after, Err(LinearBlockError::QuantizedLinearError(e))),
                }
            },
        },
    }
}

/// What making an adapted map asks of the device, and what comes of it.
pub open spec fn adapted_outcome(
    context: ContextView,
    spec: AnyWeightMatrixSpec,
    parts: Option<(Quantization, usize)>,
    incoherent: bool,
    input_dim: usize,
    output_dim: usize,
    data_type: DataType,
    tree: TreeView,
) -> (ContextView, Result<LinearBlock, LinearBlockErrorView>) {
    let weights = tree.child("weights"@);
    match weights.subtree("quantized"@) {
        Err(e) => (context, Err(LinearBlockError::ParameterError(e))),
        Ok(quantized) => match weights.subtree("adapter"@) {
            Err(e) => (context, Err(LinearBlockError::ParameterError(e))),
            Ok(adapter) => if incoherent && weights.subtree("incoherence_signs"@) is Err {
                (
                    context,
                    Err(LinearBlockError::ParameterError(weights.subtree("incoherence_signs"@)->Err_0)),
                )
            } else {
                match parts {
                    None => (
                        context,
                        Err(
                            LinearBlockError::UnsupportedConfiguration(
                                UnsupportedLinear::Hybrid {
                                    quantization: *spec->HybridSpec_0.quantization_spec,
                                    adapter: *spec->HybridSpec_0.adapter_spec->0,
                                },
                            ),
                        ),
                    ),
                    Some((quantization, rank)) => {
                        let (after, made) = (AdapterPlan {
                            lora_rank: rank,
                            input_dim,
                            output_dim,
                            data_type,
                            adapter_tree: adapter,
                            bias_tree: Some(tree),
                            incoherence_signs_tree: if incoherent {
                                Some(weights.child("incoherence_signs"@))
                            } else {
                                None
                            },
                        }).outcome(
                            context,
                            QuantizedLinearPlan {
                                bits: quantization.bits,
                                group_size: quantization.group_size,
                                quantization_method: quantization.method,
                                input_dim,
                                output_dim,
                                data_type,
                                weights_tree: quantized,
                                bias_tree: None,
                                output_hadamard_factors: None,
                            },
                        );
                        match made {
                            Ok(linear) => (after, Ok(LinearBlock::QLoRA(linear))),
                            Err(e) => (after, Err(LinearBlockError::QLoRALinearWrapperError(e))),
                        }
                    },
                }
            },
        },
    }
}

/// Whether the matrix of a map, where it is reached, falls into groups.
pub open spec fn linear_ready(
    context: ContextView,
    input_dim: usize,
    output_dim: usize,
    data_type: DataType,
    tree: TreeView,
) -> bool {
    match tree.subtree("weights"@) {
        Err(_) => true,
        Ok(weights) => match weights.metadata("spec"@) {
            Err(_) => true,
            Ok(spec) => match linear_kind(spec) {
                LinearKind::Quantized(quantization) => quantization.groupable(data_type),
                LinearKind::RHT => rht_ready(context, input_dim, output_dim, data_type, tree),
                LinearKind::Adapted { parts: Some((quantization, _)), incoherent } => {
                    ||| weights.subtree("quantized"@) is Err
                    ||| weights.subtree("adapter"@) is Err
                    ||| incoherent && weights.subtree("incoherence_signs"@) is Err
                    ||| quantization.groupable(data_type)
                },
                _ => true,
            },
        },
    }
}

/// What has been asked of the device where the matrix of a map is reached and is in
/// groups of no weights.
pub open spec fn linear_stop(
    context: ContextView,
    input_dim: usize,
    output_dim: usize,
    data_type: DataType,
    tree: TreeView,
) -> ContextView {
    if linear_kind(tree.child("weights"@).metadata("spec"@)->Ok_0) is RHT {
        rht_prelude(context, input_dim, output_dim, data_type, tree).0
    } else {
        context
    }
}

/// What making a map asks of the device, and what comes of it.
pub open spec fn linear_outcome(
    context: ContextView,
    input_dim: usize,
    output_dim: usize,
    data_type: DataType,
    tree: TreeView,
) -> (ContextView, Result<LinearBlock, LinearBlockErrorView>) {
    match tree.subtree("weights"@) {
        Err(e) => (context, Err(LinearBlockError::ParameterError(e))),
        Ok(weights) => match weights.metadata("spec"@) {
            Err(e) => (context, Err(LinearBlockError::ParameterError(e))),
            Ok(spec) => match linear_kind(spec) {
                LinearKind::FullPrecision => {
                    let (after, made) = full_precision_outcome(
                        context,
                        input_dim,
                        output_dim,
                        data_type,
                        tree,
                    );
                    match made {
                        Ok(linear) => (after, Ok(LinearBlock::FullPrecision(linear))),
                        Err(e) => (after, Err(LinearBlockError::FullPrecisionLinearError(e))),
                    }
                },
                LinearKind::Quantized(quantization) => {
                    let (after, made) = (QuantizedLinearPlan {
                        bits: quantization.bits,
                        group_size: quantization.group_size,
                        quantization_method: quantization.method,
                        input_dim,
                        output_dim,
                        data_type,
                        weights_tree: weights,
                        bias_tree: Some(tree),
                        output_hadamard_factors: None,
                    }).outcome(context);
                    match made {
                        Ok(linear) => (after, Ok(LinearBlock::Quantized(linear))),
                        Err(e) => (after, Err(LinearBlockError::QuantizedLinearError(e))),
                    }
                },
                LinearKind::RHT => {
                    let (after, made) = rht_outcome(context, input_dim, output_dim, data_type, tree);
                    match made {
                        Ok(linear) => (after, Ok(LinearBlock::RHT(linear))),
                        Err(e) => (after, Err(LinearBlockError::RHTLinearWrapperError(e))),
                    }
                },
                LinearKind::Adapted { parts, incoherent } => adapted_outcome(
                    context,
                    spec,
                    parts,
                    incoherent,
                    input_dim,
                    output_dim,
                    data_type,
                    tree,
                ),
                LinearKind::Unsupported => (
                    context,
                    Err(LinearBlockError::UnsupportedConfiguration(UnsupportedLinear::Spec(spec))),
                ),
            },
        },
    }
}

/// A result with the error taken by its view.
pub open spec fn block_result<T>(res: Result<T, LinearBlockError>) -> Result<T, LinearBlockErrorView> {
    match res {
        Ok(linear) => Ok(linear),
        Err(e) => Err(e.shown()),
    }
}

/// Whether the matrix of a map whose input transform is left to the caller, where
/// it is reached, falls into groups.
pub open spec fn extracting_ready(
    context: ContextView,
    input_dim: usize,
    output_dim: usize,
    data_type: DataType,
    tree: TreeView,
) -> bool {
    match tree.subtree("weights"@) {
        Err(_) => true,
        Ok(weights) => match weights.metadata("spec"@) {
            Err(_) => true,
            Ok(spec) => if rht_spec(spec) {
                {
                    ||| weights.subtree("incoherence_signs"@) is Err
                    ||| signs_outcome(
                        context,
                        weights.child("incoherence_signs"@),
                        input_dim,
                        output_dim,
                    ).1 is Err
                    ||| weights.subtree("quantized"@) is Err
                    ||| fused_ready(weights.child("quantized"@), data_type)
                }
            } else {
                linear_ready(context, input_dim, output_dim, data_type, tree)
            },
        },
    }
}

/// What making a map whose input transform is left to the caller asks of the
/// device, and what comes of it: the map, and the signs of its input where it is
/// stored incoherently.
pub open spec fn extracting_outcome(
    context: ContextView,
    input_dim: usize,
    output_dim: usize,
    data_type: DataType,
    tree: TreeView,
) -> (ContextView, Result<(LinearBlock, Option<Allocation>), LinearBlockErrorView>) {
    match tree.subtree("weights"@) {
        Err(e) => (context, Err(LinearBlockError::ParameterError(e))),
        Ok(weights) => match weights.metadata("spec"@) {
            Err(e) => (context, Err(LinearBlockError::ParameterError(e))),
            Ok(spec) => if rht_spec(spec) {
                match weights.subtree("incoherence_signs"@) {
                    Err(e) => (context, Err(LinearBlockError::ParameterError(e))),
                    Ok(signs) => {
                        let (middle, loaded) = signs_outcome(context, signs, input_dim, output_dim);
                        match loaded {
                            Err(e) => (middle, Err(LinearBlockError::ParameterError(e))),
                            Ok((input_factors, output_factors)) => match weights.subtree("quantized"@) {
                                Err(e) => (middle, Err(LinearBlockError::ParameterError(e))),
                                Ok(quantized) => {
                                    let (after, made) = fused_outcome(
                                        middle,
                                        quantized,
                                        Some(tree),
                                        output_factors,
                                        input_dim,
                                        output_dim,
                                        data_type,
                                    );
                                    match made {
                                        Err(e) => (after, Err(e)),
                                        Ok(linear) => (
                                            after,
                                            Ok((LinearBlock::Quantized(linear), Some(input_factors))),
                                        ),
                                    }
                                },
                            },
                        }
                    },
                }
            } else {
                let (after, made) = linear_outcome(context, input_dim, output_dim, data_type, tree);
                match made {
                    Err(e) => (after, Err(e)),
                    Ok(linear) => (after, Ok((linear, None))),
                }
            },
        },
    }
}

impl LinearBlock {
    /// Loads the linear map that the weights in a tree stand for. Its output is as
    /// wide as the given outputs together.
    pub fn new<const N: usize>(
        input_dimension: usize,
        output_dimensions: [usize; N],
        context: &mut Context,
        data_type: DataType,
        parameter_tree: &ParameterTree<'_>,
    ) -> (res: Result<LinearBlock, LinearBlockError>)
        requires
            total(output_dimensions@) <= usize::MAX,
            linear_ready(
                old(context)@,
                input_dimension,
                total(output_dimensions@) as usize,
                data_type,
                parameter_tree@,
            ),
        ensures
            (final(context)@, block_result(res)) == linear_outcome(
                old(context)@,
                input_dimension,
                total(output_dimensions@) as usize,
                data_type,
                parameter_tree@,
            ),
    {
        let output_dimension: usize = sum(output_dimensions.as_slice());
        let weights_tree = match parameter_tree.subtree("weights") {
            Ok(tree) => tree,
            Err(e) => {
                return Err(LinearBlockError::ParameterError(e));
            },
        };
        let spec = match weights_tree.metadata("spec") {
            Ok(spec) => spec,
            Err(e) => {
                return Err(LinearBlockError::ParameterError(e));
            },
        };
        match linear_kind_of(spec) {
            LinearKind::FullPrecision => match FullPrecisionLinear::new(
                context,
                input_dimension,
                output_dimension,
                data_type,
                parameter_tree,
            ) {
                Ok(linear) => Ok(LinearBlock::FullPrecision(linear)),
                Err(e) => Err(LinearBlockError::FullPrecisionLinearError(e)),
            },
            LinearKind::Quantized(quantization) => match QuantizedLinear::new(
                context,
                quantization.bits,
                quantization.group_size,
                quantization.method,
                input_dimension,
                output_dimension,
                data_type,
                &weights_tree,
                Some(parameter_tree),
                None,
            ) {
                Ok(linear) => Ok(LinearBlock::Quantized(linear)),
                Err(e) => Err(LinearBlockError::QuantizedLinearError(e)),
            },
            LinearKind::RHT => match RHTLinearWrapper::new(
                context,
                input_dimension,
                output_dimension,
                data_type,
                parameter_tree,
            ) {
                Ok(linear) => Ok(LinearBlock::RHT(linear)),
                Err(e) => Err(LinearBlockError::RHTLinearWrapperError(e)),
            },
            LinearKind::Adapted { parts, incoherent } => LinearBlock::new_adapted(
                context,
                spec,
                parts,
                incoherent,
                input_dimension,
                output_dimension,
                data_type,
                parameter_tree,
                &weights_tree,
            ),
            LinearKind::Unsupported => Err(
                LinearBlockError::UnsupportedConfiguration(UnsupportedLinear::Spec(spec.clone())),
            ),
        }
    }

    /// Loads the linear map that the weights in a tree stand for, up to a matrix in
    /// groups of no weights: where that is reached, there is nothing to give back.
    pub(crate) fn attempt(
        input_dimension: usize,
        output_dimension: usize,
        context: &mut Context,
        data_type: DataType,
        parameter_tree: &ParameterTree<'_>,
    ) -> (res: Option<Result<LinearBlock, LinearBlockError>>)
        ensures
            ({
                let tree = parameter_tree@;
                let ready = linear_ready(
                    old(context)@,
                    input_dimension,
                    output_dimension,
                    data_type,
                    tree,
                );
                match res {
                    Some(res) => ready && (final(context)@, block_result(res)) == linear_outcome(
                        old(context)@,
                        input_dimension,
                        output_dimension,
                        data_type,
                        tree,
                    ),
                    None => !ready && final(context)@ == linear_stop(
                        old(context)@,
                        input_dimension,
                        output_dimension,
                        data_type,
                        tree,
                    ),
                }
            }),
    {
        let output_dimensions = [output_dimension];
        proof {
            assert(output_dimensions@ =~= seq![output_dimension]);
            total_of_one(output_dimension);
        }
        if let Ok(weights_tree) = parameter_tree.subtree("weights") {
            if let Ok(spec) = weights_tree.metadata("spec") {
                match linear_kind_of(spec) {
                    LinearKind::Quantized(quantization) => {
                        if !quantization.is_groupable(data_type) {
                            return None;
                        }
                    },
                    LinearKind::Adapted { parts: Some((quantization, _)), incoherent } => {
                        let found = weights_tree.subtree("quantized").is_ok() && weights_tree.subtree(
                            "adapter",
                        ).is_ok() && (!incoherent || weights_tree.subtree("incoherence_signs").is_ok());
                        if found && !quantization.is_groupable(data_type) {
                            return None;
                        }
                    },
                    LinearKind::RHT => {
                        return match RHTLinearWrapper::attempt(
                            context,
                            input_dimension,
                            output_dimension,
                            data_type,
                            parameter_tree,
                        ) {
                            Some(Ok(linear)) => Some(Ok(LinearBlock::RHT(linear))),
                            Some(Err(e)) => Some(Err(LinearBlockError::RHTLinearWrapperError(e))),
                            None => None,
                        };
                    },
                    _ => {},
                }
            }
        }
        Some(LinearBlock::new(input_dimension, output_dimensions, context, data_type, parameter_tree))
    }

    /// Loads an adapted linear map.
    fn new_adapted(
        context: &mut Context,
        spec: &AnyWeightMatrixSpec,
        parts: Option<(Quantization, usize)>,
        incoherent: bool,
        input_dimension: usize,
        output_dimension: usize,
        data_type: DataType,
        parameter_tree: &ParameterTree<'_>,
        weights_tree: &ParameterTree<'_>,
    ) -> (res: Result<LinearBlock, LinearBlockError>)
        requires
            linear_kind(*spec) == (LinearKind::Adapted { parts, incoherent }),
            weights_tree@ == parameter_tree@.child("weights"@),
            weights_tree@.subtree("quantized"@) is Ok && weights_tree@.subtree("adapter"@) is Ok && (incoherent
                ==> weights_tree@.subtree("incoherence_signs"@) is Ok) ==> (parts matches Some((q, _))
                ==> q.groupable(data_type)),
        ensures
            (final(context)@, block_result(res)) == adapted_outcome(
                old(context)@,
                *spec,
                parts,
                incoherent,
                input_dimension,
                output_dimension,
                data_type,
                parameter_tree@,
            ),
    {
        let quantized_tree = match weights_tree.subtree("quantized") {
            Ok(tree) => tree,
            Err(e) => {
                return Err(LinearBlockError::ParameterError(e));
            },
        };
        let adapter_tree = match weights_tree.subtree("adapter") {
            Ok(tree) => tree,
            Err(e) => {
                return Err(LinearBlockError::ParameterError(e));
            },
        };
        let signs_tree = if incoherent {
            match weights_tree.subtree("incoherence_signs") {
                Ok(tree) => Some(tree),
                Err(e) => {
                    return Err(LinearBlockError::ParameterError(e));
                },
            }
        } else {
            None
        };
        match parts {
            Some((quantization, rank)) => match QLoRALinearWrapper::new(
                context,
                quantization.bits,
                quantization.group_size,
                quantization.method,
                rank,
                input_dimension,
                output_dimension,
                data_type,
                &quantized_tree,
                &adapter_tree,
                Some(parameter_tree),
                signs_tree.as_ref(),
            ) {
                Ok(linear) => Ok(LinearBlock::QLoRA(linear)),
                Err(e) => Err(LinearBlockError::QLoRALinearWrapperError(e)),
            },
            None => match spec {
                AnyWeightMatrixSpec::HybridSpec(
                    HybridSpec { quantization_spec, adapter_spec: Some(adapter_spec), .. },
                ) => {
                    let quantization = (&**quantization_spec).clone();
                    let adapter = (&**adapter_spec).clone();
                    Err(
                        LinearBlockError::UnsupportedConfiguration(
                            UnsupportedLinear::Hybrid { quantization, adapter },
                        ),
                    )
                },
                _ => unreached(),
            },
        }
    }

    /// Loads a quantized linear map that also transforms its output.
    pub fn new_with_output_hadamard(
        context: &mut Context,
        weights_tree: &ParameterTree<'_>,
        bias_tree: Option<&ParameterTree<'_>>,
        output_factors: Allocation,
        input_dim: usize,
        output_dim: usize,
        data_type: DataType,
    ) -> (res: Result<QuantizedLinear, LinearBlockError>)
        requires
            fused_ready(weights_tree@, data_type),
        ensures
            (final(context)@, block_result(res)) == fused_outcome(
                old(context)@,
                weights_tree@,
                optional_tree(bias_tree),
                output_factors,
                input_dim,
                output_dim,
                data_type,
            ),
    {
        let spec = match weights_tree.metadata("spec") {
            Ok(spec) => spec,
            Err(e) => {
                return Err(LinearBlockError::ParameterError(e));
            },
        };
        match quantization_in(spec, Layout::OutputInput) {
            Some(quantization) => match QuantizedLinear::new(
                context,
                quantization.bits,
                quantization.group_size,
                quantization.method,
                input_dim,
                output_dim,
                data_type,
                weights_tree,
                bias_tree,
                Some(output_factors),
            ) {
                Ok(linear) => Ok(linear),
                Err(e) => Err(LinearBlockError::QuantizedLinearError(e)),
            },
            None => Err(
                LinearBlockError::UnsupportedConfiguration(
                    UnsupportedLinear::FusedOutputHadamard(spec.clone()),
                ),
            ),
        }
    }

    /// Loads the linear map that the weights in a tree stand for, without the
    /// transform of its input where it is stored incoherently: the caller gets the
    /// signs, and has to transform the input.
    pub fn new_extracting_input_hadamard<const N: usize>(
        input_dimension: usize,
        output_dimensions: [usize; N],
        context: &mut Context,
        data_type: DataType,
        parameter_tree: &ParameterTree<'_>,
    ) -> (res: Result<(LinearBlock, Option<Allocation>), LinearBlockError>)
        requires
            total(output_dimensions@) <= usize::MAX,
            extracting_ready(
                old(context)@,
                input_dimension,
                total(output_dimensions@) as usize,
                data_type,
                parameter_tree@,
            ),
        ensures
            (final(context)@, block_result(res)) == extracting_outcome(
                old(context)@,
                input_dimension,
                total(output_dimensions@) as usize,
                data_type,
                parameter_tree@,
            ),
    {
        let output_dimension: usize = sum(output_dimensions.as_slice());
        let weights_tree = match parameter_tree.subtree("weights") {
            Ok(tree) => tree,
            Err(e) => {
                return Err(LinearBlockError::ParameterError(e));
            },
        };
        let spec = match weights_tree.metadata("spec") {
            Ok(spec) => spec,
            Err(e) => {
                return Err(LinearBlockError::ParameterError(e));
            },
        };
        if !is_rht(spec) {
            return match LinearBlock::new(
                input_dimension,
                output_dimensions,
                context,
                data_type,
                parameter_tree,
            ) {
                Ok(linear) => Ok((linear, None)),
                Err(e) => Err(e),
            };
        }
        let signs_tree = match weights_tree.subtree("incoherence_signs") {
            Ok(tree) => tree,
            Err(e) => {
                return Err(LinearBlockError::ParameterError(e));
            },
        };
        let (input_factors, output_factors) = match load_signs(
            context,
            &signs_tree,
            input_dimension,
            output_dimension,
        ) {
            Ok(factors) => factors,
            Err(e) => {
                return Err(LinearBlockError::ParameterError(e));
            },
        };
        let quantized_tree = match weights_tree.subtree("quantized") {
            Ok(tree) => tree,
            Err(e) => {
                return Err(LinearBlockError::ParameterError(e));
            },
        };
        match LinearBlock::new_with_output_hadamard(
            context,
            &quantized_tree,
            Some(parameter_tree),
            output_factors,
            input_dimension,
            output_dimension,
            data_type,
        ) {
            Ok(linear) => Ok((LinearBlock::Quantized(linear), Some(input_factors))),
            Err(e) => Err(e),
        }
    }
}

impl Linear for LinearBlock {
    open spec fn plan(&self, input: Allocation, batch_dim: usize, start: int) -> Seq<Command> {
        match self {
            LinearBlock::FullPrecision(linear) => linear.plan(input, batch_dim, start),
            LinearBlock::Quantized(linear) => linear.plan(input, batch_dim, start),
            LinearBlock::QLoRA(linear) => linear.plan(input, batch_dim, start),
            LinearBlock::RHT(linear) => linear.plan(input, batch_dim, start),
        }
    }

    open spec fn output(&self, start: int) -> Allocation {
        match self {
            LinearBlock::FullPrecision(linear) => linear.output(start),
            LinearBlock::Quantized(linear) => linear.output(start),
            LinearBlock::QLoRA(linear) => linear.output(start),
            LinearBlock::RHT(linear) => linear.output(start),
        }
    }

    open spec fn encodable(&self, batch_dim: usize) -> bool {
        match self {
            LinearBlock::FullPrecision(linear) => linear.encodable(batch_dim),
            LinearBlock::Quantized(linear) => linear.encodable(batch_dim),
            LinearBlock::QLoRA(linear) => linear.encodable(batch_dim),
            LinearBlock::RHT(linear) => linear.encodable(batch_dim),
        }
    }

    fn encode(&self, input: Allocation, batch_dim: usize, encoder: &mut Encoder) -> (res: Result<
        Allocation,
        DeviceError,
    >) {
        match self {
            LinearBlock::FullPrecision(linear) => linear.encode(input, batch_dim, encoder),
            LinearBlock::Quantized(linear) => linear.encode(input, batch_dim, encoder),
            LinearBlock::QLoRA(linear) => linear.encode(input, batch_dim, encoder),
            LinearBlock::RHT(linear) => linear.encode(input, batch_dim, encoder),
        }
    }
}

} // verus!
