//! The table that turns tokens into vectors, and vectors into logits.

use vstd::pervasive::unreached;
use vstd::prelude::*;

use crate::backend::context::{cut_stays, follows_in_parts, replays, Context, ContextView};
use crate::backend::encoder::{
    emit_in_parts, Command, Encoder, EncoderView, MatmulArgumentC, MatmulArguments,
    QuantizedMatmulArguments,
};
use crate::backend::types::{
    Allocation, DeviceError, Fault, Kernel, KernelRequest, QuantizationMethod, QuantizationMode,
    QuantizedMatmulConfiguration,
};
use crate::data_type::{DataType, F32Bits};
use crate::forward_pass::config::EmbeddingForwardPassConfig;
use crate::linear::block::{quantization, quantization_in};
use crate::linear::laws::holds;
use crate::linear::quantized::{quantized_matrix, quantized_matrix_steps};
use crate::parameters::loader::{ParameterLoaderError, ParameterTree, TreeView};
use crate::parameters::manifest::{
    is_made_by, load, made_stays, outcome, step_views, steps_follow, steps_make_what_they_want, steps_replay,
    LoadFailure, LoadFailureView, Step, StepView,
};
use crate::weight_matrix::{
    AnyWeightMatrixSpec, IncoherenceProcessingMode, Layout, INCOHERENCE_BLOCK_SIZE,
};

verus! {

/// What is the same for every way of storing an embedding.
#[derive(Clone, Copy, Debug, PartialEq, Eq, Structural)]
pub struct EmbeddingConfig {
    /// What each looked up vector is multiplied by.
    pub input_scale: Option<F32Bits>,
    /// The bound that logits are squashed to.
    pub logit_soft_cap: Option<F32Bits>,
}

/// Whether tokens are looked up in the table that logits are read from.
#[derive(Clone, Copy, Debug, PartialEq, Eq, Structural)]
pub enum AnyEmbeddingConfig {
    TiedEmbeddingConfig(EmbeddingConfig),
    UntiedEmbeddingConfig(EmbeddingConfig),
}

impl AnyEmbeddingConfig {
    /// What is the same for both.
    pub open spec fn spec_common(self) -> EmbeddingConfig {
        match self {
            AnyEmbeddingConfig::TiedEmbeddingConfig(config) => config,
            AnyEmbeddingConfig::UntiedEmbeddingConfig(config) => config,
        }
    }

    /// What is the same for both.
    pub fn common(&self) -> (res: EmbeddingConfig)
        ensures
            res == self.spec_common(),
    {
        match self {
            AnyEmbeddingConfig::TiedEmbeddingConfig(config) => *config,
            AnyEmbeddingConfig::UntiedEmbeddingConfig(config) => *config,
        }
    }
}

/// The types that a model's weights are stored in.
#[derive(Clone, Copy, Debug, PartialEq, Eq, Structural)]
pub struct ModelShape {
    pub weights_data_type: DataType,
}

/// A configuration for which there is no embedding.
#[derive(Debug, PartialEq, Eq)]
#[allow(inconsistent_fields)]
pub enum UnsupportedEmbedding {
    /// A table quantized with scales and biases in a number of bits for which
    /// there are no kernels.
    MlxBits { bits: u32, group_size: usize, layout: Layout },
    /// A quantized part in a number of bits for which there are no kernels.
    HybridBits { quantization_method: QuantizationMethod, bits: u32, group_size: usize },
    /// A table, or its quantized part, that is stored in another way.
    Spec(AnyWeightMatrixSpec),
    LogitSoftCap(F32Bits),
}

/// Why an embedding could not be made or applied.
#[derive(Debug, PartialEq, Eq)]
pub enum EmbeddingError<Name = String, Shape = Vec<usize>> {
    BackendError(DeviceError),
    MatmulError(DeviceError),
    QuantizedMatmulError(DeviceError),
    ParameterError(ParameterLoaderError<Name, Shape>),
    UnsupportedConfiguration(UnsupportedEmbedding),
}

/// An [`EmbeddingError`] with its text and shapes as sequences.
pub type EmbeddingErrorView = EmbeddingError<Seq<char>, Seq<usize>>;

impl View for EmbeddingError {
    type V = EmbeddingErrorView;

    open spec fn view(&self) -> EmbeddingErrorView {
        match *self {
            EmbeddingError::BackendError(e) => EmbeddingError::BackendError(e),
            EmbeddingError::MatmulError(e) => EmbeddingError::MatmulError(e),
            EmbeddingError::QuantizedMatmulError(e) => EmbeddingError::QuantizedMatmulError(e),
            EmbeddingError::ParameterError(e) => EmbeddingError::ParameterError(e@),
            EmbeddingError::UnsupportedConfiguration(u) => EmbeddingError::UnsupportedConfiguration(u),
        }
    }
}

/// The error for a step that failed.
pub open spec fn embedding_failure(failure: LoadFailureView) -> EmbeddingErrorView {
    match failure {
        LoadFailure::Parameter(e) => EmbeddingError::ParameterError(e),
        LoadFailure::Kernel { request, error } => match request {
            KernelRequest::Matmul { .. } => EmbeddingError::MatmulError(error),
            KernelRequest::QuantizedMatmul(_) => EmbeddingError::QuantizedMatmulError(error),
            _ => EmbeddingError::BackendError(error),
        },
    }
}

impl EmbeddingError {
    /// The error for a step that failed.
    fn from_failure(failure: LoadFailure) -> (res: EmbeddingError)
        ensures
            res@ == embedding_failure(failure@),
    {
        match failure {
            LoadFailure::Parameter(e) => EmbeddingError::ParameterError(e),
            LoadFailure::Kernel { request, error } => match request {
                KernelRequest::Matmul { .. } => EmbeddingError::MatmulError(error),
                KernelRequest::QuantizedMatmul(_) => EmbeddingError::QuantizedMatmulError(error),
                _ => EmbeddingError::BackendError(error),
            },
        }
    }
}

/// A result with the error taken by its view.
pub open spec fn embedding_result<T>(res: Result<T, EmbeddingError>) -> Result<T, EmbeddingErrorView> {
    match res {
        Ok(value) => Ok(value),
        Err(e) => Err(e@),
    }
}

/// A table that serves both ways.
#[derive(Clone, Copy, Debug, PartialEq, Eq, Structural)]
pub enum TiedEmbeddingType {
    FullPrecision { weights: Allocation, lookup: Kernel, readout: Kernel },
    Quantized {
        weights: Allocation,
        scales: Allocation,
        zero_points_or_biases: Allocation,
        quantization_method: QuantizationMethod,
        output_hadamard_factors: Option<Allocation>,
        lookup: Kernel,
        readout: Kernel,
    },
}

/// A table in which tokens are looked up.
#[derive(Clone, Copy, Debug, PartialEq, Eq, Structural)]
pub enum UntiedEmbeddingLookupType {
    FullPrecision { weights: Allocation, lookup: Kernel },
    Quantized {
        weights: Allocation,
        scales: Allocation,
        zero_points_or_biases: Allocation,
        quantization_method: QuantizationMethod,
        output_hadamard_factors: Option<Allocation>,
        lookup: Kernel,
    },
}

/// A table from which logits are read.
#[derive(Clone, Copy, Debug, PartialEq, Eq, Structural)]
pub enum UntiedEmbeddingReadoutType {
    FullPrecision { weights: Allocation, readout: Kernel },
    Quantized { weights: Allocation, scales: Allocation, zero_points_or_biases: Allocation, readout: Kernel },
}

/// One table for both ways, or one for each.
#[derive(Clone, Copy, Debug, PartialEq, Eq, Structural)]
pub enum EmbeddingTying {
    Tied { ty: TiedEmbeddingType },
    Untied { input_ty: UntiedEmbeddingLookupType, output_ty: UntiedEmbeddingReadoutType },
}

/// A table of one vector for each token.
#[derive(Clone, Copy, Debug, PartialEq, Eq, Structural)]
pub struct Embedding {
    pub tying: EmbeddingTying,
    pub readout_input_hadamard_factors: Option<Allocation>,
    pub input_scale: F32Bits,
    pub data_type: DataType,
    pub vocab_size: u32,
    pub model_dim: u32,
}

/// The size of a table and the type of its entries.
#[derive(Clone, Copy, Debug, PartialEq, Eq, Structural)]
pub struct TableShape {
    pub vocab_size: u32,
    pub model_dim: u32,
    pub data_type: DataType,
}

impl TableShape {
    /// The step for a table of plain numbers.
    pub open spec fn plain_step(self, tree: TreeView) -> StepView {
        StepView::Tensor {
            tree,
            name: "weights"@,
            shape: seq![self.vocab_size as usize, self.model_dim as usize],
            data_type: self.data_type,
        }
    }

    /// The steps for a quantized table.
    pub open spec fn matrix_steps(
        self,
        tree: TreeView,
        mode: QuantizationMode,
        group_size: usize,
        method: QuantizationMethod,
    ) -> Seq<StepView> {
        quantized_matrix_steps(
            tree,
            mode,
            group_size,
            method,
            self.model_dim as usize,
            self.vocab_size as usize,
            self.data_type,
        )
    }

    /// The kernel that looks tokens up in a table of plain numbers.
    pub open spec fn plain_lookup(self) -> StepView {
        StepView::Kernel(KernelRequest::FullPrecisionEmbeddingLookup { data_type: self.data_type })
    }

    /// The kernel that reads logits from a table of plain numbers.
    pub open spec fn plain_readout(self) -> StepView {
        StepView::Kernel(KernelRequest::Matmul { data_type: self.data_type })
    }

    /// The kernel that looks tokens up in a quantized table.
    pub open spec fn quantized_lookup(
        self,
        mode: QuantizationMode,
        group_size: usize,
        quantization_method: QuantizationMethod,
        use_hadamard: bool,
    ) -> StepView {
        StepView::Kernel(
            KernelRequest::QuantizedEmbeddingLookup {
                data_type: self.data_type,
                group_size: group_size as u32,
                mode,
                quantization_method,
                use_hadamard,
            },
        )
    }

    /// The kernel that reads logits from a quantized table.
    pub open spec fn quantized_readout(
        self,
        mode: QuantizationMode,
        group_size: usize,
        quantization_method: QuantizationMethod,
    ) -> StepView {
        StepView::Kernel(
            KernelRequest::QuantizedMatmul(
                QuantizedMatmulConfiguration {
                    data_type: self.data_type,
                    group_size,
                    input_dim: self.model_dim as usize,
                    output_dim: self.vocab_size as usize,
                    mode,
                    quantization_method,
                    use_hadamard: false,
                },
            ),
        )
    }

    /// The step for the signs of a transformed table.
    pub open spec fn sign_step(self, tree: TreeView) -> StepView {
        StepView::Tensor {
            tree,
            name: "output_signs"@,
            shape: seq![self.model_dim as usize],
            data_type: DataType::I32,
        }
    }

    /// Lists the step for a table of plain numbers.
    fn plain_table<'tree>(&self, tree: &'tree ParameterTree<'tree>) -> (res: Vec<Step<'tree>>)
        ensures
            step_views(res@) == seq![self.plain_step(tree@)],
    {
        let shape = vec![self.vocab_size as usize, self.model_dim as usize];
        assert(shape@ =~= seq![self.vocab_size as usize, self.model_dim as usize]);
        let mut steps: Vec<Step<'tree>> = Vec::new();
        steps.push(Step::Tensor { tree, name: "weights", shape, data_type: self.data_type });
        assert(step_views(steps@) =~= seq![self.plain_step(tree@)]);
        steps
    }

    /// Lists the steps for a quantized table.
    fn quantized_table<'tree>(
        &self,
        tree: &'tree ParameterTree<'tree>,
        mode: QuantizationMode,
        group_size: usize,
        method: QuantizationMethod,
    ) -> (res: Vec<Step<'tree>>)
        requires
            group_size > 0,
        ensures
            step_views(res@) == self.matrix_steps(tree@, mode, group_size, method),
    {
        quantized_matrix(
            tree,
            mode,
            group_size,
            method,
            self.model_dim as usize,
            self.vocab_size as usize,
            self.data_type,
        )
    }

    /// The kernel that looks tokens up in a quantized table.
    fn quantized_lookup_kernel<'tree>(
        &self,
        mode: QuantizationMode,
        group_size: usize,
        quantization_method: QuantizationMethod,
        use_hadamard: bool,
    ) -> (res: Step<'tree>)
        ensures
            res@ == self.quantized_lookup(mode, group_size, quantization_method, use_hadamard),
    {
        Step::Kernel(
            KernelRequest::QuantizedEmbeddingLookup {
                data_type: self.data_type,
                group_size: group_size as u32,
                mode,
                quantization_method,
                use_hadamard,
            },
        )
    }

    /// The kernel that reads logits from a quantized table.
    fn quantized_readout_kernel<'tree>(
        &self,
        mode: QuantizationMode,
        group_size: usize,
        quantization_method: QuantizationMethod,
    ) -> (res: Step<'tree>)
        ensures
            res@ == self.quantized_readout(mode, group_size, quantization_method),
    {
        Step::Kernel(
            KernelRequest::QuantizedMatmul(
                QuantizedMatmulConfiguration {
                    data_type: self.data_type,
                    group_size,
                    input_dim: self.model_dim as usize,
                    output_dim: self.vocab_size as usize,
                    mode,
                    quantization_method,
                    use_hadamard: false,
                },
            ),
        )
    }
}

/// What taking some steps asks of the device, and what comes of it.
pub open spec fn taken(context: ContextView, steps: Seq<StepView>) -> (
    ContextView,
    Result<Seq<usize>, EmbeddingErrorView>,
) {
    let (after, loaded) = outcome(context, steps);
    match loaded {
        Ok(made) => (after, Ok(made)),
        Err(failure) => (after, Err(embedding_failure(failure))),
    }
}

/// Takes some steps.
fn take(context: &mut Context, steps: &Vec<Step<'_>>) -> (res: Result<Vec<usize>, EmbeddingError>)
    ensures
        final(context)@ == taken(old(context)@, step_views(steps@)).0,
        match res {
            Ok(made) => taken(old(context)@, step_views(steps@)).1 == Ok::<Seq<usize>, EmbeddingErrorView>(
                made@,
            ) && made@.len() == steps@.len(),
            Err(e) => taken(old(context)@, step_views(steps@)).1 == Err::<Seq<usize>, EmbeddingErrorView>(e@),
        },
{
    match load(context, steps) {
        Ok(made) => Ok(made),
        Err(failure) => Err(EmbeddingError::from_failure(failure)),
    }
}

/// How a table is stored, of the ways that one is known to be stored in.
#[derive(Clone, Copy, Debug, PartialEq, Eq, Structural)]
pub enum TableKind {
    FullPrecision,
    Mlx { bits: u32, group_size: usize },
    /// Quantized, and transformed on the side of the vectors.
    Hybrid,
    Unsupported,
}

/// How a table in the given layout is stored.
pub open spec fn table_kind(spec: AnyWeightMatrixSpec, layout: Layout) -> TableKind {
    match spec {
        AnyWeightMatrixSpec::FullPrecisionSpec(full) => if full.layout == layout {
            TableKind::FullPrecision
        } else {
            TableKind::Unsupported
        },
        AnyWeightMatrixSpec::MLXSpec(mlx) => if mlx.layout == layout {
            TableKind::Mlx { bits: mlx.bits, group_size: mlx.group_size }
        } else {
            TableKind::Unsupported
        },
        AnyWeightMatrixSpec::HybridSpec(hybrid) => if hybrid.adapter_spec is None
            && hybrid.incoherence_block_size == Some(INCOHERENCE_BLOCK_SIZE)
            && hybrid.incoherence_processing_mode == IncoherenceProcessingMode::Output {
            TableKind::Hybrid
        } else {
            TableKind::Unsupported
        },
        _ => TableKind::Unsupported,
    }
}

/// Tells how a table in the given layout is stored.
pub fn table_kind_of(spec: &AnyWeightMatrixSpec, layout: Layout) -> (res: TableKind)
    ensures
        res == table_kind(*spec, layout),
{
    match spec {
        AnyWeightMatrixSpec::FullPrecisionSpec(full) => {
            if full.layout == layout {
                TableKind::FullPrecision
            } else {
                TableKind::Unsupported
            }
        },
        AnyWeightMatrixSpec::MLXSpec(mlx) => {
            if mlx.layout == layout {
                TableKind::Mlx { bits: mlx.bits, group_size: mlx.group_size }
            } else {
                TableKind::Unsupported
            }
        },
        AnyWeightMatrixSpec::HybridSpec(hybrid) => {
            let known_blocks = match hybrid.incoherence_block_size {
                Some(size) => size == INCOHERENCE_BLOCK_SIZE,
                None => false,
            };
            if hybrid.adapter_spec.is_none() && known_blocks && hybrid.incoherence_processing_mode
                == IncoherenceProcessingMode::Output {
                TableKind::Hybrid
            } else {
                TableKind::Unsupported
            }
        },
        _ => TableKind::Unsupported,
    }
}

/// The error for a table that is stored in a way that is not known here.
pub open spec fn unsupported(spec: AnyWeightMatrixSpec) -> EmbeddingErrorView {
    EmbeddingError::UnsupportedConfiguration(UnsupportedEmbedding::Spec(spec))
}

/// The error for a table in a number of bits for which there are no kernels.
pub open spec fn unsupported_bits(bits: u32, group_size: usize, layout: Layout) -> EmbeddingErrorView {
    EmbeddingError::UnsupportedConfiguration(UnsupportedEmbedding::MlxBits { bits, group_size, layout })
}

impl TableShape {
    /// What loading a table of plain numbers for both ways asks of the device, and
    /// what comes of it.
    pub open spec fn tied_plain_outcome(self, context: ContextView, tree: TreeView) -> (
        ContextView,
        Result<(TiedEmbeddingType, Option<Allocation>), EmbeddingErrorView>,
    ) {
        let steps = seq![self.plain_step(tree), self.plain_lookup(), self.plain_readout()];
        let (after, loaded) = taken(context, steps);
        match loaded {
            Err(e) => (after, Err(e)),
            Ok(made) => {
                let ty = TiedEmbeddingType::FullPrecision {
                    weights: Allocation::Resident(made[0]),
                    lookup: Kernel { request: made[1] },
                    readout: Kernel { request: made[2] },
                };
                (after, Ok((ty, None)))
            },
        }
    }

    /// What loading a quantized table for both ways asks of the device, and what
    /// comes of it.
    pub open spec fn tied_mlx_outcome(
        self,
        context: ContextView,
        bits: u32,
        group_size: usize,
        tree: TreeView,
    ) -> (ContextView, Result<(TiedEmbeddingType, Option<Allocation>), EmbeddingErrorView>) {
        let quantization_method = QuantizationMethod::ScaleBias;
        match QuantizationMode::spec_from_bits(bits) {
            None => (context, Err(unsupported_bits(bits, group_size, Layout::InputOutput))),
            Some(mode) => {
                let steps = self.matrix_steps(tree, mode, group_size, quantization_method) + seq![
                    self.quantized_lookup(mode, group_size, quantization_method, false),
                    self.quantized_readout(mode, group_size, quantization_method),
                ];
                let (after, loaded) = taken(context, steps);
                match loaded {
                    Err(e) => (after, Err(e)),
                    Ok(made) => {
                        let ty = TiedEmbeddingType::Quantized {
                            weights: Allocation::Resident(made[0]),
                            scales: Allocation::Resident(made[1]),
                            zero_points_or_biases: Allocation::Resident(made[2]),
                            quantization_method,
                            output_hadamard_factors: None,
                            lookup: Kernel { request: made[3] },
                            readout: Kernel { request: made[4] },
                        };
                        (after, Ok((ty, None)))
                    },
                }
            },
        }
    }

    /// What loading a transformed table for both ways asks of the device, and what
    /// comes of it. The signs are loaded twice: once for the lookup, and once for
    /// whoever transforms the vectors that logits are read of.
    pub open spec fn tied_hybrid_outcome(
        self,
        context: ContextView,
        quantized_spec: AnyWeightMatrixSpec,
        tree: TreeView,
    ) -> (ContextView, Result<(TiedEmbeddingType, Option<Allocation>), EmbeddingErrorView>) {
        match quantization(quantized_spec, Layout::InputOutput) {
            None => (context, Err(unsupported(quantized_spec))),
            Some(quantization) => match tree.subtree("quantized"@) {
                Err(e) => (context, Err(EmbeddingError::ParameterError(e))),
                Ok(quantized) => match QuantizationMode::spec_from_bits(quantization.bits) {
                    None => {
                        let error = UnsupportedEmbedding::HybridBits {
                            quantization_method: quantization.method,
                            bits: quantization.bits,
                            group_size: quantization.group_size,
                        };
                        (context, Err(EmbeddingError::UnsupportedConfiguration(error)))
                    },
                    Some(mode) => {
                        let group_size = quantization.group_size;
                        let method = quantization.method;
                        let (middle, matrix) = taken(
                            context,
                            self.matrix_steps(quantized, mode, group_size, method),
                        );
                        match matrix {
                            Err(e) => (middle, Err(e)),
                            Ok(matrix) => match tree.subtree("incoherence_signs"@) {
                                Err(e) => (middle, Err(EmbeddingError::ParameterError(e))),
                                Ok(signs) => {
                                    let steps = seq![
                                        self.sign_step(signs),
                                        self.sign_step(signs),
                                        self.quantized_lookup(mode, group_size, method, true),
                                        self.quantized_readout(mode, group_size, method),
                                    ];
                                    let (after, loaded) = taken(middle, steps);
                                    match loaded {
                                        Err(e) => (after, Err(e)),
                                        Ok(made) => {
                                            let ty = TiedEmbeddingType::Quantized {
                                                weights: Allocation::Resident(matrix[0]),
                                                scales: Allocation::Resident(matrix[1]),
                                                zero_points_or_biases: Allocation::Resident(matrix[2]),
                                                quantization_method: method,
                                                output_hadamard_factors: Some(Allocation::Resident(made[0])),
                                                lookup: Kernel { request: made[2] },
                                                readout: Kernel { request: made[3] },
                                            };
                                            (after, Ok((ty, Some(Allocation::Resident(made[1])))))
                                        },
                                    }
                                },
                            },
                        }
                    },
                },
            },
        }
    }

    /// What loading a table for both ways asks of the device, and what comes of it:
    /// the table, and the signs for the vectors that logits are read of.
    pub open spec fn tied_outcome(self, context: ContextView, lookup_tree: TreeView) -> (
        ContextView,
        Result<(TiedEmbeddingType, Option<Allocation>), EmbeddingErrorView>,
    ) {
        match lookup_tree.subtree("embedding"@) {
            Err(e) => (context, Err(EmbeddingError::ParameterError(e))),
            Ok(tree) => match tree.metadata("spec"@) {
                Err(e) => (context, Err(EmbeddingError::ParameterError(e))),
                Ok(spec) => match table_kind(spec, Layout::InputOutput) {
                    TableKind::FullPrecision => self.tied_plain_outcome(context, tree),
                    TableKind::Mlx { bits, group_size } => self.tied_mlx_outcome(
                        context,
                        bits,
                        group_size,
                        tree,
                    ),
                    TableKind::Hybrid => self.tied_hybrid_outcome(
                        context,
                        *spec->HybridSpec_0.quantization_spec,
                        tree,
                    ),
                    TableKind::Unsupported => (context, Err(unsupported(spec))),
                },
            },
        }
    }

    /// Whether a table for both ways, where it is reached, falls into groups.
    pub open spec fn tied_ready(self, lookup_tree: TreeView) -> bool {
        let tree = lookup_tree.child("embedding"@);
        lookup_tree.subtree("embedding"@) is Ok ==> (tree.metadata("spec"@) matches Ok(spec) ==> {
            match table_kind(spec, Layout::InputOutput) {
                TableKind::Mlx { bits, group_size } => QuantizationMode::spec_from_bits(bits) is Some
                    ==> group_size > 0,
                TableKind::Hybrid => match quantization(
                    *spec->HybridSpec_0.quantization_spec,
                    Layout::InputOutput,
                ) {
                    Some(quantization) => tree.subtree("quantized"@) is Ok
                        && QuantizationMode::spec_from_bits(quantization.bits) is Some
                        ==> quantization.group_size > 0,
                    None => true,
                },
                _ => true,
            }
        })
    }

    /// What loading a table for lookups asks of the device, and what comes of it.
    pub open spec fn lookup_outcome(self, context: ContextView, lookup_tree: TreeView) -> (
        ContextView,
        Result<UntiedEmbeddingLookupType, EmbeddingErrorView>,
    ) {
        let quantization_method = QuantizationMethod::ScaleBias;
        match lookup_tree.subtree("input_embedding"@) {
            Err(e) => (context, Err(EmbeddingError::ParameterError(e))),
            Ok(tree) => match tree.metadata("spec"@) {
                Err(e) => (context, Err(EmbeddingError::ParameterError(e))),
                Ok(spec) => match table_kind(spec, Layout::InputOutput) {
                    TableKind::FullPrecision => {
                        let (after, loaded) = taken(
                            context,
                            seq![self.plain_step(tree), self.plain_lookup()],
                        );
                        match loaded {
                            Err(e) => (after, Err(e)),
                            Ok(made) => {
                                let ty = UntiedEmbeddingLookupType::FullPrecision {
                                    weights: Allocation::Resident(made[0]),
                                    lookup: Kernel { request: made[1] },
                                };
                                (after, Ok(ty))
                            },
                        }
                    },
                    TableKind::Mlx { bits, group_size } => match QuantizationMode::spec_from_bits(bits) {
                        None => (context, Err(unsupported_bits(bits, group_size, Layout::InputOutput))),
                        Some(mode) => {
                            let (after, loaded) = taken(
                                context,
                                self.matrix_steps(tree, mode, group_size, quantization_method) + seq![
                                    self.quantized_lookup(mode, group_size, quantization_method, false),
                                ],
                            );
                            match loaded {
                                Err(e) => (after, Err(e)),
                                Ok(made) => {
                                    let ty = UntiedEmbeddingLookupType::Quantized {
                                        weights: Allocation::Resident(made[0]),
                                        scales: Allocation::Resident(made[1]),
                                        zero_points_or_biases: Allocation::Resident(made[2]),
                                        quantization_method,
                                        output_hadamard_factors: None,
                                        lookup: Kernel { request: made[3] },
                                    };
                                    (after, Ok(ty))
                                },
                            }
                        },
                    },
                    _ => (context, Err(unsupported(spec))),
                },
            },
        }
    }

    /// What loading a table for logits asks of the device, and what comes of it.
    pub open spec fn readout_outcome(self, context: ContextView, readout_tree: TreeView) -> (
        ContextView,
        Result<UntiedEmbeddingReadoutType, EmbeddingErrorView>,
    ) {
        let quantization_method = QuantizationMethod::ScaleBias;
        match readout_tree.subtree("output_embedding"@) {
            Err(e) => (context, Err(EmbeddingError::ParameterError(e))),
            Ok(tree) => match tree.metadata("spec"@) {
                Err(e) => (context, Err(EmbeddingError::ParameterError(e))),
                Ok(spec) => match table_kind(spec, Layout::OutputInput) {
                    TableKind::FullPrecision => {
                        let (after, loaded) = taken(
                            context,
                            seq![self.plain_step(tree), self.plain_readout()],
                        );
                        match loaded {
                            Err(e) => (after, Err(e)),
                            Ok(made) => {
                                let ty = UntiedEmbeddingReadoutType::FullPrecision {
                                    weights: Allocation::Resident(made[0]),
                                    readout: Kernel { request: made[1] },
                                };
                                (after, Ok(ty))
                            },
                        }
                    },
                    TableKind::Mlx { bits, group_size } => match QuantizationMode::spec_from_bits(bits) {
                        None => (context, Err(unsupported_bits(bits, group_size, Layout::OutputInput))),
                        Some(mode) => {
                            let (after, loaded) = taken(
                                context,
                                self.matrix_steps(tree, mode, group_size, quantization_method) + seq![
                                    self.quantized_readout(mode, group_size, quantization_method),
                                ],
                            );
                            match loaded {
                                Err(e) => (after, Err(e)),
                                Ok(made) => {
                                    let ty = UntiedEmbeddingReadoutType::Quantized {
                                        weights: Allocation::Resident(made[0]),
                                        scales: Allocation::Resident(made[1]),
                                        zero_points_or_biases: Allocation::Resident(made[2]),
                                        readout: Kernel { request: made[3] },
                                    };
                                    (after, Ok(ty))
                                },
                            }
                        },
                    },
                    _ => (context, Err(unsupported(spec))),
                },
            },
        }
    }

    /// Whether a table that is stored below a name, where it is reached, falls into
    /// groups.
    pub open spec fn untied_ready(tree: TreeView, name: Seq<char>, layout: Layout) -> bool {
        tree.subtree(name) is Ok ==> (tree.child(name).metadata("spec"@) matches Ok(spec) ==> {
            match table_kind(spec, layout) {
                TableKind::Mlx { bits, group_size } => QuantizationMode::spec_from_bits(bits) is Some
                    ==> group_size > 0,
                _ => true,
            }
        })
    }

    /// What loading the tables of an embedding asks of the device, and what comes
    /// of it: the tables, and the signs for the vectors that logits are read of.
    pub open spec fn tables_outcome(
        self,
        context: ContextView,
        config: AnyEmbeddingConfig,
        lookup_tree: TreeView,
        readout_tree: TreeView,
    ) -> (ContextView, Result<(EmbeddingTying, Option<Allocation>), EmbeddingErrorView>) {
        match config {
            AnyEmbeddingConfig::TiedEmbeddingConfig(_) => {
                let (after, loaded) = self.tied_outcome(context, lookup_tree);
                match loaded {
                    Err(e) => (after, Err(e)),
                    Ok((ty, signs)) => (after, Ok((EmbeddingTying::Tied { ty }, signs))),
                }
            },
            AnyEmbeddingConfig::UntiedEmbeddingConfig(_) => {
                let (middle, loaded) = self.lookup_outcome(context, lookup_tree);
                match loaded {
                    Err(e) => (middle, Err(e)),
                    Ok(input_ty) => {
                        let (after, loaded) = self.readout_outcome(middle, readout_tree);
                        match loaded {
                            Err(e) => (after, Err(e)),
                            Ok(output_ty) => (
                                after,
                                Ok((EmbeddingTying::Untied { input_ty, output_ty }, None)),
                            ),
                        }
                    },
                }
            },
        }
    }

    /// Whether the tables of an embedding, where they are reached, fall into
    /// groups.
    pub open spec fn tables_ready(
        self,
        context: ContextView,
        config: AnyEmbeddingConfig,
        lookup_tree: TreeView,
        readout_tree: TreeView,
    ) -> bool {
        match config {
            AnyEmbeddingConfig::TiedEmbeddingConfig(_) => self.tied_ready(lookup_tree),
            AnyEmbeddingConfig::UntiedEmbeddingConfig(_) => {
                &&& TableShape::untied_ready(lookup_tree, "input_embedding"@, Layout::InputOutput)
                &&& self.lookup_outcome(context, lookup_tree).1 is Ok ==> TableShape::untied_ready(
                    readout_tree,
                    "output_embedding"@,
                    Layout::OutputInput,
                )
            },
        }
    }

    /// What has been asked of the device where a table is reached that is in groups of
    /// no weights.
    pub open spec fn tables_stop(
        self,
        context: ContextView,
        config: AnyEmbeddingConfig,
        lookup_tree: TreeView,
    ) -> ContextView {
        if config is UntiedEmbeddingConfig && TableShape::untied_ready(
            lookup_tree,
            "input_embedding"@,
            Layout::InputOutput,
        ) {
            self.lookup_outcome(context, lookup_tree).0
        } else {
            context
        }
    }

    /// What making an embedding asks of the device, and what comes of it. The
    /// tables are loaded even where the logits are to be bounded, which is refused.
    pub open spec fn outcome(
        self,
        context: ContextView,
        config: AnyEmbeddingConfig,
        lookup_tree: TreeView,
        readout_tree: TreeView,
    ) -> (ContextView, Result<Embedding, EmbeddingErrorView>) {
        let (after, loaded) = self.tables_outcome(context, config, lookup_tree, readout_tree);
        let common = config.spec_common();
        match loaded {
            Err(e) => (after, Err(e)),
            Ok((tying, readout_input_hadamard_factors)) => match common.logit_soft_cap {
                Some(cap) => {
                    let error = UnsupportedEmbedding::LogitSoftCap(cap);
                    (after, Err(EmbeddingError::UnsupportedConfiguration(error)))
                },
                None => {
                    let embedding = Embedding {
                        tying,
                        readout_input_hadamard_factors,
                        input_scale: match common.input_scale {
                            Some(scale) => scale,
                            None => F32Bits::spec_one(),
                        },
                        data_type: self.data_type,
                        vocab_size: self.vocab_size,
                        model_dim: self.model_dim,
                    };
                    (after, Ok(embedding))
                },
            },
        }
    }

    /// Loads a table of plain numbers for both ways.
    fn load_tied_plain(&self, context: &mut Context, tree: &ParameterTree<'_>) -> (res: Result<
        (TiedEmbeddingType, Option<Allocation>),
        EmbeddingError,
    >)
        ensures
            (final(context)@, embedding_result(res)) == self.tied_plain_outcome(old(context)@, tree@),
    {
        let mut steps = self.plain_table(tree);
        let ghost table = steps@;
        let data_type = self.data_type;
        steps.push(Step::Kernel(KernelRequest::FullPrecisionEmbeddingLookup { data_type }));
        steps.push(Step::Kernel(KernelRequest::Matmul { data_type }));
        assert(step_views(steps@) =~= step_views(table) + seq![self.plain_lookup(), self.plain_readout()]);
        assert(step_views(steps@) =~= seq![
            self.plain_step(tree@),
            self.plain_lookup(),
            self.plain_readout(),
        ]);
        assert(steps@.len() == 3) by {
            assert(step_views(steps@).len() == steps@.len());
        }
        match take(context, &steps) {
            Ok(made) => {
                let ty = TiedEmbeddingType::FullPrecision {
                    weights: Allocation::Resident(made[0]),
                    lookup: Kernel { request: made[1] },
                    readout: Kernel { request: made[2] },
                };
                Ok((ty, None))
            },
            Err(e) => Err(e),
        }
    }

    /// Loads a quantized table for both ways.
    fn load_tied_mlx(
        &self,
        context: &mut Context,
        bits: u32,
        group_size: usize,
        tree: &ParameterTree<'_>,
    ) -> (res: Result<(TiedEmbeddingType, Option<Allocation>), EmbeddingError>)
        requires
            QuantizationMode::spec_from_bits(bits) is Some ==> group_size > 0,
        ensures
            (final(context)@, embedding_result(res)) == self.tied_mlx_outcome(
                old(context)@,
                bits,
                group_size,
                tree@,
            ),
    {
        let quantization_method = QuantizationMethod::ScaleBias;
        let mode = match QuantizationMode::from_bits(bits) {
            Some(mode) => mode,
            None => {
                let layout = Layout::InputOutput;
                return Err(
                    EmbeddingError::UnsupportedConfiguration(
                        UnsupportedEmbedding::MlxBits { bits, group_size, layout },
                    ),
                );
            },
        };
        let mut steps = self.quantized_table(tree, mode, group_size, quantization_method);
        let ghost table = steps@;
        let ghost kernels = seq![
            self.quantized_lookup(mode, group_size, quantization_method, false),
            self.quantized_readout(mode, group_size, quantization_method),
        ];
        steps.push(self.quantized_lookup_kernel(mode, group_size, quantization_method, false));
        steps.push(self.quantized_readout_kernel(mode, group_size, quantization_method));
        assert(step_views(steps@) =~= step_views(table) + kernels);
        assert(step_views(steps@).len() == steps@.len());
        match take(context, &steps) {
            Ok(made) => {
                let ty = TiedEmbeddingType::Quantized {
                    weights: Allocation::Resident(made[0]),
                    scales: Allocation::Resident(made[1]),
                    zero_points_or_biases: Allocation::Resident(made[2]),
                    quantization_method,
                    output_hadamard_factors: None,
                    lookup: Kernel { request: made[3] },
                    readout: Kernel { request: made[4] },
                };
                Ok((ty, None))
            },
            Err(e) => Err(e),
        }
    }

    /// Loads a transformed table for both ways.
    fn load_tied_hybrid(
        &self,
        context: &mut Context,
        quantized_spec: &AnyWeightMatrixSpec,
        tree: &ParameterTree<'_>,
    ) -> (res: Result<(TiedEmbeddingType, Option<Allocation>), EmbeddingError>)
        requires
            quantization(*quantized_spec, Layout::InputOutput) matches Some(q) ==> (tree@.subtree(
                "quantized"@,
            ) is Ok && QuantizationMode::spec_from_bits(q.bits) is Some ==> q.group_size > 0),
        ensures
            (final(context)@, embedding_result(res)) == self.tied_hybrid_outcome(
                old(context)@,
                *quantized_spec,
                tree@,
            ),
    {
        let quantization = match quantization_in(quantized_spec, Layout::InputOutput) {
            Some(quantization) => quantization,
            None => {
                return Err(
                    EmbeddingError::UnsupportedConfiguration(
                        UnsupportedEmbedding::Spec(quantized_spec.clone()),
                    ),
                );
            },
        };
        let quantized_tree = match tree.subtree("quantized") {
            Ok(tree) => tree,
            Err(e) => {
                return Err(EmbeddingError::ParameterError(e));
            },
        };
        let group_size: usize = quantization.group_size;
        let quantization_method = quantization.method;
        let mode = match QuantizationMode::from_bits(quantization.bits) {
            Some(mode) => mode,
            None => {
                return Err(
                    EmbeddingError::UnsupportedConfiguration(
                        UnsupportedEmbedding::HybridBits {
                            quantization_method,
                            bits: quantization.bits,
                            group_size,
                        },
                    ),
                );
            },
        };
        let table = self.quantized_table(&quantized_tree, mode, group_size, quantization_method);
        assert(step_views(table@).len() == table@.len());
        let matrix = match take(context, &table) {
            Ok(made) => made,
            Err(e) => {
                return Err(e);
            },
        };
        let signs_tree = match tree.subtree("incoherence_signs") {
            Ok(tree) => tree,
            Err(e) => {
                return Err(EmbeddingError::ParameterError(e));
            },
        };
        let ghost rest = seq![
            self.sign_step(signs_tree@),
            self.sign_step(signs_tree@),
            self.quantized_lookup(mode, group_size, quantization_method, true),
            self.quantized_readout(mode, group_size, quantization_method),
        ];
        let first_shape = vec![self.model_dim as usize];
        assert(first_shape@ =~= seq![self.model_dim as usize]);
        let second_shape = vec![self.model_dim as usize];
        assert(second_shape@ =~= seq![self.model_dim as usize]);
        let (name, data_type) = ("output_signs", DataType::I32);
        let mut steps: Vec<Step<'_>> = Vec::new();
        steps.push(Step::Tensor { tree: &signs_tree, name, shape: first_shape, data_type });
        steps.push(Step::Tensor { tree: &signs_tree, name, shape: second_shape, data_type });
        steps.push(self.quantized_lookup_kernel(mode, group_size, quantization_method, true));
        steps.push(self.quantized_readout_kernel(mode, group_size, quantization_method));
        assert(step_views(steps@) =~= rest);
        match take(context, &steps) {
            Ok(made) => {
                let ty = TiedEmbeddingType::Quantized {
                    weights: Allocation::Resident(matrix[0]),
                    scales: Allocation::Resident(matrix[1]),
                    zero_points_or_biases: Allocation::Resident(matrix[2]),
                    quantization_method,
                    output_hadamard_factors: Some(Allocation::Resident(made[0])),
                    lookup: Kernel { request: made[2] },
                    readout: Kernel { request: made[3] },
                };
                Ok((ty, Some(Allocation::Resident(made[1]))))
            },
            Err(e) => Err(e),
        }
    }

    /// Loads a table for both ways.
    fn load_tied(&self, context: &mut Context, lookup_tree: &ParameterTree<'_>) -> (res: Result<
        (TiedEmbeddingType, Option<Allocation>),
        EmbeddingError,
    >)
        requires
            self.tied_ready(lookup_tree@),
        ensures
            (final(context)@, embedding_result(res)) == self.tied_outcome(old(context)@, lookup_tree@),
    {
        let tree = match lookup_tree.subtree("embedding") {
            Ok(tree) => tree,
            Err(e) => {
                return Err(EmbeddingError::ParameterError(e));
            },
        };
        let spec = match tree.metadata("spec") {
            Ok(spec) => spec,
            Err(e) => {
                return Err(EmbeddingError::ParameterError(e));
            },
        };
        match table_kind_of(spec, Layout::InputOutput) {
            TableKind::FullPrecision => self.load_tied_plain(context, &tree),
            TableKind::Mlx { bits, group_size } => self.load_tied_mlx(context, bits, group_size, &tree),
            TableKind::Hybrid => match spec {
                AnyWeightMatrixSpec::HybridSpec(hybrid) => self.load_tied_hybrid(
                    context,
                    &*hybrid.quantization_spec,
                    &tree,
                ),
                _ => unreached(),
            },
            TableKind::Unsupported => Err(
                EmbeddingError::UnsupportedConfiguration(UnsupportedEmbedding::Spec(spec.clone())),
            ),
        }
    }

    /// Loads a table for lookups.
    fn load_lookup(&self, context: &mut Context, lookup_tree: &ParameterTree<'_>) -> (res: Result<
        UntiedEmbeddingLookupType,
        EmbeddingError,
    >)
        requires
            TableShape::untied_ready(lookup_tree@, "input_embedding"@, Layout::InputOutput),
        ensures
            (final(context)@, embedding_result(res)) == self.lookup_outcome(old(context)@, lookup_tree@),
    {
        let quantization_method = QuantizationMethod::ScaleBias;
        let data_type = self.data_type;
        let tree = match lookup_tree.subtree("input_embedding") {
            Ok(tree) => tree,
            Err(e) => {
                return Err(EmbeddingError::ParameterError(e));
            },
        };
        let spec = match tree.metadata("spec") {
            Ok(spec) => spec,
            Err(e) => {
                return Err(EmbeddingError::ParameterError(e));
            },
        };
        match table_kind_of(spec, Layout::InputOutput) {
            TableKind::FullPrecision => {
                let mut steps = self.plain_table(&tree);
                let ghost table = steps@;
                steps.push(Step::Kernel(KernelRequest::FullPrecisionEmbeddingLookup { data_type }));
                assert(step_views(steps@) =~= step_views(table) + seq![self.plain_lookup()]);
                assert(step_views(steps@) =~= seq![self.plain_step(tree@), self.plain_lookup()]);
                assert(step_views(steps@).len() == steps@.len());
                match take(context, &steps) {
                    Ok(made) => Ok(
                        UntiedEmbeddingLookupType::FullPrecision {
                            weights: Allocation::Resident(made[0]),
                            lookup: Kernel { request: made[1] },
                        },
                    ),
                    Err(e) => Err(e),
                }
            },
            TableKind::Mlx { bits, group_size } => {
                let mode = match QuantizationMode::from_bits(bits) {
                    Some(mode) => mode,
                    None => {
                        let layout = Layout::InputOutput;
                        return Err(
                            EmbeddingError::UnsupportedConfiguration(
                                UnsupportedEmbedding::MlxBits { bits, group_size, layout },
                            ),
                        );
                    },
                };
                let mut steps = self.quantized_table(&tree, mode, group_size, quantization_method);
                let ghost table = steps@;
                let ghost kernels = seq![
                    self.quantized_lookup(mode, group_size, quantization_method, false),
                ];
                steps.push(self.quantized_lookup_kernel(mode, group_size, quantization_method, false));
                assert(step_views(steps@) =~= step_views(table) + kernels);
                assert(step_views(steps@).len() == steps@.len());
                match take(context, &steps) {
                    Ok(made) => Ok(
                        UntiedEmbeddingLookupType::Quantized {
                            weights: Allocation::Resident(made[0]),
                            scales: Allocation::Resident(made[1]),
                            zero_points_or_biases: Allocation::Resident(made[2]),
                            quantization_method,
                            output_hadamard_factors: None,
                            lookup: Kernel { request: made[3] },
                        },
                    ),
                    Err(e) => Err(e),
                }
            },
            _ => Err(EmbeddingError::UnsupportedConfiguration(UnsupportedEmbedding::Spec(spec.clone()))),
        }
    }

    /// Loads a table for logits.
    fn load_readout(&self, context: &mut Context, readout_tree: &ParameterTree<'_>) -> (res: Result<
        UntiedEmbeddingReadoutType,
        EmbeddingError,
    >)
        requires
            TableShape::untied_ready(readout_tree@, "output_embedding"@, Layout::OutputInput),
        ensures
            (final(context)@, embedding_result(res)) == self.readout_outcome(old(context)@, readout_tree@),
    {
        let quantization_method = QuantizationMethod::ScaleBias;
        let data_type = self.data_type;
        let tree = match readout_tree.subtree("output_embedding") {
            Ok(tree) => tree,
            Err(e) => {
                return Err(EmbeddingError::ParameterError(e));
            },
        };
        let spec = match tree.metadata("spec") {
            Ok(spec) => spec,
            Err(e) => {
                return Err(EmbeddingError::ParameterError(e));
            },
        };
        match table_kind_of(spec, Layout::OutputInput) {
            TableKind::FullPrecision => {
                let mut steps = self.plain_table(&tree);
                let ghost table = steps@;
                steps.push(Step::Kernel(KernelRequest::Matmul { data_type }));
                assert(step_views(steps@) =~= step_views(table) + seq![self.plain_readout()]);
                assert(step_views(steps@) =~= seq![self.plain_step(tree@), self.plain_readout()]);
                assert(step_views(steps@).len() == steps@.len());
                match take(context, &steps) {
                    Ok(made) => Ok(
                        UntiedEmbeddingReadoutType::FullPrecision {
                            weights: Allocation::Resident(made[0]),
                            readout: Kernel { request: made[1] },
                        },
                    ),
                    Err(e) => Err(e),
                }
            },
            TableKind::Mlx { bits, group_size } => {
                let mode = match QuantizationMode::from_bits(bits) {
                    Some(mode) => mode,
                    None => {
                        let layout = Layout::OutputInput;
                        return Err(
                            EmbeddingError::UnsupportedConfiguration(
                                UnsupportedEmbedding::MlxBits { bits, group_size, layout },
                            ),
                        );
                    },
                };
                let mut steps = self.quantized_table(&tree, mode, group_size, quantization_method);
                let ghost table = steps@;
                let ghost kernels = seq![self.quantized_readout(mode, group_size, quantization_method)];
                steps.push(self.quantized_readout_kernel(mode, group_size, quantization_method));
                assert(step_views(steps@) =~= step_views(table) + kernels);
                assert(step_views(steps@).len() == steps@.len());
                match take(context, &steps) {
                    Ok(made) => Ok(
                        UntiedEmbeddingReadoutType::Quantized {
                            weights: Allocation::Resident(made[0]),
                            scales: Allocation::Resident(made[1]),
                            zero_points_or_biases: Allocation::Resident(made[2]),
                            readout: Kernel { request: made[3] },
                        },
                    ),
                    Err(e) => Err(e),
                }
            },
            _ => Err(EmbeddingError::UnsupportedConfiguration(UnsupportedEmbedding::Spec(spec.clone()))),
        }
    }
}

impl TableShape {
    /// Tells whether a table for both ways, where it is reached, falls into groups.
    fn is_tied_ready(&self, lookup_tree: &ParameterTree<'_>) -> (res: bool)
        ensures
            res == self.tied_ready(lookup_tree@),
    {
        if let Ok(tree) = lookup_tree.subtree("embedding") {
            if let Ok(spec) = tree.metadata("spec") {
                return match table_kind_of(spec, Layout::InputOutput) {
                    TableKind::Mlx { bits, group_size } => {
                        QuantizationMode::from_bits(bits).is_none() || group_size > 0
                    },
                    TableKind::Hybrid => match spec {
                        AnyWeightMatrixSpec::HybridSpec(hybrid) => match quantization_in(
                            &*hybrid.quantization_spec,
                            Layout::InputOutput,
                        ) {
                            Some(quantization) => {
                                tree.subtree("quantized").is_err() || QuantizationMode::from_bits(
                                    quantization.bits,
                                ).is_none() || quantization.group_size > 0
                            },
                            None => true,
                        },
                        _ => true,
                    },
                    _ => true,
                };
            }
        }
        true
    }

    /// Tells whether a table that is stored below a name, where it is reached, falls
    /// into groups.
    fn is_untied_ready(tree: &ParameterTree<'_>, name: &str, layout: Layout) -> (res: bool)
        ensures
            res == TableShape::untied_ready(tree@, name@, layout),
    {
        if let Ok(tree) = tree.subtree(name) {
            if let Ok(spec) = tree.metadata("spec") {
                return match table_kind_of(spec, layout) {
                    TableKind::Mlx { bits, group_size } => {
                        QuantizationMode::from_bits(bits).is_none() || group_size > 0
                    },
                    _ => true,
                };
            }
        }
        true
    }

    /// Loads an embedding, up to a table in groups of no weights: where one is reached,
    /// there is nothing to give back.
    pub(crate) fn attempt(
        &self,
        context: &mut Context,
        config: &AnyEmbeddingConfig,
        lookup_tree: &ParameterTree<'_>,
        readout_tree: &ParameterTree<'_>,
    ) -> (res: Option<Result<Embedding, EmbeddingError>>)
        ensures
            ({
                let ready = self.tables_ready(old(context)@, *config, lookup_tree@, readout_tree@);
                match res {
                    Some(res) => ready && (final(context)@, embedding_result(res)) == self.outcome(
                        old(context)@,
                        *config,
                        lookup_tree@,
                        readout_tree@,
                    ),
                    None => !ready && final(context)@ == self.tables_stop(
                        old(context)@,
                        *config,
                        lookup_tree@,
                    ),
                }
            }),
    {
        let (tying, readout_input_hadamard_factors) = match config {
            AnyEmbeddingConfig::TiedEmbeddingConfig(_) => {
                if !self.is_tied_ready(lookup_tree) {
                    return None;
                }
                match self.load_tied(context, lookup_tree) {
                    Ok((ty, signs)) => (EmbeddingTying::Tied { ty }, signs),
                    Err(e) => {
                        return Some(Err(e));
                    },
                }
            },
            AnyEmbeddingConfig::UntiedEmbeddingConfig(_) => {
                if !TableShape::is_untied_ready(lookup_tree, "input_embedding", Layout::InputOutput) {
                    return None;
                }
                let input_ty = match self.load_lookup(context, lookup_tree) {
                    Ok(ty) => ty,
                    Err(e) => {
                        return Some(Err(e));
                    },
                };
                if !TableShape::is_untied_ready(readout_tree, "output_embedding", Layout::OutputInput) {
                    return None;
                }
                match self.load_readout(context, readout_tree) {
                    Ok(output_ty) => (EmbeddingTying::Untied { input_ty, output_ty }, None),
                    Err(e) => {
                        return Some(Err(e));
                    },
                }
            },
        };
        let common = config.common();
        let input_scale = match common.input_scale {
            Some(scale) => scale,
            None => F32Bits::one(),
        };
        if let Some(cap) = common.logit_soft_cap {
            return Some(
                Err(EmbeddingError::UnsupportedConfiguration(UnsupportedEmbedding::LogitSoftCap(cap))),
            );
        }
        Some(
            Ok(
                Embedding {
                    tying,
                    readout_input_hadamard_factors,
                    input_scale,
                    data_type: self.data_type,
                    vocab_size: self.vocab_size,
                    model_dim: self.model_dim,
                },
            ),
        )
    }
}

/// What comes of the next commands: their output, or the error reported.
pub open spec fn embedding_answer(encoder: EncoderView, plan: Seq<Command>, output: Allocation) -> Result<
    Allocation,
    EmbeddingErrorView,
> {
    match encoder.answer(plan, output) {
        Ok(output) => Ok(output),
        Err(e) => Err(EmbeddingError::BackendError(e)),
    }
}

impl Embedding {
    /// Loads an embedding.
    pub fn new(
        context: &mut Context,
        vocab_size: u32,
        model_dim: u32,
        config: &AnyEmbeddingConfig,
        parameter_tree: &ParameterTree<'_>,
        model_shape: &ModelShape,
        forward_pass_config: &EmbeddingForwardPassConfig,
    ) -> (res: Result<Embedding, EmbeddingError>)
        requires
            forward_pass_config.activation_data_type == model_shape.weights_data_type,
            (TableShape { vocab_size, model_dim, data_type: model_shape.weights_data_type }).tables_ready(
                old(context)@,
                *config,
                parameter_tree@,
                parameter_tree@,
            ),
        ensures
            (final(context)@, embedding_result(res)) == (TableShape {
                vocab_size,
                model_dim,
                data_type: model_shape.weights_data_type,
            }).outcome(old(context)@, *config, parameter_tree@, parameter_tree@),
    {
        Embedding::new_with_lookup_and_readout_trees(
            context,
            vocab_size,
            model_dim,
            config,
            parameter_tree,
            parameter_tree,
            model_shape,
            forward_pass_config,
        )
    }

    /// Loads an embedding whose tables may stand in different trees. Its kernels
    /// take activations of the type of the stored weights only.
    pub fn new_with_lookup_and_readout_trees(
        context: &mut Context,
        vocab_size: u32,
        model_dim: u32,
        config: &AnyEmbeddingConfig,
        lookup_tree: &ParameterTree<'_>,
        readout_tree: &ParameterTree<'_>,
        model_shape: &ModelShape,
        forward_pass_config: &EmbeddingForwardPassConfig,
    ) -> (res: Result<Embedding, EmbeddingError>)
        requires
            forward_pass_config.activation_data_type == model_shape.weights_data_type,
            (TableShape { vocab_size, model_dim, data_type: model_shape.weights_data_type }).tables_ready(
                old(context)@,
                *config,
                lookup_tree@,
                readout_tree@,
            ),
        ensures
            (final(context)@, embedding_result(res)) == (TableShape {
                vocab_size,
                model_dim,
                data_type: model_shape.weights_data_type,
            }).outcome(old(context)@, *config, lookup_tree@, readout_tree@),
    {
        let data_type = forward_pass_config.activation_data_type;
        let shape = TableShape { vocab_size, model_dim, data_type };
        match shape.attempt(context, config, lookup_tree, readout_tree) {
            Some(res) => res,
            None => unreached(),
        }
    }

    /// Hands out the signs for the vectors that logits are read of. The embedding
    /// does not hold them any more.
    pub fn take_readout_input_hadamard_factors(&mut self) -> (res: Option<Allocation>)
        ensures
            res == old(self).readout_input_hadamard_factors,
            *final(self) == (Embedding { readout_input_hadamard_factors: None, ..*old(self) }),
    {
        let factors = self.readout_input_hadamard_factors;
        self.readout_input_hadamard_factors = None;
        factors
    }

    /// The command that looks tokens up.
    pub open spec fn lookup_command(self, token_ids: Allocation, output: Allocation, batch_dim: u32) -> Command {
        match self.tying {
            EmbeddingTying::Tied { ty: TiedEmbeddingType::FullPrecision { weights, lookup, .. } } => {
                self.plain_lookup_command(token_ids, output, batch_dim, weights, lookup)
            },
            EmbeddingTying::Untied {
                input_ty: UntiedEmbeddingLookupType::FullPrecision { weights, lookup },
                ..
            } => self.plain_lookup_command(token_ids, output, batch_dim, weights, lookup),
            EmbeddingTying::Tied {
                ty: TiedEmbeddingType::Quantized {
                    weights,
                    scales,
                    zero_points_or_biases,
                    quantization_method,
                    output_hadamard_factors,
                    lookup,
                    ..
                },
            } => self.quantized_lookup_command(
                token_ids,
                output,
                batch_dim,
                weights,
                scales,
                zero_points_or_biases,
                quantization_method,
                output_hadamard_factors,
                lookup,
            ),
            EmbeddingTying::Untied {
                input_ty: UntiedEmbeddingLookupType::Quantized {
                    weights,
                    scales,
                    zero_points_or_biases,
                    quantization_method,
                    output_hadamard_factors,
                    lookup,
                },
                ..
            } => self.quantized_lookup_command(
                token_ids,
                output,
                batch_dim,
                weights,
                scales,
                zero_points_or_biases,
                quantization_method,
                output_hadamard_factors,
                lookup,
            ),
        }
    }

    /// The command that looks tokens up in a table of plain numbers.
    pub open spec fn plain_lookup_command(
        self,
        token_ids: Allocation,
        output: Allocation,
        batch_dim: u32,
        weights: Allocation,
        kernel: Kernel,
    ) -> Command {
        Command::FullPrecisionEmbeddingLookup {
            kernel,
            token_ids,
            weights,
            output,
            batch_dim,
            vocab_size: self.vocab_size,
            model_dim: self.model_dim,
            input_scale: self.input_scale,
        }
    }

    /// The command that looks tokens up in a quantized table: the third part of the
    /// table stands where the method wants it.
    pub open spec fn quantized_lookup_command(
        self,
        token_ids: Allocation,
        output: Allocation,
        batch_dim: u32,
        weights: Allocation,
        scales: Allocation,
        zero_points_or_biases: Allocation,
        quantization_method: QuantizationMethod,
        hadamard_factors: Option<Allocation>,
        kernel: Kernel,
    ) -> Command {
        Command::QuantizedEmbeddingLookup {
            kernel,
            token_ids,
            weights,
            scales,
            zero_points: if quantization_method == QuantizationMethod::ScaleZeroPoint {
                Some(zero_points_or_biases)
            } else {
                None
            },
            biases: if quantization_method == QuantizationMethod::ScaleBias {
                Some(zero_points_or_biases)
            } else {
                None
            },
            output,
            hadamard_factors,
            batch_dim,
            vocab_size: self.vocab_size,
            model_dim: self.model_dim,
            input_scale: self.input_scale,
        }
    }

    /// The commands that look `batch_dim` tokens up, where the first of them has the
    /// number `start`.
    pub open spec fn lookup_plan(self, token_ids: Allocation, batch_dim: usize, start: int) -> Seq<Command> {
        seq![
            Command::AllocateScratch {
                rows: batch_dim,
                columns: self.model_dim as usize,
                data_type: self.data_type,
            },
            self.lookup_command(token_ids, Allocation::Scratch(start as usize), batch_dim as u32),
        ]
    }

    /// Adds the commands that look tokens up.
    pub fn encode_lookup(&self, token_ids: Allocation, batch_dim: usize, encoder: &mut Encoder) -> (res: Result<
        Allocation,
        EmbeddingError,
    >)
        ensures
            ({
                let start = old(encoder)@.next();
                let plan = self.lookup_plan(token_ids, batch_dim, start);
                &&& final(encoder)@ == old(encoder)@.emit(plan)
                &&& embedding_result(res) == embedding_answer(
                    old(encoder)@,
                    plan,
                    Allocation::Scratch(start as usize),
                )
            }),
    {
        proof {
            let plan = self.lookup_plan(token_ids, batch_dim, encoder@.next());
            assert(plan =~= seq![plan[0]] + seq![plan[1]]);
            emit_in_parts(encoder@, seq![plan[0]], seq![plan[1]]);
        }
        let output = match encoder.allocate_scratch(batch_dim, self.model_dim as usize, self.data_type) {
            Ok(output) => output,
            Err(e) => {
                return Err(EmbeddingError::BackendError(e));
            },
        };
        let batch_dim: u32 = batch_dim as u32;
        match self.tying {
            EmbeddingTying::Tied { ty: TiedEmbeddingType::FullPrecision { weights, lookup, .. } }
            | EmbeddingTying::Untied {
                input_ty: UntiedEmbeddingLookupType::FullPrecision { weights, lookup },
                ..
            } => {
                encoder.record(
                    Command::FullPrecisionEmbeddingLookup {
                        kernel: lookup,
                        token_ids,
                        weights,
                        output,
                        batch_dim,
                        vocab_size: self.vocab_size,
                        model_dim: self.model_dim,
                        input_scale: self.input_scale,
                    },
                );
            },
            EmbeddingTying::Tied {
                ty: TiedEmbeddingType::Quantized {
                    weights,
                    scales,
                    zero_points_or_biases,
                    quantization_method,
                    output_hadamard_factors,
                    lookup,
                    ..
                },
            }
            | EmbeddingTying::Untied {
                input_ty: UntiedEmbeddingLookupType::Quantized {
                    weights,
                    scales,
                    zero_points_or_biases,
                    quantization_method,
                    output_hadamard_factors,
                    lookup,
                },
                ..
            } => {
                let (zero_points, biases) = match quantization_method {
                    QuantizationMethod::ScaleZeroPoint => (Some(zero_points_or_biases), None),
                    QuantizationMethod::ScaleBias => (None, Some(zero_points_or_biases)),
                };
                encoder.record(
                    Command::QuantizedEmbeddingLookup {
                        kernel: lookup,
                        token_ids,
                        weights,
                        scales,
                        zero_points,
                        biases,
                        output,
                        hadamard_factors: output_hadamard_factors,
                        batch_dim,
                        vocab_size: self.vocab_size,
                        model_dim: self.model_dim,
                        input_scale: self.input_scale,
                    },
                );
            },
        }
        Ok(output)
    }

    /// The command that reads logits from a table of plain numbers.
    pub open spec fn plain_readout_command(
        self,
        input: Allocation,
        output: Allocation,
        batch_dim: usize,
        weights: Allocation,
        kernel: Kernel,
    ) -> Command {
        Command::Matmul {
            kernel,
            arguments: MatmulArguments {
                a: input,
                a_offset: 0,
                b: weights,
                b_offset: 0,
                b_leading_dimension: None,
                b_transpose: true,
                ab_scale: F32Bits::spec_one(),
                c: MatmulArgumentC::Nothing,
                d: output,
                batch_dim: batch_dim as u32,
                input_dim: self.model_dim,
                output_dim: self.vocab_size,
            },
        }
    }

    /// The command that reads logits from a quantized table.
    pub open spec fn quantized_readout_command(
        self,
        input: Allocation,
        output: Allocation,
        batch_dim: usize,
        weights: Allocation,
        scales: Allocation,
        zero_points_or_biases: Allocation,
        kernel: Kernel,
    ) -> Command {
        Command::QuantizedMatmul {
            kernel,
            arguments: QuantizedMatmulArguments {
                a: input,
                a_offset: 0,
                b: weights,
                scales,
                zero_points_or_biases,
                output,
                hadamard_factors: None,
                batch_dim,
            },
        }
    }

    /// The command that reads logits.
    pub open spec fn readout_command(self, input: Allocation, output: Allocation, batch_dim: usize) -> Command {
        match self.tying {
            EmbeddingTying::Tied { ty: TiedEmbeddingType::FullPrecision { weights, readout, .. } } => {
                self.plain_readout_command(input, output, batch_dim, weights, readout)
            },
            EmbeddingTying::Untied {
                output_ty: UntiedEmbeddingReadoutType::FullPrecision { weights, readout },
                ..
            } => self.plain_readout_command(input, output, batch_dim, weights, readout),
            EmbeddingTying::Tied {
                ty: TiedEmbeddingType::Quantized { weights, scales, zero_points_or_biases, readout, .. },
            } => self.quantized_readout_command(
                input,
                output,
                batch_dim,
                weights,
                scales,
                zero_points_or_biases,
                readout,
            ),
            EmbeddingTying::Untied {
                output_ty: UntiedEmbeddingReadoutType::Quantized {
                    weights,
                    scales,
                    zero_points_or_biases,
                    readout,
                },
                ..
            } => self.quantized_readout_command(
                input,
                output,
                batch_dim,
                weights,
                scales,
                zero_points_or_biases,
                readout,
            ),
        }
    }

    /// The commands that read the logits of `batch_dim` vectors, where the first of
    /// them has the number `start`.
    pub open spec fn readout_plan(self, batch_dim: usize, input: Allocation, start: int) -> Seq<Command> {
        seq![
            Command::AllocateScratch {
                rows: batch_dim,
                columns: self.vocab_size as usize,
                data_type: self.data_type,
            },
            self.readout_command(input, Allocation::Scratch(start as usize), batch_dim),
        ]
    }

    /// Adds the commands that read logits.
    pub fn encode_readout(&self, batch_dim: usize, input: Allocation, encoder: &mut Encoder) -> (res: Result<
        Allocation,
        EmbeddingError,
    >)
        requires
            batch_dim > 0,
        ensures
            ({
                let start = old(encoder)@.next();
                let plan = self.readout_plan(batch_dim, input, start);
                &&& final(encoder)@ == old(encoder)@.emit(plan)
                &&& embedding_result(res) == embedding_answer(
                    old(encoder)@,
                    plan,
                    Allocation::Scratch(start as usize),
                )
            }),
    {
        proof {
            let plan = self.readout_plan(batch_dim, input, encoder@.next());
            assert(plan =~= seq![plan[0]] + seq![plan[1]]);
            emit_in_parts(encoder@, seq![plan[0]], seq![plan[1]]);
        }
        let output = match encoder.allocate_scratch(batch_dim, self.vocab_size as usize, self.data_type) {
            Ok(output) => output,
            Err(e) => {
                return Err(EmbeddingError::BackendError(e));
            },
        };
        match self.tying {
            EmbeddingTying::Tied { ty: TiedEmbeddingType::FullPrecision { weights, readout, .. } }
            | EmbeddingTying::Untied {
                output_ty: UntiedEmbeddingReadoutType::FullPrecision { weights, readout },
                ..
            } => {
                encoder.record(
                    Command::Matmul {
                        kernel: readout,
                        arguments: MatmulArguments {
                            a: input,
                            a_offset: 0,
                            b: weights,
                            b_offset: 0,
                            b_leading_dimension: None,
                            b_transpose: true,
                            ab_scale: F32Bits::one(),
                            c: MatmulArgumentC::Nothing,
                            d: output,
                            batch_dim: batch_dim as u32,
                            input_dim: self.model_dim,
                            output_dim: self.vocab_size,
                        },
                    },
                );
            },
            EmbeddingTying::Tied {
                ty: TiedEmbeddingType::Quantized { weights, scales, zero_points_or_biases, readout, .. },
            }
            | EmbeddingTying::Untied {
                output_ty: UntiedEmbeddingReadoutType::Quantized {
                    weights,
                    scales,
                    zero_points_or_biases,
                    readout,
                },
                ..
            } => {
                encoder.record(
                    Command::QuantizedMatmul {
                        kernel: readout,
                        arguments: QuantizedMatmulArguments {
                            a: input,
                            a_offset: 0,
                            b: weights,
                            scales,
                            zero_points_or_biases,
                            output,
                            hadamard_factors: None,
                            batch_dim,
                        },
                    },
                );
            },
        }
        Ok(output)
    }
}

impl EmbeddingErrorView {
    /// Whether the error is a refusal of the device or of the file.
    pub open spec fn is_refusal(self) -> bool {
        match self {
            EmbeddingErrorView::BackendError(_) => true,
            EmbeddingErrorView::MatmulError(_) => true,
            EmbeddingErrorView::QuantizedMatmulError(_) => true,
            EmbeddingErrorView::ParameterError(e) => e.is_refusal(),
            EmbeddingErrorView::UnsupportedConfiguration(_) => false,
        }
    }
}

/// Taking some steps asks for nothing after a refusal.
proof fn taken_follows(context: ContextView, steps: Seq<StepView>)
    ensures
        ({
            let (after, loaded) = taken(context, steps);
            after.follows(context, loaded is Err && loaded->Err_0.is_refusal())
        }),
{
    steps_follow(context, steps);
}

impl TableShape {
    /// Loading a transformed table asks for nothing after a refusal.
    proof fn tied_hybrid_follows(
        self,
        context: ContextView,
        quantized_spec: AnyWeightMatrixSpec,
        tree: TreeView,
    )
        ensures
            ({
                let (after, loaded) = self.tied_hybrid_outcome(context, quantized_spec, tree);
                after.follows(context, loaded is Err && loaded->Err_0.is_refusal())
            }),
    {
        assert(context.requests.take(context.requests.len() as int) =~= context.requests);
        if let Some(quantization) = quantization(quantized_spec, Layout::InputOutput) {
            if let Some(mode) = QuantizationMode::spec_from_bits(quantization.bits) {
                let group_size = quantization.group_size;
                let method = quantization.method;
                let signs = tree.child("incoherence_signs"@);
                let steps = self.matrix_steps(tree.child("quantized"@), mode, group_size, method);
                let rest = seq![
                    self.sign_step(signs),
                    self.sign_step(signs),
                    self.quantized_lookup(mode, group_size, method, true),
                    self.quantized_readout(mode, group_size, method),
                ];
                let (middle, matrix) = taken(context, steps);
                taken_follows(context, steps);
                taken_follows(middle, rest);
                if matrix is Ok {
                    let (after, loaded) = taken(middle, rest);
                    follows_in_parts(
                        context,
                        middle,
                        after,
                        loaded is Err && loaded->Err_0.is_refusal(),
                    );
                }
            }
        }
    }

    /// Loading a table for both ways asks for nothing after a refusal.
    proof fn tied_follows(self, context: ContextView, lookup_tree: TreeView)
        ensures
            ({
                let (after, loaded) = self.tied_outcome(context, lookup_tree);
                after.follows(context, loaded is Err && loaded->Err_0.is_refusal())
            }),
    {
        assert(context.requests.take(context.requests.len() as int) =~= context.requests);
        let method = QuantizationMethod::ScaleBias;
        let tree = lookup_tree.child("embedding"@);
        if let Ok(spec) = tree.metadata("spec"@) {
            match table_kind(spec, Layout::InputOutput) {
                TableKind::FullPrecision => {
                    taken_follows(
                        context,
                        seq![self.plain_step(tree), self.plain_lookup(), self.plain_readout()],
                    );
                },
                TableKind::Mlx { bits, group_size } => {
                    if let Some(mode) = QuantizationMode::spec_from_bits(bits) {
                        taken_follows(
                            context,
                            self.matrix_steps(tree, mode, group_size, method) + seq![
                                self.quantized_lookup(mode, group_size, method, false),
                                self.quantized_readout(mode, group_size, method),
                            ],
                        );
                    }
                },
                TableKind::Hybrid => {
                    self.tied_hybrid_follows(context, *spec->HybridSpec_0.quantization_spec, tree);
                },
                TableKind::Unsupported => {},
            }
        }
    }

    /// Loading a table for lookups asks for nothing after a refusal.
    pub(crate) proof fn lookup_follows(self, context: ContextView, lookup_tree: TreeView)
        ensures
            ({
                let (after, loaded) = self.lookup_outcome(context, lookup_tree);
                after.follows(context, loaded is Err && loaded->Err_0.is_refusal())
            }),
    {
        assert(context.requests.take(context.requests.len() as int) =~= context.requests);
        let method = QuantizationMethod::ScaleBias;
        let tree = lookup_tree.child("input_embedding"@);
        if let Ok(spec) = tree.metadata("spec"@) {
            match table_kind(spec, Layout::InputOutput) {
                TableKind::FullPrecision => {
                    taken_follows(context, seq![self.plain_step(tree), self.plain_lookup()]);
                },
                TableKind::Mlx { bits, group_size } => {
                    if let Some(mode) = QuantizationMode::spec_from_bits(bits) {
                        taken_follows(
                            context,
                            self.matrix_steps(tree, mode, group_size, method) + seq![
                                self.quantized_lookup(mode, group_size, method, false),
                            ],
                        );
                    }
                },
                _ => {},
            }
        }
    }

    /// Loading a table for logits asks for nothing after a refusal.
    pub(crate) proof fn readout_follows(self, context: ContextView, readout_tree: TreeView)
        ensures
            ({
                let (after, loaded) = self.readout_outcome(context, readout_tree);
                after.follows(context, loaded is Err && loaded->Err_0.is_refusal())
            }),
    {
        assert(context.requests.take(context.requests.len() as int) =~= context.requests);
        let method = QuantizationMethod::ScaleBias;
        let tree = readout_tree.child("output_embedding"@);
        if let Ok(spec) = tree.metadata("spec"@) {
            match table_kind(spec, Layout::OutputInput) {
                TableKind::FullPrecision => {
                    taken_follows(context, seq![self.plain_step(tree), self.plain_readout()]);
                },
                TableKind::Mlx { bits, group_size } => {
                    if let Some(mode) = QuantizationMode::spec_from_bits(bits) {
                        taken_follows(
                            context,
                            self.matrix_steps(tree, mode, group_size, method) + seq![
                                self.quantized_readout(mode, group_size, method),
                            ],
                        );
                    }
                },
                _ => {},
            }
        }
    }

    /// Making an embedding keeps the requests that were made before, asks for nothing
    /// after a refusal, and fails with a refusal exactly where there was one.
    pub proof fn embedding_follows(
        self,
        context: ContextView,
        config: AnyEmbeddingConfig,
        lookup_tree: TreeView,
        readout_tree: TreeView,
    )
        ensures
            ({
                let (after, made) = self.outcome(context, config, lookup_tree, readout_tree);
                after.follows(context, made is Err && made->Err_0.is_refusal())
            }),
    {
        self.tied_follows(context, lookup_tree);
        self.lookup_follows(context, lookup_tree);
        let (middle, lookup) = self.lookup_outcome(context, lookup_tree);
        let (after, readout) = self.readout_outcome(middle, readout_tree);
        self.readout_follows(middle, readout_tree);
        if lookup is Ok {
            follows_in_parts(context, middle, after, readout is Err && readout->Err_0.is_refusal());
        }
    }

    /// An embedding with one table for both ways does not depend on the tree that
    /// logits would be read from.
    pub proof fn tied_embedding_ignores_the_readout_tree(
        self,
        context: ContextView,
        config: EmbeddingConfig,
        lookup_tree: TreeView,
        readout_tree: TreeView,
        other_tree: TreeView,
    )
        ensures
            self.outcome(
                context,
                AnyEmbeddingConfig::TiedEmbeddingConfig(config),
                lookup_tree,
                readout_tree,
            ) == self.outcome(
                context,
                AnyEmbeddingConfig::TiedEmbeddingConfig(config),
                lookup_tree,
                other_tree,
            ),
    {
    }

    /// There is no embedding whose logits are bounded.
    pub proof fn logits_are_not_bounded(
        self,
        context: ContextView,
        config: AnyEmbeddingConfig,
        lookup_tree: TreeView,
        readout_tree: TreeView,
    )
        requires
            config.spec_common().logit_soft_cap is Some,
        ensures
            self.outcome(context, config, lookup_tree, readout_tree).1 is Err,
    {
    }

    /// The vectors that logits are read of have to be transformed exactly where the
    /// looked up vectors are. Both transforms have signs of their own, filled from the
    /// same tensor.
    pub proof fn both_ways_are_transformed_alike(
        self,
        context: ContextView,
        config: AnyEmbeddingConfig,
        lookup_tree: TreeView,
        readout_tree: TreeView,
    )
        requires
            self.outcome(context, config, lookup_tree, readout_tree).1 is Ok,
            self.outcome(context, config, lookup_tree, readout_tree).0.requests.len() <= usize::MAX,
        ensures
            ({
                let (after, made) = self.outcome(context, config, lookup_tree, readout_tree);
                let embedding = made->Ok_0;
                let signs = lookup_tree.child("embedding"@).child("incoherence_signs"@);
                let step = self.sign_step(signs);
                match (embedding.lookup_factors(), embedding.readout_input_hadamard_factors) {
                    (None, None) => true,
                    (Some(Allocation::Resident(lookup)), Some(Allocation::Resident(readout))) => {
                        &&& lookup != readout
                        &&& is_made_by(after, step, lookup)
                        &&& is_made_by(after, step, readout)
                    },
                    _ => false,
                }
            }),
    {
        let tree = lookup_tree.child("embedding"@);
        let signs = tree.child("incoherence_signs"@);
        if config is TiedEmbeddingConfig {
            let spec = tree.metadata("spec"@)->Ok_0;
            if table_kind(spec, Layout::InputOutput) is Hybrid {
                let quantization = quantization(
                    *spec->HybridSpec_0.quantization_spec,
                    Layout::InputOutput,
                )->0;
                let mode = QuantizationMode::spec_from_bits(quantization.bits)->0;
                let group_size = quantization.group_size;
                let method = quantization.method;
                let (middle, matrix) = taken(
                    context,
                    self.matrix_steps(tree.child("quantized"@), mode, group_size, method),
                );
                let steps = seq![
                    self.sign_step(signs),
                    self.sign_step(signs),
                    self.quantized_lookup(mode, group_size, method, true),
                    self.quantized_readout(mode, group_size, method),
                ];
                steps_make_what_they_want(middle, steps);
                let made = taken(middle, steps).1->Ok_0;
                assert(is_made_by(taken(middle, steps).0, steps[0], made[0]));
                assert(is_made_by(taken(middle, steps).0, steps[1], made[1]));
            }
        }
    }
}

/// Whether three allocations hold what the steps for a quantized table load.
pub open spec fn holds_matrix(
    context: ContextView,
    steps: Seq<StepView>,
    weights: Allocation,
    scales: Allocation,
    zero_points_or_biases: Allocation,
) -> bool {
    &&& holds(context, steps[0], weights)
    &&& holds(context, steps[1], scales)
    &&& holds(context, steps[2], zero_points_or_biases)
}

impl TableShape {
    /// Whether a table for both ways is the one that is stored: the allocations hold
    /// its tensors, and the kernels are those for the way it is stored in.
    pub open spec fn tied_is_loaded(
        self,
        context: ContextView,
        lookup_tree: TreeView,
        ty: TiedEmbeddingType,
    ) -> bool {
        let tree = lookup_tree.child("embedding"@);
        let spec = tree.metadata("spec"@)->Ok_0;
        match (table_kind(spec, Layout::InputOutput), ty) {
            (TableKind::FullPrecision, TiedEmbeddingType::FullPrecision { weights, lookup, readout }) => {
                &&& holds(context, self.plain_step(tree), weights)
                &&& is_made_by(context, self.plain_lookup(), lookup.request)
                &&& is_made_by(context, self.plain_readout(), readout.request)
            },
            (
                TableKind::Mlx { bits, group_size },
                TiedEmbeddingType::Quantized {
                    weights,
                    scales,
                    zero_points_or_biases,
                    quantization_method,
                    output_hadamard_factors: _,
                    lookup,
                    readout,
                },
            ) => {
                let mode = QuantizationMode::spec_from_bits(bits)->0;
                let method = QuantizationMethod::ScaleBias;
                let steps = self.matrix_steps(tree, mode, group_size, method);
                &&& quantization_method == method
                &&& holds_matrix(context, steps, weights, scales, zero_points_or_biases)
                &&& is_made_by(
                    context,
                    self.quantized_lookup(mode, group_size, method, false),
                    lookup.request,
                )
                &&& is_made_by(context, self.quantized_readout(mode, group_size, method), readout.request)
            },
            (
                TableKind::Hybrid,
                TiedEmbeddingType::Quantized {
                    weights,
                    scales,
                    zero_points_or_biases,
                    quantization_method,
                    output_hadamard_factors: _,
                    lookup,
                    readout,
                },
            ) => {
                let quantized = quantization(
                    *spec->HybridSpec_0.quantization_spec,
                    Layout::InputOutput,
                )->0;
                let mode = QuantizationMode::spec_from_bits(quantized.bits)->0;
                let group_size = quantized.group_size;
                let method = quantized.method;
                let steps = self.matrix_steps(tree.child("quantized"@), mode, group_size, method);
                &&& quantization_method == method
                &&& holds_matrix(context, steps, weights, scales, zero_points_or_biases)
                &&& is_made_by(
                    context,
                    self.quantized_lookup(mode, group_size, method, true),
                    lookup.request,
                )
                &&& is_made_by(context, self.quantized_readout(mode, group_size, method), readout.request)
            },
            _ => false,
        }
    }

    /// Whether a table for lookups is the one that is stored.
    pub open spec fn lookup_is_loaded(
        self,
        context: ContextView,
        lookup_tree: TreeView,
        ty: UntiedEmbeddingLookupType,
    ) -> bool {
        let tree = lookup_tree.child("input_embedding"@);
        match (table_kind(tree.metadata("spec"@)->Ok_0, Layout::InputOutput), ty) {
            (TableKind::FullPrecision, UntiedEmbeddingLookupType::FullPrecision { weights, lookup }) => {
                &&& holds(context, self.plain_step(tree), weights)
                &&& is_made_by(context, self.plain_lookup(), lookup.request)
            },
            (
                TableKind::Mlx { bits, group_size },
                UntiedEmbeddingLookupType::Quantized {
                    weights,
                    scales,
                    zero_points_or_biases,
                    quantization_method,
                    output_hadamard_factors: _,
                    lookup,
                },
            ) => {
                let mode = QuantizationMode::spec_from_bits(bits)->0;
                let method = QuantizationMethod::ScaleBias;
                let steps = self.matrix_steps(tree, mode, group_size, method);
                &&& quantization_method == method
                &&& holds_matrix(context, steps, weights, scales, zero_points_or_biases)
                &&& is_made_by(
                    context,
                    self.quantized_lookup(mode, group_size, method, false),
                    lookup.request,
                )
            },
            _ => false,
        }
    }

    /// Whether a table for logits is the one that is stored.
    pub open spec fn readout_is_loaded(
        self,
        context: ContextView,
        readout_tree: TreeView,
        ty: UntiedEmbeddingReadoutType,
    ) -> bool {
        let tree = readout_tree.child("output_embedding"@);
        match (table_kind(tree.metadata("spec"@)->Ok_0, Layout::OutputInput), ty) {
            (TableKind::FullPrecision, UntiedEmbeddingReadoutType::FullPrecision { weights, readout }) => {
                &&& holds(context, self.plain_step(tree), weights)
                &&& is_made_by(context, self.plain_readout(), readout.request)
            },
            (
                TableKind::Mlx { bits, group_size },
                UntiedEmbeddingReadoutType::Quantized { weights, scales, zero_points_or_biases, readout },
            ) => {
                let mode = QuantizationMode::spec_from_bits(bits)->0;
                let method = QuantizationMethod::ScaleBias;
                let steps = self.matrix_steps(tree, mode, group_size, method);
                &&& holds_matrix(context, steps, weights, scales, zero_points_or_biases)
                &&& is_made_by(context, self.quantized_readout(mode, group_size, method), readout.request)
            },
            _ => false,
        }
    }

    /// Whether the tables of an embedding are those that are stored.
    pub open spec fn is_loaded(
        self,
        context: ContextView,
        config: AnyEmbeddingConfig,
        lookup_tree: TreeView,
        readout_tree: TreeView,
        tying: EmbeddingTying,
    ) -> bool {
        match (config, tying) {
            (AnyEmbeddingConfig::TiedEmbeddingConfig(_), EmbeddingTying::Tied { ty }) => {
                self.tied_is_loaded(context, lookup_tree, ty)
            },
            (
                AnyEmbeddingConfig::UntiedEmbeddingConfig(_),
                EmbeddingTying::Untied { input_ty, output_ty },
            ) => {
                &&& self.lookup_is_loaded(context, lookup_tree, input_ty)
                &&& self.readout_is_loaded(context, readout_tree, output_ty)
            },
            _ => false,
        }
    }

    /// A table for both ways that was loaded is the one that is stored.
    proof fn tied_table_is_loaded(self, context: ContextView, lookup_tree: TreeView)
        requires
            self.tied_outcome(context, lookup_tree).1 is Ok,
            self.tied_outcome(context, lookup_tree).0.requests.len() <= usize::MAX,
        ensures
            ({
                let (after, loaded) = self.tied_outcome(context, lookup_tree);
                self.tied_is_loaded(after, lookup_tree, (loaded->Ok_0).0)
            }),
    {
        let tree = lookup_tree.child("embedding"@);
        let spec = tree.metadata("spec"@)->Ok_0;
        let (after, loaded) = self.tied_outcome(context, lookup_tree);
        match table_kind(spec, Layout::InputOutput) {
            TableKind::FullPrecision => {
                let steps = seq![self.plain_step(tree), self.plain_lookup(), self.plain_readout()];
                steps_make_what_they_want(context, steps);
                let made = taken(context, steps).1->Ok_0;
                assert(is_made_by(after, steps[0], made[0]));
                assert(is_made_by(after, steps[1], made[1]));
                assert(is_made_by(after, steps[2], made[2]));
            },
            TableKind::Mlx { bits, group_size } => {
                let mode = QuantizationMode::spec_from_bits(bits)->0;
                let method = QuantizationMethod::ScaleBias;
                let matrix = self.matrix_steps(tree, mode, group_size, method);
                let steps = matrix + seq![
                    self.quantized_lookup(mode, group_size, method, false),
                    self.quantized_readout(mode, group_size, method),
                ];
                steps_make_what_they_want(context, steps);
                let made = taken(context, steps).1->Ok_0;
                assert(is_made_by(after, matrix[0], made[0]));
                assert(is_made_by(after, matrix[1], made[1]));
                assert(is_made_by(after, matrix[2], made[2]));
                assert(is_made_by(after, steps[3], made[3]));
                assert(is_made_by(after, steps[4], made[4]));
            },
            TableKind::Hybrid => {
                self.tied_hybrid_is_loaded(context, lookup_tree);
            },
            TableKind::Unsupported => {},
        }
    }

    /// A transformed table for both ways that was loaded is the one that is stored.
    proof fn tied_hybrid_is_loaded(self, context: ContextView, lookup_tree: TreeView)
        requires
            self.tied_outcome(context, lookup_tree).1 is Ok,
            self.tied_outcome(context, lookup_tree).0.requests.len() <= usize::MAX,
            table_kind(
                lookup_tree.child("embedding"@).metadata("spec"@)->Ok_0,
                Layout::InputOutput,
            ) is Hybrid,
        ensures
            ({
                let (after, loaded) = self.tied_outcome(context, lookup_tree);
                self.tied_is_loaded(after, lookup_tree, (loaded->Ok_0).0)
            }),
    {
        let tree = lookup_tree.child("embedding"@);
        let signs = tree.child("incoherence_signs"@);
        let spec = tree.metadata("spec"@)->Ok_0;
        let (after, loaded) = self.tied_outcome(context, lookup_tree);
        let quantized = quantization(*spec->HybridSpec_0.quantization_spec, Layout::InputOutput)->0;
        let mode = QuantizationMode::spec_from_bits(quantized.bits)->0;
        let group_size = quantized.group_size;
        let method = quantized.method;
        let matrix = self.matrix_steps(tree.child("quantized"@), mode, group_size, method);
        let (middle, table) = taken(context, matrix);
        let steps = seq![
            self.sign_step(signs),
            self.sign_step(signs),
            self.quantized_lookup(mode, group_size, method, true),
            self.quantized_readout(mode, group_size, method),
        ];
        let made = taken(middle, steps).1->Ok_0;
        taken_follows(middle, steps);
        steps_make_what_they_want(context, matrix);
        steps_make_what_they_want(middle, steps);
        made_stays(middle, after, matrix[0], (table->Ok_0)[0]);
        made_stays(middle, after, matrix[1], (table->Ok_0)[1]);
        made_stays(middle, after, matrix[2], (table->Ok_0)[2]);
        assert(is_made_by(after, steps[2], made[2]));
        assert(is_made_by(after, steps[3], made[3]));
    }

    /// A table for lookups that was loaded is the one that is stored, and stays so when
    /// more is asked for.
    proof fn lookup_table_is_loaded(self, context: ContextView, lookup_tree: TreeView, later: ContextView)
        requires
            self.lookup_outcome(context, lookup_tree).1 is Ok,
            self.lookup_outcome(context, lookup_tree).0.requests.is_prefix_of(later.requests),
            later.requests.len() <= usize::MAX,
        ensures
            self.lookup_is_loaded(
                later,
                lookup_tree,
                self.lookup_outcome(context, lookup_tree).1->Ok_0,
            ),
    {
        let tree = lookup_tree.child("input_embedding"@);
        let spec = tree.metadata("spec"@)->Ok_0;
        let (after, _) = self.lookup_outcome(context, lookup_tree);
        if let TableKind::Mlx { bits, group_size } = table_kind(spec, Layout::InputOutput) {
            let mode = QuantizationMode::spec_from_bits(bits)->0;
            let method = QuantizationMethod::ScaleBias;
            let matrix = self.matrix_steps(tree, mode, group_size, method);
            let steps = matrix + seq![self.quantized_lookup(mode, group_size, method, false)];
            steps_make_what_they_want(context, steps);
            let made = taken(context, steps).1->Ok_0;
            made_stays(after, later, matrix[0], made[0]);
            made_stays(after, later, matrix[1], made[1]);
            made_stays(after, later, matrix[2], made[2]);
            made_stays(after, later, steps[3], made[3]);
        } else {
            let steps = seq![self.plain_step(tree), self.plain_lookup()];
            steps_make_what_they_want(context, steps);
            let made = taken(context, steps).1->Ok_0;
            made_stays(after, later, steps[0], made[0]);
            made_stays(after, later, steps[1], made[1]);
        }
    }

    /// A table for logits that was loaded is the one that is stored.
    proof fn readout_table_is_loaded(self, context: ContextView, readout_tree: TreeView)
        requires
            self.readout_outcome(context, readout_tree).1 is Ok,
            self.readout_outcome(context, readout_tree).0.requests.len() <= usize::MAX,
        ensures
            ({
                let (after, loaded) = self.readout_outcome(context, readout_tree);
                self.readout_is_loaded(after, readout_tree, loaded->Ok_0)
            }),
    {
        let tree = readout_tree.child("output_embedding"@);
        let spec = tree.metadata("spec"@)->Ok_0;
        let (after, _) = self.readout_outcome(context, readout_tree);
        if let TableKind::Mlx { bits, group_size } = table_kind(spec, Layout::OutputInput) {
            let mode = QuantizationMode::spec_from_bits(bits)->0;
            let method = QuantizationMethod::ScaleBias;
            let matrix = self.matrix_steps(tree, mode, group_size, method);
            let steps = matrix + seq![self.quantized_readout(mode, group_size, method)];
            steps_make_what_they_want(context, steps);
            let made = taken(context, steps).1->Ok_0;
            assert(is_made_by(after, matrix[0], made[0]));
            assert(is_made_by(after, matrix[1], made[1]));
            assert(is_made_by(after, matrix[2], made[2]));
            assert(is_made_by(after, steps[3], made[3]));
        } else {
            let steps = seq![self.plain_step(tree), self.plain_readout()];
            steps_make_what_they_want(context, steps);
            let made = taken(context, steps).1->Ok_0;
            assert(is_made_by(after, steps[0], made[0]));
            assert(is_made_by(after, steps[1], made[1]));
        }
    }

    /// The tables of an embedding are those that are stored: their allocations were
    /// filled from the tensors asked for, and their kernels are those for the way each
    /// table is stored in.
    pub proof fn tables_are_loaded(
        self,
        context: ContextView,
        config: AnyEmbeddingConfig,
        lookup_tree: TreeView,
        readout_tree: TreeView,
    )
        requires
            self.outcome(context, config, lookup_tree, readout_tree).1 is Ok,
            self.outcome(context, config, lookup_tree, readout_tree).0.requests.len() <= usize::MAX,
        ensures
            ({
                let (after, made) = self.outcome(context, config, lookup_tree, readout_tree);
                self.is_loaded(after, config, lookup_tree, readout_tree, made->Ok_0.tying)
            }),
    {
        let (after, made) = self.outcome(context, config, lookup_tree, readout_tree);
        match config {
            AnyEmbeddingConfig::TiedEmbeddingConfig(_) => {
                self.tied_table_is_loaded(context, lookup_tree);
            },
            AnyEmbeddingConfig::UntiedEmbeddingConfig(_) => {
                let (middle, _) = self.lookup_outcome(context, lookup_tree);
                self.readout_follows(middle, readout_tree);
                self.lookup_table_is_loaded(context, lookup_tree, after);
                self.readout_table_is_loaded(middle, readout_tree);
            },
        }
    }
}

impl Embedding {
    /// The signs for transforming looked up vectors.
    pub open spec fn lookup_factors(self) -> Option<Allocation> {
        match self.tying {
            EmbeddingTying::Tied { ty: TiedEmbeddingType::Quantized { output_hadamard_factors, .. } } => {
                output_hadamard_factors
            },
            EmbeddingTying::Untied {
                input_ty: UntiedEmbeddingLookupType::Quantized { output_hadamard_factors, .. },
                ..
            } => output_hadamard_factors,
            _ => None,
        }
    }

    /// Tokens are looked up in the very table that logits are read from, where there
    /// is one table for both ways.
    pub proof fn tied_tables_are_shared(
        self,
        token_ids: Allocation,
        vectors: Allocation,
        input: Allocation,
        logits: Allocation,
        batch_dim: usize,
    )
        requires
            self.tying is Tied,
        ensures
            match (
                self.lookup_command(token_ids, vectors, batch_dim as u32),
                self.readout_command(input, logits, batch_dim),
            ) {
                (Command::FullPrecisionEmbeddingLookup { weights, .. }, Command::Matmul { arguments, .. }) => {
                    weights == arguments.b
                },
                (
                    Command::QuantizedEmbeddingLookup { weights, scales, zero_points, biases, .. },
                    Command::QuantizedMatmul { arguments, .. },
                ) => {
                    &&& weights == arguments.b
                    &&& scales == arguments.scales
                    &&& zero_points is Some != biases is Some
                    &&& zero_points is Some ==> zero_points->0 == arguments.zero_points_or_biases
                    &&& biases is Some ==> biases->0 == arguments.zero_points_or_biases
                },
                _ => false,
            },
    {
    }
}

/// Taking some steps with a fault is taking them without one, up to the refusal.
proof fn taken_replays(context: ContextView, steps: Seq<StepView>, fault: Fault)
    requires
        context.fault is None,
    ensures
        replays(taken(context, steps), taken(context.with(fault), steps), fault),
{
    steps_replay(context, steps, fault);
}

impl TableShape {
    /// Loading a transformed table with a fault is loading it without one, up to the
    /// refusal.
    proof fn tied_hybrid_replays(
        self,
        context: ContextView,
        quantized_spec: AnyWeightMatrixSpec,
        tree: TreeView,
        fault: Fault,
    )
        requires
            context.fault is None,
        ensures
            replays(
                self.tied_hybrid_outcome(context, quantized_spec, tree),
                self.tied_hybrid_outcome(context.with(fault), quantized_spec, tree),
                fault,
            ),
    {
        if let Some(quantization) = quantization(quantized_spec, Layout::InputOutput) {
            if let Some(mode) = QuantizationMode::spec_from_bits(quantization.bits) {
                let group_size = quantization.group_size;
                let method = quantization.method;
                let signs = tree.child("incoherence_signs"@);
                let steps = self.matrix_steps(tree.child("quantized"@), mode, group_size, method);
                let rest = seq![
                    self.sign_step(signs),
                    self.sign_step(signs),
                    self.quantized_lookup(mode, group_size, method, true),
                    self.quantized_readout(mode, group_size, method),
                ];
                let (middle, matrix) = taken(context, steps);
                let (cut, refused) = taken(context.with(fault), steps);
                taken_replays(context, steps, fault);
                if matrix is Ok {
                    taken_replays(middle, rest, fault);
                    taken_follows(middle, rest);
                    if refused is Err {
                        cut_stays(cut, middle, taken(middle, rest).0, fault);
                    }
                }
            }
        }
    }

    /// Loading a table for both ways with a fault is loading it without one, up to the
    /// refusal.
    proof fn tied_replays(self, context: ContextView, lookup_tree: TreeView, fault: Fault)
        requires
            context.fault is None,
        ensures
            replays(
                self.tied_outcome(context, lookup_tree),
                self.tied_outcome(context.with(fault), lookup_tree),
                fault,
            ),
    {
        let method = QuantizationMethod::ScaleBias;
        let tree = lookup_tree.child("embedding"@);
        if let Ok(spec) = tree.metadata("spec"@) {
            match table_kind(spec, Layout::InputOutput) {
                TableKind::FullPrecision => {
                    taken_replays(
                        context,
                        seq![self.plain_step(tree), self.plain_lookup(), self.plain_readout()],
                        fault,
                    );
                },
                TableKind::Mlx { bits, group_size } => {
                    if let Some(mode) = QuantizationMode::spec_from_bits(bits) {
                        taken_replays(
                            context,
                            self.matrix_steps(tree, mode, group_size, method) + seq![
                                self.quantized_lookup(mode, group_size, method, false),
                                self.quantized_readout(mode, group_size, method),
                            ],
                            fault,
                        );
                    }
                },
                TableKind::Hybrid => {
                    self.tied_hybrid_replays(
                        context,
                        *spec->HybridSpec_0.quantization_spec,
                        tree,
                        fault,
                    );
                },
                TableKind::Unsupported => {},
            }
        }
    }

    /// Loading a table for lookups with a fault is loading it without one, up to the
    /// refusal.
    proof fn lookup_replays(self, context: ContextView, lookup_tree: TreeView, fault: Fault)
        requires
            context.fault is None,
        ensures
            replays(
                self.lookup_outcome(context, lookup_tree),
                self.lookup_outcome(context.with(fault), lookup_tree),
                fault,
            ),
    {
        let method = QuantizationMethod::ScaleBias;
        let tree = lookup_tree.child("input_embedding"@);
        if let Ok(spec) = tree.metadata("spec"@) {
            match table_kind(spec, Layout::InputOutput) {
                TableKind::FullPrecision => {
                    taken_replays(context, seq![self.plain_step(tree), self.plain_lookup()], fault);
                },
                TableKind::Mlx { bits, group_size } => {
                    if let Some(mode) = QuantizationMode::spec_from_bits(bits) {
                        taken_replays(
                            context,
                            self.matrix_steps(tree, mode, group_size, method) + seq![
                                self.quantized_lookup(mode, group_size, method, false),
                            ],
                            fault,
                        );
                    }
                },
                _ => {},
            }
        }
    }

    /// Loading a table for logits with a fault is loading it without one, up to the
    /// refusal.
    proof fn readout_replays(self, context: ContextView, readout_tree: TreeView, fault: Fault)
        requires
            context.fault is None,
        ensures
            replays(
                self.readout_outcome(context, readout_tree),
                self.readout_outcome(context.with(fault), readout_tree),
                fault,
            ),
    {
        let method = QuantizationMethod::ScaleBias;
        let tree = readout_tree.child("output_embedding"@);
        if let Ok(spec) = tree.metadata("spec"@) {
            match table_kind(spec, Layout::OutputInput) {
                TableKind::FullPrecision => {
                    taken_replays(context, seq![self.plain_step(tree), self.plain_readout()], fault);
                },
                TableKind::Mlx { bits, group_size } => {
                    if let Some(mode) = QuantizationMode::spec_from_bits(bits) {
                        taken_replays(
                            context,
                            self.matrix_steps(tree, mode, group_size, method) + seq![
                                self.quantized_readout(mode, group_size, method),
                            ],
                            fault,
                        );
                    }
                },
                _ => {},
            }
        }
    }

    /// Making an embedding with a fault is making it without one, up to the refusal.
    pub proof fn embedding_replays(
        self,
        context: ContextView,
        config: AnyEmbeddingConfig,
        lookup_tree: TreeView,
        readout_tree: TreeView,
        fault: Fault,
    )
        requires
            context.fault is None,
        ensures
            replays(
                self.outcome(context, config, lookup_tree, readout_tree),
                self.outcome(context.with(fault), config, lookup_tree, readout_tree),
                fault,
            ),
    {
        self.tied_replays(context, lookup_tree, fault);
        let (middle, lookup) = self.lookup_outcome(context, lookup_tree);
        let (cut, refused) = self.lookup_outcome(context.with(fault), lookup_tree);
        self.lookup_replays(context, lookup_tree, fault);
        if lookup is Ok {
            self.readout_replays(middle, readout_tree, fault);
            self.readout_follows(middle, readout_tree);
            if refused is Err {
                cut_stays(cut, middle, self.readout_outcome(middle, readout_tree).0, fault);
            }
        }
    }
}

impl TableShape {
    /// Where no described matrix is in groups of no weights, every embedding can be
    /// asked for.
    pub proof fn grouped_tables_are_ready(
        self,
        context: ContextView,
        config: AnyEmbeddingConfig,
        lookup_tree: TreeView,
        readout_tree: TreeView,
    )
        requires
            lookup_tree.loader.grouped(),
            readout_tree.loader.grouped(),
        ensures
            self.tables_ready(context, config, lookup_tree, readout_tree),
    {
        reveal_with_fuel(AnyWeightMatrixSpec::grouped, 2);
        let loader = lookup_tree.loader;
        let tied = lookup_tree.child("embedding"@);
        let lookup = lookup_tree.child("input_embedding"@);
        let readout = readout_tree.child("output_embedding"@);
        if tied.metadata("spec"@) is Ok {
            assert(loader.metadata.contains_key(tied.key("spec"@)));
        }
        if lookup.metadata("spec"@) is Ok {
            assert(loader.metadata.contains_key(lookup.key("spec"@)));
        }
        if readout.metadata("spec"@) is Ok {
            assert(readout_tree.loader.metadata.contains_key(readout.key("spec"@)));
        }
    }
}

} // verus!
