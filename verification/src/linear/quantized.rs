//! Linear maps with a quantized matrix.

use vstd::prelude::*;

use crate::backend::context::{Context, ContextView};
use crate::backend::encoder::{emit_in_parts, Command, Encoder, QuantizedMatmulArguments};
use crate::backend::types::{
    ceiling, div_ceil, Allocation, DeviceError, Kernel, KernelRequest, QuantizationMethod, QuantizationMode,
    QuantizedMatmulConfiguration,
};
use crate::data_type::DataType;
use crate::linear::Linear;
use crate::parameters::loader::{ParameterLoaderError, ParameterTree, TreeView};
use crate::parameters::manifest::{
    load, outcome, step_views, LoadFailure, LoadFailureView, Step, StepView,
};

verus! {

/// Why a quantized linear map could not be made.
#[derive(Debug, PartialEq, Eq)]
pub enum QuantizedLinearError<Name = String, Shape = Vec<usize>> {
    BackendError(DeviceError),
    QuantizedMatmulError(DeviceError),
    ParameterError(ParameterLoaderError<Name, Shape>),
    UnsupportedDataType(DataType),
    UnsupportedConfiguration { quantization_method: QuantizationMethod, bits: u32, group_size: usize },
}

/// A [`QuantizedLinearError`] with its text and shapes as sequences.
pub type QuantizedLinearErrorView = QuantizedLinearError<Seq<char>, Seq<usize>>;

impl View for QuantizedLinearError {
    type V = QuantizedLinearErrorView;

    open spec fn view(&self) -> QuantizedLinearErrorView {
        match self {
            QuantizedLinearError::BackendError(e) => QuantizedLinearError::BackendError(*e),
            QuantizedLinearError::QuantizedMatmulError(e) => QuantizedLinearError::QuantizedMatmulError(*e),
            QuantizedLinearError::ParameterError(e) => QuantizedLinearError::ParameterError(e@),
            QuantizedLinearError::UnsupportedDataType(t) => QuantizedLinearError::UnsupportedDataType(*t),
            QuantizedLinearError::UnsupportedConfiguration { quantization_method, bits, group_size } => {
                QuantizedLinearError::UnsupportedConfiguration {
                    quantization_method: *quantization_method,
                    bits: *bits,
                    group_size: *group_size,
                }
            },
        }
    }
}

/// The error for a step that failed.
pub open spec fn quantized_failure(failure: LoadFailureView) -> QuantizedLinearErrorView {
    match failure {
        LoadFailure::Parameter(e) => QuantizedLinearError::ParameterError(e),
        LoadFailure::Kernel { request, error } => match request {
            KernelRequest::QuantizedMatmul(_) => QuantizedLinearError::QuantizedMatmulError(error),
            _ => QuantizedLinearError::BackendError(error),
        },
    }
}

impl QuantizedLinearError {
    /// The error for a step that failed.
    fn from_failure(failure: LoadFailure) -> (res: QuantizedLinearError)
        ensures
            res@ == quantized_failure(failure@),
    {
        match failure {
            LoadFailure::Parameter(e) => QuantizedLinearError::ParameterError(e),
            LoadFailure::Kernel { request, error } => match request {
                KernelRequest::QuantizedMatmul(_) => QuantizedLinearError::QuantizedMatmulError(error),
                _ => QuantizedLinearError::BackendError(error),
            },
        }
    }
}

/// The view of an optional tree.
pub open spec fn optional_tree(tree: Option<&ParameterTree>) -> Option<TreeView> {
    match tree {
        Some(tree) => Some(tree@),
        None => None,
    }
}

/// Whether a tree has a row of biases to add.
pub open spec fn has_biases(tree: Option<TreeView>) -> bool {
    tree is Some && tree->0.has_leaf("biases"@)
}

/// The steps for adding a row of biases: none without the biases.
pub open spec fn bias_steps(tree: Option<TreeView>, output_dim: usize, data_type: DataType) -> Seq<StepView> {
    if has_biases(tree) {
        seq![
            StepView::Kernel(KernelRequest::TensorAddBias { data_type, in_place: true }),
            StepView::Tensor { tree: tree->0, name: "biases"@, shape: seq![output_dim], data_type },
        ]
    } else {
        Seq::empty()
    }
}

/// The number of groups that a row of weights falls into.
pub open spec fn group_count(input_dim: usize, group_size: usize) -> usize {
    ceiling(input_dim as int, group_size as int) as usize
}

/// The steps for a quantized matrix: its weights, its scales, and the biases or
/// zero points of its groups.
pub open spec fn quantized_matrix_steps(
    tree: TreeView,
    mode: QuantizationMode,
    group_size: usize,
    method: QuantizationMethod,
    input_dim: usize,
    output_dim: usize,
    data_type: DataType,
) -> Seq<StepView> {
    let divisor = mode.spec_packing_divisor();
    let groups = group_count(input_dim, group_size);
    seq![
        StepView::Tensor {
            tree,
            name: "weights"@,
            shape: seq![output_dim, input_dim / divisor],
            data_type: mode.spec_storage_type(),
        },
        StepView::Tensor { tree, name: "scales"@, shape: seq![output_dim, groups], data_type },
        match method {
            QuantizationMethod::ScaleBias => StepView::Tensor {
                tree,
                name: "biases"@,
                shape: seq![output_dim, groups],
                data_type,
            },
            QuantizationMethod::ScaleZeroPoint => StepView::Tensor {
                tree,
                name: "zero_points"@,
                shape: seq![output_dim, ceiling(groups as int, divisor as int) as usize],
                data_type: mode.spec_storage_type(),
            },
        },
    ]
}

/// Lists the steps for a quantized matrix.
pub fn quantized_matrix<'tree>(
    tree: &'tree ParameterTree<'tree>,
    mode: QuantizationMode,
    group_size: usize,
    method: QuantizationMethod,
    input_dim: usize,
    output_dim: usize,
    data_type: DataType,
) -> (res: Vec<Step<'tree>>)
    requires
        group_size > 0,
    ensures
        step_views(res@) == quantized_matrix_steps(
            tree@,
            mode,
            group_size,
            method,
            input_dim,
            output_dim,
            data_type,
        ),
{
    let divisor: usize = mode.packing_divisor();
    let groups: usize = div_ceil(input_dim, group_size);
    let mut steps: Vec<Step<'tree>> = Vec::new();
    steps.push(
        Step::Tensor {
            tree,
            name: "weights",
            shape: vec![output_dim, input_dim / divisor],
            data_type: mode.storage_type(),
        },
    );
    steps.push(Step::Tensor { tree, name: "scales", shape: vec![output_dim, groups], data_type });
    match method {
        QuantizationMethod::ScaleBias => {
            steps.push(Step::Tensor { tree, name: "biases", shape: vec![output_dim, groups], data_type });
        },
        QuantizationMethod::ScaleZeroPoint => {
            steps.push(
                Step::Tensor {
                    tree,
                    name: "zero_points",
                    shape: vec![output_dim, div_ceil(groups, divisor)],
                    data_type: mode.storage_type(),
                },
            );
        },
    }
    assert(step_views(steps@) =~= quantized_matrix_steps(
        tree@,
        mode,
        group_size,
        method,
        input_dim,
        output_dim,
        data_type,
    ));
    steps
}

/// Adds the steps for adding a row of biases.
pub fn push_bias_steps<'tree>(
    steps: &mut Vec<Step<'tree>>,
    tree: Option<&'tree ParameterTree<'tree>>,
    output_dim: usize,
    data_type: DataType,
)
    ensures
        step_views(final(steps)@) == step_views(old(steps)@) + bias_steps(
            optional_tree(tree),
            output_dim,
            data_type,
        ),
{
    let ghost before = steps@;
    if let Some(tree) = tree {
        if tree.leaf("biases").is_ok() {
            let shape = vec![output_dim];
            assert(shape@ =~= seq![output_dim]);
            steps.push(Step::Kernel(KernelRequest::TensorAddBias { data_type, in_place: true }));
            steps.push(Step::Tensor { tree, name: "biases", shape, data_type });
        }
    }
    assert(step_views(steps@) =~= step_views(before) + bias_steps(optional_tree(tree), output_dim, data_type));
}

/// A linear map with a quantized matrix, and a row of biases where there is one.
#[derive(Clone, Copy, Debug, PartialEq, Eq, Structural)]
pub struct QuantizedLinear {
    pub kernel: Kernel,
    pub bias_add_kernel: Option<Kernel>,
    pub biases: Option<Allocation>,
    pub weights: Allocation,
    pub scales: Allocation,
    pub zero_points_or_biases: Allocation,
    pub output_hadamard_factors: Option<Allocation>,
    pub output_dim: usize,
    pub output_data_type: DataType,
}

/// What a quantized linear map is made from.
pub struct QuantizedLinearPlan {
    pub bits: u32,
    pub group_size: usize,
    pub quantization_method: QuantizationMethod,
    pub input_dim: usize,
    pub output_dim: usize,
    pub data_type: DataType,
    pub weights_tree: TreeView,
    pub bias_tree: Option<TreeView>,
    pub output_hadamard_factors: Option<Allocation>,
}

impl QuantizedLinearPlan {
    /// The configuration of the kernel.
    pub open spec fn configuration(self) -> QuantizedMatmulConfiguration {
        QuantizedMatmulConfiguration {
            data_type: self.data_type,
            group_size: self.group_size,
            input_dim: self.input_dim,
            output_dim: self.output_dim,
            mode: QuantizationMode::spec_from_bits(self.bits)->0,
            quantization_method: self.quantization_method,
            use_hadamard: self.output_hadamard_factors is Some,
        }
    }

    /// Whether kernels for the number of bits and the data type exist.
    pub open spec fn supported(self) -> bool {
        QuantizationMode::spec_from_bits(self.bits) is Some && self.data_type.spec_is_matmul_type()
    }

    /// Whether the rows of a supported matrix fall into groups.
    pub open spec fn ready(self) -> bool {
        self.supported() ==> self.group_size > 0
    }

    /// The steps: the matrix, the biases, the kernel.
    pub open spec fn steps(self) -> Seq<StepView> {
        quantized_matrix_steps(
            self.weights_tree,
            QuantizationMode::spec_from_bits(self.bits)->0,
            self.group_size,
            self.quantization_method,
            self.input_dim,
            self.output_dim,
            self.data_type,
        ) + bias_steps(self.bias_tree, self.output_dim, self.data_type) + seq![
            StepView::Kernel(KernelRequest::QuantizedMatmul(self.configuration())),
        ]
    }

    /// The map made of what the steps created.
    pub open spec fn built(self, made: Seq<usize>) -> QuantizedLinear {
        let biased = has_biases(self.bias_tree);
        QuantizedLinear {
            kernel: Kernel { request: made.last() },
            bias_add_kernel: if biased { Some(Kernel { request: made[3] }) } else { None },
            biases: if biased { Some(Allocation::Resident(made[4])) } else { None },
            weights: Allocation::Resident(made[0]),
            scales: Allocation::Resident(made[1]),
            zero_points_or_biases: Allocation::Resident(made[2]),
            output_hadamard_factors: self.output_hadamard_factors,
            output_dim: self.output_dim,
            output_data_type: self.data_type,
        }
    }

    /// What making the map asks of the device, and what comes of it. Nothing is
    /// asked where no kernel would do.
    pub open spec fn outcome(self, context: ContextView) -> (
        ContextView,
        Result<QuantizedLinear, QuantizedLinearErrorView>,
    ) {
        if QuantizationMode::spec_from_bits(self.bits) is None {
            (
                context,
                Err(
                    QuantizedLinearError::UnsupportedConfiguration {
                        quantization_method: self.quantization_method,
                        bits: self.bits,
                        group_size: self.group_size,
                    },
                ),
            )
        } else if !self.data_type.spec_is_matmul_type() {
            (context, Err(QuantizedLinearError::UnsupportedDataType(self.data_type)))
        } else {
            let (after, loaded) = outcome(context, self.steps());
            match loaded {
                Ok(made) => (after, Ok(self.built(made))),
                Err(failure) => (after, Err(quantized_failure(failure))),
            }
        }
    }
}

/// A result with the error taken by its view.
pub open spec fn quantized_result(res: Result<QuantizedLinear, QuantizedLinearError>) -> Result<
    QuantizedLinear,
    QuantizedLinearErrorView,
> {
    match res {
        Ok(linear) => Ok(linear),
        Err(e) => Err(e@),
    }
}

impl QuantizedLinear {
    /// Loads a quantized linear map.
    pub fn new(
        context: &mut Context,
        bits: u32,
        group_size: usize,
        quantization_method: QuantizationMethod,
        input_dim: usize,
        output_dim: usize,
        data_type: DataType,
        weights_tree: &ParameterTree<'_>,
        bias_tree: Option<&ParameterTree<'_>>,
        output_hadamard_factors: Option<Allocation>,
    ) -> (res: Result<QuantizedLinear, QuantizedLinearError>)
        requires
            QuantizationMode::spec_from_bits(bits) is Some && data_type.spec_is_matmul_type() ==> group_size
                > 0,
        ensures
            (final(context)@, quantized_result(res)) == (QuantizedLinearPlan {
                bits,
                group_size,
                quantization_method,
                input_dim,
                output_dim,
                data_type,
                weights_tree: weights_tree@,
                bias_tree: optional_tree(bias_tree),
                output_hadamard_factors,
            }).outcome(old(context)@),
    {
        let ghost plan = QuantizedLinearPlan {
            bits,
            group_size,
            quantization_method,
            input_dim,
            output_dim,
            data_type,
            weights_tree: weights_tree@,
            bias_tree: optional_tree(bias_tree),
            output_hadamard_factors,
        };
        let mode = match QuantizationMode::from_bits(bits) {
            Some(mode) => mode,
            None => {
                return Err(
                    QuantizedLinearError::UnsupportedConfiguration { quantization_method, bits, group_size },
                );
            },
        };
        if !data_type.is_matmul_type() {
            return Err(QuantizedLinearError::UnsupportedDataType(data_type));
        }
        let mut steps = quantized_matrix(
            weights_tree,
            mode,
            group_size,
            quantization_method,
            input_dim,
            output_dim,
            data_type,
        );
        push_bias_steps(&mut steps, bias_tree, output_dim, data_type);
        let ghost before = steps@;
        steps.push(
            Step::Kernel(
                KernelRequest::QuantizedMatmul(
                    QuantizedMatmulConfiguration {
                        data_type,
                        group_size,
                        input_dim,
                        output_dim,
                        mode,
                        quantization_method,
                        use_hadamard: output_hadamard_factors.is_some(),
                    },
                ),
            ),
        );
        assert(step_views(steps@) =~= step_views(before).push(steps@.last()@));
        assert(step_views(steps@) =~= plan.steps());
        let made = match load(context, &steps) {
            Ok(made) => made,
            Err(failure) => {
                return Err(QuantizedLinearError::from_failure(failure));
            },
        };
        assert(made@.len() == plan.steps().len());
        let biased = made.len() > 4;
        Ok(
            QuantizedLinear {
                kernel: Kernel { request: made[made.len() - 1] },
                bias_add_kernel: if biased { Some(Kernel { request: made[3] }) } else { None },
                biases: if biased { Some(Allocation::Resident(made[4])) } else { None },
                weights: Allocation::Resident(made[0]),
                scales: Allocation::Resident(made[1]),
                zero_points_or_biases: Allocation::Resident(made[2]),
                output_hadamard_factors,
                output_dim,
                output_data_type: data_type,
            },
        )
    }
}

/// The commands for adding a row of biases to the rows of `output`: none without
/// the biases.
pub open spec fn bias_plan(
    kernel: Option<Kernel>,
    biases: Option<Allocation>,
    output: Allocation,
    batch_dim: usize,
    output_dim: usize,
) -> Seq<Command> {
    if kernel is Some && biases is Some {
        seq![
            Command::TensorAddBias {
                kernel: kernel->0,
                input: None,
                biases: biases->0,
                output,
                columns: output_dim as u32,
                length: (batch_dim * output_dim) as usize as u32,
            },
        ]
    } else {
        Seq::empty()
    }
}

/// Adds the commands for adding a row of biases.
pub fn encode_bias(
    kernel: Option<Kernel>,
    biases: Option<Allocation>,
    output: Allocation,
    batch_dim: usize,
    output_dim: usize,
    encoder: &mut Encoder,
)
    requires
        kernel is Some && biases is Some ==> batch_dim * output_dim <= usize::MAX,
    ensures
        !old(encoder)@.refuses(bias_plan(kernel, biases, output, batch_dim, output_dim)),
        final(encoder)@ == old(encoder)@.emit(bias_plan(kernel, biases, output, batch_dim, output_dim)),
{
    if let (Some(kernel), Some(biases)) = (kernel, biases) {
        let total_length: usize = batch_dim * output_dim;
        encoder.record(
            Command::TensorAddBias {
                kernel,
                input: None,
                biases,
                output,
                columns: output_dim as u32,
                length: total_length as u32,
            },
        );
    } else {
        assert(encoder@.commands =~= encoder@.commands + Seq::<Command>::empty());
    }
}

impl Linear for QuantizedLinear {
    open spec fn plan(&self, input: Allocation, batch_dim: usize, start: int) -> Seq<Command> {
        let output = self.output(start);
        seq![
            Command::AllocateScratch {
                rows: batch_dim,
                columns: self.output_dim,
                data_type: self.output_data_type,
            },
            Command::QuantizedMatmul {
                kernel: self.kernel,
                arguments: QuantizedMatmulArguments {
                    a: input,
                    a_offset: 0,
                    b: self.weights,
                    scales: self.scales,
                    zero_points_or_biases: self.zero_points_or_biases,
                    output,
                    hadamard_factors: self.output_hadamard_factors,
                    batch_dim,
                },
            },
        ] + bias_plan(self.bias_add_kernel, self.biases, output, batch_dim, self.output_dim)
    }

    open spec fn output(&self, start: int) -> Allocation {
        Allocation::Scratch(start as usize)
    }

    open spec fn encodable(&self, batch_dim: usize) -> bool {
        self.bias_add_kernel is Some && self.biases is Some ==> batch_dim * self.output_dim <= usize::MAX
    }

    fn encode(&self, input: Allocation, batch_dim: usize, encoder: &mut Encoder) -> (res: Result<
        Allocation,
        DeviceError,
    >) {
        let ghost start = encoder@;
        let ghost plan = self.plan(input, batch_dim, start.next());
        let ghost first = plan.subrange(0, 1);
        let ghost second = plan.subrange(1, 2);
        let ghost third = plan.subrange(2, plan.len() as int);
        proof {
            assert(plan =~= first + (second + third));
            emit_in_parts(start, first, second + third);
            emit_in_parts(start.emit(first), second, third);
        }
        let output = match encoder.allocate_scratch(batch_dim, self.output_dim, self.output_data_type) {
            Ok(output) => output,
            Err(e) => {
                return Err(e);
            },
        };
        encoder.record(
            Command::QuantizedMatmul {
                kernel: self.kernel,
                arguments: QuantizedMatmulArguments {
                    a: input,
                    a_offset: 0,
                    b: self.weights,
                    scales: self.scales,
                    zero_points_or_biases: self.zero_points_or_biases,
                    output,
                    hadamard_factors: self.output_hadamard_factors,
                    batch_dim,
                },
            },
        );
        encode_bias(self.bias_add_kernel, self.biases, output, batch_dim, self.output_dim, encoder);
        Ok(output)
    }
}

} // verus!
