//! Quantized linear maps with a low-rank adapter.

use vstd::prelude::*;

use crate::backend::context::{Context, ContextView};
use crate::backend::encoder::{emit_in_parts, Command, Encoder, MatmulArgumentC, MatmulArguments};
use crate::backend::types::{
    Allocation, DeviceError, HadamardTransformOrder, Kernel, KernelRequest, QuantizationMethod,
    QuantizationMode,
};
use crate::data_type::{DataType, F32Bits};
use crate::linear::block::LinearBlockError;
use crate::linear::quantized::{
    bias_plan, bias_steps, encode_bias, has_biases, optional_tree, push_bias_steps, QuantizedLinear,
    QuantizedLinearError, QuantizedLinearPlan,
};
use crate::linear::Linear;
use crate::parameters::loader::{ParameterLoaderError, ParameterTree, TreeView};
use crate::parameters::manifest::{
    load, outcome, step_views, LoadFailure, LoadFailureView, Step, StepView,
};

verus! {

/// Why an adapted linear map could not be made.
#[derive(Debug, PartialEq, Eq)]
pub enum QLoRALinearWrapperError<Name = String, Shape = Vec<usize>> {
    InnerLinearError(Box<LinearBlockError<Name, Shape>>),
    QuantizedLinearError(QuantizedLinearError<Name, Shape>),
    ParameterLoaderError(ParameterLoaderError<Name, Shape>),
    MatmulError(DeviceError),
    BackendError(DeviceError),
}

/// A [`QLoRALinearWrapperError`] with its text and shapes as sequences.
pub type QLoRALinearWrapperErrorView = QLoRALinearWrapperError<Seq<char>, Seq<usize>>;

impl QLoRALinearWrapperError {
    /// The error with its text and shapes as sequences.
    pub open spec fn shown(self) -> QLoRALinearWrapperErrorView
        decreases self,
    {
        match self {
            QLoRALinearWrapperError::InnerLinearError(e) => QLoRALinearWrapperError::InnerLinearError(
                Box::new(e.shown()),
            ),
            QLoRALinearWrapperError::QuantizedLinearError(e) => {
                QLoRALinearWrapperError::QuantizedLinearError(e@)
            },
            QLoRALinearWrapperError::ParameterLoaderError(e) => {
                QLoRALinearWrapperError::ParameterLoaderError(e@)
            },
            QLoRALinearWrapperError::MatmulError(e) => QLoRALinearWrapperError::MatmulError(e),
            QLoRALinearWrapperError::BackendError(e) => QLoRALinearWrapperError::BackendError(e),
        }
    }

    /// The error for a step that failed.
    fn from_failure(failure: LoadFailure) -> (res: QLoRALinearWrapperError)
        ensures
            res.shown() == qlora_failure(failure@),
    {
        match failure {
            LoadFailure::Parameter(e) => QLoRALinearWrapperError::ParameterLoaderError(e),
            LoadFailure::Kernel { request, error } => match request {
                KernelRequest::Matmul { .. } => QLoRALinearWrapperError::MatmulError(error),
                _ => QLoRALinearWrapperError::BackendError(error),
            },
        }
    }
}

/// The error for a step that failed.
pub open spec fn qlora_failure(failure: LoadFailureView) -> QLoRALinearWrapperErrorView {
    match failure {
        LoadFailure::Parameter(e) => QLoRALinearWrapperError::ParameterLoaderError(e),
        LoadFailure::Kernel { request, error } => match request {
            KernelRequest::Matmul { .. } => QLoRALinearWrapperError::MatmulError(error),
            _ => QLoRALinearWrapperError::BackendError(error),
        },
    }
}

/// A Hadamard transform: its kernel and the signs that it takes.
#[derive(Clone, Copy, Debug, PartialEq, Eq, Structural)]
pub struct Hadamard {
    pub kernel: Kernel,
    pub factors: Allocation,
}

/// A quantized linear map with a low-rank adapter beside it. Where the matrix is
/// stored incoherently, a Hadamard transform stands before and behind it.
#[derive(Clone, Copy, Debug, PartialEq, Eq, Structural)]
pub struct QLoRALinearWrapper {
    pub base_linear: QuantizedLinear,
    pub input_hadamard: Option<Hadamard>,
    pub output_hadamard: Option<Hadamard>,
    pub adapter_kernel: Kernel,
    pub bias_add_kernel: Option<Kernel>,
    pub adapter_down: Allocation,
    pub adapter_up: Allocation,
    pub biases: Option<Allocation>,
    pub input_dim: usize,
    pub output_dim: usize,
    pub lora_rank: usize,
    pub data_type: DataType,
}

/// The steps for the signs of an incoherence transform.
pub open spec fn sign_steps(tree: TreeView, input_dim: usize, output_dim: usize) -> Seq<StepView> {
    seq![
        StepView::Tensor { tree, name: "input_signs"@, shape: seq![input_dim], data_type: DataType::I32 },
        StepView::Tensor { tree, name: "output_signs"@, shape: seq![output_dim], data_type: DataType::I32 },
    ]
}

/// Lists the steps for the signs of an incoherence transform.
pub fn incoherence_signs<'tree>(
    tree: &'tree ParameterTree<'tree>,
    input_dim: usize,
    output_dim: usize,
) -> (res: Vec<Step<'tree>>)
    ensures
        step_views(res@) == sign_steps(tree@, input_dim, output_dim),
{
    let mut steps: Vec<Step<'tree>> = Vec::new();
    let input_shape = vec![input_dim];
    assert(input_shape@ =~= seq![input_dim]);
    let output_shape = vec![output_dim];
    assert(output_shape@ =~= seq![output_dim]);
    steps.push(Step::Tensor { tree, name: "input_signs", shape: input_shape, data_type: DataType::I32 });
    steps.push(Step::Tensor { tree, name: "output_signs", shape: output_shape, data_type: DataType::I32 });
    assert(step_views(steps@) =~= sign_steps(tree@, input_dim, output_dim));
    steps
}

/// What an adapted linear map is made from, besides the quantized map.
pub struct AdapterPlan {
    pub lora_rank: usize,
    pub input_dim: usize,
    pub output_dim: usize,
    pub data_type: DataType,
    pub adapter_tree: TreeView,
    pub bias_tree: Option<TreeView>,
    pub incoherence_signs_tree: Option<TreeView>,
}

impl AdapterPlan {
    /// The steps for the transforms: the signs, then the kernels.
    pub open spec fn hadamard_steps(self) -> Seq<StepView> {
        let data_type = self.data_type;
        match self.incoherence_signs_tree {
            Some(tree) => sign_steps(tree, self.input_dim, self.output_dim) + seq![
                StepView::Kernel(
                    KernelRequest::HadamardTransform { data_type, order: HadamardTransformOrder::Input },
                ),
                StepView::Kernel(
                    KernelRequest::HadamardTransform { data_type, order: HadamardTransformOrder::Output },
                ),
            ],
            None => Seq::empty(),
        }
    }

    /// The steps for the adapter: the kernel, then the two thin matrices.
    pub open spec fn adapter_steps(self) -> Seq<StepView> {
        let data_type = self.data_type;
        seq![
            StepView::Kernel(KernelRequest::Matmul { data_type }),
            StepView::Tensor {
                tree: self.adapter_tree,
                name: "down_projection"@,
                shape: seq![self.lora_rank, self.input_dim],
                data_type,
            },
            StepView::Tensor {
                tree: self.adapter_tree,
                name: "up_projection"@,
                shape: seq![self.output_dim, self.lora_rank],
                data_type,
            },
        ]
    }

    /// All steps but those for the quantized map.
    pub open spec fn steps(self) -> Seq<StepView> {
        self.hadamard_steps() + self.adapter_steps() + bias_steps(
            self.bias_tree,
            self.output_dim,
            self.data_type,
        )
    }

    /// The map made of the quantized map and of what the steps created.
    pub open spec fn built(self, base_linear: QuantizedLinear, made: Seq<usize>) -> QLoRALinearWrapper {
        let incoherent = self.incoherence_signs_tree is Some;
        let biased = has_biases(self.bias_tree);
        let first: int = if incoherent { 4 } else { 0 };
        QLoRALinearWrapper {
            base_linear,
            input_hadamard: if incoherent {
                Some(
                    Hadamard { kernel: Kernel { request: made[2] }, factors: Allocation::Resident(made[0]) },
                )
            } else {
                None
            },
            output_hadamard: if incoherent {
                Some(
                    Hadamard { kernel: Kernel { request: made[3] }, factors: Allocation::Resident(made[1]) },
                )
            } else {
                None
            },
            adapter_kernel: Kernel { request: made[first] },
            bias_add_kernel: if biased { Some(Kernel { request: made[first + 3] }) } else { None },
            adapter_down: Allocation::Resident(made[first + 1]),
            adapter_up: Allocation::Resident(made[first + 2]),
            biases: if biased { Some(Allocation::Resident(made[first + 4])) } else { None },
            input_dim: self.input_dim,
            output_dim: self.output_dim,
            lora_rank: self.lora_rank,
            data_type: self.data_type,
        }
    }

    /// What making the map asks of the device, and what comes of it: the
    /// quantized map is made first.
    pub open spec fn outcome(self, context: ContextView, base: QuantizedLinearPlan) -> (
        ContextView,
        Result<QLoRALinearWrapper, QLoRALinearWrapperErrorView>,
    ) {
        let (middle, quantized) = base.outcome(context);
        match quantized {
            Err(e) => (middle, Err(QLoRALinearWrapperError::QuantizedLinearError(e))),
            Ok(base_linear) => {
                let (after, loaded) = outcome(middle, self.steps());
                match loaded {
                    Err(failure) => (after, Err(qlora_failure(failure))),
                    Ok(made) => (after, Ok(self.built(base_linear, made))),
                }
            },
        }
    }
}

/// A result with the error taken by its view.
pub open spec fn qlora_result(res: Result<QLoRALinearWrapper, QLoRALinearWrapperError>) -> Result<
    QLoRALinearWrapper,
    QLoRALinearWrapperErrorView,
> {
    match res {
        Ok(linear) => Ok(linear),
        Err(e) => Err(e.shown()),
    }
}

impl QLoRALinearWrapper {
    /// Loads an adapted linear map.
    pub fn new(
        context: &mut Context,
        bits: u32,
        group_size: usize,
        quantization_method: QuantizationMethod,
        lora_rank: usize,
        input_dim: usize,
        output_dim: usize,
        data_type: DataType,
        quantized_tree: &ParameterTree<'_>,
        adapter_tree: &ParameterTree<'_>,
        bias_tree: Option<&ParameterTree<'_>>,
        incoherence_signs_tree: Option<&ParameterTree<'_>>,
    ) -> (res: Result<QLoRALinearWrapper, QLoRALinearWrapperError>)
        requires
            QuantizationMode::spec_from_bits(bits) is Some && data_type.spec_is_matmul_type() ==> group_size
                > 0,
        ensures
            (final(context)@, qlora_result(res)) == (AdapterPlan {
                lora_rank,
                input_dim,
                output_dim,
                data_type,
                adapter_tree: adapter_tree@,
                bias_tree: optional_tree(bias_tree),
                incoherence_signs_tree: optional_tree(incoherence_signs_tree),
            }).outcome(
                old(context)@,
                QuantizedLinearPlan {
                    bits,
                    group_size,
                    quantization_method,
                    input_dim,
                    output_dim,
                    data_type,
                    weights_tree: quantized_tree@,
                    bias_tree: None,
                    output_hadamard_factors: None,
                },
            ),
    {
        let ghost plan = AdapterPlan {
            lora_rank,
            input_dim,
            output_dim,
            data_type,
            adapter_tree: adapter_tree@,
            bias_tree: optional_tree(bias_tree),
            incoherence_signs_tree: optional_tree(incoherence_signs_tree),
        };
        let base_linear = match QuantizedLinear::new(
            context,
            bits,
            group_size,
            quantization_method,
            input_dim,
            output_dim,
            data_type,
            quantized_tree,
            None,
            None,
        ) {
            Ok(linear) => linear,
            Err(e) => {
                return Err(QLoRALinearWrapperError::QuantizedLinearError(e));
            },
        };
        let mut steps: Vec<Step<'_>> = match incoherence_signs_tree {
            Some(tree) => {
                let mut steps = incoherence_signs(tree, input_dim, output_dim);
                let ghost signs = steps@;
                steps.push(
                    Step::Kernel(
                        KernelRequest::HadamardTransform { data_type, order: HadamardTransformOrder::Input },
                    ),
                );
                steps.push(
                    Step::Kernel(
                        KernelRequest::HadamardTransform { data_type, order: HadamardTransformOrder::Output },
                    ),
                );
                assert(step_views(steps@) =~= step_views(signs) + plan.hadamard_steps().skip(2));
                steps
            },
            None => Vec::new(),
        };
        assert(step_views(steps@) =~= plan.hadamard_steps());
        let ghost hadamard = steps@;
        let down_shape = vec![lora_rank, input_dim];
        assert(down_shape@ =~= seq![lora_rank, input_dim]);
        let up_shape = vec![output_dim, lora_rank];
        assert(up_shape@ =~= seq![output_dim, lora_rank]);
        steps.push(Step::Kernel(KernelRequest::Matmul { data_type }));
        steps.push(Step::Tensor { tree: adapter_tree, name: "down_projection", shape: down_shape, data_type });
        steps.push(Step::Tensor { tree: adapter_tree, name: "up_projection", shape: up_shape, data_type });
        assert(step_views(steps@) =~= step_views(hadamard) + plan.adapter_steps());
        push_bias_steps(&mut steps, bias_tree, output_dim, data_type);
        assert(step_views(steps@) =~= plan.steps());
        let made = match load(context, &steps) {
            Ok(made) => made,
            Err(failure) => {
                return Err(QLoRALinearWrapperError::from_failure(failure));
            },
        };
        assert(made@.len() == plan.steps().len());
        let incoherent = incoherence_signs_tree.is_some();
        let first: usize = if incoherent { 4 } else { 0 };
        let biased = made.len() > first + 3;
        Ok(
            QLoRALinearWrapper {
                base_linear,
                input_hadamard: if incoherent {
                    Some(
                        Hadamard {
                            kernel: Kernel { request: made[2] },
                            factors: Allocation::Resident(made[0]),
                        },
                    )
                } else {
                    None
                },
                output_hadamard: if incoherent {
                    Some(
                        Hadamard {
                            kernel: Kernel { request: made[3] },
                            factors: Allocation::Resident(made[1]),
                        },
                    )
                } else {
                    None
                },
                adapter_kernel: Kernel { request: made[first] },
                bias_add_kernel: if biased { Some(Kernel { request: made[first + 3] }) } else { None },
                adapter_down: Allocation::Resident(made[first + 1]),
                adapter_up: Allocation::Resident(made[first + 2]),
                biases: if biased { Some(Allocation::Resident(made[first + 4])) } else { None },
                input_dim,
                output_dim,
                lora_rank,
                data_type,
            },
        )
    }

    /// The commands for the first thin matrix.
    pub open spec fn down_plan(self, input: Allocation, batch_dim: usize, start: int) -> Seq<Command> {
        seq![
            Command::AllocateScratch { rows: batch_dim, columns: self.lora_rank, data_type: self.data_type },
            Command::Matmul {
                kernel: self.adapter_kernel,
                arguments: MatmulArguments {
                    a: input,
                    a_offset: 0,
                    b: self.adapter_down,
                    b_offset: 0,
                    b_leading_dimension: None,
                    b_transpose: true,
                    ab_scale: F32Bits::spec_one(),
                    c: MatmulArgumentC::Nothing,
                    d: Allocation::Scratch(start as usize),
                    batch_dim: batch_dim as u32,
                    input_dim: self.input_dim as u32,
                    output_dim: self.lora_rank as u32,
                },
            },
        ]
    }

    /// The commands that transform a copy of the input.
    pub open spec fn input_plan(self, input: Allocation, batch_dim: usize, start: int) -> Seq<Command> {
        match self.input_hadamard {
            Some(hadamard) => seq![
                Command::AllocateScratch {
                    rows: batch_dim,
                    columns: self.input_dim,
                    data_type: self.data_type,
                },
                Command::Copy { from: input, to: self.base_input(input, start) },
                Command::HadamardTransform {
                    kernel: hadamard.kernel,
                    data: self.base_input(input, start),
                    factors: hadamard.factors,
                    columns: self.input_dim as u32,
                    rows: batch_dim as u32,
                },
            ],
            None => Seq::empty(),
        }
    }

    /// What the quantized map is applied to: the transformed copy, or the input.
    pub open spec fn base_input(self, input: Allocation, start: int) -> Allocation {
        match self.input_hadamard {
            Some(_) => Allocation::Scratch((start + 2) as usize),
            None => input,
        }
    }

    /// The number of the quantized map's first command.
    pub open spec fn base_start(self, start: int) -> int {
        match self.input_hadamard {
            Some(_) => start + 5,
            None => start + 2,
        }
    }

    /// The command for the second thin matrix: its product is added to that of
    /// the quantized map.
    pub open spec fn up_plan(self, batch_dim: usize, start: int) -> Seq<Command> {
        seq![
            Command::Matmul {
                kernel: self.adapter_kernel,
                arguments: MatmulArguments {
                    a: Allocation::Scratch(start as usize),
                    a_offset: 0,
                    b: self.adapter_up,
                    b_offset: 0,
                    b_leading_dimension: None,
                    b_transpose: true,
                    ab_scale: F32Bits::spec_one(),
                    c: MatmulArgumentC::Accumulate,
                    d: self.base_linear.output(self.base_start(start)),
                    batch_dim: batch_dim as u32,
                    input_dim: self.lora_rank as u32,
                    output_dim: self.output_dim as u32,
                },
            },
        ]
    }

    /// The command that transforms the sum.
    pub open spec fn output_plan(self, batch_dim: usize, start: int) -> Seq<Command> {
        match self.output_hadamard {
            Some(hadamard) => seq![
                Command::HadamardTransform {
                    kernel: hadamard.kernel,
                    data: self.base_linear.output(self.base_start(start)),
                    factors: hadamard.factors,
                    columns: self.output_dim as u32,
                    rows: batch_dim as u32,
                },
            ],
            None => Seq::empty(),
        }
    }
}

impl Linear for QLoRALinearWrapper {
    open spec fn plan(&self, input: Allocation, batch_dim: usize, start: int) -> Seq<Command> {
        self.down_plan(input, batch_dim, start) + (self.input_plan(input, batch_dim, start) + (
        self.base_linear.plan(self.base_input(input, start), batch_dim, self.base_start(start)) + (
        self.up_plan(batch_dim, start) + (self.output_plan(batch_dim, start) + bias_plan(
            self.bias_add_kernel,
            self.biases,
            self.base_linear.output(self.base_start(start)),
            batch_dim,
            self.output_dim,
        )))))
    }

    open spec fn output(&self, start: int) -> Allocation {
        self.base_linear.output(self.base_start(start))
    }

    open spec fn encodable(&self, batch_dim: usize) -> bool {
        &&& self.base_linear.encodable(batch_dim)
        &&& self.bias_add_kernel is Some && self.biases is Some ==> batch_dim * self.output_dim
            <= usize::MAX
    }

    fn encode(&self, input: Allocation, batch_dim: usize, encoder: &mut Encoder) -> (res: Result<
        Allocation,
        DeviceError,
    >) {
        let ghost before = encoder@;
        let ghost start = before.next();
        let ghost down = self.down_plan(input, batch_dim, start);
        let ghost transform = self.input_plan(input, batch_dim, start);
        let ghost base = self.base_linear.plan(
            self.base_input(input, start),
            batch_dim,
            self.base_start(start),
        );
        let ghost up = self.up_plan(batch_dim, start);
        let ghost back = self.output_plan(batch_dim, start);
        let ghost bias = bias_plan(
            self.bias_add_kernel,
            self.biases,
            self.base_linear.output(self.base_start(start)),
            batch_dim,
            self.output_dim,
        );
        proof {
            let after_down = before.emit(down);
            let after_transform = after_down.emit(transform);
            let after_base = after_transform.emit(base);
            let after_up = after_base.emit(up);
            emit_in_parts(before, down, transform + (base + (up + (back + bias))));
            emit_in_parts(after_down, transform, base + (up + (back + bias)));
            emit_in_parts(after_transform, base, up + (back + bias));
            emit_in_parts(after_base, up, back + bias);
            emit_in_parts(after_up, back, bias);
            assert(down =~= seq![down[0]] + seq![down[1]]);
            emit_in_parts(before, seq![down[0]], seq![down[1]]);
        }
        let intermediate = match encoder.allocate_scratch(batch_dim, self.lora_rank, self.data_type) {
            Ok(intermediate) => intermediate,
            Err(e) => {
                return Err(e);
            },
        };
        encoder.record(
            Command::Matmul {
                kernel: self.adapter_kernel,
                arguments: MatmulArguments {
                    a: input,
                    a_offset: 0,
                    b: self.adapter_down,
                    b_offset: 0,
                    b_leading_dimension: None,
                    b_transpose: true,
                    ab_scale: F32Bits::one(),
                    c: MatmulArgumentC::Nothing,
                    d: intermediate,
                    batch_dim: batch_dim as u32,
                    input_dim: self.input_dim as u32,
                    output_dim: self.lora_rank as u32,
                },
            },
        );
        let ghost after_down = encoder@;
        assert(after_down == before.emit(down));
        let base_input = match self.input_hadamard {
            Some(hadamard) => {
                proof {
                    assert(transform =~= seq![transform[0]] + (seq![transform[1]] + seq![transform[2]]));
                    emit_in_parts(after_down, seq![transform[0]], seq![transform[1]] + seq![transform[2]]);
                    emit_in_parts(
                        after_down.emit(seq![transform[0]]),
                        seq![transform[1]],
                        seq![transform[2]],
                    );
                }
                let base_input = match encoder.allocate_scratch(batch_dim, self.input_dim, self.data_type) {
                    Ok(base_input) => base_input,
                    Err(e) => {
                        return Err(e);
                    },
                };
                encoder.record(Command::Copy { from: input, to: base_input });
                encoder.record(
                    Command::HadamardTransform {
                        kernel: hadamard.kernel,
                        data: base_input,
                        factors: hadamard.factors,
                        columns: self.input_dim as u32,
                        rows: batch_dim as u32,
                    },
                );
                base_input
            },
            None => {
                assert(encoder@.commands =~= encoder@.commands + transform);
                input
            },
        };
        assert(encoder@ == after_down.emit(transform));
        let output = match self.base_linear.encode(base_input, batch_dim, encoder) {
            Ok(output) => output,
            Err(e) => {
                return Err(e);
            },
        };
        encoder.record(
            Command::Matmul {
                kernel: self.adapter_kernel,
                arguments: MatmulArguments {
                    a: intermediate,
                    a_offset: 0,
                    b: self.adapter_up,
                    b_offset: 0,
                    b_leading_dimension: None,
                    b_transpose: true,
                    ab_scale: F32Bits::one(),
                    c: MatmulArgumentC::Accumulate,
                    d: output,
                    batch_dim: batch_dim as u32,
                    input_dim: self.lora_rank as u32,
                    output_dim: self.output_dim as u32,
                },
            },
        );
        let ghost after_up = encoder@;
        match self.output_hadamard {
            Some(hadamard) => {
                encoder.record(
                    Command::HadamardTransform {
                        kernel: hadamard.kernel,
                        data: output,
                        factors: hadamard.factors,
                        columns: self.output_dim as u32,
                        rows: batch_dim as u32,
                    },
                );
            },
            None => {
                assert(encoder@.commands =~= encoder@.commands + back);
            },
        }
        assert(encoder@ == after_up.emit(back));
        encode_bias(self.bias_add_kernel, self.biases, output, batch_dim, self.output_dim, encoder);
        Ok(output)
    }
}

} // verus!
