//! Linear maps with a matrix of plain numbers.

use vstd::prelude::*;

use crate::backend::context::{Context, ContextView};
use crate::backend::encoder::{emit_in_parts, Command, Encoder, MatmulArgumentC, MatmulArguments};
use crate::backend::types::{Allocation, DeviceError, Kernel, KernelRequest};
use crate::data_type::{DataType, F32Bits};
use crate::linear::Linear;
use crate::parameters::loader::{ParameterLoaderError, ParameterTree, TreeView};
use crate::parameters::manifest::{
    load, outcome, step_views, LoadFailure, LoadFailureView, Step, StepView,
};

verus! {

/// Why a linear map of plain numbers could not be made.
#[derive(Debug, PartialEq, Eq)]
pub enum FullPrecisionLinearError<Name = String, Shape = Vec<usize>> {
    MatmulError(DeviceError),
    ParameterError(ParameterLoaderError<Name, Shape>),
    UnsupportedDataType(DataType),
}

/// A [`FullPrecisionLinearError`] with its text and shapes as sequences.
pub type FullPrecisionLinearErrorView = FullPrecisionLinearError<Seq<char>, Seq<usize>>;

impl View for FullPrecisionLinearError {
    type V = FullPrecisionLinearErrorView;

    open spec fn view(&self) -> FullPrecisionLinearErrorView {
        match self {
            FullPrecisionLinearError::MatmulError(e) => FullPrecisionLinearError::MatmulError(*e),
            FullPrecisionLinearError::ParameterError(e) => FullPrecisionLinearError::ParameterError(e@),
            FullPrecisionLinearError::UnsupportedDataType(t) => FullPrecisionLinearError::UnsupportedDataType(
                *t,
            ),
        }
    }
}

/// The error for a step that failed.
pub open spec fn full_precision_failure(failure: LoadFailureView) -> FullPrecisionLinearErrorView {
    match failure {
        LoadFailure::Parameter(e) => FullPrecisionLinearError::ParameterError(e),
        LoadFailure::Kernel { error, .. } => FullPrecisionLinearError::MatmulError(error),
    }
}

/// A linear map with a matrix of plain numbers, and a row of biases where there
/// is one.
#[derive(Clone, Copy, Debug, PartialEq, Eq, Structural)]
pub struct FullPrecisionLinear {
    pub kernel: Kernel,
    pub bias: Option<Allocation>,
    pub weights: Allocation,
    pub input_dim: usize,
    pub output_dim: usize,
    pub data_type: DataType,
}

/// The steps for a map of plain numbers: the matrix, the biases where there are
/// any, the kernel.
pub open spec fn full_precision_steps(
    tree: TreeView,
    input_dim: usize,
    output_dim: usize,
    data_type: DataType,
) -> Seq<StepView> {
    let weights = StepView::Tensor {
        tree: tree.child("weights"@),
        name: "weights"@,
        shape: seq![output_dim, input_dim],
        data_type,
    };
    let biases = StepView::Tensor { tree, name: "biases"@, shape: seq![output_dim], data_type };
    let kernel = StepView::Kernel(KernelRequest::Matmul { data_type });
    if tree.has_leaf("biases"@) {
        seq![weights, biases, kernel]
    } else {
        seq![weights, kernel]
    }
}

/// What making a map of plain numbers asks of the device, and what comes of it.
pub open spec fn full_precision_outcome(
    context: ContextView,
    input_dim: usize,
    output_dim: usize,
    data_type: DataType,
    tree: TreeView,
) -> (ContextView, Result<FullPrecisionLinear, FullPrecisionLinearErrorView>) {
    if !data_type.spec_is_matmul_type() {
        (context, Err(FullPrecisionLinearError::UnsupportedDataType(data_type)))
    } else {
        match tree.subtree("weights"@) {
            Err(e) => (context, Err(FullPrecisionLinearError::ParameterError(e))),
            Ok(_) => {
                let (after, loaded) = outcome(
                    context,
                    full_precision_steps(tree, input_dim, output_dim, data_type),
                );
                match loaded {
                    Err(failure) => (after, Err(full_precision_failure(failure))),
                    Ok(made) => (
                        after,
                        Ok(
                            FullPrecisionLinear {
                                kernel: Kernel { request: made.last() },
                                bias: if tree.has_leaf("biases"@) {
                                    Some(Allocation::Resident(made[1]))
                                } else {
                                    None
                                },
                                weights: Allocation::Resident(made[0]),
                                input_dim,
                                output_dim,
                                data_type,
                            },
                        ),
                    ),
                }
            },
        }
    }
}

/// A result with the error taken by its view.
pub open spec fn full_precision_result(
    res: Result<FullPrecisionLinear, FullPrecisionLinearError>,
) -> Result<FullPrecisionLinear, FullPrecisionLinearErrorView> {
    match res {
        Ok(linear) => Ok(linear),
        Err(e) => Err(e@),
    }
}

impl FullPrecisionLinear {
    /// Loads a linear map of plain numbers.
    pub fn new(
        context: &mut Context,
        input_dim: usize,
        output_dim: usize,
        data_type: DataType,
        parameter_tree: &ParameterTree<'_>,
    ) -> (res: Result<FullPrecisionLinear, FullPrecisionLinearError>)
        ensures
            (final(context)@, full_precision_result(res)) == full_precision_outcome(
                old(context)@,
                input_dim,
                output_dim,
                data_type,
                parameter_tree@,
            ),
    {
        if !data_type.is_matmul_type() {
            return Err(FullPrecisionLinearError::UnsupportedDataType(data_type));
        }
        let weights_tree = match parameter_tree.subtree("weights") {
            Ok(tree) => tree,
            Err(e) => {
                return Err(FullPrecisionLinearError::ParameterError(e));
            },
        };
        let has_bias = parameter_tree.leaf("biases").is_ok();
        let mut steps: Vec<Step<'_>> = Vec::new();
        let shape = vec![output_dim, input_dim];
        assert(shape@ =~= seq![output_dim, input_dim]);
        steps.push(Step::Tensor { tree: &weights_tree, name: "weights", shape, data_type });
        if has_bias {
            let shape = vec![output_dim];
            assert(shape@ =~= seq![output_dim]);
            steps.push(Step::Tensor { tree: parameter_tree, name: "biases", shape, data_type });
        }
        steps.push(Step::Kernel(KernelRequest::Matmul { data_type }));
        assert(step_views(steps@) =~= full_precision_steps(parameter_tree@, input_dim, output_dim, data_type));
        match load(context, &steps) {
            Ok(made) => Ok(
                FullPrecisionLinear {
                    kernel: Kernel { request: made[made.len() - 1] },
                    bias: if has_bias { Some(Allocation::Resident(made[1])) } else { None },
                    weights: Allocation::Resident(made[0]),
                    input_dim,
                    output_dim,
                    data_type,
                },
            ),
            Err(LoadFailure::Parameter(e)) => Err(FullPrecisionLinearError::ParameterError(e)),
            Err(LoadFailure::Kernel { error, .. }) => Err(FullPrecisionLinearError::MatmulError(error)),
        }
    }
}

impl Linear for FullPrecisionLinear {
    open spec fn plan(&self, input: Allocation, batch_dim: usize, start: int) -> Seq<Command> {
        seq![
            Command::AllocateScratch { rows: batch_dim, columns: self.output_dim, data_type: self.data_type },
            Command::Matmul {
                kernel: self.kernel,
                arguments: MatmulArguments {
                    a: input,
                    a_offset: 0,
                    b: self.weights,
                    b_offset: 0,
                    b_leading_dimension: None,
                    b_transpose: true,
                    ab_scale: F32Bits::spec_one(),
                    c: match self.bias {
                        Some(bias) => MatmulArgumentC::Bias(bias),
                        None => MatmulArgumentC::Nothing,
                    },
                    d: self.output(start),
                    batch_dim: batch_dim as u32,
                    input_dim: self.input_dim as u32,
                    output_dim: self.output_dim as u32,
                },
            },
        ]
    }

    open spec fn output(&self, start: int) -> Allocation {
        Allocation::Scratch(start as usize)
    }

    open spec fn encodable(&self, batch_dim: usize) -> bool {
        true
    }

    fn encode(&self, input: Allocation, batch_dim: usize, encoder: &mut Encoder) -> (res: Result<
        Allocation,
        DeviceError,
    >) {
        let ghost start = encoder@;
        let ghost plan = self.plan(input, batch_dim, start.next());
        proof {
            assert(plan =~= seq![plan[0]] + seq![plan[1]]);
            emit_in_parts(start, seq![plan[0]], seq![plan[1]]);
        }
        let output = match encoder.allocate_scratch(batch_dim, self.output_dim, self.data_type) {
            Ok(output) => output,
            Err(e) => {
                return Err(e);
            },
        };
        encoder.record(
            Command::Matmul {
                kernel: self.kernel,
                arguments: MatmulArguments {
                    a: input,
                    a_offset: 0,
                    b: self.weights,
                    b_offset: 0,
                    b_leading_dimension: None,
                    b_transpose: true,
                    ab_scale: F32Bits::one(),
                    c: match self.bias {
                        Some(bias) => MatmulArgumentC::Bias(bias),
                        None => MatmulArgumentC::Nothing,
                    },
                    d: output,
                    batch_dim: batch_dim as u32,
                    input_dim: self.input_dim as u32,
                    output_dim: self.output_dim as u32,
                },
            },
        );
        Ok(output)
    }
}

} // verus!
