//! Linear maps whose matrix is stored incoherently.

use vstd::pervasive::unreached;
use vstd::prelude::*;

use crate::backend::context::{Context, ContextView, Request};
use crate::backend::encoder::{emit_in_parts, Command, Encoder};
use crate::backend::types::{
    Allocation, DeviceError, HadamardTransformOrder, Kernel, KernelRequest,
};
use crate::data_type::DataType;
use crate::linear::block::{
    fused_outcome, fused_ready, is_fused_ready, is_rht, rht_spec, LinearBlock, LinearBlockError,
};
use crate::linear::quantized::QuantizedLinear;
use crate::linear::Linear;
use crate::parameters::loader::{
    loader_result, LoaderErrorView, ParameterLoaderError, ParameterTree, TreeView,
};
use crate::weight_matrix::AnyWeightMatrixSpec;

verus! {

/// Why an incoherently stored linear map could not be made.
#[derive(Debug, PartialEq, Eq)]
pub enum RHTLinearWrapperError<Name = String, Shape = Vec<usize>> {
    InnerLinearError(Box<LinearBlockError<Name, Shape>>),
    ParameterError(ParameterLoaderError<Name, Shape>),
    BackendError(DeviceError),
    UnsupportedConfiguration(AnyWeightMatrixSpec),
}

/// A [`RHTLinearWrapperError`] with its text and shapes as sequences.
pub type RHTLinearWrapperErrorView = RHTLinearWrapperError<Seq<char>, Seq<usize>>;

impl RHTLinearWrapperError {
    /// The error with its text and shapes as sequences.
    pub open spec fn shown(self) -> RHTLinearWrapperErrorView
        decreases self,
    {
        match self {
            RHTLinearWrapperError::InnerLinearError(e) => RHTLinearWrapperError::InnerLinearError(
                Box::new(e.shown()),
            ),
            RHTLinearWrapperError::ParameterError(e) => RHTLinearWrapperError::ParameterError(e@),
            RHTLinearWrapperError::BackendError(e) => RHTLinearWrapperError::BackendError(e),
            RHTLinearWrapperError::UnsupportedConfiguration(spec) => {
                RHTLinearWrapperError::UnsupportedConfiguration(spec)
            },
        }
    }
}

/// A quantized linear map whose input is transformed first. The transform of its
/// output is part of the quantized map.
#[derive(Clone, Copy, Debug, PartialEq, Eq, Structural)]
pub struct RHTLinearWrapper {
    pub input_hadamard_kernel: Kernel,
    pub input_factors: Allocation,
    pub inner_linear: QuantizedLinear,
    pub input_dimension: usize,
}

/// What loading the signs of both sides of a matrix asks of the device, and what
/// comes of it: those of the input, then those of the output.
pub open spec fn signs_outcome(
    context: ContextView,
    signs: TreeView,
    input_dimension: usize,
    output_dimension: usize,
) -> (ContextView, Result<(Allocation, Allocation), LoaderErrorView>) {
    let (middle, loaded) = signs.load(context, "input_signs"@, seq![input_dimension], DataType::I32);
    match loaded {
        Err(e) => (middle, Err(e)),
        Ok(input_factors) => {
            let (after, loaded) = signs.load(middle, "output_signs"@, seq![output_dimension], DataType::I32);
            match loaded {
                Err(e) => (after, Err(e)),
                Ok(output_factors) => (after, Ok((input_factors, output_factors))),
            }
        },
    }
}

/// Loads the signs of both sides of a matrix.
pub fn load_signs(
    context: &mut Context,
    signs_tree: &ParameterTree<'_>,
    input_dimension: usize,
    output_dimension: usize,
) -> (res: Result<(Allocation, Allocation), ParameterLoaderError>)
    ensures
        (final(context)@, loader_result(res)) == signs_outcome(
            old(context)@,
            signs_tree@,
            input_dimension,
            output_dimension,
        ),
{
    let input_shape = [input_dimension];
    assert(input_shape@ =~= seq![input_dimension]);
    let output_shape = [output_dimension];
    assert(output_shape@ =~= seq![output_dimension]);
    let input_factors = match signs_tree.load(
        context,
        "input_signs",
        input_shape.as_slice(),
        DataType::I32,
    ) {
        Ok(factors) => factors,
        Err(e) => {
            return Err(e);
        },
    };
    match signs_tree.load(context, "output_signs", output_shape.as_slice(), DataType::I32) {
        Ok(output_factors) => Ok((input_factors, output_factors)),
        Err(e) => Err(e),
    }
}

/// The kernel that transforms the input.
pub open spec fn input_transform(data_type: DataType) -> KernelRequest {
    KernelRequest::HadamardTransform { data_type, order: HadamardTransformOrder::Input }
}

/// What comes of an incoherently stored map before its matrix is loaded: the
/// signs of both sides, the number of the kernel, and the tree of the matrix.
pub open spec fn rht_prelude(
    context: ContextView,
    input_dimension: usize,
    output_dimension: usize,
    data_type: DataType,
    tree: TreeView,
) -> (ContextView, Result<((Allocation, Allocation), usize, TreeView), RHTLinearWrapperErrorView>) {
    match tree.subtree("weights"@) {
        Err(e) => (context, Err(RHTLinearWrapperError::ParameterError(e))),
        Ok(weights) => match weights.metadata("spec"@) {
            Err(e) => (context, Err(RHTLinearWrapperError::ParameterError(e))),
            Ok(spec) => if !rht_spec(spec) {
                (context, Err(RHTLinearWrapperError::UnsupportedConfiguration(spec)))
            } else {
                match weights.subtree("incoherence_signs"@) {
                    Err(e) => (context, Err(RHTLinearWrapperError::ParameterError(e))),
                    Ok(signs) => {
                        let (middle, loaded) = signs_outcome(
                            context,
                            signs,
                            input_dimension,
                            output_dimension,
                        );
                        match loaded {
                            Err(e) => (middle, Err(RHTLinearWrapperError::ParameterError(e))),
                            Ok(factors) => match weights.subtree("quantized"@) {
                                Err(e) => (middle, Err(RHTLinearWrapperError::ParameterError(e))),
                                Ok(quantized) => {
                                    let after = middle.record(Request::CreateKernel(input_transform(data_type)));
                                    match middle.answer() {
                                        Err(e) => (after, Err(RHTLinearWrapperError::BackendError(e))),
                                        Ok(kernel) => (after, Ok((factors, kernel, quantized))),
                                    }
                                },
                            },
                        }
                    },
                }
            },
        },
    }
}

/// Whether the matrix, where it is reached, falls into groups.
pub open spec fn rht_ready(
    context: ContextView,
    input_dimension: usize,
    output_dimension: usize,
    data_type: DataType,
    tree: TreeView,
) -> bool {
    match rht_prelude(context, input_dimension, output_dimension, data_type, tree).1 {
        Ok((_, _, quantized)) => fused_ready(quantized, data_type),
        Err(_) => true,
    }
}

/// What making an incoherently stored map asks of the device, and what comes of
/// it.
pub open spec fn rht_outcome(
    context: ContextView,
    input_dimension: usize,
    output_dimension: usize,
    data_type: DataType,
    tree: TreeView,
) -> (ContextView, Result<RHTLinearWrapper, RHTLinearWrapperErrorView>) {
    let (middle, prelude) = rht_prelude(context, input_dimension, output_dimension, data_type, tree);
    match prelude {
        Err(e) => (middle, Err(e)),
        Ok((factors, kernel, quantized)) => {
            let (after, inner) = fused_outcome(
                middle,
                quantized,
                Some(tree),
                factors.1,
                input_dimension,
                output_dimension,
                data_type,
            );
            match inner {
                Err(e) => (after, Err(RHTLinearWrapperError::InnerLinearError(Box::new(e)))),
                Ok(inner_linear) => (
                    after,
                    Ok(
                        RHTLinearWrapper {
                            input_hadamard_kernel: Kernel { request: kernel },
                            input_factors: factors.0,
                            inner_linear,
                            input_dimension,
                        },
                    ),
                ),
            }
        },
    }
}

/// A result with the error taken by its view.
pub open spec fn rht_result(res: Result<RHTLinearWrapper, RHTLinearWrapperError>) -> Result<
    RHTLinearWrapper,
    RHTLinearWrapperErrorView,
> {
    match res {
        Ok(linear) => Ok(linear),
        Err(e) => Err(e.shown()),
    }
}

impl RHTLinearWrapper {
    /// Loads an incoherently stored linear map.
    pub fn new(
        context: &mut Context,
        input_dimension: usize,
        output_dimension: usize,
        data_type: DataType,
        parameter_tree: &ParameterTree<'_>,
    ) -> (res: Result<RHTLinearWrapper, RHTLinearWrapperError>)
        requires
            rht_ready(old(context)@, input_dimension, output_dimension, data_type, parameter_tree@),
        ensures
            (final(context)@, rht_result(res)) == rht_outcome(
                old(context)@,
                input_dimension,
                output_dimension,
                data_type,
                parameter_tree@,
            ),
    {
        match RHTLinearWrapper::attempt(
            context,
            input_dimension,
            output_dimension,
            data_type,
            parameter_tree,
        ) {
            Some(res) => res,
            None => unreached(),
        }
    }

    /// Loads an incoherently stored linear map, up to a matrix in groups of no weights:
    /// where that is reached, there is nothing to give back.
    pub(crate) fn attempt(
        context: &mut Context,
        input_dimension: usize,
        output_dimension: usize,
        data_type: DataType,
        parameter_tree: &ParameterTree<'_>,
    ) -> (res: Option<Result<RHTLinearWrapper, RHTLinearWrapperError>>)
        ensures
            ({
                let tree = parameter_tree@;
                let ready = rht_ready(old(context)@, input_dimension, output_dimension, data_type, tree);
                match res {
                    Some(res) => ready && (final(context)@, rht_result(res)) == rht_outcome(
                        old(context)@,
                        input_dimension,
                        output_dimension,
                        data_type,
                        tree,
                    ),
                    None => !ready && final(context)@ == rht_prelude(
                        old(context)@,
                        input_dimension,
                        output_dimension,
                        data_type,
                        tree,
                    ).0,
                }
            }),
    {
        match RHTLinearWrapper::load_prelude(
            context,
            input_dimension,
            output_dimension,
            data_type,
            parameter_tree,
        ) {
            Ok((factors, kernel, quantized_tree)) => {
                if !is_fused_ready(&quantized_tree, data_type) {
                    return None;
                }
                match LinearBlock::new_with_output_hadamard(
                    context,
                    &quantized_tree,
                    Some(parameter_tree),
                    factors.1,
                    input_dimension,
                    output_dimension,
                    data_type,
                ) {
                    Ok(inner_linear) => Some(
                        Ok(
                            RHTLinearWrapper {
                                input_hadamard_kernel: Kernel { request: kernel },
                                input_factors: factors.0,
                                inner_linear,
                                input_dimension,
                            },
                        ),
                    ),
                    Err(e) => Some(Err(RHTLinearWrapperError::InnerLinearError(Box::new(e)))),
                }
            },
            Err(e) => Some(Err(e)),
        }
    }

    /// Loads what comes before the matrix: the signs of both sides and the kernel.
    fn load_prelude<'loader>(
        context: &mut Context,
        input_dimension: usize,
        output_dimension: usize,
        data_type: DataType,
        parameter_tree: &ParameterTree<'loader>,
    ) -> (res: Result<((Allocation, Allocation), usize, ParameterTree<'loader>), RHTLinearWrapperError>)
        ensures
            ({
                let (after, prelude) = rht_prelude(
                    old(context)@,
                    input_dimension,
                    output_dimension,
                    data_type,
                    parameter_tree@,
                );
                &&& final(context)@ == after
                &&& match res {
                    Ok((factors, kernel, quantized)) => prelude matches Ok((f, k, q)) && f == factors && k
                        == kernel && q == quantized@,
                    Err(e) => prelude matches Err(error) && error == e.shown(),
                }
            }),
    {
        let weights_tree = match parameter_tree.subtree("weights") {
            Ok(tree) => tree,
            Err(e) => {
                return Err(RHTLinearWrapperError::ParameterError(e));
            },
        };
        let spec = match weights_tree.metadata("spec") {
            Ok(spec) => spec,
            Err(e) => {
                return Err(RHTLinearWrapperError::ParameterError(e));
            },
        };
        if !is_rht(spec) {
            return Err(RHTLinearWrapperError::UnsupportedConfiguration(spec.clone()));
        }
        let signs_tree = match weights_tree.subtree("incoherence_signs") {
            Ok(tree) => tree,
            Err(e) => {
                return Err(RHTLinearWrapperError::ParameterError(e));
            },
        };
        let factors = match load_signs(context, &signs_tree, input_dimension, output_dimension) {
            Ok(factors) => factors,
            Err(e) => {
                return Err(RHTLinearWrapperError::ParameterError(e));
            },
        };
        let quantized_tree = match weights_tree.subtree("quantized") {
            Ok(tree) => tree,
            Err(e) => {
                return Err(RHTLinearWrapperError::ParameterError(e));
            },
        };
        let order = HadamardTransformOrder::Input;
        let kernel: usize = match context.issue(
            Request::CreateKernel(KernelRequest::HadamardTransform { data_type, order }),
        ) {
            Ok(kernel) => kernel,
            Err(e) => {
                return Err(RHTLinearWrapperError::BackendError(e));
            },
        };
        Ok((factors, kernel, quantized_tree))
    }
}

impl Linear for RHTLinearWrapper {
    open spec fn plan(&self, input: Allocation, batch_dim: usize, start: int) -> Seq<Command> {
        seq![
            Command::HadamardTransform {
                kernel: self.input_hadamard_kernel,
                data: input,
                factors: self.input_factors,
                columns: self.input_dimension as u32,
                rows: batch_dim as u32,
            },
        ] + self.inner_linear.plan(input, batch_dim, start + 1)
    }

    open spec fn output(&self, start: int) -> Allocation {
        self.inner_linear.output(start + 1)
    }

    open spec fn encodable(&self, batch_dim: usize) -> bool {
        self.inner_linear.encodable(batch_dim)
    }

    fn encode(&self, input: Allocation, batch_dim: usize, encoder: &mut Encoder) -> (res: Result<
        Allocation,
        DeviceError,
    >) {
        let transform = Command::HadamardTransform {
            kernel: self.input_hadamard_kernel,
            data: input,
            factors: self.input_factors,
            columns: self.input_dimension as u32,
            rows: batch_dim as u32,
        };
        proof {
            emit_in_parts(
                encoder@,
                seq![transform],
                self.inner_linear.plan(input, batch_dim, encoder@.next() + 1),
            );
        }
        encoder.record(transform);
        self.inner_linear.encode(input, batch_dim, encoder)
    }
}

} // verus!
