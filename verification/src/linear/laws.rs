//! What holds of all linear maps.

use vstd::prelude::*;

use crate::backend::context::{
    a_request_follows, a_request_replays, cut_stays, follows_in_parts, replays, ContextView, Request,
};
use crate::backend::encoder::{allocated_within, Command};
use crate::backend::types::{Allocation, Fault};
use crate::data_type::DataType;
use crate::linear::block::{
    extracting_outcome, extracting_ready, fused_outcome, fused_ready, linear_kind, linear_outcome,
    linear_ready, quantization, rht_spec, LinearBlock, LinearBlockError,
    LinearBlockErrorView, LinearKind,
};
use crate::linear::full_precision::{
    full_precision_outcome, full_precision_steps, FullPrecisionLinearError, FullPrecisionLinearErrorView,
};
use crate::linear::qlora_wrapper::{
    AdapterPlan, QLoRALinearWrapper, QLoRALinearWrapperError, QLoRALinearWrapperErrorView,
};
use crate::linear::quantized::{
    bias_plan, has_biases, QuantizedLinear, QuantizedLinearError, QuantizedLinearErrorView,
    QuantizedLinearPlan,
};
use crate::linear::rht_wrapper::{
    input_transform, rht_outcome, rht_prelude, signs_outcome, RHTLinearWrapperError,
    RHTLinearWrapperErrorView,
};
use crate::linear::Linear;
use crate::parameters::loader::{load_follows, load_replays, TreeView};
use crate::parameters::manifest::{
    is_made_by, made_stays, outcome, steps_follow, steps_make_what_they_want, steps_replay, StepView,
};
use crate::weight_matrix::{AnyWeightMatrixSpec, Layout};

verus! {

impl QuantizedLinearErrorView {
    /// Whether the error is a refusal of the device or of the file.
    pub open spec fn is_refusal(self) -> bool {
        match self {
            QuantizedLinearErrorView::BackendError(_) => true,
            QuantizedLinearErrorView::QuantizedMatmulError(_) => true,
            QuantizedLinearErrorView::ParameterError(e) => e.is_refusal(),
            _ => false,
        }
    }
}

impl FullPrecisionLinearErrorView {
    /// Whether the error is a refusal of the device or of the file.
    pub open spec fn is_refusal(self) -> bool {
        match self {
            FullPrecisionLinearErrorView::MatmulError(_) => true,
            FullPrecisionLinearErrorView::ParameterError(e) => e.is_refusal(),
            FullPrecisionLinearErrorView::UnsupportedDataType(_) => false,
        }
    }
}

impl QLoRALinearWrapperErrorView {
    /// Whether the error is a refusal of the device or of the file.
    pub open spec fn is_refusal(self) -> bool
        decreases self,
    {
        match self {
            QLoRALinearWrapperErrorView::InnerLinearError(e) => e.is_refusal(),
            QLoRALinearWrapperErrorView::QuantizedLinearError(e) => e.is_refusal(),
            QLoRALinearWrapperErrorView::ParameterLoaderError(e) => e.is_refusal(),
            QLoRALinearWrapperErrorView::MatmulError(_) => true,
            QLoRALinearWrapperErrorView::BackendError(_) => true,
        }
    }
}

impl RHTLinearWrapperErrorView {
    /// Whether the error is a refusal of the device or of the file.
    pub open spec fn is_refusal(self) -> bool
        decreases self,
    {
        match self {
            RHTLinearWrapperErrorView::InnerLinearError(e) => e.is_refusal(),
            RHTLinearWrapperErrorView::ParameterError(e) => e.is_refusal(),
            RHTLinearWrapperErrorView::BackendError(_) => true,
            RHTLinearWrapperErrorView::UnsupportedConfiguration(_) => false,
        }
    }
}

impl LinearBlockErrorView {
    /// Whether the error is a refusal of the device or of the file.
    pub open spec fn is_refusal(self) -> bool
        decreases self,
    {
        match self {
            LinearBlockErrorView::QuantizedLinearError(e) => e.is_refusal(),
            LinearBlockErrorView::FullPrecisionLinearError(e) => e.is_refusal(),
            LinearBlockErrorView::QLoRALinearWrapperError(e) => e.is_refusal(),
            LinearBlockErrorView::RHTLinearWrapperError(e) => e.is_refusal(),
            LinearBlockErrorView::ParameterError(e) => e.is_refusal(),
            LinearBlockErrorView::UnsupportedConfiguration(_) => false,
        }
    }
}

impl QuantizedLinearError {
    /// Tells whether the error is a refusal of the device or of the file.
    pub fn was_refused(&self) -> (res: bool)
        ensures
            res == self@.is_refusal(),
    {
        match self {
            QuantizedLinearError::BackendError(_) => true,
            QuantizedLinearError::QuantizedMatmulError(_) => true,
            QuantizedLinearError::ParameterError(e) => e.was_refused(),
            _ => false,
        }
    }
}

impl FullPrecisionLinearError {
    /// Tells whether the error is a refusal of the device or of the file.
    pub fn was_refused(&self) -> (res: bool)
        ensures
            res == self@.is_refusal(),
    {
        match self {
            FullPrecisionLinearError::MatmulError(_) => true,
            FullPrecisionLinearError::ParameterError(e) => e.was_refused(),
            FullPrecisionLinearError::UnsupportedDataType(_) => false,
        }
    }
}

impl QLoRALinearWrapperError {
    /// Tells whether the error is a refusal of the device or of the file.
    pub fn was_refused(&self) -> (res: bool)
        ensures
            res == self.shown().is_refusal(),
        decreases self,
    {
        match self {
            QLoRALinearWrapperError::InnerLinearError(e) => e.was_refused(),
            QLoRALinearWrapperError::QuantizedLinearError(e) => e.was_refused(),
            QLoRALinearWrapperError::ParameterLoaderError(e) => e.was_refused(),
            QLoRALinearWrapperError::MatmulError(_) => true,
            QLoRALinearWrapperError::BackendError(_) => true,
        }
    }
}

impl RHTLinearWrapperError {
    /// Tells whether the error is a refusal of the device or of the file.
    pub fn was_refused(&self) -> (res: bool)
        ensures
            res == self.shown().is_refusal(),
        decreases self,
    {
        match self {
            RHTLinearWrapperError::InnerLinearError(e) => e.was_refused(),
            RHTLinearWrapperError::ParameterError(e) => e.was_refused(),
            RHTLinearWrapperError::BackendError(_) => true,
            RHTLinearWrapperError::UnsupportedConfiguration(_) => false,
        }
    }
}

impl LinearBlockError {
    /// Tells whether the error is a refusal of the device or of the file.
    pub fn was_refused(&self) -> (res: bool)
        ensures
            res == self.shown().is_refusal(),
        decreases self,
    {
        match self {
            LinearBlockError::QuantizedLinearError(e) => e.was_refused(),
            LinearBlockError::FullPrecisionLinearError(e) => e.was_refused(),
            LinearBlockError::QLoRALinearWrapperError(e) => e.was_refused(),
            LinearBlockError::RHTLinearWrapperError(e) => e.was_refused(),
            LinearBlockError::ParameterError(e) => e.was_refused(),
            LinearBlockError::UnsupportedConfiguration(_) => false,
        }
    }
}

/// A context follows itself.
proof fn follows_itself(context: ContextView)
    ensures
        context.follows(context, false),
{
    assert(context.requests.take(context.requests.len() as int) =~= context.requests);
}

/// Making a quantized map asks for nothing after a refusal, and fails with a refusal
/// exactly where there was one.
pub proof fn quantized_follows(context: ContextView, plan: QuantizedLinearPlan)
    ensures
        ({
            let (after, made) = plan.outcome(context);
            after.follows(context, made is Err && made->Err_0.is_refusal())
        }),
{
    follows_itself(context);
    steps_follow(context, plan.steps());
}

/// Making a map of plain numbers asks for nothing after a refusal, and fails with a
/// refusal exactly where there was one.
pub proof fn full_precision_follows(
    context: ContextView,
    input_dim: usize,
    output_dim: usize,
    data_type: DataType,
    tree: TreeView,
)
    ensures
        ({
            let (after, made) = full_precision_outcome(context, input_dim, output_dim, data_type, tree);
            after.follows(context, made is Err && made->Err_0.is_refusal())
        }),
{
    follows_itself(context);
    steps_follow(context, full_precision_steps(tree, input_dim, output_dim, data_type));
}

/// Making an adapted map asks for nothing after a refusal, and fails with a refusal
/// exactly where there was one.
pub proof fn adapter_follows(context: ContextView, plan: AdapterPlan, base: QuantizedLinearPlan)
    ensures
        ({
            let (after, made) = plan.outcome(context, base);
            after.follows(context, made is Err && made->Err_0.is_refusal())
        }),
{
    let (middle, quantized) = base.outcome(context);
    let (after, made) = plan.outcome(context, base);
    quantized_follows(context, base);
    if quantized is Ok {
        steps_follow(middle, plan.steps());
        follows_in_parts(context, middle, after, made is Err && made->Err_0.is_refusal());
    }
}

/// Making a map with a fused output transform asks for nothing after a refusal, and
/// fails with a refusal exactly where there was one.
pub proof fn fused_follows(
    context: ContextView,
    weights_tree: TreeView,
    bias_tree: Option<TreeView>,
    output_factors: Allocation,
    input_dim: usize,
    output_dim: usize,
    data_type: DataType,
)
    ensures
        ({
            let (after, made) = fused_outcome(
                context,
                weights_tree,
                bias_tree,
                output_factors,
                input_dim,
                output_dim,
                data_type,
            );
            after.follows(context, made is Err && made->Err_0.is_refusal())
        }),
{
    follows_itself(context);
    if let Ok(spec) = weights_tree.metadata("spec"@) {
        if let Some(quantization) = quantization(spec, Layout::OutputInput) {
            quantized_follows(
                context,
                QuantizedLinearPlan {
                    bits: quantization.bits,
                    group_size: quantization.group_size,
                    quantization_method: quantization.method,
                    input_dim,
                    output_dim,
                    data_type,
                    weights_tree,
                    bias_tree,
                    output_hadamard_factors: Some(output_factors),
                },
            );
        }
    }
}

/// Loading signs asks for nothing after a refusal.
pub(crate) proof fn signs_follow(context: ContextView, signs: TreeView, input_dim: usize, output_dim: usize)
    ensures
        ({
            let (after, loaded) = signs_outcome(context, signs, input_dim, output_dim);
            after.follows(context, loaded is Err && loaded->Err_0.is_refusal())
        }),
{
    let (middle, first) = signs.load(context, "input_signs"@, seq![input_dim], DataType::I32);
    load_follows(signs, context, "input_signs"@, seq![input_dim], DataType::I32);
    if first is Ok {
        load_follows(signs, middle, "output_signs"@, seq![output_dim], DataType::I32);
        let (after, second) = signs.load(middle, "output_signs"@, seq![output_dim], DataType::I32);
        follows_in_parts(context, middle, after, second is Err && second->Err_0.is_refusal());
    }
}

/// Making an incoherently stored map asks for nothing after a refusal, and fails with
/// a refusal exactly where there was one.
pub proof fn rht_follows(
    context: ContextView,
    input_dim: usize,
    output_dim: usize,
    data_type: DataType,
    tree: TreeView,
)
    ensures
        ({
            let (after, made) = rht_outcome(context, input_dim, output_dim, data_type, tree);
            after.follows(context, made is Err && made->Err_0.is_refusal())
        }),
{
    follows_itself(context);
    let weights = tree.child("weights"@);
    let signs = weights.child("incoherence_signs"@);
    let (loaded, factors) = signs_outcome(context, signs, input_dim, output_dim);
    let request = Request::CreateKernel(input_transform(data_type));
    let created = loaded.record(request);
    signs_follow(context, signs, input_dim, output_dim);
    a_request_follows(loaded, request);
    if factors is Ok {
        follows_in_parts(context, loaded, created, loaded.answer() is Err);
    }
    let (middle, prelude) = rht_prelude(context, input_dim, output_dim, data_type, tree);
    if let Ok((factors, _, quantized)) = prelude {
        fused_follows(middle, quantized, Some(tree), factors.1, input_dim, output_dim, data_type);
        let (after, made) = rht_outcome(context, input_dim, output_dim, data_type, tree);
        follows_in_parts(context, middle, after, made is Err && made->Err_0.is_refusal());
    }
}

/// Making a linear map keeps the requests that were made before, asks for nothing
/// after a refusal, and fails with a refusal exactly where there was one.
pub proof fn linear_follows(
    context: ContextView,
    input_dim: usize,
    output_dim: usize,
    data_type: DataType,
    tree: TreeView,
)
    ensures
        ({
            let (after, made) = linear_outcome(context, input_dim, output_dim, data_type, tree);
            after.follows(context, made is Err && made->Err_0.is_refusal())
        }),
{
    follows_itself(context);
    let weights = tree.child("weights"@);
    if let Ok(spec) = weights.metadata("spec"@) {
        match linear_kind(spec) {
            LinearKind::FullPrecision => {
                full_precision_follows(context, input_dim, output_dim, data_type, tree);
            },
            LinearKind::Quantized(quantization) => {
                quantized_follows(
                    context,
                    QuantizedLinearPlan {
                        bits: quantization.bits,
                        group_size: quantization.group_size,
                        quantization_method: quantization.method,
                        input_dim,
                        output_dim,
                        data_type,
                        weights_tree: weights,
                        bias_tree: Some(tree),
                        output_hadamard_factors: None,
                    },
                );
            },
            LinearKind::RHT => {
                rht_follows(context, input_dim, output_dim, data_type, tree);
            },
            LinearKind::Adapted { parts, incoherent } => {
                if let Some((quantization, rank)) = parts {
                    adapter_follows(
                        context,
                        AdapterPlan {
                            lora_rank: rank,
                            input_dim,
                            output_dim,
                            data_type,
                            adapter_tree: weights.child("adapter"@),
                            bias_tree: Some(tree),
                            incoherence_signs_tree: if incoherent {
                                Some(weights.child("incoherence_signs"@))
                            } else {
                                None
                            },
                        },
                        QuantizedLinearPlan {
                            bits: quantization.bits,
                            group_size: quantization.group_size,
                            quantization_method: quantization.method,
                            input_dim,
                            output_dim,
                            data_type,
                            weights_tree: weights.child("quantized"@),
                            bias_tree: None,
                            output_hadamard_factors: None,
                        },
                    );
                }
            },
            LinearKind::Unsupported => {},
        }
    }
}

/// Making a linear map whose input transform is left to the caller keeps the requests
/// that were made before, asks for nothing after a refusal, and fails with a refusal
/// exactly where there was one.
pub proof fn extracting_follows(
    context: ContextView,
    input_dim: usize,
    output_dim: usize,
    data_type: DataType,
    tree: TreeView,
)
    ensures
        ({
            let (after, made) = extracting_outcome(context, input_dim, output_dim, data_type, tree);
            after.follows(context, made is Err && made->Err_0.is_refusal())
        }),
{
    follows_itself(context);
    linear_follows(context, input_dim, output_dim, data_type, tree);
    let weights = tree.child("weights"@);
    let signs = weights.child("incoherence_signs"@);
    let quantized = weights.child("quantized"@);
    let (middle, loaded) = signs_outcome(context, signs, input_dim, output_dim);
    signs_follow(context, signs, input_dim, output_dim);
    if let Ok((_, output_factors)) = loaded {
        fused_follows(
            middle,
            quantized,
            Some(tree),
            output_factors,
            input_dim,
            output_dim,
            data_type,
        );
        let (after, made) = fused_outcome(
            middle,
            quantized,
            Some(tree),
            output_factors,
            input_dim,
            output_dim,
            data_type,
        );
        follows_in_parts(context, middle, after, made is Err && made->Err_0.is_refusal());
    }
}

/// A map whose input transform is left to the caller never transforms its input: it
/// comes with signs exactly where the matrix is stored incoherently without an
/// adapter, and is quantized then.
pub proof fn extracted_maps_do_not_transform(
    context: ContextView,
    input_dim: usize,
    output_dim: usize,
    data_type: DataType,
    tree: TreeView,
)
    requires
        extracting_outcome(context, input_dim, output_dim, data_type, tree).1 is Ok,
    ensures
        ({
            let (linear, signs) = extracting_outcome(
                context,
                input_dim,
                output_dim,
                data_type,
                tree,
            ).1->Ok_0;
            &&& !(linear is RHT)
            &&& signs is Some <==> rht_spec(tree.child("weights"@).metadata("spec"@)->Ok_0)
            &&& signs is Some ==> linear is Quantized && linear->Quantized_0.output_hadamard_factors is Some
            &&& signs is None ==> linear_outcome(
                context,
                input_dim,
                output_dim,
                data_type,
                tree,
            ).1 == Ok::<LinearBlock, LinearBlockErrorView>(linear)
        }),
{
}

impl LinearBlock {
    /// The quantized map in it, where there is one.
    pub open spec fn quantized(self) -> Option<QuantizedLinear> {
        match self {
            LinearBlock::FullPrecision(_) => None,
            LinearBlock::Quantized(linear) => Some(linear),
            LinearBlock::QLoRA(linear) => Some(linear.base_linear),
            LinearBlock::RHT(linear) => Some(linear.inner_linear),
        }
    }

    /// The width and the type of the product.
    pub open spec fn product(self) -> (usize, DataType) {
        match self {
            LinearBlock::FullPrecision(linear) => (linear.output_dim, linear.data_type),
            _ => {
                let linear = self.quantized()->0;
                (linear.output_dim, linear.output_data_type)
            },
        }
    }
}

/// The product stands in an allocation that the map's own commands create: it has a
/// row for each row of the input, as wide as the map's output.
pub proof fn product_is_allocated(linear: LinearBlock, input: Allocation, batch_dim: usize, start: int)
    requires
        0 <= start,
        start + linear.plan(input, batch_dim, start).len() <= usize::MAX,
    ensures
        ({
            let plan = linear.plan(input, batch_dim, start);
            let output = linear.output(start);
            &&& allocated_within(plan, start, plan.len() as int, output)
            &&& plan[output->Scratch_0 - start] == Command::AllocateScratch {
                rows: batch_dim,
                columns: linear.product().0,
                data_type: linear.product().1,
            }
        }),
{
}

/// A quantized map's commands write to the product, which the first of them creates.
proof fn quantized_writes(linear: QuantizedLinear, input: Allocation, batch_dim: usize, start: int, i: int)
    requires
        0 <= i < linear.plan(input, batch_dim, start).len(),
    ensures
        linear.plan(input, batch_dim, start)[0] is AllocateScratch,
        linear.plan(input, batch_dim, start)[i].written() matches Some(to) ==> i > 0 && to == linear.output(
            start,
        ),
{
}

/// An adapted map's commands write to nothing but what they created before.
proof fn adapted_writes(linear: QLoRALinearWrapper, input: Allocation, batch_dim: usize, start: int, i: int)
    requires
        0 <= start,
        start + linear.plan(input, batch_dim, start).len() <= usize::MAX,
        0 <= i < linear.plan(input, batch_dim, start).len(),
    ensures
        ({
            let plan = linear.plan(input, batch_dim, start);
            plan[i].written() matches Some(to) ==> allocated_within(plan, start, i, to)
        }),
{
    let plan = linear.plan(input, batch_dim, start);
    let down = linear.down_plan(input, batch_dim, start);
    let transform = linear.input_plan(input, batch_dim, start);
    let base_start = linear.base_start(start);
    let base = linear.base_linear.plan(linear.base_input(input, start), batch_dim, base_start);
    let output = linear.base_linear.output(base_start);
    let at_transform = down.len() as int;
    let at_base = at_transform + transform.len();
    let at_rest = at_base + base.len();
    assert(base_start == start + at_base);
    assert(plan[0] == down[0]);
    assert(plan[at_base] == base[0]);
    assert(allocated_within(plan, start, at_base + 1, output));
    if i < at_transform {
        assert(plan[i] == down[i]);
    } else if i < at_base {
        assert(plan[at_transform] == transform[0]);
        assert(plan[i] == transform[i - at_transform]);
    } else if i < at_rest {
        assert(plan[i] == base[i - at_base]);
        quantized_writes(
            linear.base_linear,
            linear.base_input(input, start),
            batch_dim,
            base_start,
            i - at_base,
        );
    } else {
        let rest = linear.up_plan(batch_dim, start) + (linear.output_plan(batch_dim, start) + bias_plan(
            linear.bias_add_kernel,
            linear.biases,
            output,
            batch_dim,
            linear.output_dim,
        ));
        assert(plan[i] == rest[i - at_rest]);
        assert(rest[i - at_rest].written() == Some(output));
    }
}

/// A map's commands write to nothing but what they created before. The one exception
/// is the first command of an incoherently stored map, which transforms the input.
pub proof fn maps_write_what_they_allocate(
    linear: LinearBlock,
    input: Allocation,
    batch_dim: usize,
    start: int,
    i: int,
)
    requires
        0 <= start,
        start + linear.plan(input, batch_dim, start).len() <= usize::MAX,
        0 <= i < linear.plan(input, batch_dim, start).len(),
    ensures
        ({
            let plan = linear.plan(input, batch_dim, start);
            plan[i].written() matches Some(to) ==> {
                ||| allocated_within(plan, start, i, to)
                ||| linear is RHT && i == 0 && to == input
            }
        }),
{
    let plan = linear.plan(input, batch_dim, start);
    match linear {
        LinearBlock::FullPrecision(_) => {},
        LinearBlock::Quantized(quantized) => {
            quantized_writes(quantized, input, batch_dim, start, i);
        },
        LinearBlock::QLoRA(adapted) => {
            adapted_writes(adapted, input, batch_dim, start, i);
        },
        LinearBlock::RHT(rht) => {
            let inner = rht.inner_linear.plan(input, batch_dim, start + 1);
            assert(plan[1] == inner[0]);
            if i > 0 {
                assert(plan[i] == inner[i - 1]);
                quantized_writes(rht.inner_linear, input, batch_dim, start + 1, i - 1);
            }
        },
    }
}

/// A map that is not stored incoherently leaves its input as it is.
pub proof fn plain_maps_keep_their_input(
    linear: LinearBlock,
    input: Allocation,
    batch_dim: usize,
    start: int,
    i: int,
)
    requires
        !(linear is RHT),
        0 <= start,
        start + linear.plan(input, batch_dim, start).len() <= usize::MAX,
        input matches Allocation::Scratch(number) ==> number < start,
        0 <= i < linear.plan(input, batch_dim, start).len(),
    ensures
        linear.plan(input, batch_dim, start)[i].written() != Some(input),
{
    maps_write_what_they_allocate(linear, input, batch_dim, start, i);
}

/// A map that was made gives a product of the width and the type that were asked for.
pub proof fn maps_have_the_width_asked_for(
    context: ContextView,
    input_dim: usize,
    output_dim: usize,
    data_type: DataType,
    tree: TreeView,
)
    ensures
        linear_outcome(context, input_dim, output_dim, data_type, tree).1 matches Ok(linear)
            ==> linear.product() == (output_dim, data_type),
        extracting_outcome(context, input_dim, output_dim, data_type, tree).1 matches Ok((linear, _))
            ==> linear.product() == (output_dim, data_type),
{
}

/// Whether an allocation is the one that a step created and filled.
pub open spec fn holds(context: ContextView, step: StepView, allocation: Allocation) -> bool {
    allocation matches Allocation::Resident(number) && is_made_by(context, step, number)
}

impl QuantizedLinearPlan {
    /// Whether the parts of a map are what the steps for it created: the allocations
    /// hold the tensors, and the kernels are those that were asked for.
    pub open spec fn is_loaded(self, context: ContextView, linear: QuantizedLinear) -> bool {
        let steps = self.steps();
        &&& holds(context, steps[0], linear.weights)
        &&& holds(context, steps[1], linear.scales)
        &&& holds(context, steps[2], linear.zero_points_or_biases)
        &&& is_made_by(context, steps.last(), linear.kernel.request)
        &&& match (linear.bias_add_kernel, linear.biases) {
            (Some(kernel), Some(biases)) => {
                &&& has_biases(self.bias_tree)
                &&& is_made_by(context, steps[3], kernel.request)
                &&& holds(context, steps[4], biases)
            },
            (None, None) => !has_biases(self.bias_tree),
            _ => false,
        }
    }
}

/// The parts of a quantized map are what the steps for it created.
pub proof fn quantized_maps_are_loaded(context: ContextView, plan: QuantizedLinearPlan)
    requires
        plan.outcome(context).1 is Ok,
        plan.outcome(context).0.requests.len() <= usize::MAX,
    ensures
        plan.is_loaded(plan.outcome(context).0, plan.outcome(context).1->Ok_0),
{
    let steps = plan.steps();
    steps_make_what_they_want(context, steps);
    let (after, loaded) = outcome(context, steps);
    let made = loaded->Ok_0;
    assert(is_made_by(after, steps[0], made[0]));
    assert(is_made_by(after, steps[1], made[1]));
    assert(is_made_by(after, steps[2], made[2]));
    assert(is_made_by(after, steps[steps.len() - 1], made[steps.len() - 1]));
    if has_biases(plan.bias_tree) {
        assert(is_made_by(after, steps[3], made[3]));
        assert(is_made_by(after, steps[4], made[4]));
    }
}

/// A loaded quantized map stays loaded.
proof fn quantized_maps_stay(
    earlier: ContextView,
    later: ContextView,
    plan: QuantizedLinearPlan,
    linear: QuantizedLinear,
)
    requires
        plan.is_loaded(earlier, linear),
        earlier.requests.is_prefix_of(later.requests),
    ensures
        plan.is_loaded(later, linear),
{
    let steps = plan.steps();
    made_stays(earlier, later, steps[0], linear.weights->Resident_0);
    made_stays(earlier, later, steps[1], linear.scales->Resident_0);
    made_stays(earlier, later, steps[2], linear.zero_points_or_biases->Resident_0);
    made_stays(earlier, later, steps.last(), linear.kernel.request);
    if has_biases(plan.bias_tree) {
        made_stays(earlier, later, steps[3], linear.bias_add_kernel->0.request);
        made_stays(earlier, later, steps[4], linear.biases->0->Resident_0);
    }
}

/// The parts of a map of plain numbers are what the steps for it created.
pub proof fn plain_maps_are_loaded(
    context: ContextView,
    input_dim: usize,
    output_dim: usize,
    data_type: DataType,
    tree: TreeView,
)
    requires
        full_precision_outcome(context, input_dim, output_dim, data_type, tree).1 is Ok,
        full_precision_outcome(context, input_dim, output_dim, data_type, tree).0.requests.len()
            <= usize::MAX,
    ensures
        ({
            let (after, made) = full_precision_outcome(context, input_dim, output_dim, data_type, tree);
            let steps = full_precision_steps(tree, input_dim, output_dim, data_type);
            let linear = made->Ok_0;
            &&& holds(after, steps[0], linear.weights)
            &&& is_made_by(after, steps.last(), linear.kernel.request)
            &&& linear.bias is Some <==> tree.has_leaf("biases"@)
            &&& linear.bias matches Some(bias) ==> holds(after, steps[1], bias)
        }),
{
    let steps = full_precision_steps(tree, input_dim, output_dim, data_type);
    steps_make_what_they_want(context, steps);
    let (after, loaded) = outcome(context, steps);
    let made = loaded->Ok_0;
    assert(is_made_by(after, steps[0], made[0]));
    assert(is_made_by(after, steps[1], made[1]));
    assert(is_made_by(after, steps[steps.len() - 1], made[steps.len() - 1]));
}

impl AdapterPlan {
    /// Whether the parts of an adapted map, but for the quantized map, are what the
    /// steps for it created.
    pub open spec fn is_loaded(self, context: ContextView, linear: QLoRALinearWrapper) -> bool {
        let steps = self.steps();
        let first: int = if self.incoherence_signs_tree is Some {
            4
        } else {
            0
        };
        &&& is_made_by(context, steps[first], linear.adapter_kernel.request)
        &&& holds(context, steps[first + 1], linear.adapter_down)
        &&& holds(context, steps[first + 2], linear.adapter_up)
        &&& match (linear.input_hadamard, linear.output_hadamard) {
            (Some(input), Some(output)) => {
                &&& self.incoherence_signs_tree is Some
                &&& holds(context, steps[0], input.factors)
                &&& holds(context, steps[1], output.factors)
                &&& is_made_by(context, steps[2], input.kernel.request)
                &&& is_made_by(context, steps[3], output.kernel.request)
            },
            (None, None) => self.incoherence_signs_tree is None,
            _ => false,
        }
        &&& match (linear.bias_add_kernel, linear.biases) {
            (Some(kernel), Some(biases)) => {
                &&& has_biases(self.bias_tree)
                &&& is_made_by(context, steps[first + 3], kernel.request)
                &&& holds(context, steps[first + 4], biases)
            },
            (None, None) => !has_biases(self.bias_tree),
            _ => false,
        }
    }
}

/// The parts of an adapted map are what the steps for it created.
pub proof fn adapted_maps_are_loaded(context: ContextView, plan: AdapterPlan, base: QuantizedLinearPlan)
    requires
        plan.outcome(context, base).1 is Ok,
        plan.outcome(context, base).0.requests.len() <= usize::MAX,
    ensures
        ({
            let (after, made) = plan.outcome(context, base);
            &&& plan.is_loaded(after, made->Ok_0)
            &&& base.is_loaded(after, made->Ok_0.base_linear)
        }),
{
    let (middle, quantized) = base.outcome(context);
    let steps = plan.steps();
    let (after, loaded) = outcome(middle, steps);
    let made = loaded->Ok_0;
    steps_follow(middle, steps);
    assert(middle.requests.len() <= after.requests.len());
    quantized_maps_are_loaded(context, base);
    quantized_maps_stay(middle, after, base, quantized->Ok_0);
    steps_make_what_they_want(middle, steps);
    let first: int = if plan.incoherence_signs_tree is Some {
        4
    } else {
        0
    };
    assert(is_made_by(after, steps[first], made[first]));
    assert(is_made_by(after, steps[first + 1], made[first + 1]));
    assert(is_made_by(after, steps[first + 2], made[first + 2]));
    if plan.incoherence_signs_tree is Some {
        assert(is_made_by(after, steps[0], made[0]));
        assert(is_made_by(after, steps[1], made[1]));
        assert(is_made_by(after, steps[2], made[2]));
        assert(is_made_by(after, steps[3], made[3]));
    }
    if has_biases(plan.bias_tree) {
        assert(is_made_by(after, steps[first + 3], made[first + 3]));
        assert(is_made_by(after, steps[first + 4], made[first + 4]));
    }
}

/// The step for the signs of one side of a matrix.
pub open spec fn sign_step(signs: TreeView, name: Seq<char>, dimension: usize) -> StepView {
    StepView::Tensor { tree: signs, name, shape: seq![dimension], data_type: DataType::I32 }
}

/// Loaded signs are in the allocations that were created for them.
pub(crate) proof fn signs_are_loaded(context: ContextView, signs: TreeView, input_dim: usize, output_dim: usize)
    requires
        signs_outcome(context, signs, input_dim, output_dim).1 is Ok,
        signs_outcome(context, signs, input_dim, output_dim).0.requests.len() <= usize::MAX,
    ensures
        ({
            let (after, loaded) = signs_outcome(context, signs, input_dim, output_dim);
            let (input_factors, output_factors) = loaded->Ok_0;
            &&& holds(after, sign_step(signs, "input_signs"@, input_dim), input_factors)
            &&& holds(after, sign_step(signs, "output_signs"@, output_dim), output_factors)
        }),
{
    let (middle, first) = signs.load(context, "input_signs"@, seq![input_dim], DataType::I32);
    let (after, second) = signs.load(middle, "output_signs"@, seq![output_dim], DataType::I32);
    load_follows(signs, middle, "output_signs"@, seq![output_dim], DataType::I32);
    let step = sign_step(signs, "input_signs"@, input_dim);
    assert(after.requests.len() == middle.requests.len() + 2);
    assert(middle.requests.len() == context.requests.len() + 2);
    assert(holds(middle, step, first->Ok_0));
    made_stays(middle, after, step, first->Ok_0->Resident_0);
}

/// The parts of an incoherently stored map are what was created for it: the signs of
/// both sides, the kernel that transforms the input, and the quantized map.
pub proof fn incoherent_maps_are_loaded(
    context: ContextView,
    input_dim: usize,
    output_dim: usize,
    data_type: DataType,
    tree: TreeView,
)
    requires
        rht_outcome(context, input_dim, output_dim, data_type, tree).1 is Ok,
        rht_outcome(context, input_dim, output_dim, data_type, tree).0.requests.len() <= usize::MAX,
    ensures
        ({
            let (after, made) = rht_outcome(context, input_dim, output_dim, data_type, tree);
            let linear = made->Ok_0;
            let signs = tree.child("weights"@).child("incoherence_signs"@);
            let quantized = tree.child("weights"@).child("quantized"@);
            let quantization = quantization(quantized.metadata("spec"@)->Ok_0, Layout::OutputInput)->0;
            let plan = QuantizedLinearPlan {
                bits: quantization.bits,
                group_size: quantization.group_size,
                quantization_method: quantization.method,
                input_dim,
                output_dim,
                data_type,
                weights_tree: quantized,
                bias_tree: Some(tree),
                output_hadamard_factors: linear.inner_linear.output_hadamard_factors,
            };
            &&& holds(after, sign_step(signs, "input_signs"@, input_dim), linear.input_factors)
            &&& linear.inner_linear.output_hadamard_factors is Some
            &&& holds(
                after,
                sign_step(signs, "output_signs"@, output_dim),
                linear.inner_linear.output_hadamard_factors->0,
            )
            &&& is_made_by(
                after,
                StepView::Kernel(input_transform(data_type)),
                linear.input_hadamard_kernel.request,
            )
            &&& plan.is_loaded(after, linear.inner_linear)
        }),
{
    let weights = tree.child("weights"@);
    let signs = weights.child("incoherence_signs"@);
    let quantized = weights.child("quantized"@);
    let (loaded, factors) = signs_outcome(context, signs, input_dim, output_dim);
    let request = Request::CreateKernel(input_transform(data_type));
    let created = loaded.record(request);
    let (input_factors, output_factors) = factors->Ok_0;
    let (after, made) = rht_outcome(context, input_dim, output_dim, data_type, tree);
    let quantization = quantization(quantized.metadata("spec"@)->Ok_0, Layout::OutputInput)->0;
    let plan = QuantizedLinearPlan {
        bits: quantization.bits,
        group_size: quantization.group_size,
        quantization_method: quantization.method,
        input_dim,
        output_dim,
        data_type,
        weights_tree: quantized,
        bias_tree: Some(tree),
        output_hadamard_factors: Some(output_factors),
    };
    quantized_follows(created, plan);
    a_request_follows(loaded, request);
    assert(created.requests.len() <= after.requests.len());
    signs_are_loaded(context, signs, input_dim, output_dim);
    quantized_maps_are_loaded(created, plan);
    follows_in_parts(loaded, created, after, false);
    made_stays(loaded, after, sign_step(signs, "input_signs"@, input_dim), input_factors->Resident_0);
    made_stays(loaded, after, sign_step(signs, "output_signs"@, output_dim), output_factors->Resident_0);
    let kernel = loaded.requests.len() as usize;
    let step = StepView::Kernel(input_transform(data_type));
    assert(is_made_by(created, step, kernel));
    made_stays(created, after, step, kernel);
}

/// Making a quantized map with a fault is making it without one, up to the refusal.
pub proof fn quantized_replays(context: ContextView, plan: QuantizedLinearPlan, fault: Fault)
    requires
        context.fault is None,
    ensures
        replays(plan.outcome(context), plan.outcome(context.with(fault)), fault),
{
    steps_replay(context, plan.steps(), fault);
}

/// Making a map of plain numbers with a fault is making it without one, up to the
/// refusal.
pub proof fn full_precision_replays(
    context: ContextView,
    input_dim: usize,
    output_dim: usize,
    data_type: DataType,
    tree: TreeView,
    fault: Fault,
)
    requires
        context.fault is None,
    ensures
        replays(
            full_precision_outcome(context, input_dim, output_dim, data_type, tree),
            full_precision_outcome(context.with(fault), input_dim, output_dim, data_type, tree),
            fault,
        ),
{
    steps_replay(context, full_precision_steps(tree, input_dim, output_dim, data_type), fault);
}

/// Making an adapted map with a fault is making it without one, up to the refusal.
pub proof fn adapter_replays(context: ContextView, plan: AdapterPlan, base: QuantizedLinearPlan, fault: Fault)
    requires
        context.fault is None,
    ensures
        replays(plan.outcome(context, base), plan.outcome(context.with(fault), base), fault),
{
    let (middle, quantized) = base.outcome(context);
    let (cut, refused) = base.outcome(context.with(fault));
    quantized_replays(context, base, fault);
    if quantized is Ok {
        steps_replay(middle, plan.steps(), fault);
        steps_follow(middle, plan.steps());
        if refused is Err {
            cut_stays(cut, middle, outcome(middle, plan.steps()).0, fault);
        }
    }
}

/// Making a map with a fused output transform with a fault is making it without one,
/// up to the refusal.
pub proof fn fused_replays(
    context: ContextView,
    weights_tree: TreeView,
    bias_tree: Option<TreeView>,
    output_factors: Allocation,
    input_dim: usize,
    output_dim: usize,
    data_type: DataType,
    fault: Fault,
)
    requires
        context.fault is None,
    ensures
        replays(
            fused_outcome(
                context,
                weights_tree,
                bias_tree,
                output_factors,
                input_dim,
                output_dim,
                data_type,
            ),
            fused_outcome(
                context.with(fault),
                weights_tree,
                bias_tree,
                output_factors,
                input_dim,
                output_dim,
                data_type,
            ),
            fault,
        ),
{
    if let Ok(spec) = weights_tree.metadata("spec"@) {
        if let Some(quantization) = quantization(spec, Layout::OutputInput) {
            quantized_replays(
                context,
                QuantizedLinearPlan {
                    bits: quantization.bits,
                    group_size: quantization.group_size,
                    quantization_method: quantization.method,
                    input_dim,
                    output_dim,
                    data_type,
                    weights_tree,
                    bias_tree,
                    output_hadamard_factors: Some(output_factors),
                },
                fault,
            );
        }
    }
}

/// Loading signs with a fault is loading them without one, up to the refusal.
proof fn signs_replay(
    context: ContextView,
    signs: TreeView,
    input_dim: usize,
    output_dim: usize,
    fault: Fault,
)
    requires
        context.fault is None,
    ensures
        replays(
            signs_outcome(context, signs, input_dim, output_dim),
            signs_outcome(context.with(fault), signs, input_dim, output_dim),
            fault,
        ),
{
    let shape = seq![output_dim];
    let (middle, first) = signs.load(context, "input_signs"@, seq![input_dim], DataType::I32);
    let (cut, refused) = signs.load(context.with(fault), "input_signs"@, seq![input_dim], DataType::I32);
    load_replays(signs, context, "input_signs"@, seq![input_dim], DataType::I32, fault);
    if first is Ok {
        load_replays(signs, middle, "output_signs"@, shape, DataType::I32, fault);
        load_follows(signs, middle, "output_signs"@, shape, DataType::I32);
        if refused is Err {
            cut_stays(cut, middle, signs.load(middle, "output_signs"@, shape, DataType::I32).0, fault);
        }
    }
}

/// What comes before the matrix of an incoherently stored map, with a fault, is what
/// comes without one, up to the refusal.
proof fn prelude_replays(
    context: ContextView,
    input_dim: usize,
    output_dim: usize,
    data_type: DataType,
    tree: TreeView,
    fault: Fault,
)
    requires
        context.fault is None,
    ensures
        replays(
            rht_prelude(context, input_dim, output_dim, data_type, tree),
            rht_prelude(context.with(fault), input_dim, output_dim, data_type, tree),
            fault,
        ),
{
    let signs = tree.child("weights"@).child("incoherence_signs"@);
    let (loaded, factors) = signs_outcome(context, signs, input_dim, output_dim);
    let (cut, refused) = signs_outcome(context.with(fault), signs, input_dim, output_dim);
    signs_replay(context, signs, input_dim, output_dim, fault);
    if factors is Ok {
        let request = Request::CreateKernel(input_transform(data_type));
        a_request_replays(loaded, request, fault);
        a_request_follows(loaded, request);
        if refused is Err {
            cut_stays(cut, loaded, loaded.record(request), fault);
        }
    }
}

/// Making an incoherently stored map with a fault is making it without one, up to the
/// refusal.
pub proof fn rht_replays(
    context: ContextView,
    input_dim: usize,
    output_dim: usize,
    data_type: DataType,
    tree: TreeView,
    fault: Fault,
)
    requires
        context.fault is None,
    ensures
        replays(
            rht_outcome(context, input_dim, output_dim, data_type, tree),
            rht_outcome(context.with(fault), input_dim, output_dim, data_type, tree),
            fault,
        ),
{
    let (middle, prelude) = rht_prelude(context, input_dim, output_dim, data_type, tree);
    let (cut, refused) = rht_prelude(context.with(fault), input_dim, output_dim, data_type, tree);
    prelude_replays(context, input_dim, output_dim, data_type, tree, fault);
    if let Ok((factors, _, quantized)) = prelude {
        fused_replays(
            middle,
            quantized,
            Some(tree),
            factors.1,
            input_dim,
            output_dim,
            data_type,
            fault,
        );
        fused_follows(middle, quantized, Some(tree), factors.1, input_dim, output_dim, data_type);
        if refused is Err {
            let (after, _) = rht_outcome(context, input_dim, output_dim, data_type, tree);
            cut_stays(cut, middle, after, fault);
        }
    }
}

/// Making a linear map with a fault is making it without one, up to the refusal.
pub proof fn linear_replays(
    context: ContextView,
    input_dim: usize,
    output_dim: usize,
    data_type: DataType,
    tree: TreeView,
    fault: Fault,
)
    requires
        context.fault is None,
    ensures
        replays(
            linear_outcome(context, input_dim, output_dim, data_type, tree),
            linear_outcome(context.with(fault), input_dim, output_dim, data_type, tree),
            fault,
        ),
{
    let weights = tree.child("weights"@);
    if let Ok(spec) = weights.metadata("spec"@) {
        match linear_kind(spec) {
            LinearKind::FullPrecision => {
                full_precision_replays(context, input_dim, output_dim, data_type, tree, fault);
            },
            LinearKind::Quantized(quantization) => {
                quantized_replays(
                    context,
                    QuantizedLinearPlan {
                        bits: quantization.bits,
                        group_size: quantization.group_size,
                        quantization_method: quantization.method,
                        input_dim,
                        output_dim,
                        data_type,
                        weights_tree: weights,
                        bias_tree: Some(tree),
                        output_hadamard_factors: None,
                    },
                    fault,
                );
            },
            LinearKind::RHT => {
                rht_replays(context, input_dim, output_dim, data_type, tree, fault);
            },
            LinearKind::Adapted { parts, incoherent } => {
                if let Some((quantization, rank)) = parts {
                    adapter_replays(
                        context,
                        AdapterPlan {
                            lora_rank: rank,
                            input_dim,
                            output_dim,
                            data_type,
                            adapter_tree: weights.child("adapter"@),
                            bias_tree: Some(tree),
                            incoherence_signs_tree: if incoherent {
                                Some(weights.child("incoherence_signs"@))
                            } else {
                                None
                            },
                        },
                        QuantizedLinearPlan {
                            bits: quantization.bits,
                            group_size: quantization.group_size,
                            quantization_method: quantization.method,
                            input_dim,
                            output_dim,
                            data_type,
                            weights_tree: weights.child("quantized"@),
                            bias_tree: None,
                            output_hadamard_factors: None,
                        },
                        fault,
                    );
                }
            },
            LinearKind::Unsupported => {},
        }
    }
}

/// Making a linear map whose input transform is left to the caller, with a fault, is
/// making it without one, up to the refusal.
pub proof fn extracting_replays(
    context: ContextView,
    input_dim: usize,
    output_dim: usize,
    data_type: DataType,
    tree: TreeView,
    fault: Fault,
)
    requires
        context.fault is None,
    ensures
        replays(
            extracting_outcome(context, input_dim, output_dim, data_type, tree),
            extracting_outcome(context.with(fault), input_dim, output_dim, data_type, tree),
            fault,
        ),
{
    linear_replays(context, input_dim, output_dim, data_type, tree, fault);
    let signs = tree.child("weights"@).child("incoherence_signs"@);
    let quantized = tree.child("weights"@).child("quantized"@);
    let (middle, loaded) = signs_outcome(context, signs, input_dim, output_dim);
    let (cut, refused) = signs_outcome(context.with(fault), signs, input_dim, output_dim);
    signs_replay(context, signs, input_dim, output_dim, fault);
    if let Ok((_, factors)) = loaded {
        fused_replays(middle, quantized, Some(tree), factors, input_dim, output_dim, data_type, fault);
        fused_follows(middle, quantized, Some(tree), factors, input_dim, output_dim, data_type);
        if refused is Err {
            let (after, _) = fused_outcome(
                middle,
                quantized,
                Some(tree),
                factors,
                input_dim,
                output_dim,
                data_type,
            );
            cut_stays(cut, middle, after, fault);
        }
    }
}

/// Where no described matrix is in groups of no weights, every linear map can be asked
/// for.
pub proof fn grouped_maps_are_ready(
    context: ContextView,
    input_dim: usize,
    output_dim: usize,
    data_type: DataType,
    tree: TreeView,
)
    requires
        tree.loader.grouped(),
    ensures
        linear_ready(context, input_dim, output_dim, data_type, tree),
        extracting_ready(context, input_dim, output_dim, data_type, tree),
        fused_ready(tree, data_type),
{
    reveal_with_fuel(AnyWeightMatrixSpec::grouped, 2);
    described_matrices_are_grouped(tree);
    described_matrices_are_grouped(tree.child("weights"@));
    described_matrices_are_grouped(tree.child("weights"@).child("quantized"@));
}

/// Where no described matrix is in groups of no weights, that of a tree is not.
proof fn described_matrices_are_grouped(tree: TreeView)
    requires
        tree.loader.grouped(),
    ensures
        tree.metadata("spec"@) matches Ok(spec) ==> spec.grouped(),
{
    if tree.metadata("spec"@) is Ok {
        assert(tree.loader.metadata.contains_key(tree.key("spec"@)));
    }
}

} // verus!
