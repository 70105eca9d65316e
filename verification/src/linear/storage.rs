//! When linear maps can be loaded, and which.

use vstd::prelude::*;

use crate::backend::context::{ContextView, Request, RequestView};
use crate::backend::machine::{computed, is_before, read, Memory, Value};
use crate::backend::types::{Allocation, DeviceError, KernelRequest, QuantizationMethod};
use crate::data_type::DataType;
use crate::linear::block::{
    extracting_outcome, fused_outcome, linear_outcome, linear_ready, linear_stop, total,
    LinearBlockErrorView, UnsupportedLinear,
};
use crate::linear::full_precision::{
    full_precision_outcome, full_precision_steps, FullPrecisionLinearError,
};
use crate::linear::laws::{
    fused_follows, linear_follows, quantized_follows, signs_are_loaded, signs_follow,
};
use crate::linear::meaning::{
    adapted_maps_multiply, adapted_product, before, description, incoherent_maps_multiply,
    incoherent_product, is_quantized, loaded_stays, map_in, matrix_steps_are, plain_maps_multiply,
    plain_product, quantized_by, quantized_maps_multiply, quantized_product, rounded_up, row_in,
};
use crate::linear::qlora_wrapper::{AdapterPlan, QLoRALinearWrapperError};
use crate::linear::quantized::{
    has_biases, QuantizedLinear, QuantizedLinearError, QuantizedLinearErrorView, QuantizedLinearPlan,
};
use crate::linear::rht_wrapper::{
    rht_outcome, rht_prelude, signs_outcome, RHTLinearWrapperErrorView,
};
use crate::linear::Linear;
use crate::parameters::loader::{
    what_stands_below_is_found, LoaderErrorView, ParameterLoaderError, TreeView,
};
use crate::parameters::manifest::{
    is_made_by, outcome, steps_follow, steps_make_what_they_want, LoadFailureView, StepView,
};
use crate::parameters::stored::{
    below, ends_in_refusal, full_name, holds_tensor, is_first_missing, is_stored, is_there,
    lists_begin_behind, lists_name_refusals, lists_take_what_is_stored, names_are_full, steps_fill,
    trees_give_out_what_stands_under_full_names, what_is_wrong,
};
use crate::weight_matrix::{AnyWeightMatrixSpec, HybridSpec, IncoherenceProcessingMode, Layout};

verus! {

/// Whether matrices of numbers of a type can be multiplied.
pub open spec fn can_be_multiplied(data_type: DataType) -> bool {
    data_type == DataType::F16 || data_type == DataType::BF16 || data_type == DataType::F32
}

/// Whether the row of biases in a tree, where there is one, has a number for each output.
pub open spec fn row_fits(tree: Option<TreeView>, output_dim: usize, data_type: DataType) -> bool {
    row_in(tree) is Some ==> is_stored(tree->0, "biases"@, seq![output_dim], data_type)
}

/// Whether a quantized map can be loaded.
pub open spec fn quantized_fits(plan: QuantizedLinearPlan) -> bool {
    &&& plan.bits == 4 || plan.bits == 8
    &&& can_be_multiplied(plan.data_type)
    &&& is_quantized(
        plan.weights_tree,
        plan.bits,
        plan.group_size,
        plan.quantization_method,
        plan.input_dim,
        plan.output_dim,
        plan.data_type,
    )
    &&& row_fits(plan.bias_tree, plan.output_dim, plan.data_type)
}

/// The steps for a quantized matrix can be taken exactly where it is stored.
proof fn matrix_steps_are_there(plan: QuantizedLinearPlan)
    requires
        plan.bits == 4 || plan.bits == 8,
        plan.group_size > 0,
    ensures
        (forall|i: int| 0 <= i < plan.steps().len() ==> is_there(#[trigger] plan.steps()[i])) <==> (
        is_quantized(
            plan.weights_tree,
            plan.bits,
            plan.group_size,
            plan.quantization_method,
            plan.input_dim,
            plan.output_dim,
            plan.data_type,
        ) && row_fits(plan.bias_tree, plan.output_dim, plan.data_type)),
{
    let steps = plan.steps();
    matrix_steps_are(
        plan.weights_tree,
        plan.bits,
        plan.group_size,
        plan.quantization_method,
        plan.input_dim,
        plan.output_dim,
        plan.data_type,
    );
    if let Some(tree) = plan.bias_tree {
        names_are_full(tree, "biases"@);
    }
    assert(steps[0] is Tensor && steps[1] is Tensor && steps[2] is Tensor);
    assert(is_there(steps[0]) && is_there(steps[1]) && is_there(steps[2]) <==> is_quantized(
        plan.weights_tree,
        plan.bits,
        plan.group_size,
        plan.quantization_method,
        plan.input_dim,
        plan.output_dim,
        plan.data_type,
    ));
    if has_biases(plan.bias_tree) {
        assert(steps.len() == 6);
        assert(steps[3] is Kernel && steps[5] is Kernel);
        assert(is_there(steps[4]) <==> row_fits(plan.bias_tree, plan.output_dim, plan.data_type));
    } else {
        assert(steps.len() == 4);
        assert(steps[3] is Kernel);
    }
}

/// Where nothing is refused, a quantized map is loaded exactly where its matrix, and its
/// row of biases if it has one, are stored as they should be. Nothing is asked for where
/// there is no kernel for its bits or its numbers, and the error says so.
pub proof fn quantized_maps_load_what_is_stored(context: ContextView, plan: QuantizedLinearPlan)
    requires
        plan.group_size > 0,
    ensures
        ({
            let (after, made) = plan.outcome(context);
            &&& context.fault is None ==> (made is Ok <==> quantized_fits(plan))
            &&& plan.bits != 4 && plan.bits != 8 ==> after == context && made is Err && made->Err_0 == (
            QuantizedLinearError::<Seq<char>, Seq<usize>>::UnsupportedConfiguration {
                quantization_method: plan.quantization_method,
                bits: plan.bits,
                group_size: plan.group_size,
            })
            &&& (plan.bits == 4 || plan.bits == 8) && !can_be_multiplied(plan.data_type) ==> after == context
                && made is Err && made->Err_0 == QuantizedLinearError::<
                Seq<char>,
                Seq<usize>,
            >::UnsupportedDataType(plan.data_type)
        }),
{
    if context.fault is None && (plan.bits == 4 || plan.bits == 8) {
        matrix_steps_are_there(plan);
        lists_take_what_is_stored(context, plan.steps());
    }
}

/// Where nothing is refused, a map of plain numbers is loaded exactly where its matrix,
/// and its row of biases if it has one, are stored as they should be. Nothing is asked
/// for where there is no kernel for its numbers, and the error says so.
pub proof fn plain_maps_load_what_is_stored(
    context: ContextView,
    input_dim: usize,
    output_dim: usize,
    data_type: DataType,
    tree: TreeView,
)
    ensures
        ({
            let (after, made) = full_precision_outcome(context, input_dim, output_dim, data_type, tree);
            &&& context.fault is None ==> (made is Ok <==> plain_fits(tree, input_dim, output_dim, data_type))
            &&& !can_be_multiplied(data_type) ==> after == context && made is Err && made->Err_0
                == FullPrecisionLinearError::<Seq<char>, Seq<usize>>::UnsupportedDataType(data_type)
        }),
{
    let steps = full_precision_steps(tree, input_dim, output_dim, data_type);
    let weights = below(tree, "weights"@);
    names_are_full(tree, "weights"@);
    names_are_full(tree, "biases"@);
    names_are_full(weights, "weights"@);
    if is_stored(weights, "weights"@, seq![output_dim, input_dim], data_type) {
        what_stands_below_is_found(tree, "weights"@, "weights"@);
    }
    assert(is_there(steps[0]) <==> is_stored(weights, "weights"@, seq![output_dim, input_dim], data_type));
    if row_in(Some(tree)) is Some {
        assert(steps.len() == 3);
        assert(is_there(steps[1]) <==> is_stored(tree, "biases"@, seq![output_dim], data_type));
        assert(steps[2] is Kernel);
    } else {
        assert(steps.len() == 2);
        assert(steps[1] is Kernel);
    }
    if context.fault is None {
        lists_take_what_is_stored(context, steps);
    }
}

/// Whether a map of plain numbers can be loaded.
pub open spec fn plain_fits(tree: TreeView, input_dim: usize, output_dim: usize, data_type: DataType) -> bool {
    &&& can_be_multiplied(data_type)
    &&& is_stored(below(tree, "weights"@), "weights"@, seq![output_dim, input_dim], data_type)
    &&& row_fits(Some(tree), output_dim, data_type)
}

/// Whether what an adapted map has besides its quantized map can be loaded.
pub open spec fn adapter_fits(plan: AdapterPlan) -> bool {
    let (tree, data_type) = (plan.adapter_tree, plan.data_type);
    &&& is_stored(tree, "down_projection"@, seq![plan.lora_rank, plan.input_dim], data_type)
    &&& is_stored(tree, "up_projection"@, seq![plan.output_dim, plan.lora_rank], data_type)
    &&& row_fits(plan.bias_tree, plan.output_dim, data_type)
    &&& plan.incoherence_signs_tree matches Some(signs) ==> {
        &&& is_stored(signs, "input_signs"@, seq![plan.input_dim], DataType::I32)
        &&& is_stored(signs, "output_signs"@, seq![plan.output_dim], DataType::I32)
    }
}

/// Where nothing is refused, an adapted map is loaded exactly where its quantized matrix,
/// its two thin ones, its signs and its row of biases are stored as they should be.
pub proof fn adapted_maps_load_what_is_stored(
    context: ContextView,
    plan: AdapterPlan,
    base: QuantizedLinearPlan,
)
    requires
        base.group_size > 0,
        context.fault is None,
    ensures
        plan.outcome(context, base).1 is Ok <==> quantized_fits(base) && adapter_fits(plan),
{
    quantized_maps_load_what_is_stored(context, base);
    let (middle, made) = base.outcome(context);
    if made is Ok {
        let steps = plan.steps();
        steps_follow(context, base.steps());
        assert(middle.fault is None);
        lists_take_what_is_stored(middle, steps);
        if let Some(tree) = plan.bias_tree {
            names_are_full(tree, "biases"@);
        }
        let first: int = if plan.incoherence_signs_tree is Some {
            4
        } else {
            0
        };
        if plan.incoherence_signs_tree is Some {
            let signs = plan.incoherence_signs_tree->0;
            assert(is_there(steps[0]) <==> is_stored(
                signs,
                "input_signs"@,
                seq![plan.input_dim],
                DataType::I32,
            ));
            assert(is_there(steps[1]) <==> is_stored(
                signs,
                "output_signs"@,
                seq![plan.output_dim],
                DataType::I32,
            ));
            assert(steps[2] is Kernel && steps[3] is Kernel);
        }
        assert(steps[first] is Kernel);
        assert(is_there(steps[first + 1]) <==> is_stored(
            plan.adapter_tree,
            "down_projection"@,
            seq![plan.lora_rank, plan.input_dim],
            plan.data_type,
        ));
        assert(is_there(steps[first + 2]) <==> is_stored(
            plan.adapter_tree,
            "up_projection"@,
            seq![plan.output_dim, plan.lora_rank],
            plan.data_type,
        ));
        if has_biases(plan.bias_tree) {
            assert(steps.len() == first + 5);
            assert(steps[first + 3] is Kernel);
            assert(is_there(steps[first + 4]) <==> row_fits(plan.bias_tree, plan.output_dim, plan.data_type));
        } else {
            assert(steps.len() == first + 3);
        }
    }
}

/// Whether both sides of a hybrid matrix are transformed, in blocks of the one size that
/// there are kernels for.
pub open spec fn both_sides(hybrid: HybridSpec) -> bool {
    &&& hybrid.incoherence_block_size == Some(32usize)
    &&& hybrid.incoherence_processing_mode == IncoherenceProcessingMode::InputOutput
}

/// The adapter of a hybrid matrix in a tree.
pub open spec fn adapter_in(
    tree: TreeView,
    hybrid: HybridSpec,
    rank: usize,
    input_dim: usize,
    output_dim: usize,
    data_type: DataType,
) -> AdapterPlan {
    let weights = below(tree, "weights"@);
    AdapterPlan {
        lora_rank: rank,
        input_dim,
        output_dim,
        data_type,
        adapter_tree: below(weights, "adapter"@),
        bias_tree: Some(tree),
        incoherence_signs_tree: if hybrid.incoherence_block_size is Some {
            Some(below(weights, "incoherence_signs"@))
        } else {
            None
        },
    }
}

/// Whether no matrix that a description leads to is in groups of no weights.
pub open spec fn in_groups(tree: TreeView) -> bool {
    let weights = below(tree, "weights"@);
    let quantized = below(weights, "quantized"@);
    &&& description(weights) matches Some(spec) ==> {
        &&& quantized_by(spec) matches Some((_, group_size, _)) ==> group_size > 0
        &&& spec matches AnyWeightMatrixSpec::HybridSpec(hybrid) ==> (quantized_by(
            *hybrid.quantization_spec,
        ) matches Some((_, group_size, _)) ==> group_size > 0)
    }
    &&& description(quantized) matches Some(spec) ==> (quantized_by(spec) matches Some((_, group_size, _))
        ==> group_size > 0)
}

/// Whether the map that a tree describes can be loaded.
pub open spec fn fits(tree: TreeView, input_dim: usize, output_dim: usize, data_type: DataType) -> bool {
    let weights = below(tree, "weights"@);
    let quantized = below(weights, "quantized"@);
    let signs = below(weights, "incoherence_signs"@);
    match description(weights) {
        None => false,
        Some(AnyWeightMatrixSpec::FullPrecisionSpec(full)) => {
            full.layout == Layout::OutputInput && plain_fits(tree, input_dim, output_dim, data_type)
        },
        Some(AnyWeightMatrixSpec::LowRankSpec(_)) => false,
        Some(AnyWeightMatrixSpec::HybridSpec(hybrid)) => match hybrid.adapter_spec {
            None => {
                &&& both_sides(hybrid)
                &&& is_stored(signs, "input_signs"@, seq![input_dim], DataType::I32)
                &&& is_stored(signs, "output_signs"@, seq![output_dim], DataType::I32)
                &&& description(quantized) is Some
                &&& quantized_by(description(quantized)->0) is Some
                &&& quantized_fits(
                    map_in(
                        quantized,
                        Some(tree),
                        quantized_by(description(quantized)->0)->0,
                        input_dim,
                        output_dim,
                        data_type,
                        None,
                    ),
                )
            },
            Some(adapter) => match *adapter {
                AnyWeightMatrixSpec::LowRankSpec(low_rank) => {
                    &&& hybrid.incoherence_block_size is None || both_sides(hybrid)
                    &&& quantized_by(*hybrid.quantization_spec) is Some
                    &&& quantized_fits(
                        map_in(
                            quantized,
                            None,
                            quantized_by(*hybrid.quantization_spec)->0,
                            input_dim,
                            output_dim,
                            data_type,
                            None,
                        ),
                    )
                    &&& adapter_fits(
                        adapter_in(tree, hybrid, low_rank.rank, input_dim, output_dim, data_type),
                    )
                },
                _ => false,
            },
        },
        Some(spec) => {
            &&& quantized_by(spec) is Some
            &&& quantized_fits(
                map_in(
                    weights,
                    Some(tree),
                    quantized_by(spec)->0,
                    input_dim,
                    output_dim,
                    data_type,
                    None,
                ),
            )
        },
    }
}

/// What applying the map that a tree describes comes to.
pub open spec fn described_product(
    tree: TreeView,
    factor: Value,
    input_dim: usize,
    output_dim: usize,
    data_type: DataType,
    batch_dim: usize,
) -> Value {
    let weights = below(tree, "weights"@);
    let quantized = below(weights, "quantized"@);
    match description(weights) {
        None => Value::Unknown,
        Some(AnyWeightMatrixSpec::FullPrecisionSpec(_)) => plain_product(
            tree,
            factor,
            input_dim,
            output_dim,
            data_type,
            batch_dim,
        ),
        Some(AnyWeightMatrixSpec::LowRankSpec(_)) => Value::Unknown,
        Some(AnyWeightMatrixSpec::HybridSpec(hybrid)) => match hybrid.adapter_spec {
            None => incoherent_product(
                tree,
                quantized_by(description(quantized)->0)->0,
                factor,
                input_dim,
                output_dim,
                data_type,
                batch_dim,
            ),
            Some(adapter) => adapted_product(
                adapter_in(
                    tree,
                    hybrid,
                    adapter->LowRankSpec_0.rank,
                    input_dim,
                    output_dim,
                    data_type,
                ),
                map_in(
                    quantized,
                    None,
                    quantized_by(*hybrid.quantization_spec)->0,
                    input_dim,
                    output_dim,
                    data_type,
                    None,
                ),
                factor,
                batch_dim,
            ),
        },
        Some(spec) => quantized_product(
            map_in(weights, Some(tree), quantized_by(spec)->0, input_dim, output_dim, data_type, None),
            factor,
            batch_dim,
            None,
        ),
    }
}

/// The rank of the adapter that a tree describes, where there is one.
pub open spec fn described_rank(tree: TreeView) -> usize {
    match description(below(tree, "weights"@)) {
        Some(AnyWeightMatrixSpec::HybridSpec(hybrid)) => match hybrid.adapter_spec {
            Some(adapter) => match *adapter {
                AnyWeightMatrixSpec::LowRankSpec(low_rank) => low_rank.rank,
                _ => 0,
            },
            None => 0,
        },
        _ => 0,
    }
}

/// The map of any kind that was loaded from a tree computes what the tree describes.
pub proof fn maps_compute_what_is_described(
    context: ContextView,
    input_dim: usize,
    output_dim: usize,
    data_type: DataType,
    tree: TreeView,
    later: ContextView,
    memory: Memory,
    input: Allocation,
    batch_dim: usize,
    start: int,
)
    requires
        in_groups(tree),
        linear_outcome(context, input_dim, output_dim, data_type, tree).1 is Ok,
        linear_outcome(context, input_dim, output_dim, data_type, tree).0.requests.is_prefix_of(
            later.requests,
        ),
        later.requests.len() <= usize::MAX,
        is_before(memory, input, start),
        0 <= start,
        start + 10 <= usize::MAX,
        input_dim <= u32::MAX,
        output_dim <= u32::MAX,
        described_rank(tree) <= u32::MAX,
        batch_dim <= u32::MAX,
        batch_dim * output_dim <= u32::MAX,
    ensures
        ({
            let linear = linear_outcome(context, input_dim, output_dim, data_type, tree).1->Ok_0;
            computed(
                later.requests,
                memory,
                linear.plan(input, batch_dim, start),
                start,
                linear.output(start),
            ) == described_product(tree, memory[input], input_dim, output_dim, data_type, batch_dim)
        }),
{
    let weights = below(tree, "weights"@);
    let quantized = below(weights, "quantized"@);
    names_are_full(tree, "weights"@);
    names_are_full(weights, "spec"@);
    names_are_full(weights, "quantized"@);
    names_are_full(weights, "adapter"@);
    names_are_full(weights, "incoherence_signs"@);
    names_are_full(quantized, "spec"@);
    match description(weights)->0 {
        AnyWeightMatrixSpec::FullPrecisionSpec(_) => {
            plain_maps_multiply(
                context,
                input_dim,
                output_dim,
                data_type,
                tree,
                later,
                memory,
                input,
                batch_dim,
                start,
            );
        },
        AnyWeightMatrixSpec::HybridSpec(hybrid) => match hybrid.adapter_spec {
            None => {
                incoherent_maps_multiply(
                    context,
                    input_dim,
                    output_dim,
                    data_type,
                    tree,
                    later,
                    memory,
                    input,
                    batch_dim,
                    start,
                );
            },
            Some(adapter) => {
                adapted_maps_multiply(
                    context,
                    adapter_in(
                        tree,
                        hybrid,
                        adapter->LowRankSpec_0.rank,
                        input_dim,
                        output_dim,
                        data_type,
                    ),
                    map_in(
                        quantized,
                        None,
                        quantized_by(*hybrid.quantization_spec)->0,
                        input_dim,
                        output_dim,
                        data_type,
                        None,
                    ),
                    later,
                    memory,
                    input,
                    batch_dim,
                    start,
                );
            },
        },
        spec => {
            quantized_maps_multiply(
                context,
                map_in(
                    weights,
                    Some(tree),
                    quantized_by(spec)->0,
                    input_dim,
                    output_dim,
                    data_type,
                    None,
                ),
                later,
                memory,
                input,
                batch_dim,
                start,
            );
        },
    }
}

/// Where nothing is refused, the map of any kind that a tree describes is loaded exactly
/// where everything that it is made of is stored as it should be.
pub proof fn maps_load_what_is_described(
    context: ContextView,
    input_dim: usize,
    output_dim: usize,
    data_type: DataType,
    tree: TreeView,
)
    requires
        in_groups(tree),
        context.fault is None,
    ensures
        linear_outcome(context, input_dim, output_dim, data_type, tree).1 is Ok <==> fits(
            tree,
            input_dim,
            output_dim,
            data_type,
        ),
{
    let weights = below(tree, "weights"@);
    let quantized = below(weights, "quantized"@);
    let adapter_tree = below(weights, "adapter"@);
    let signs = below(weights, "incoherence_signs"@);
    names_are_full(tree, "weights"@);
    names_are_full(weights, "spec"@);
    names_are_full(weights, "weights"@);
    names_are_full(weights, "quantized"@);
    names_are_full(weights, "adapter"@);
    names_are_full(weights, "incoherence_signs"@);
    names_are_full(quantized, "spec"@);
    names_are_full(quantized, "weights"@);
    names_are_full(adapter_tree, "down_projection"@);
    names_are_full(signs, "input_signs"@);
    what_stands_below_is_found(tree, "weights"@, "weights"@);
    what_stands_below_is_found(tree, "weights"@, "quantized"@);
    what_stands_below_is_found(weights, "quantized"@, "weights"@);
    what_stands_below_is_found(weights, "adapter"@, "down_projection"@);
    what_stands_below_is_found(weights, "incoherence_signs"@, "input_signs"@);
    match description(weights) {
        Some(AnyWeightMatrixSpec::FullPrecisionSpec(_)) => {
            plain_maps_load_what_is_stored(context, input_dim, output_dim, data_type, tree);
        },
        Some(AnyWeightMatrixSpec::HybridSpec(hybrid)) => match hybrid.adapter_spec {
            None => {
                incoherent_maps_load_what_is_stored(context, input_dim, output_dim, data_type, tree);
            },
            Some(adapter) => {
                if let AnyWeightMatrixSpec::LowRankSpec(low_rank) = *adapter {
                    if let Some(by) = quantized_by(*hybrid.quantization_spec) {
                        adapted_maps_load_what_is_stored(
                            context,
                            adapter_in(tree, hybrid, low_rank.rank, input_dim, output_dim, data_type),
                            map_in(quantized, None, by, input_dim, output_dim, data_type, None),
                        );
                    }
                }
            },
        },
        Some(spec) => {
            if let Some(by) = quantized_by(spec) {
                quantized_maps_load_what_is_stored(
                    context,
                    map_in(weights, Some(tree), by, input_dim, output_dim, data_type, None),
                );
            }
        },
        None => {},
    }
}

/// Where nothing is refused, an incoherently stored map is loaded exactly where the signs
/// of both sides and the quantized matrix are stored as they should be.
proof fn incoherent_maps_load_what_is_stored(
    context: ContextView,
    input_dim: usize,
    output_dim: usize,
    data_type: DataType,
    tree: TreeView,
)
    requires
        in_groups(tree),
        context.fault is None,
        description(below(tree, "weights"@)) is Some,
        description(below(tree, "weights"@))->0 is HybridSpec,
        description(below(tree, "weights"@))->0->HybridSpec_0.adapter_spec is None,
    ensures
        rht_outcome(context, input_dim, output_dim, data_type, tree).1 is Ok <==> fits(
            tree,
            input_dim,
            output_dim,
            data_type,
        ),
{
    let weights = below(tree, "weights"@);
    let quantized = below(weights, "quantized"@);
    let signs = below(weights, "incoherence_signs"@);
    names_are_full(tree, "weights"@);
    names_are_full(weights, "spec"@);
    names_are_full(weights, "quantized"@);
    names_are_full(weights, "incoherence_signs"@);
    names_are_full(quantized, "spec"@);
    names_are_full(quantized, "weights"@);
    names_are_full(signs, "input_signs"@);
    names_are_full(signs, "output_signs"@);
    what_stands_below_is_found(tree, "weights"@, "quantized"@);
    what_stands_below_is_found(weights, "quantized"@, "weights"@);
    what_stands_below_is_found(weights, "incoherence_signs"@, "input_signs"@);
    let (middle, prelude) = rht_prelude(context, input_dim, output_dim, data_type, tree);
    if let Ok((factors, _, _)) = prelude {
        if let Some(spec) = description(quantized) {
            if let Some(by) = quantized_by(spec) {
                quantized_maps_load_what_is_stored(
                    middle,
                    map_in(
                        quantized,
                        Some(tree),
                        by,
                        input_dim,
                        output_dim,
                        data_type,
                        Some(factors.1),
                    ),
                );
            }
        }
    }
}

/// Whether a map whose kernel transforms its output can be loaded.
pub open spec fn fused_fits(
    weights_tree: TreeView,
    bias_tree: Option<TreeView>,
    input_dim: usize,
    output_dim: usize,
    data_type: DataType,
) -> bool {
    &&& description(weights_tree) is Some
    &&& quantized_by(description(weights_tree)->0) is Some
    &&& quantized_fits(
        map_in(
            weights_tree,
            bias_tree,
            quantized_by(description(weights_tree)->0)->0,
            input_dim,
            output_dim,
            data_type,
            None,
        ),
    )
}

/// Where nothing is refused, a map whose kernel transforms its output is loaded exactly
/// where its quantized matrix and its row of biases are stored as they should be.
pub proof fn fused_maps_load_what_is_stored(
    context: ContextView,
    weights_tree: TreeView,
    bias_tree: Option<TreeView>,
    factors: Allocation,
    input_dim: usize,
    output_dim: usize,
    data_type: DataType,
)
    requires
        context.fault is None,
        description(weights_tree) matches Some(spec) ==> (quantized_by(spec) matches Some((_, size, _))
            ==> size > 0),
    ensures
        fused_outcome(context, weights_tree, bias_tree, factors, input_dim, output_dim, data_type).1 is Ok
            <==> fused_fits(weights_tree, bias_tree, input_dim, output_dim, data_type),
{
    names_are_full(weights_tree, "spec"@);
    if let Some(spec) = description(weights_tree) {
        if let Some(by) = quantized_by(spec) {
            quantized_maps_load_what_is_stored(
                context,
                map_in(weights_tree, bias_tree, by, input_dim, output_dim, data_type, Some(factors)),
            );
        }
    }
}

/// A map whose kernel transforms its output multiplies the rows of what it is given by
/// the quantized matrix that is stored, transforms the product with the signs that it was
/// given, and adds the row of biases where one is stored.
pub proof fn fused_maps_multiply(
    context: ContextView,
    weights_tree: TreeView,
    bias_tree: Option<TreeView>,
    factors: Allocation,
    input_dim: usize,
    output_dim: usize,
    data_type: DataType,
    later: ContextView,
    memory: Memory,
    input: Allocation,
    batch_dim: usize,
    start: int,
)
    requires
        description(weights_tree) matches Some(spec) ==> (quantized_by(spec) matches Some((_, size, _))
            ==> size > 0),
        factors is Resident,
        fused_outcome(context, weights_tree, bias_tree, factors, input_dim, output_dim, data_type).1 is Ok,
        fused_outcome(
            context,
            weights_tree,
            bias_tree,
            factors,
            input_dim,
            output_dim,
            data_type,
        ).0.requests.is_prefix_of(later.requests),
        later.requests.len() <= usize::MAX,
        is_before(memory, input, start),
        0 <= start,
        start + 3 <= usize::MAX,
        output_dim <= u32::MAX,
        batch_dim * output_dim <= u32::MAX,
    ensures
        ({
            let linear = fused_outcome(
                context,
                weights_tree,
                bias_tree,
                factors,
                input_dim,
                output_dim,
                data_type,
            ).1->Ok_0;
            computed(
                later.requests,
                memory,
                linear.plan(input, batch_dim, start),
                start,
                linear.output(start),
            ) == quantized_product(
                map_in(
                    weights_tree,
                    bias_tree,
                    quantized_by(description(weights_tree)->0)->0,
                    input_dim,
                    output_dim,
                    data_type,
                    None,
                ),
                memory[input],
                batch_dim,
                Some(read(later.requests, memory, factors)),
            )
        }),
{
    names_are_full(weights_tree, "spec"@);
    quantized_maps_multiply(
        context,
        map_in(
            weights_tree,
            bias_tree,
            quantized_by(description(weights_tree)->0)->0,
            input_dim,
            output_dim,
            data_type,
            Some(factors),
        ),
        later,
        memory,
        input,
        batch_dim,
        start,
    );
}

/// Whether a tree describes a map that transforms its input and leaves the adapter out.
pub open spec fn transforms_input(tree: TreeView) -> bool {
    description(below(tree, "weights"@)) matches Some(AnyWeightMatrixSpec::HybridSpec(hybrid))
        && hybrid.adapter_spec is None && both_sides(hybrid)
}

/// Where nothing is refused, leaving the transform of the input to the caller changes
/// nothing about when a map is loaded.
pub proof fn extracted_maps_load_what_is_described(
    context: ContextView,
    input_dim: usize,
    output_dim: usize,
    data_type: DataType,
    tree: TreeView,
)
    requires
        in_groups(tree),
        context.fault is None,
    ensures
        extracting_outcome(context, input_dim, output_dim, data_type, tree).1 is Ok <==> fits(
            tree,
            input_dim,
            output_dim,
            data_type,
        ),
{
    let weights = below(tree, "weights"@);
    let quantized = below(weights, "quantized"@);
    let signs = below(weights, "incoherence_signs"@);
    maps_load_what_is_described(context, input_dim, output_dim, data_type, tree);
    names_are_full(tree, "weights"@);
    names_are_full(weights, "spec"@);
    names_are_full(weights, "quantized"@);
    names_are_full(weights, "incoherence_signs"@);
    names_are_full(quantized, "weights"@);
    names_are_full(signs, "input_signs"@);
    names_are_full(signs, "output_signs"@);
    what_stands_below_is_found(tree, "weights"@, "quantized"@);
    what_stands_below_is_found(weights, "quantized"@, "weights"@);
    what_stands_below_is_found(weights, "incoherence_signs"@, "input_signs"@);
    if transforms_input(tree) {
        let (middle, loaded) = signs_outcome(context, signs, input_dim, output_dim);
        if let Ok((_, factors)) = loaded {
            fused_maps_load_what_is_stored(
                middle,
                quantized,
                Some(tree),
                factors,
                input_dim,
                output_dim,
                data_type,
            );
        }
    }
}

/// A map whose input transform is left to the caller computes what the tree describes,
/// once the caller has transformed the rows with the signs that come with the map. No
/// signs come with a map that does not transform its input.
pub proof fn extracted_maps_compute_the_rest(
    context: ContextView,
    input_dim: usize,
    output_dim: usize,
    data_type: DataType,
    tree: TreeView,
    later: ContextView,
    memory: Memory,
    input: Allocation,
    factor: Value,
    batch_dim: usize,
    start: int,
)
    requires
        in_groups(tree),
        extracting_outcome(context, input_dim, output_dim, data_type, tree).1 is Ok,
        extracting_outcome(context, input_dim, output_dim, data_type, tree).0.requests.is_prefix_of(
            later.requests,
        ),
        later.requests.len() <= usize::MAX,
        is_before(memory, input, start),
        extracting_outcome(
            context,
            input_dim,
            output_dim,
            data_type,
            tree,
        ).1->Ok_0 matches (_, signs) && memory[input] == before(
            factor,
            match signs {
                Some(signs) => Some(read(later.requests, memory, signs)),
                None => None,
            },
            batch_dim as int,
            input_dim as int,
            data_type,
        ),
        0 <= start,
        start + 10 <= usize::MAX,
        input_dim <= u32::MAX,
        output_dim <= u32::MAX,
        described_rank(tree) <= u32::MAX,
        batch_dim <= u32::MAX,
        batch_dim * output_dim <= u32::MAX,
    ensures
        ({
            let (linear, signs) = extracting_outcome(
                context,
                input_dim,
                output_dim,
                data_type,
                tree,
            ).1->Ok_0;
            &&& signs is Some <==> transforms_input(tree)
            &&& computed(
                later.requests,
                memory,
                linear.plan(input, batch_dim, start),
                start,
                linear.output(start),
            ) == described_product(tree, factor, input_dim, output_dim, data_type, batch_dim)
        }),
{
    let weights = below(tree, "weights"@);
    let quantized = below(weights, "quantized"@);
    let signs_tree = below(weights, "incoherence_signs"@);
    names_are_full(tree, "weights"@);
    names_are_full(weights, "spec"@);
    names_are_full(weights, "quantized"@);
    names_are_full(weights, "incoherence_signs"@);
    names_are_full(quantized, "spec"@);
    let (after, made) = extracting_outcome(context, input_dim, output_dim, data_type, tree);
    let (linear, signs) = made->Ok_0;
    if transforms_input(tree) {
        let (middle, loaded) = signs_outcome(context, signs_tree, input_dim, output_dim);
        let (input_factors, output_factors) = loaded->Ok_0;
        fused_follows(
            middle,
            quantized,
            Some(tree),
            output_factors,
            input_dim,
            output_dim,
            data_type,
        );
        assert(middle.requests.len() <= after.requests.len());
        signs_hold(context, signs_tree, input_dim, output_dim, after);
        loaded_stays(after.requests, later.requests);
        fused_maps_multiply(
            middle,
            quantized,
            Some(tree),
            output_factors,
            input_dim,
            output_dim,
            data_type,
            later,
            memory,
            input,
            batch_dim,
            start,
        );
        assert(!memory.contains_key(input_factors));
        assert(!memory.contains_key(output_factors));
    } else {
        maps_compute_what_is_described(
            context,
            input_dim,
            output_dim,
            data_type,
            tree,
            later,
            memory,
            input,
            batch_dim,
            start,
        );
    }
}

/// The signs that were loaded are those that are stored.
proof fn signs_hold(
    context: ContextView,
    signs: TreeView,
    input_dim: usize,
    output_dim: usize,
    later: ContextView,
)
    requires
        signs_outcome(context, signs, input_dim, output_dim).1 is Ok,
        signs_outcome(context, signs, input_dim, output_dim).0.requests.is_prefix_of(later.requests),
        later.requests.len() <= usize::MAX,
    ensures
        ({
            let (input_factors, output_factors) = signs_outcome(
                context,
                signs,
                input_dim,
                output_dim,
            ).1->Ok_0;
            &&& holds_tensor(
                later.requests,
                input_factors,
                signs,
                "input_signs"@,
                seq![input_dim],
                DataType::I32,
            )
            &&& holds_tensor(
                later.requests,
                output_factors,
                signs,
                "output_signs"@,
                seq![output_dim],
                DataType::I32,
            )
        }),
{
    let (after, loaded) = signs_outcome(context, signs, input_dim, output_dim);
    let (input_factors, output_factors) = loaded->Ok_0;
    assert(after.requests.len() <= later.requests.len());
    signs_are_loaded(context, signs, input_dim, output_dim);
    steps_fill(
        after,
        signs,
        "input_signs"@,
        seq![input_dim],
        DataType::I32,
        input_factors->Resident_0,
    );
    steps_fill(
        after,
        signs,
        "output_signs"@,
        seq![output_dim],
        DataType::I32,
        output_factors->Resident_0,
    );
    loaded_stays(after.requests, later.requests);
}

/// The width of several outputs is the sum of their widths.
pub proof fn widths_add_up(first: Seq<usize>, second: Seq<usize>, one: usize)
    ensures
        total(Seq::empty()) == 0,
        total(seq![one]) == one,
        total(first + second) == total(first) + total(second),
    decreases second.len(),
{
    reveal_with_fuel(total, 2);
    assert(seq![one].drop_last() =~= Seq::empty());
    if second.len() == 0 {
        assert(first + second =~= first);
    } else {
        widths_add_up(first, second.drop_last(), one);
        assert((first + second).drop_last() =~= first + second.drop_last());
    }
}

/// A map in groups can be asked for.
pub proof fn maps_in_groups_are_ready(
    context: ContextView,
    input_dim: usize,
    output_dim: usize,
    data_type: DataType,
    tree: TreeView,
)
    requires
        in_groups(tree),
    ensures
        linear_ready(context, input_dim, output_dim, data_type, tree),
{
    let weights = below(tree, "weights"@);
    let quantized = below(weights, "quantized"@);
    names_are_full(tree, "weights"@);
    names_are_full(weights, "spec"@);
    names_are_full(weights, "quantized"@);
    names_are_full(quantized, "spec"@);
}

/// What a tensor that was asked for is refused with.
pub open spec fn tensor_refusal(request: RequestView, error: DeviceError) -> LoaderErrorView {
    match request {
        Request::CreateAllocation { .. } => ParameterLoaderError::BackendError(error),
        _ => ParameterLoaderError::ArrayLoadingError(error),
    }
}

/// What a quantized map is refused with, by what was asked for.
pub open spec fn quantized_refusal(request: RequestView, error: DeviceError) -> QuantizedLinearErrorView {
    match request {
        Request::CreateKernel(KernelRequest::QuantizedMatmul(_)) => {
            QuantizedLinearError::QuantizedMatmulError(error)
        },
        Request::CreateKernel(_) => QuantizedLinearError::BackendError(error),
        _ => QuantizedLinearError::ParameterError(tensor_refusal(request, error)),
    }
}

/// The error of a quantized map tells which of its requests was refused, and why.
pub proof fn quantized_maps_name_refusals(context: ContextView, plan: QuantizedLinearPlan)
    ensures
        ({
            let (after, made) = plan.outcome(context);
            ends_in_refusal(context, after) ==> made == Err::<QuantizedLinear, QuantizedLinearErrorView>(
                quantized_refusal(after.requests.last(), context.fault->0.error),
            )
        }),
{
    lists_name_refusals(context, plan.steps());
}

/// The error of a map of plain numbers tells which of its requests was refused, and why.
pub proof fn plain_maps_name_refusals(
    context: ContextView,
    input_dim: usize,
    output_dim: usize,
    data_type: DataType,
    tree: TreeView,
)
    ensures
        ({
            let (after, made) = full_precision_outcome(context, input_dim, output_dim, data_type, tree);
            let error = context.fault->0.error;
            ends_in_refusal(context, after) ==> made is Err && made->Err_0 == match after.requests.last() {
                Request::CreateKernel(_) => FullPrecisionLinearError::<Seq<char>, Seq<usize>>::MatmulError(
                    error,
                ),
                request => FullPrecisionLinearError::ParameterError(tensor_refusal(request, error)),
            }
        }),
{
    lists_name_refusals(context, full_precision_steps(tree, input_dim, output_dim, data_type));
}

/// The error of an adapted map tells which of its requests was refused, and why. What its
/// quantized map was refused comes first, and is passed on.
pub proof fn adapted_maps_name_refusals(
    context: ContextView,
    plan: AdapterPlan,
    base: QuantizedLinearPlan,
)
    ensures
        ({
            let (after, made) = plan.outcome(context, base);
            let request = after.requests.last();
            let error = context.fault->0.error;
            ends_in_refusal(context, after) ==> made is Err && made->Err_0 == if context.fault->0.at
                < base.outcome(context).0.requests.len() {
                QLoRALinearWrapperError::<Seq<char>, Seq<usize>>::QuantizedLinearError(
                    quantized_refusal(request, error),
                )
            } else {
                match request {
                    Request::CreateKernel(KernelRequest::Matmul { .. }) => {
                        QLoRALinearWrapperError::MatmulError(error)
                    },
                    Request::CreateKernel(_) => QLoRALinearWrapperError::BackendError(error),
                    _ => QLoRALinearWrapperError::ParameterLoaderError(tensor_refusal(request, error)),
                }
            }
        }),
{
    let (middle, quantized) = base.outcome(context);
    let (after, _) = plan.outcome(context, base);
    quantized_maps_name_refusals(context, base);
    quantized_follows(context, base);
    if quantized is Ok {
        lists_name_refusals(middle, plan.steps());
        steps_follow(middle, plan.steps());
    }
}

/// A map that was loaded can be applied to as many rows as its product has room for.
pub proof fn loaded_maps_can_be_encoded(
    context: ContextView,
    input_dim: usize,
    output_dim: usize,
    data_type: DataType,
    tree: TreeView,
    batch_dim: usize,
)
    requires
        linear_outcome(context, input_dim, output_dim, data_type, tree).1 is Ok,
        batch_dim * output_dim <= usize::MAX,
    ensures
        linear_outcome(context, input_dim, output_dim, data_type, tree).1->Ok_0.encodable(batch_dim),
{
}

/// Whether a matrix as a whole is stored in a way for which there is no map.
pub open spec fn is_unknown(spec: AnyWeightMatrixSpec) -> bool {
    match spec {
        AnyWeightMatrixSpec::FullPrecisionSpec(full) => full.layout != Layout::OutputInput,
        AnyWeightMatrixSpec::LowRankSpec(_) => true,
        AnyWeightMatrixSpec::HybridSpec(hybrid) => match hybrid.adapter_spec {
            None => !both_sides(hybrid),
            Some(_) => hybrid.incoherence_block_size is Some && !both_sides(hybrid),
        },
        _ => quantized_by(spec) is None,
    }
}

/// Nothing is asked for where the matrix is missing, not described, or stored in a way
/// for which there is no map. The error says which, and of what matrix.
pub proof fn unknown_maps_are_named(
    context: ContextView,
    input_dim: usize,
    output_dim: usize,
    data_type: DataType,
    tree: TreeView,
)
    ensures
        ({
            let weights = below(tree, "weights"@);
            let (after, made) = linear_outcome(context, input_dim, output_dim, data_type, tree);
            let error = made->Err_0;
            if !stands_below(tree, "weights"@) {
                &&& after == context && made is Err
                &&& error == LinearBlockErrorView::ParameterError(
                    ParameterLoaderError::SubtreeNotFound("weights"@),
                )
            } else if description(weights) is None {
                &&& after == context && made is Err
                &&& error == LinearBlockErrorView::ParameterError(missing_description(weights))
            } else if is_unknown(description(weights)->0) {
                &&& after == context && made is Err
                &&& error == LinearBlockErrorView::UnsupportedConfiguration(
                    UnsupportedLinear::Spec(description(weights)->0),
                )
            } else {
                made is Err && error is UnsupportedConfiguration ==> {
                    &&& after == context
                    &&& description(weights)->0 is HybridSpec
                    &&& description(weights)->0->HybridSpec_0.adapter_spec is Some
                    &&& error == LinearBlockErrorView::UnsupportedConfiguration(
                        UnsupportedLinear::Hybrid {
                            quantization: *description(weights)->0->HybridSpec_0.quantization_spec,
                            adapter: *description(weights)->0->HybridSpec_0.adapter_spec->0,
                        },
                    )
                }
            }
        }),
{
    let weights = below(tree, "weights"@);
    trees_give_out_what_stands_under_full_names(tree, "weights"@);
    trees_give_out_what_stands_under_full_names(weights, "spec"@);
    names_are_full(tree, "weights"@);
}

/// Whether some tensor's name begins with that of a tree below.
pub open spec fn stands_below(tree: TreeView, name: Seq<char>) -> bool {
    exists|key: Seq<char>| #[trigger]
        tree.loader.index.contains_key(key) && full_name(tree, name).is_prefix_of(key)
}

/// Why there is no description in a tree: that there is none, or that it is not understood.
pub open spec fn missing_description(tree: TreeView) -> LoaderErrorView {
    let key = full_name(tree, "spec"@);
    if tree.loader.metadata.contains_key(key) {
        ParameterLoaderError::MetadataDeserializationError(tree.loader.metadata[key]->Err_0)
    } else {
        ParameterLoaderError::KeyNotFound(key)
    }
}

/// The parts of a quantized map are loaded in this order: the weights, the scales, what
/// else is stored for a group, the kernel that adds biases and the biases, and the kernel
/// that multiplies.
pub proof fn quantized_maps_are_loaded_in_order(context: ContextView, plan: QuantizedLinearPlan)
    requires
        plan.outcome(context).1 is Ok,
        plan.outcome(context).0.requests.len() <= usize::MAX,
    ensures
        ({
            let linear = plan.outcome(context).1->Ok_0;
            let (weights, scales) = (linear.weights->Resident_0, linear.scales->Resident_0);
            let offsets = linear.zero_points_or_biases->Resident_0;
            let kernel = linear.kernel.request;
            &&& context.requests.len() <= weights < scales < offsets < kernel
            &&& linear.biases matches Some(biases) ==> offsets < linear.bias_add_kernel->0.request
                < biases->Resident_0 < kernel
        }),
{
    lists_begin_behind(context, plan.steps());
    steps_make_what_they_want(context, plan.steps());
}

/// The parts of an adapted map are loaded in this order: the quantized map, the signs and
/// then the kernels of the transforms, the kernel that multiplies by the thin matrices,
/// the one for going down and the one for going up, the kernel that adds biases, and the
/// biases.
pub proof fn adapted_maps_are_loaded_in_order(
    context: ContextView,
    plan: AdapterPlan,
    base: QuantizedLinearPlan,
)
    requires
        plan.outcome(context, base).1 is Ok,
        plan.outcome(context, base).0.requests.len() <= usize::MAX,
    ensures
        ({
            let linear = plan.outcome(context, base).1->Ok_0;
            let (down, up) = (linear.adapter_down->Resident_0, linear.adapter_up->Resident_0);
            let kernel = linear.adapter_kernel.request;
            &&& linear.base_linear.kernel.request < kernel < down < up
            &&& linear.input_hadamard matches Some(input) ==> {
                let output = linear.output_hadamard->0;
                linear.base_linear.kernel.request < input.factors->Resident_0 < output.factors->Resident_0
                    < input.kernel.request < output.kernel.request < kernel
            }
            &&& linear.biases matches Some(biases) ==> up < linear.bias_add_kernel->0.request
                < biases->Resident_0
        }),
{
    let (middle, _) = base.outcome(context);
    let (after, _) = plan.outcome(context, base);
    steps_follow(middle, plan.steps());
    assert(middle.requests.len() <= after.requests.len());
    lists_begin_behind(middle, plan.steps());
    steps_make_what_they_want(middle, plan.steps());
    steps_make_what_they_want(context, base.steps());
    let made = outcome(context, base.steps()).1->Ok_0;
    assert(is_made_by(middle, base.steps().last(), made[made.len() - 1]));
}

/// Where nothing is refused, a quantized map for which there are kernels fails with the
/// first of its tensors that is not stored as it should be.
pub proof fn quantized_maps_name_what_is_missing(context: ContextView, plan: QuantizedLinearPlan)
    requires
        context.fault is None,
        plan.group_size > 0,
        plan.bits == 4 || plan.bits == 8,
        can_be_multiplied(plan.data_type),
        plan.outcome(context).1 is Err,
    ensures
        ({
            let tree = plan.weights_tree;
            let (rows, columns) = (plan.output_dim, plan.input_dim);
            let groups = rounded_up(columns as int, plan.group_size as int);
            let weights = StepView::Tensor {
                tree,
                name: "weights"@,
                shape: seq![rows, (columns * plan.bits / 8) as usize],
                data_type: DataType::U8,
            };
            let scales = StepView::Tensor {
                tree,
                name: "scales"@,
                shape: seq![rows, groups as usize],
                data_type: plan.data_type,
            };
            let offsets = match plan.quantization_method {
                QuantizationMethod::ScaleBias => StepView::Tensor {
                    tree,
                    name: "biases"@,
                    shape: seq![rows, groups as usize],
                    data_type: plan.data_type,
                },
                QuantizationMethod::ScaleZeroPoint => StepView::Tensor {
                    tree,
                    name: "zero_points"@,
                    shape: seq![rows, rounded_up(groups * plan.bits, 8) as usize],
                    data_type: DataType::U8,
                },
            };
            let row = StepView::Tensor {
                tree: plan.bias_tree->0,
                name: "biases"@,
                shape: seq![rows],
                data_type: plan.data_type,
            };
            plan.outcome(context).1->Err_0 == QuantizedLinearErrorView::ParameterError(
                what_is_wrong(
                    if !is_there(weights) {
                        weights
                    } else if !is_there(scales) {
                        scales
                    } else if !is_there(offsets) {
                        offsets
                    } else {
                        row
                    },
                ),
            )
        }),
{
    let steps = plan.steps();
    matrix_steps_are(
        plan.weights_tree,
        plan.bits,
        plan.group_size,
        plan.quantization_method,
        plan.input_dim,
        plan.output_dim,
        plan.data_type,
    );
    lists_take_what_is_stored(context, steps);
    let (_, taken) = outcome(context, steps);
    let i = choose|i: int| #[trigger]
        is_first_missing(steps, i) && taken->Err_0 == LoadFailureView::Parameter(what_is_wrong(steps[i]));
    if has_biases(plan.bias_tree) {
        assert(steps[3] is Kernel && steps[5] is Kernel);
    } else {
        assert(steps[3] is Kernel);
    }
    assert(0 < i ==> is_there(steps[0]));
    assert(1 < i ==> is_there(steps[1]));
    assert(2 < i ==> is_there(steps[2]));
}

/// Nothing is asked for an adapted map where one of its trees is missing: the quantized
/// matrix is looked for first, then the adapter, then the signs, and the first that is not
/// there is named.
pub proof fn adapted_maps_name_missing_trees(
    context: ContextView,
    input_dim: usize,
    output_dim: usize,
    data_type: DataType,
    tree: TreeView,
)
    requires
        stands_below(tree, "weights"@),
        description(below(tree, "weights"@)) matches Some(AnyWeightMatrixSpec::HybridSpec(hybrid))
            && hybrid.adapter_spec is Some && (hybrid.incoherence_block_size is None || both_sides(hybrid)),
    ensures
        ({
            let weights = below(tree, "weights"@);
            let hybrid = description(weights)->0->HybridSpec_0;
            let missing = if !stands_below(weights, "quantized"@) {
                Some("quantized"@)
            } else if !stands_below(weights, "adapter"@) {
                Some("adapter"@)
            } else if hybrid.incoherence_block_size is Some && !stands_below(weights, "incoherence_signs"@) {
                Some("incoherence_signs"@)
            } else {
                None
            };
            let (after, made) = linear_outcome(context, input_dim, output_dim, data_type, tree);
            missing matches Some(name) ==> after == context && made is Err && made->Err_0
                == LinearBlockErrorView::ParameterError(ParameterLoaderError::SubtreeNotFound(name))
        }),
{
    let weights = below(tree, "weights"@);
    names_are_full(tree, "weights"@);
    trees_give_out_what_stands_under_full_names(tree, "weights"@);
    trees_give_out_what_stands_under_full_names(weights, "spec"@);
    trees_give_out_what_stands_under_full_names(weights, "quantized"@);
    trees_give_out_what_stands_under_full_names(weights, "adapter"@);
    trees_give_out_what_stands_under_full_names(weights, "incoherence_signs"@);
}

/// The signs of an incoherently stored map are looked for before its matrix, and loaded
/// before it is looked for. What is not there is named.
pub proof fn incoherent_maps_name_missing_trees(
    context: ContextView,
    input_dim: usize,
    output_dim: usize,
    data_type: DataType,
    tree: TreeView,
)
    requires
        context.fault is None,
        stands_below(tree, "weights"@),
        transforms_input(tree),
    ensures
        ({
            let weights = below(tree, "weights"@);
            let signs = below(weights, "incoherence_signs"@);
            let (after, made) = rht_outcome(context, input_dim, output_dim, data_type, tree);
            let input = StepView::Tensor {
                tree: signs,
                name: "input_signs"@,
                shape: seq![input_dim],
                data_type: DataType::I32,
            };
            let output = StepView::Tensor {
                tree: signs,
                name: "output_signs"@,
                shape: seq![output_dim],
                data_type: DataType::I32,
            };
            let wrong = if !stands_below(weights, "incoherence_signs"@) {
                Some(LoaderErrorView::SubtreeNotFound("incoherence_signs"@))
            } else if !is_there(input) {
                Some(what_is_wrong(input))
            } else if !is_there(output) {
                Some(what_is_wrong(output))
            } else if !stands_below(weights, "quantized"@) {
                Some(LoaderErrorView::SubtreeNotFound("quantized"@))
            } else {
                None
            };
            wrong matches Some(e) ==> made is Err && made->Err_0
                == RHTLinearWrapperErrorView::ParameterError(e)
        }),
{
    let weights = below(tree, "weights"@);
    let signs = below(weights, "incoherence_signs"@);
    names_are_full(tree, "weights"@);
    names_are_full(weights, "incoherence_signs"@);
    names_are_full(signs, "input_signs"@);
    names_are_full(signs, "output_signs"@);
    trees_give_out_what_stands_under_full_names(tree, "weights"@);
    trees_give_out_what_stands_under_full_names(weights, "spec"@);
    trees_give_out_what_stands_under_full_names(weights, "quantized"@);
    trees_give_out_what_stands_under_full_names(weights, "incoherence_signs"@);
}

/// A map that is ruled out by groups of no weights has asked for no more than a map that
/// is not.
pub proof fn maps_stop_on_their_way(
    context: ContextView,
    input_dim: usize,
    output_dim: usize,
    data_type: DataType,
    tree: TreeView,
)
    requires
        !linear_ready(context, input_dim, output_dim, data_type, tree),
    ensures
        ({
            let stop = linear_stop(context, input_dim, output_dim, data_type, tree);
            let (after, _) = linear_outcome(context, input_dim, output_dim, data_type, tree);
            &&& context.requests.is_prefix_of(stop.requests)
            &&& stop.requests.is_prefix_of(after.requests)
            &&& stop.fault == context.fault
            &&& !transforms_input(tree) ==> stop == context
        }),
{
    let weights = below(tree, "weights"@);
    names_are_full(tree, "weights"@);
    names_are_full(weights, "spec"@);
    names_are_full(weights, "incoherence_signs"@);
    names_are_full(weights, "quantized"@);
    assert(context.requests.take(context.requests.len() as int) =~= context.requests);
    linear_follows(context, input_dim, output_dim, data_type, tree);
    if transforms_input(tree) {
        let quantized = below(weights, "quantized"@);
        let (middle, prelude) = rht_prelude(context, input_dim, output_dim, data_type, tree);
        let ((_, factors), _, _) = prelude->Ok_0;
        fused_follows(middle, quantized, Some(tree), factors, input_dim, output_dim, data_type);
        signs_follow(context, below(weights, "incoherence_signs"@), input_dim, output_dim);
        let (signed, _) = signs_outcome(
            context,
            below(weights, "incoherence_signs"@),
            input_dim,
            output_dim,
        );
        assert(middle.requests.take(signed.requests.len() as int) =~= signed.requests);
        assert(signed.requests.take(context.requests.len() as int) =~= context.requests);
        assert(middle.requests.take(context.requests.len() as int) =~= context.requests);
    }
}

/// The parts of a map of plain numbers are loaded in this order: the matrix, the biases,
/// the kernel. Where nothing is refused, it fails with the first of its tensors that is
/// not stored as it should be.
pub proof fn plain_maps_are_loaded_in_order(
    context: ContextView,
    input_dim: usize,
    output_dim: usize,
    data_type: DataType,
    tree: TreeView,
)
    requires
        can_be_multiplied(data_type),
        stands_below(tree, "weights"@),
        full_precision_outcome(context, input_dim, output_dim, data_type, tree).0.requests.len()
            <= usize::MAX,
    ensures
        ({
            let (after, made) = full_precision_outcome(context, input_dim, output_dim, data_type, tree);
            let weights = StepView::Tensor {
                tree: below(tree, "weights"@),
                name: "weights"@,
                shape: seq![output_dim, input_dim],
                data_type,
            };
            let row = StepView::Tensor { tree, name: "biases"@, shape: seq![output_dim], data_type };
            &&& made matches Ok(linear) ==> {
                &&& context.requests.len() <= linear.weights->Resident_0 < linear.kernel.request
                &&& linear.bias matches Some(bias) ==> linear.weights->Resident_0 < bias->Resident_0
                    < linear.kernel.request
            }
            &&& context.fault is None && made is Err ==> made->Err_0 == FullPrecisionLinearError::<
                Seq<char>,
                Seq<usize>,
            >::ParameterError(
                what_is_wrong(
                    if is_there(weights) {
                        row
                    } else {
                        weights
                    },
                ),
            )
        }),
{
    let steps = full_precision_steps(tree, input_dim, output_dim, data_type);
    trees_give_out_what_stands_under_full_names(tree, "weights"@);
    names_are_full(tree, "weights"@);
    names_are_full(tree, "biases"@);
    let (_, taken) = outcome(context, steps);
    if taken is Ok {
        lists_begin_behind(context, steps);
        steps_make_what_they_want(context, steps);
    } else if context.fault is None {
        lists_take_what_is_stored(context, steps);
        let i = choose|i: int| #[trigger]
            is_first_missing(steps, i) && taken->Err_0 == LoadFailureView::Parameter(what_is_wrong(steps[i]));
        assert(0 < i ==> is_there(steps[0]));
        if row_in(Some(tree)) is Some {
            assert(steps.len() == 3 && steps[2] is Kernel);
        } else {
            assert(steps.len() == 2 && steps[1] is Kernel);
        }
    }
}

} // verus!
