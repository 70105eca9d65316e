//! What linear maps compute.

use vstd::prelude::*;

use crate::backend::context::{ContextView, RequestView};
use crate::backend::encoder::Command;
use crate::backend::machine::{
    behind, computed, is_before, kernel_of, loaded, read, run, target, with_row, written_value,
    Matrix, Memory, Value,
};
use crate::backend::types::{
    ceiling, Allocation, HadamardTransformOrder, Kernel, KernelRequest, QuantizationMethod, QuantizationMode,
    QuantizedMatmulConfiguration,
};
use crate::data_type::DataType;
use crate::linear::full_precision::{full_precision_outcome, full_precision_steps};
use crate::linear::block::fused_outcome;
use crate::linear::laws::{
    adapted_maps_are_loaded, incoherent_maps_are_loaded, plain_maps_are_loaded, quantized_maps_are_loaded,
};
use crate::linear::qlora_wrapper::{AdapterPlan, QLoRALinearWrapper};
use crate::linear::quantized::{
    has_biases, quantized_matrix_steps, QuantizedLinear, QuantizedLinearErrorView, QuantizedLinearPlan,
};
use crate::linear::rht_wrapper::{rht_outcome, rht_prelude, rht_ready};
use crate::linear::Linear;
use crate::parameters::loader::TreeView;
use crate::parameters::manifest::{steps_follow, StepView};
use crate::parameters::stored::{
    below, contents, full_name, holds_tensor, is_stored, names_are_full, steps_fill,
};
use crate::weight_matrix::{AnyWeightMatrixSpec, Layout};

verus! {

/// The quotient of two numbers, rounded up.
pub open spec fn rounded_up(n: int, d: int) -> int {
    if n % d == 0 {
        n / d
    } else {
        n / d + 1
    }
}

/// The name of what a quantized matrix holds for each group besides a scale.
pub open spec fn offsets_name(method: QuantizationMethod) -> Seq<char> {
    match method {
        QuantizationMethod::ScaleBias => "biases"@,
        QuantizationMethod::ScaleZeroPoint => "zero_points"@,
    }
}

/// A quantized matrix as it is stored in a tree.
pub open spec fn quantized_matrix_in(
    tree: TreeView,
    bits: u32,
    group_size: usize,
    method: QuantizationMethod,
) -> Matrix {
    Matrix::Quantized {
        integers: contents(tree, "weights"@),
        scales: contents(tree, "scales"@),
        offsets: contents(tree, offsets_name(method)),
        bits: bits as int,
        group_size: group_size as int,
        method,
    }
}

/// Whether a tree holds a quantized matrix: the weights, packed into bytes, a scale for
/// each group, and a bias of the same type or a zero point, packed as the weights are.
pub open spec fn is_quantized(
    tree: TreeView,
    bits: u32,
    group_size: usize,
    method: QuantizationMethod,
    input_dim: usize,
    output_dim: usize,
    data_type: DataType,
) -> bool {
    let groups = rounded_up(input_dim as int, group_size as int);
    &&& is_stored(tree, "weights"@, seq![output_dim, (input_dim * bits / 8) as usize], DataType::U8)
    &&& is_stored(tree, "scales"@, seq![output_dim, groups as usize], data_type)
    &&& match method {
        QuantizationMethod::ScaleBias => {
            is_stored(tree, "biases"@, seq![output_dim, groups as usize], data_type)
        },
        QuantizationMethod::ScaleZeroPoint => is_stored(
            tree,
            "zero_points"@,
            seq![output_dim, rounded_up(groups * bits, 8) as usize],
            DataType::U8,
        ),
    }
}

/// The row of biases in a tree, where there is one.
pub open spec fn row_in(tree: Option<TreeView>) -> Option<Value> {
    match tree {
        Some(tree) => if tree.loader.index.contains_key(full_name(tree, "biases"@)) {
            Some(contents(tree, "biases"@))
        } else {
            None
        },
        None => None,
    }
}

/// Rounding up is rounding down a little more.
pub(crate) proof fn ceiling_is_rounded_up(n: int, d: int)
    requires
        n >= 0,
        d > 0,
    ensures
        ceiling(n, d) == rounded_up(n, d),
{
    let (q, r) = (n / d, n % d);
    vstd::arithmetic::div_mod::lemma_fundamental_div_mod(n, d);
    if r == 0 {
        assert(n + d - 1 == q * d + (d - 1)) by (nonlinear_arith)
            requires
                n == d * q + r,
                r == 0,
        ;
        vstd::arithmetic::div_mod::lemma_fundamental_div_mod_converse(n + d - 1, d, q, d - 1);
    } else {
        assert(n + d - 1 == (q + 1) * d + (r - 1)) by (nonlinear_arith)
            requires
                n == d * q + r,
        ;
        vstd::arithmetic::div_mod::lemma_fundamental_div_mod_converse(n + d - 1, d, q + 1, r - 1);
    }
}

/// Rounding a quotient up makes no number larger.
pub(crate) proof fn rounded_up_fits(n: int, d: int)
    requires
        n >= 0,
        d > 0,
    ensures
        0 <= rounded_up(n, d) <= n,
{
    vstd::arithmetic::div_mod::lemma_fundamental_div_mod(n, d);
    let (q, r) = (n / d, n % d);
    assert(q >= 0 && q <= n && (r > 0 ==> q < n)) by (nonlinear_arith)
        requires
            n == d * q + r,
            0 <= r < d,
            n >= 0,
            d > 0,
    ;
}

/// The steps for a quantized matrix are for tensors of these names, shapes and types.
pub(crate) proof fn matrix_steps_are(
    tree: TreeView,
    bits: u32,
    group_size: usize,
    method: QuantizationMethod,
    input_dim: usize,
    output_dim: usize,
    data_type: DataType,
)
    requires
        group_size > 0,
        bits == 4 || bits == 8,
    ensures
        ({
            let mode = if bits == 4 { QuantizationMode::U4 } else { QuantizationMode::U8 };
            let steps = quantized_matrix_steps(
                tree,
                mode,
                group_size,
                method,
                input_dim,
                output_dim,
                data_type,
            );
            let groups = rounded_up(input_dim as int, group_size as int);
            &&& steps.len() == 3
            &&& steps[0] == StepView::Tensor {
                tree,
                name: "weights"@,
                shape: seq![output_dim, (input_dim * bits / 8) as usize],
                data_type: DataType::U8,
            }
            &&& steps[1] == StepView::Tensor {
                tree,
                name: "scales"@,
                shape: seq![output_dim, groups as usize],
                data_type,
            }
            &&& steps[2] == match method {
                QuantizationMethod::ScaleBias => StepView::Tensor {
                    tree,
                    name: "biases"@,
                    shape: seq![output_dim, groups as usize],
                    data_type,
                },
                QuantizationMethod::ScaleZeroPoint => StepView::Tensor {
                    tree,
                    name: "zero_points"@,
                    shape: seq![output_dim, rounded_up(groups * bits, 8) as usize],
                    data_type: DataType::U8,
                },
            }
        }),
{
    let groups = rounded_up(input_dim as int, group_size as int);
    ceiling_is_rounded_up(input_dim as int, group_size as int);
    rounded_up_fits(input_dim as int, group_size as int);
    ceiling_is_rounded_up(groups, 2);
    ceiling_is_rounded_up(groups, 1);
    assert(bits == 4 ==> input_dim * bits / 8 == input_dim as int / 2);
    assert(bits == 8 ==> input_dim * bits / 8 == input_dim);
    assert(bits == 4 ==> rounded_up(groups * bits, 8) == rounded_up(groups, 2));
    assert(bits == 8 ==> rounded_up(groups * bits, 8) == groups);
    assert(rounded_up(groups, 1) == groups);
}

/// What the parts of a quantized map are: the matrix as it is stored, the row of biases,
/// and a kernel that is made for that matrix.
pub open spec fn quantized_map_is(
    requests: Seq<RequestView>,
    linear: QuantizedLinear,
    plan: QuantizedLinearPlan,
) -> bool {
    &&& plan.bits == 4 || plan.bits == 8
    &&& plan.data_type == DataType::F16 || plan.data_type == DataType::BF16 || plan.data_type == DataType::F32
    &&& is_quantized(
        plan.weights_tree,
        plan.bits,
        plan.group_size,
        plan.quantization_method,
        plan.input_dim,
        plan.output_dim,
        plan.data_type,
    )
    &&& linear.weights matches Allocation::Resident(n) && loaded(requests, n) == contents(
        plan.weights_tree,
        "weights"@,
    )
    &&& linear.scales matches Allocation::Resident(n) && loaded(requests, n) == contents(
        plan.weights_tree,
        "scales"@,
    )
    &&& linear.zero_points_or_biases matches Allocation::Resident(n) && loaded(requests, n) == contents(
        plan.weights_tree,
        offsets_name(plan.quantization_method),
    )
    &&& kernel_of(requests, linear.kernel) == Some(
        KernelRequest::QuantizedMatmul(
            QuantizedMatmulConfiguration {
                data_type: plan.data_type,
                group_size: plan.group_size,
                input_dim: plan.input_dim,
                output_dim: plan.output_dim,
                mode: if plan.bits == 4 { QuantizationMode::U4 } else { QuantizationMode::U8 },
                quantization_method: plan.quantization_method,
                use_hadamard: plan.output_hadamard_factors is Some,
            },
        ),
    )
    &&& linear.output_hadamard_factors == plan.output_hadamard_factors
    &&& linear.output_dim == plan.output_dim
    &&& linear.output_data_type == plan.data_type
    &&& row_is(requests, linear.bias_add_kernel, linear.biases, plan.bias_tree, plan.output_dim, plan.data_type)
}

/// What the parts of a row of biases are: none without such a row.
pub open spec fn row_is(
    requests: Seq<RequestView>,
    kernel: Option<Kernel>,
    biases: Option<Allocation>,
    tree: Option<TreeView>,
    output_dim: usize,
    data_type: DataType,
) -> bool {
    match row_in(tree) {
        Some(row) => {
            &&& is_stored(tree->0, "biases"@, seq![output_dim], data_type)
            &&& kernel is Some && kernel_of(requests, kernel->0) == Some(
                KernelRequest::TensorAddBias { data_type, in_place: true },
            )
            &&& biases is Some && biases->0 is Resident && loaded(requests, biases->0->Resident_0) == row
        },
        None => kernel is None && biases is None,
    }
}

/// The parts of a quantized map that was loaded are what its arguments ask for.
proof fn loaded_quantized_map(context: ContextView, plan: QuantizedLinearPlan)
    requires
        plan.group_size > 0,
        plan.outcome(context).1 is Ok,
        plan.outcome(context).0.requests.len() <= usize::MAX,
    ensures
        quantized_map_is(plan.outcome(context).0.requests, plan.outcome(context).1->Ok_0, plan),
{
    let (after, made) = plan.outcome(context);
    let linear = made->Ok_0;
    let tree = plan.weights_tree;
    let steps = plan.steps();
    quantized_maps_are_loaded(context, plan);
    matrix_steps_are(
        tree,
        plan.bits,
        plan.group_size,
        plan.quantization_method,
        plan.input_dim,
        plan.output_dim,
        plan.data_type,
    );
    names_are_full(tree, "biases"@);
    steps_fill(
        after,
        tree,
        "weights"@,
        steps[0]->Tensor_shape,
        steps[0]->Tensor_data_type,
        linear.weights->Resident_0,
    );
    steps_fill(
        after,
        tree,
        "scales"@,
        steps[1]->Tensor_shape,
        steps[1]->Tensor_data_type,
        linear.scales->Resident_0,
    );
    steps_fill(
        after,
        tree,
        offsets_name(plan.quantization_method),
        steps[2]->Tensor_shape,
        steps[2]->Tensor_data_type,
        linear.zero_points_or_biases->Resident_0,
    );
    if let Some(tree) = plan.bias_tree {
        names_are_full(tree, "biases"@);
        if has_biases(plan.bias_tree) {
            steps_fill(
                after,
                tree,
                "biases"@,
                seq![plan.output_dim],
                plan.data_type,
                linear.biases->0->Resident_0,
            );
        }
    }
}

/// What applying a quantized map comes to.
pub open spec fn quantized_product(
    plan: QuantizedLinearPlan,
    factor: Value,
    batch_dim: usize,
    signs: Option<Value>,
) -> Value {
    let (rows, columns) = (batch_dim as int, plan.output_dim as int);
    let product = Value::Product {
        factor: Box::new(factor),
        matrix: Box::new(
            quantized_matrix_in(plan.weights_tree, plan.bits, plan.group_size, plan.quantization_method),
        ),
        rows,
        columns,
        inner: plan.input_dim as int,
        data_type: plan.data_type,
    };
    with_row(
        behind(product, signs, rows, columns, plan.data_type),
        row_in(plan.bias_tree),
        columns,
        rows * columns,
        plan.data_type,
    )
}

/// A quantized map with the right parts multiplies by its matrix.
proof fn quantized_map_multiplies(
    requests: Seq<RequestView>,
    linear: QuantizedLinear,
    plan: QuantizedLinearPlan,
    memory: Memory,
    input: Allocation,
    batch_dim: usize,
    start: int,
)
    requires
        quantized_map_is(requests, linear, plan),
        plan.output_hadamard_factors matches Some(factors) ==> factors is Resident,
        is_before(memory, input, start),
        0 <= start,
        start + 3 <= usize::MAX,
        plan.output_dim <= u32::MAX,
        batch_dim * plan.output_dim <= u32::MAX,
    ensures
        computed(
            requests,
            memory,
            linear.plan(input, batch_dim, start),
            start,
            linear.output(start),
        ) == quantized_product(
            plan,
            memory[input],
            batch_dim,
            match plan.output_hadamard_factors {
                Some(factors) => Some(read(requests, memory, factors)),
                None => None,
            },
        ),
{
    reveal_with_fuel(run, 4);
    let commands = linear.plan(input, batch_dim, start);
    let m0 = run(requests, memory, commands, start, 1);
    let m1 = run(requests, memory, commands, start, 2);
    let output = Allocation::Scratch(start as usize);
    assert(commands[0] == Command::AllocateScratch {
        rows: batch_dim,
        columns: plan.output_dim,
        data_type: plan.data_type,
    });
    assert(m0 == memory.insert(
        output,
        Value::Fresh {
            rows: batch_dim as int,
            columns: plan.output_dim as int,
            data_type: plan.data_type,
        },
    ));
    assert(input != output);
    assert(read(requests, m0, input) == memory[input]);
    assert(!m0.contains_key(linear.weights));
    assert(!m0.contains_key(linear.scales));
    assert(!m0.contains_key(linear.zero_points_or_biases));
    if let Some(factors) = plan.output_hadamard_factors {
        assert(!m0.contains_key(factors));
    }
    assert(commands[1] is QuantizedMatmul);
    if let Some(row) = row_in(plan.bias_tree) {
        assert(commands.len() == 3);
        assert(commands[2] is TensorAddBias);
        assert(!m1.contains_key(linear.biases->0));
    } else {
        assert(commands.len() == 2);
    }
}

/// What was read into memory, and what was created, is still there once more was asked
/// for.
pub(crate) proof fn loaded_stays(earlier: Seq<RequestView>, later: Seq<RequestView>)
    requires
        earlier.is_prefix_of(later),
    ensures
        forall|number: usize|
            !((#[trigger] loaded(earlier, number)) is Unknown) ==> loaded(later, number) == loaded(
                earlier,
                number,
            ),
        forall|kernel: Kernel|
            (#[trigger] kernel_of(earlier, kernel)) is Some ==> kernel_of(later, kernel) == kernel_of(
                earlier,
                kernel,
            ),
{
    assert forall|i: int| 0 <= i < earlier.len() implies #[trigger] later[i] == earlier[i] by {
        assert(later.take(earlier.len() as int)[i] == earlier[i]);
    }
}

/// The parts of a quantized map are still there once more was asked for.
proof fn quantized_map_stays(
    earlier: Seq<RequestView>,
    later: Seq<RequestView>,
    linear: QuantizedLinear,
    plan: QuantizedLinearPlan,
)
    requires
        quantized_map_is(earlier, linear, plan),
        earlier.is_prefix_of(later),
    ensures
        quantized_map_is(later, linear, plan),
{
    loaded_stays(earlier, later);
}

/// A quantized map that was loaded multiplies the rows of what it is given by the matrix
/// that is stored, transforms them where it was given signs for that, and adds the row
/// of biases where one is stored.
pub proof fn quantized_maps_multiply(
    context: ContextView,
    plan: QuantizedLinearPlan,
    later: ContextView,
    memory: Memory,
    input: Allocation,
    batch_dim: usize,
    start: int,
)
    requires
        plan.group_size > 0,
        plan.outcome(context).1 is Ok,
        plan.outcome(context).0.requests.is_prefix_of(later.requests),
        later.requests.len() <= usize::MAX,
        plan.output_hadamard_factors matches Some(factors) ==> factors is Resident,
        is_before(memory, input, start),
        0 <= start,
        start + 3 <= usize::MAX,
        plan.output_dim <= u32::MAX,
        batch_dim * plan.output_dim <= u32::MAX,
    ensures
        ({
            let linear = plan.outcome(context).1->Ok_0;
            let signs = match plan.output_hadamard_factors {
                Some(factors) => Some(read(later.requests, memory, factors)),
                None => None,
            };
            &&& plan.bits == 4 || plan.bits == 8
            &&& is_quantized(
                plan.weights_tree,
                plan.bits,
                plan.group_size,
                plan.quantization_method,
                plan.input_dim,
                plan.output_dim,
                plan.data_type,
            )
            &&& computed(
                later.requests,
                memory,
                linear.plan(input, batch_dim, start),
                start,
                linear.output(start),
            ) == quantized_product(plan, memory[input], batch_dim, signs)
        }),
{
    let (after, made) = plan.outcome(context);
    loaded_quantized_map(context, plan);
    quantized_map_stays(after.requests, later.requests, made->Ok_0, plan);
    quantized_map_multiplies(later.requests, made->Ok_0, plan, memory, input, batch_dim, start);
}

/// What applying a map of plain numbers comes to.
pub open spec fn plain_product(
    tree: TreeView,
    factor: Value,
    input_dim: usize,
    output_dim: usize,
    data_type: DataType,
    batch_dim: usize,
) -> Value {
    let (rows, columns) = (batch_dim as int, output_dim as int);
    let product = Value::Product {
        factor: Box::new(factor),
        matrix: Box::new(Matrix::Plain { numbers: contents(below(tree, "weights"@), "weights"@) }),
        rows,
        columns,
        inner: input_dim as int,
        data_type,
    };
    with_row(product, row_in(Some(tree)), columns, rows * columns, data_type)
}

/// A map of plain numbers that was loaded multiplies the rows of what it is given by the
/// matrix that is stored, and adds the row of biases where one is stored.
pub proof fn plain_maps_multiply(
    context: ContextView,
    input_dim: usize,
    output_dim: usize,
    data_type: DataType,
    tree: TreeView,
    later: ContextView,
    memory: Memory,
    input: Allocation,
    batch_dim: usize,
    start: int,
)
    requires
        full_precision_outcome(context, input_dim, output_dim, data_type, tree).1 is Ok,
        full_precision_outcome(context, input_dim, output_dim, data_type, tree).0.requests.is_prefix_of(
            later.requests,
        ),
        later.requests.len() <= usize::MAX,
        is_before(memory, input, start),
        0 <= start,
        start + 2 <= usize::MAX,
        input_dim <= u32::MAX,
        output_dim <= u32::MAX,
        batch_dim <= u32::MAX,
    ensures
        ({
            let linear = full_precision_outcome(context, input_dim, output_dim, data_type, tree).1->Ok_0;
            &&& is_stored(below(tree, "weights"@), "weights"@, seq![output_dim, input_dim], data_type)
            &&& row_in(Some(tree)) is Some ==> is_stored(tree, "biases"@, seq![output_dim], data_type)
            &&& computed(
                later.requests,
                memory,
                linear.plan(input, batch_dim, start),
                start,
                linear.output(start),
            ) == plain_product(tree, memory[input], input_dim, output_dim, data_type, batch_dim)
        }),
{
    let (after, made) = full_precision_outcome(context, input_dim, output_dim, data_type, tree);
    let linear = made->Ok_0;
    let requests = later.requests;
    let steps = full_precision_steps(tree, input_dim, output_dim, data_type);
    plain_maps_are_loaded(context, input_dim, output_dim, data_type, tree);
    names_are_full(tree, "weights"@);
    names_are_full(tree, "biases"@);
    steps_fill(
        after,
        below(tree, "weights"@),
        "weights"@,
        seq![output_dim, input_dim],
        data_type,
        linear.weights->Resident_0,
    );
    if let Some(bias) = linear.bias {
        steps_fill(after, tree, "biases"@, seq![output_dim], data_type, bias->Resident_0);
    }
    loaded_stays(after.requests, requests);
    reveal_with_fuel(run, 3);
    let commands = linear.plan(input, batch_dim, start);
    let m0 = run(requests, memory, commands, start, 1);
    assert(kernel_of(after.requests, linear.kernel) is Some);
    assert(!m0.contains_key(linear.weights));
    if let Some(bias) = linear.bias {
        assert(!m0.contains_key(bias));
    }
    assert(read(requests, m0, input) == memory[input]);
    assert(commands[0] is AllocateScratch);
    assert(commands[1] is Matmul);
}

/// What the parts of an adapted map are, besides its quantized map.
pub open spec fn adapter_is(
    requests: Seq<RequestView>,
    linear: QLoRALinearWrapper,
    plan: AdapterPlan,
) -> bool {
    let (tree, data_type) = (plan.adapter_tree, plan.data_type);
    &&& kernel_of(requests, linear.adapter_kernel) == Some(KernelRequest::Matmul { data_type })
    &&& holds_tensor(
        requests,
        linear.adapter_down,
        tree,
        "down_projection"@,
        seq![plan.lora_rank, plan.input_dim],
        data_type,
    )
    &&& holds_tensor(
        requests,
        linear.adapter_up,
        tree,
        "up_projection"@,
        seq![plan.output_dim, plan.lora_rank],
        data_type,
    )
    &&& row_is(requests, linear.bias_add_kernel, linear.biases, plan.bias_tree, plan.output_dim, data_type)
    &&& match plan.incoherence_signs_tree {
        Some(signs) => {
            &&& linear.input_hadamard is Some
            &&& linear.output_hadamard is Some
            &&& holds_tensor(
                requests,
                linear.input_hadamard->0.factors,
                signs,
                "input_signs"@,
                seq![plan.input_dim],
                DataType::I32,
            )
            &&& holds_tensor(
                requests,
                linear.output_hadamard->0.factors,
                signs,
                "output_signs"@,
                seq![plan.output_dim],
                DataType::I32,
            )
            &&& kernel_of(requests, linear.input_hadamard->0.kernel) == Some(
                KernelRequest::HadamardTransform { data_type, order: HadamardTransformOrder::Input },
            )
            &&& kernel_of(requests, linear.output_hadamard->0.kernel) == Some(
                KernelRequest::HadamardTransform { data_type, order: HadamardTransformOrder::Output },
            )
        },
        None => linear.input_hadamard is None && linear.output_hadamard is None,
    }
    &&& linear.input_dim == plan.input_dim
    &&& linear.output_dim == plan.output_dim
    &&& linear.lora_rank == plan.lora_rank
    &&& linear.data_type == data_type
}

/// The parts of an adapted map that was loaded are what its arguments ask for.
proof fn loaded_adapter(context: ContextView, plan: AdapterPlan, base: QuantizedLinearPlan)
    requires
        base.group_size > 0,
        plan.outcome(context, base).1 is Ok,
        plan.outcome(context, base).0.requests.len() <= usize::MAX,
    ensures
        ({
            let (after, made) = plan.outcome(context, base);
            &&& adapter_is(after.requests, made->Ok_0, plan)
            &&& quantized_map_is(after.requests, made->Ok_0.base_linear, base)
        }),
{
    let (after, made) = plan.outcome(context, base);
    let linear = made->Ok_0;
    let (middle, _) = base.outcome(context);
    steps_follow(middle, plan.steps());
    assert(middle.requests.len() <= after.requests.len());
    loaded_quantized_map(context, base);
    quantized_map_stays(middle.requests, after.requests, linear.base_linear, base);
    adapted_maps_are_loaded(context, plan, base);
    steps_fill(
        after,
        plan.adapter_tree,
        "down_projection"@,
        seq![plan.lora_rank, plan.input_dim],
        plan.data_type,
        linear.adapter_down->Resident_0,
    );
    steps_fill(
        after,
        plan.adapter_tree,
        "up_projection"@,
        seq![plan.output_dim, plan.lora_rank],
        plan.data_type,
        linear.adapter_up->Resident_0,
    );
    if let Some(signs) = plan.incoherence_signs_tree {
        steps_fill(
            after,
            signs,
            "input_signs"@,
            seq![plan.input_dim],
            DataType::I32,
            linear.input_hadamard->0.factors->Resident_0,
        );
        steps_fill(
            after,
            signs,
            "output_signs"@,
            seq![plan.output_dim],
            DataType::I32,
            linear.output_hadamard->0.factors->Resident_0,
        );
    }
    if let Some(tree) = plan.bias_tree {
        names_are_full(tree, "biases"@);
        if has_biases(plan.bias_tree) {
            steps_fill(
                after,
                tree,
                "biases"@,
                seq![plan.output_dim],
                plan.data_type,
                linear.biases->0->Resident_0,
            );
        }
    }
}

/// A matrix with its rows transformed before a product, where there are signs for that.
pub open spec fn before(
    matrix: Value,
    signs: Option<Value>,
    rows: int,
    columns: int,
    data_type: DataType,
) -> Value {
    match signs {
        Some(signs) => Value::Transformed {
            matrix: Box::new(matrix),
            signs: Box::new(signs),
            order: HadamardTransformOrder::Input,
            rows,
            columns,
            data_type,
        },
        None => matrix,
    }
}

/// The signs of one side of a matrix, where it is transformed.
pub open spec fn signs_in(tree: Option<TreeView>, name: Seq<char>) -> Option<Value> {
    match tree {
        Some(tree) => Some(contents(tree, name)),
        None => None,
    }
}

/// The product with the first of the two thin matrices.
pub open spec fn narrow_product(plan: AdapterPlan, factor: Value, batch_dim: usize) -> Value {
    Value::Product {
        factor: Box::new(factor),
        matrix: Box::new(Matrix::Plain { numbers: contents(plan.adapter_tree, "down_projection"@) }),
        rows: batch_dim as int,
        columns: plan.lora_rank as int,
        inner: plan.input_dim as int,
        data_type: plan.data_type,
    }
}

/// What the quantized matrix of an adapted map is applied to: what the map is given, or a
/// copy of it that was transformed.
pub open spec fn transformed_copy(plan: AdapterPlan, factor: Value, batch_dim: usize) -> Value {
    let (rows, columns, data_type) = (batch_dim as int, plan.input_dim as int, plan.data_type);
    match plan.incoherence_signs_tree {
        Some(signs) => before(
            Value::Copied { matrix: Box::new(factor), rows, columns, data_type },
            Some(contents(signs, "input_signs"@)),
            rows,
            columns,
            data_type,
        ),
        None => factor,
    }
}

/// What applying an adapted map comes to: to the product with the quantized matrix is
/// added the product with the two thin matrices, the second behind the first. The
/// transforms stand around the quantized matrix and the sum.
pub open spec fn adapted_product(
    plan: AdapterPlan,
    base: QuantizedLinearPlan,
    factor: Value,
    batch_dim: usize,
) -> Value {
    let rows = batch_dim as int;
    let data_type = plan.data_type;
    let up = Value::Product {
        factor: Box::new(narrow_product(plan, factor, batch_dim)),
        matrix: Box::new(Matrix::Plain { numbers: contents(plan.adapter_tree, "up_projection"@) }),
        rows,
        columns: plan.output_dim as int,
        inner: plan.lora_rank as int,
        data_type,
    };
    let transformed = transformed_copy(plan, factor, batch_dim);
    let sum = Value::Sum {
        first: Box::new(quantized_product(base, transformed, batch_dim, None)),
        second: Box::new(up),
    };
    with_row(
        behind(
            sum,
            signs_in(plan.incoherence_signs_tree, "output_signs"@),
            rows,
            plan.output_dim as int,
            data_type,
        ),
        row_in(plan.bias_tree),
        plan.output_dim as int,
        rows * plan.output_dim,
        data_type,
    )
}

/// Whether a quantized matrix and an adapter are of one map: neither the biases nor a
/// transform are left to the quantized matrix.
pub open spec fn go_together(plan: AdapterPlan, base: QuantizedLinearPlan) -> bool {
    &&& base.input_dim == plan.input_dim
    &&& base.output_dim == plan.output_dim
    &&& base.data_type == plan.data_type
    &&& base.bias_tree is None
    &&& base.output_hadamard_factors is None
}

/// An adapted map that is not transformed adds the two products.
proof fn plain_adapted_map_multiplies(
    requests: Seq<RequestView>,
    linear: QLoRALinearWrapper,
    plan: AdapterPlan,
    base: QuantizedLinearPlan,
    memory: Memory,
    input: Allocation,
    batch_dim: usize,
    start: int,
)
    requires
        adapter_is(requests, linear, plan),
        quantized_map_is(requests, linear.base_linear, base),
        go_together(plan, base),
        plan.incoherence_signs_tree is None,
        is_before(memory, input, start),
        0 <= start,
        start + 10 <= usize::MAX,
        plan.input_dim <= u32::MAX,
        plan.output_dim <= u32::MAX,
        plan.lora_rank <= u32::MAX,
        batch_dim <= u32::MAX,
        batch_dim * plan.output_dim <= u32::MAX,
    ensures
        computed(
            requests,
            memory,
            linear.plan(input, batch_dim, start),
            start,
            linear.output(start),
        ) == adapted_product(plan, base, memory[input], batch_dim),
{
    let commands = linear.plan(input, batch_dim, start);
    let (narrow, output) = (Allocation::Scratch(start as usize), Allocation::Scratch((start + 2) as usize));
    let m1 = run(requests, memory, commands, start, 1);
    let m2 = run(requests, memory, commands, start, 2);
    let m3 = run(requests, memory, commands, start, 3);
    let m4 = run(requests, memory, commands, start, 4);
    let m5 = run(requests, memory, commands, start, 5);
    reveal_with_fuel(run, 2);
    assert(commands[0] is AllocateScratch && commands[2] is AllocateScratch);
    assert(commands[1] is Matmul && commands[3] is QuantizedMatmul && commands[4] is Matmul);
    assert(m2.contains_key(narrow) && m4.contains_key(narrow) && m4[narrow] == m2[narrow]);
    assert(read(requests, m1, input) == memory[input] && read(requests, m3, input) == memory[input]);
    assert(!m1.contains_key(linear.adapter_down));
    assert(!m3.contains_key(linear.base_linear.weights));
    assert(!m3.contains_key(linear.base_linear.scales));
    assert(!m3.contains_key(linear.base_linear.zero_points_or_biases));
    assert(!m4.contains_key(linear.adapter_up));
    assert(m4.contains_key(output) && m5.contains_key(output));
    if let Some(row) = row_in(plan.bias_tree) {
        assert(commands.len() == 6);
        assert(commands[5] is TensorAddBias);
        assert(!m5.contains_key(linear.biases->0));
    } else {
        assert(commands.len() == 5);
    }
}

/// An adapted map that is transformed on both sides first goes down, and then transforms
/// a copy of its input.
proof fn transformed_adapted_map_begins(
    requests: Seq<RequestView>,
    linear: QLoRALinearWrapper,
    plan: AdapterPlan,
    base: QuantizedLinearPlan,
    memory: Memory,
    input: Allocation,
    batch_dim: usize,
    start: int,
)
    requires
        adapter_is(requests, linear, plan),
        quantized_map_is(requests, linear.base_linear, base),
        go_together(plan, base),
        plan.incoherence_signs_tree is Some,
        is_before(memory, input, start),
        0 <= start,
        start + 10 <= usize::MAX,
        plan.input_dim <= u32::MAX,
        plan.output_dim <= u32::MAX,
        plan.lora_rank <= u32::MAX,
        batch_dim <= u32::MAX,
        batch_dim * plan.output_dim <= u32::MAX,
    ensures
        ({
            let commands = linear.plan(input, batch_dim, start);
            let made = run(requests, memory, commands, start, 6);
            let narrow = Allocation::Scratch(start as usize);
            let copy = Allocation::Scratch((start + 2) as usize);
            let output = Allocation::Scratch((start + 5) as usize);
            &&& made.contains_key(narrow) && made[narrow] == narrow_product(plan, memory[input], batch_dim)
            &&& made.contains_key(copy) && made[copy] == transformed_copy(plan, memory[input], batch_dim)
            &&& made.contains_key(output) && made[output] == (Value::Fresh {
                rows: batch_dim as int,
                columns: plan.output_dim as int,
                data_type: plan.data_type,
            })
            &&& forall|number: usize| !#[trigger] made.contains_key(Allocation::Resident(number))
        }),
{
    let commands = linear.plan(input, batch_dim, start);
    let narrow = Allocation::Scratch(start as usize);
    let copy = Allocation::Scratch((start + 2) as usize);
    let m1 = run(requests, memory, commands, start, 1);
    let m2 = run(requests, memory, commands, start, 2);
    let m3 = run(requests, memory, commands, start, 3);
    let m4 = run(requests, memory, commands, start, 4);
    let m5 = run(requests, memory, commands, start, 5);
    reveal_with_fuel(run, 2);
    assert(commands[0] is AllocateScratch && commands[2] is AllocateScratch && commands[5] is AllocateScratch);
    assert(commands[1] is Matmul && commands[3] is Copy && commands[4] is HadamardTransform);
    assert(read(requests, m1, input) == memory[input]);
    assert(!m1.contains_key(linear.adapter_down));
    assert(m2.contains_key(narrow));
    assert(read(requests, m3, input) == memory[input]);
    assert(m4.contains_key(copy) && m4[copy] is Copied && *m4[copy]->Copied_matrix == memory[input]);
    assert(!m4.contains_key(linear.input_hadamard->0.factors));
}

/// An adapted map that is transformed on both sides transforms a copy of its input, and
/// the sum of the two products.
proof fn transformed_adapted_map_multiplies(
    requests: Seq<RequestView>,
    linear: QLoRALinearWrapper,
    plan: AdapterPlan,
    base: QuantizedLinearPlan,
    memory: Memory,
    input: Allocation,
    batch_dim: usize,
    start: int,
)
    requires
        adapter_is(requests, linear, plan),
        quantized_map_is(requests, linear.base_linear, base),
        go_together(plan, base),
        plan.incoherence_signs_tree is Some,
        is_before(memory, input, start),
        0 <= start,
        start + 10 <= usize::MAX,
        plan.input_dim <= u32::MAX,
        plan.output_dim <= u32::MAX,
        plan.lora_rank <= u32::MAX,
        batch_dim <= u32::MAX,
        batch_dim * plan.output_dim <= u32::MAX,
    ensures
        computed(
            requests,
            memory,
            linear.plan(input, batch_dim, start),
            start,
            linear.output(start),
        ) == adapted_product(plan, base, memory[input], batch_dim),
{
    let commands = linear.plan(input, batch_dim, start);
    let narrow = Allocation::Scratch(start as usize);
    let copy = Allocation::Scratch((start + 2) as usize);
    let output = Allocation::Scratch((start + 5) as usize);
    let m6 = run(requests, memory, commands, start, 6);
    let m7 = run(requests, memory, commands, start, 7);
    let m8 = run(requests, memory, commands, start, 8);
    let m9 = run(requests, memory, commands, start, 9);
    transformed_adapted_map_begins(requests, linear, plan, base, memory, input, batch_dim, start);
    assert(commands[6] is QuantizedMatmul && commands[7] is Matmul && commands[8] is HadamardTransform);
    assert(!m6.contains_key(linear.base_linear.weights));
    assert(!m6.contains_key(linear.base_linear.scales));
    assert(!m6.contains_key(linear.base_linear.zero_points_or_biases));
    assert(m7 == m6.insert(output, written_value(requests, m6, commands[6])));
    assert(m7.contains_key(narrow) && m7[narrow] == m6[narrow]);
    assert(!m7.contains_key(linear.adapter_up));
    assert(m8 == m7.insert(output, written_value(requests, m7, commands[7])));
    assert(!m8.contains_key(linear.output_hadamard->0.factors));
    assert(m9 == m8.insert(output, written_value(requests, m8, commands[8])));
    if let Some(row) = row_in(plan.bias_tree) {
        assert(commands.len() == 10);
        assert(commands[9] is TensorAddBias);
        assert(!m9.contains_key(linear.biases->0));
    } else {
        assert(commands.len() == 9);
    }
}

/// The parts of an adapted map are still there once more was asked for.
proof fn adapter_stays(
    earlier: Seq<RequestView>,
    later: Seq<RequestView>,
    linear: QLoRALinearWrapper,
    plan: AdapterPlan,
)
    requires
        adapter_is(earlier, linear, plan),
        earlier.is_prefix_of(later),
    ensures
        adapter_is(later, linear, plan),
{
    loaded_stays(earlier, later);
}

/// An adapted map that was loaded multiplies the rows of what it is given by the
/// quantized matrix that is stored, and by the two thin ones, the one for going up
/// behind the one for going down, and adds the two products. Where signs are stored, the
/// rows are transformed before the quantized matrix and behind the sum. The row of
/// biases comes last.
pub proof fn adapted_maps_multiply(
    context: ContextView,
    plan: AdapterPlan,
    base: QuantizedLinearPlan,
    later: ContextView,
    memory: Memory,
    input: Allocation,
    batch_dim: usize,
    start: int,
)
    requires
        base.group_size > 0,
        go_together(plan, base),
        plan.outcome(context, base).1 is Ok,
        plan.outcome(context, base).0.requests.is_prefix_of(later.requests),
        later.requests.len() <= usize::MAX,
        is_before(memory, input, start),
        0 <= start,
        start + 10 <= usize::MAX,
        plan.input_dim <= u32::MAX,
        plan.output_dim <= u32::MAX,
        plan.lora_rank <= u32::MAX,
        batch_dim <= u32::MAX,
        batch_dim * plan.output_dim <= u32::MAX,
    ensures
        ({
            let linear = plan.outcome(context, base).1->Ok_0;
            let tree = plan.adapter_tree;
            &&& base.bits == 4 || base.bits == 8
            &&& is_quantized(
                base.weights_tree,
                base.bits,
                base.group_size,
                base.quantization_method,
                plan.input_dim,
                plan.output_dim,
                plan.data_type,
            )
            &&& is_stored(tree, "down_projection"@, seq![plan.lora_rank, plan.input_dim], plan.data_type)
            &&& is_stored(tree, "up_projection"@, seq![plan.output_dim, plan.lora_rank], plan.data_type)
            &&& plan.incoherence_signs_tree matches Some(signs) ==> {
                &&& is_stored(signs, "input_signs"@, seq![plan.input_dim], DataType::I32)
                &&& is_stored(signs, "output_signs"@, seq![plan.output_dim], DataType::I32)
            }
            &&& computed(
                later.requests,
                memory,
                linear.plan(input, batch_dim, start),
                start,
                linear.output(start),
            ) == adapted_product(plan, base, memory[input], batch_dim)
        }),
{
    let (after, made) = plan.outcome(context, base);
    let linear = made->Ok_0;
    let requests = later.requests;
    loaded_adapter(context, plan, base);
    adapter_stays(after.requests, requests, linear, plan);
    quantized_map_stays(after.requests, requests, linear.base_linear, base);
    if plan.incoherence_signs_tree is Some {
        transformed_adapted_map_multiplies(
            requests,
            linear,
            plan,
            base,
            memory,
            input,
            batch_dim,
            start,
        );
    } else {
        plain_adapted_map_multiplies(requests, linear, plan, base, memory, input, batch_dim, start);
    }
}

/// How the matrix in a tree is described.
pub open spec fn description(tree: TreeView) -> Option<AnyWeightMatrixSpec> {
    let key = full_name(tree, "spec"@);
    if tree.loader.metadata.contains_key(key) {
        match tree.loader.metadata[key] {
            Ok(spec) => Some(spec),
            Err(_) => None,
        }
    } else {
        None
    }
}

/// How a matrix with a row for each output is quantized: the bits of a weight, the size of
/// a group, and what is stored for a group besides its scale.
pub open spec fn quantized_by(spec: AnyWeightMatrixSpec) -> Option<(u32, usize, QuantizationMethod)> {
    match spec {
        AnyWeightMatrixSpec::MLXSpec(mlx) => if mlx.layout == Layout::OutputInput {
            Some((mlx.bits, mlx.group_size, QuantizationMethod::ScaleBias))
        } else {
            None
        },
        AnyWeightMatrixSpec::AWQSpec(awq) => if awq.layout == Layout::OutputInput && !awq.is_symmetric {
            Some((awq.bits, awq.group_size, QuantizationMethod::ScaleZeroPoint))
        } else {
            None
        },
        _ => None,
    }
}

/// The size of a group.
pub open spec fn group_size_of(quantized: (u32, usize, QuantizationMethod)) -> usize {
    quantized.1
}

/// The map with the quantized matrix in a tree.
pub open spec fn map_in(
    weights_tree: TreeView,
    bias_tree: Option<TreeView>,
    quantized: (u32, usize, QuantizationMethod),
    input_dim: usize,
    output_dim: usize,
    data_type: DataType,
    output_hadamard_factors: Option<Allocation>,
) -> QuantizedLinearPlan {
    QuantizedLinearPlan {
        bits: quantized.0,
        group_size: quantized.1,
        quantization_method: quantized.2,
        input_dim,
        output_dim,
        data_type,
        weights_tree,
        bias_tree,
        output_hadamard_factors,
    }
}

/// What applying an incoherently stored map comes to: the rows are transformed before
/// the quantized matrix and behind it.
pub open spec fn incoherent_product(
    tree: TreeView,
    quantized: (u32, usize, QuantizationMethod),
    factor: Value,
    input_dim: usize,
    output_dim: usize,
    data_type: DataType,
    batch_dim: usize,
) -> Value {
    let weights = below(tree, "weights"@);
    let signs = below(weights, "incoherence_signs"@);
    let plan = map_in(
        below(weights, "quantized"@),
        Some(tree),
        quantized,
        input_dim,
        output_dim,
        data_type,
        None,
    );
    quantized_product(
        plan,
        before(factor, Some(contents(signs, "input_signs"@)), batch_dim as int, input_dim as int, data_type),
        batch_dim,
        Some(contents(signs, "output_signs"@)),
    )
}

/// The parts of an incoherently stored map that was loaded are what its tree holds.
proof fn loaded_incoherent_map(
    context: ContextView,
    input_dim: usize,
    output_dim: usize,
    data_type: DataType,
    tree: TreeView,
)
    requires
        rht_outcome(context, input_dim, output_dim, data_type, tree).1 is Ok,
        rht_ready(context, input_dim, output_dim, data_type, tree),
        rht_outcome(context, input_dim, output_dim, data_type, tree).0.requests.len() <= usize::MAX,
    ensures
        ({
            let (after, made) = rht_outcome(context, input_dim, output_dim, data_type, tree);
            let linear = made->Ok_0;
            let weights = below(tree, "weights"@);
            let signs = below(weights, "incoherence_signs"@);
            let quantized = below(weights, "quantized"@);
            let factors = linear.inner_linear.output_hadamard_factors;
            &&& description(quantized) is Some
            &&& quantized_by(description(quantized)->0) is Some
            &&& group_size_of(quantized_by(description(quantized)->0)->0) > 0
            &&& factors is Some
            &&& holds_tensor(
                after.requests,
                linear.input_factors,
                signs,
                "input_signs"@,
                seq![input_dim],
                DataType::I32,
            )
            &&& holds_tensor(
                after.requests,
                factors->0,
                signs,
                "output_signs"@,
                seq![output_dim],
                DataType::I32,
            )
            &&& kernel_of(after.requests, linear.input_hadamard_kernel) == Some(
                KernelRequest::HadamardTransform { data_type, order: HadamardTransformOrder::Input },
            )
            &&& linear.input_dimension == input_dim
            &&& quantized_map_is(
                after.requests,
                linear.inner_linear,
                map_in(
                    quantized,
                    Some(tree),
                    quantized_by(description(quantized)->0)->0,
                    input_dim,
                    output_dim,
                    data_type,
                    factors,
                ),
            )
        }),
{
    let (after, made) = rht_outcome(context, input_dim, output_dim, data_type, tree);
    let linear = made->Ok_0;
    let weights = below(tree, "weights"@);
    let signs = below(weights, "incoherence_signs"@);
    let quantized = below(weights, "quantized"@);
    names_are_full(tree, "weights"@);
    names_are_full(weights, "incoherence_signs"@);
    names_are_full(weights, "quantized"@);
    names_are_full(quantized, "spec"@);
    incoherent_maps_are_loaded(context, input_dim, output_dim, data_type, tree);
    steps_fill(
        after,
        signs,
        "input_signs"@,
        seq![input_dim],
        DataType::I32,
        linear.input_factors->Resident_0,
    );
    steps_fill(
        after,
        signs,
        "output_signs"@,
        seq![output_dim],
        DataType::I32,
        linear.inner_linear.output_hadamard_factors->0->Resident_0,
    );
    let (middle, prelude) = rht_prelude(context, input_dim, output_dim, data_type, tree);
    let ((input_factors, output_factors), kernel, _) = prelude->Ok_0;
    let plan = map_in(
        quantized,
        Some(tree),
        quantized_by(description(quantized)->0)->0,
        input_dim,
        output_dim,
        data_type,
        Some(output_factors),
    );
    assert(fused_outcome(
        middle,
        quantized,
        Some(tree),
        output_factors,
        input_dim,
        output_dim,
        data_type,
    ).1 is Ok);
    assert(plan.outcome(middle).1 == Ok::<QuantizedLinear, QuantizedLinearErrorView>(linear.inner_linear));
    loaded_quantized_map(middle, plan);
}

/// An incoherently stored map that was loaded transforms the rows of what it is given in
/// place, multiplies them by the quantized matrix that is stored, transforms the product,
/// and adds the row of biases where one is stored.
pub proof fn incoherent_maps_multiply(
    context: ContextView,
    input_dim: usize,
    output_dim: usize,
    data_type: DataType,
    tree: TreeView,
    later: ContextView,
    memory: Memory,
    input: Allocation,
    batch_dim: usize,
    start: int,
)
    requires
        rht_outcome(context, input_dim, output_dim, data_type, tree).1 is Ok,
        rht_ready(context, input_dim, output_dim, data_type, tree),
        rht_outcome(context, input_dim, output_dim, data_type, tree).0.requests.is_prefix_of(
            later.requests,
        ),
        later.requests.len() <= usize::MAX,
        is_before(memory, input, start),
        0 <= start,
        start + 4 <= usize::MAX,
        input_dim <= u32::MAX,
        output_dim <= u32::MAX,
        batch_dim <= u32::MAX,
        batch_dim * output_dim <= u32::MAX,
    ensures
        ({
            let linear = rht_outcome(context, input_dim, output_dim, data_type, tree).1->Ok_0;
            let weights = below(tree, "weights"@);
            let signs = below(weights, "incoherence_signs"@);
            let quantized = quantized_by(description(below(weights, "quantized"@))->0);
            let commands = linear.plan(input, batch_dim, start);
            &&& description(below(weights, "quantized"@)) is Some
            &&& quantized is Some
            &&& is_stored(signs, "input_signs"@, seq![input_dim], DataType::I32)
            &&& is_stored(signs, "output_signs"@, seq![output_dim], DataType::I32)
            &&& computed(later.requests, memory, commands, start, linear.output(start))
                == incoherent_product(
                tree,
                quantized->0,
                memory[input],
                input_dim,
                output_dim,
                data_type,
                batch_dim,
            )
            &&& computed(later.requests, memory, commands, start, input) == before(
                memory[input],
                Some(contents(signs, "input_signs"@)),
                batch_dim as int,
                input_dim as int,
                data_type,
            )
        }),
{
    let (after, made) = rht_outcome(context, input_dim, output_dim, data_type, tree);
    let linear = made->Ok_0;
    let inner = linear.inner_linear;
    let requests = later.requests;
    let weights = below(tree, "weights"@);
    let signs = below(weights, "incoherence_signs"@);
    let quantized = below(weights, "quantized"@);
    loaded_incoherent_map(context, input_dim, output_dim, data_type, tree);
    let plan = map_in(
        quantized,
        Some(tree),
        quantized_by(description(quantized)->0)->0,
        input_dim,
        output_dim,
        data_type,
        inner.output_hadamard_factors,
    );
    loaded_stays(after.requests, requests);
    quantized_map_stays(after.requests, requests, inner, plan);
    let commands = linear.plan(input, batch_dim, start);
    let rest = inner.plan(input, batch_dim, start + 1);
    let m1 = run(requests, memory, commands, start, 1);
    reveal_with_fuel(run, 2);
    assert(commands[0] is HadamardTransform);
    assert(!memory.contains_key(linear.input_factors));
    assert(m1 == memory.insert(
        input,
        before(
            memory[input],
            Some(contents(signs, "input_signs"@)),
            batch_dim as int,
            input_dim as int,
            data_type,
        ),
    ));
    runs_in_parts(requests, memory, commands, start, 1, rest, rest.len() as int);
    quantized_map_multiplies(requests, inner, plan, m1, input, batch_dim, start + 1);
    quantized_map_keeps(requests, inner, m1, input, batch_dim, start + 1, input);
    assert(!m1.contains_key(inner.output_hadamard_factors->0));
}

/// Commands come to the same whether they are run at once or one part after the other.
proof fn runs_in_parts(
    requests: Seq<RequestView>,
    memory: Memory,
    commands: Seq<Command>,
    start: int,
    first: int,
    rest: Seq<Command>,
    n: int,
)
    requires
        0 <= first,
        commands.len() == first + rest.len(),
        forall|i: int| 0 <= i < rest.len() ==> #[trigger] rest[i] == commands[first + i],
        0 <= n <= rest.len(),
    ensures
        run(requests, memory, commands, start, first + n) == run(
            requests,
            run(requests, memory, commands, start, first),
            rest,
            start + first,
            n,
        ),
    decreases n,
{
    if n > 0 {
        runs_in_parts(requests, memory, commands, start, first, rest, n - 1);
        assert(rest[n - 1] == commands[first + n - 1]);
    }
}

/// A quantized map leaves what was there before as it is.
proof fn quantized_map_keeps(
    requests: Seq<RequestView>,
    linear: QuantizedLinear,
    memory: Memory,
    input: Allocation,
    batch_dim: usize,
    start: int,
    kept: Allocation,
)
    requires
        memory.contains_key(kept),
        0 <= start <= usize::MAX,
        kept matches Allocation::Scratch(number) ==> number < start,
    ensures
        computed(requests, memory, linear.plan(input, batch_dim, start), start, kept) == memory[kept],
{
    reveal_with_fuel(run, 4);
    let commands = linear.plan(input, batch_dim, start);
    assert(commands[0] is AllocateScratch);
    assert(target(commands[1], start + 1) == Allocation::Scratch(start as usize));
    if commands.len() == 3 {
        assert(target(commands[2], start + 2) == Allocation::Scratch(start as usize));
    }
}

} // verus!
