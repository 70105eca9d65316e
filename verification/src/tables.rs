//! What embeddings look up and read out.

use vstd::prelude::*;

use crate::backend::context::{ContextView, Request, RequestView};
use crate::backend::machine::{
    behind, computed, is_before, kernel_of, loaded, one_bits, read, run, width, Matrix, Memory, Value,
};
use crate::backend::types::{
    Allocation, DeviceError, Kernel, KernelRequest, QuantizationMethod, QuantizationMode,
};
use crate::data_type::{DataType, F32Bits};
use crate::embedding::{
    holds_matrix, table_kind, taken, AnyEmbeddingConfig, Embedding, EmbeddingError, EmbeddingErrorView,
    EmbeddingTying, TableKind, TableShape, TiedEmbeddingType, UnsupportedEmbedding,
    UntiedEmbeddingLookupType, UntiedEmbeddingReadoutType,
};
use crate::linear::block::quantization;
use crate::linear::meaning::{
    description, is_quantized, loaded_stays, matrix_steps_are, offsets_name, quantized_matrix_in,
};
use crate::linear::storage::{missing_description, stands_below, tensor_refusal};
use crate::parameters::loader::{what_stands_below_is_found, ParameterLoaderError, TreeView};
use crate::parameters::manifest::steps_follow;
use crate::parameters::stored::{
    below, contents, ends_in_refusal, is_stored, is_there, lists_name_refusals,
    lists_take_what_is_stored, names_are_full, steps_fill,
    trees_give_out_what_stands_under_full_names,
};
use crate::weight_matrix::{AnyWeightMatrixSpec, IncoherenceProcessingMode, Layout};

verus! {

/// How a table is stored.
pub enum Table {
    Plain { tree: TreeView },
    Quantized { tree: TreeView, bits: u32, group_size: usize, method: QuantizationMethod },
    /// Quantized, and transformed on the side of the vectors with signs in a tree.
    Transformed {
        tree: TreeView,
        bits: u32,
        group_size: usize,
        method: QuantizationMethod,
        signs: TreeView,
    },
    /// In no way that is known.
    Other,
}

/// The table in a tree: the first side of its shape is the one for tokens, which is the
/// input of a lookup and the output of a readout. Only a table for both ways may be
/// transformed.
pub open spec fn table_in(tree: TreeView, layout: Layout, both_ways: bool) -> Table {
    match description(tree) {
        Some(AnyWeightMatrixSpec::FullPrecisionSpec(full)) => if full.layout == layout {
            Table::Plain { tree }
        } else {
            Table::Other
        },
        Some(AnyWeightMatrixSpec::MLXSpec(mlx)) => if mlx.layout == layout {
            Table::Quantized {
                tree,
                bits: mlx.bits,
                group_size: mlx.group_size,
                method: QuantizationMethod::ScaleBias,
            }
        } else {
            Table::Other
        },
        Some(AnyWeightMatrixSpec::HybridSpec(hybrid)) => if both_ways && hybrid.adapter_spec is None
            && hybrid.incoherence_block_size == Some(32usize) && hybrid.incoherence_processing_mode
            == IncoherenceProcessingMode::Output {
            match *hybrid.quantization_spec {
                AnyWeightMatrixSpec::MLXSpec(mlx) => if mlx.layout == layout {
                    Table::Transformed {
                        tree: below(tree, "quantized"@),
                        bits: mlx.bits,
                        group_size: mlx.group_size,
                        method: QuantizationMethod::ScaleBias,
                        signs: below(tree, "incoherence_signs"@),
                    }
                } else {
                    Table::Other
                },
                AnyWeightMatrixSpec::AWQSpec(awq) => if awq.layout == layout && !awq.is_symmetric {
                    Table::Transformed {
                        tree: below(tree, "quantized"@),
                        bits: awq.bits,
                        group_size: awq.group_size,
                        method: QuantizationMethod::ScaleZeroPoint,
                        signs: below(tree, "incoherence_signs"@),
                    }
                } else {
                    Table::Other
                },
                _ => Table::Other,
            }
        } else {
            Table::Other
        },
        _ => Table::Other,
    }
}

/// The table that tokens are looked up in.
pub open spec fn lookup_table(config: AnyEmbeddingConfig, lookup_tree: TreeView) -> Table {
    match config {
        AnyEmbeddingConfig::TiedEmbeddingConfig(_) => table_in(
            below(lookup_tree, "embedding"@),
            Layout::InputOutput,
            true,
        ),
        AnyEmbeddingConfig::UntiedEmbeddingConfig(_) => table_in(
            below(lookup_tree, "input_embedding"@),
            Layout::InputOutput,
            false,
        ),
    }
}

/// The table that logits are read from.
pub open spec fn readout_table(
    config: AnyEmbeddingConfig,
    lookup_tree: TreeView,
    readout_tree: TreeView,
) -> Table {
    match config {
        AnyEmbeddingConfig::TiedEmbeddingConfig(_) => lookup_table(config, lookup_tree),
        AnyEmbeddingConfig::UntiedEmbeddingConfig(_) => table_in(
            below(readout_tree, "output_embedding"@),
            Layout::OutputInput,
            false,
        ),
    }
}

impl Table {
    /// The numbers of the table.
    pub open spec fn matrix(self) -> Matrix {
        match self {
            Table::Plain { tree } => Matrix::Plain { numbers: contents(tree, "weights"@) },
            Table::Quantized { tree, bits, group_size, method } => {
                quantized_matrix_in(tree, bits, group_size, method)
            },
            Table::Transformed { tree, bits, group_size, method, .. } => {
                quantized_matrix_in(tree, bits, group_size, method)
            },
            Table::Other => Matrix::Plain { numbers: Value::Unknown },
        }
    }

    /// The signs of a transformed table.
    pub open spec fn signs(self) -> Option<Value> {
        match self {
            Table::Transformed { signs, .. } => Some(contents(signs, "output_signs"@)),
            _ => None,
        }
    }

    /// Whether the table is stored, with a vector for each token.
    pub open spec fn fits(self, vocab_size: usize, model_dim: usize, data_type: DataType) -> bool {
        match self {
            Table::Plain { tree } => is_stored(tree, "weights"@, seq![vocab_size, model_dim], data_type),
            Table::Quantized { tree, bits, group_size, method } => {
                &&& bits == 4 || bits == 8
                &&& is_quantized(tree, bits, group_size, method, model_dim, vocab_size, data_type)
            },
            Table::Transformed { tree, bits, group_size, method, signs } => {
                &&& bits == 4 || bits == 8
                &&& is_quantized(tree, bits, group_size, method, model_dim, vocab_size, data_type)
                &&& is_stored(signs, "output_signs"@, seq![model_dim], DataType::I32)
            },
            Table::Other => false,
        }
    }

    /// Whether a quantized table is in groups of some weights, of a size that kernels take.
    pub open spec fn in_groups(self) -> bool {
        match self {
            Table::Quantized { group_size, .. } => 0 < group_size <= u32::MAX,
            Table::Transformed { group_size, .. } => 0 < group_size <= u32::MAX,
            _ => true,
        }
    }
}

/// The bits of the number that looked up vectors are multiplied by: one, unless another is
/// configured.
pub open spec fn configured_scale(config: AnyEmbeddingConfig) -> u32 {
    let scale = match config {
        AnyEmbeddingConfig::TiedEmbeddingConfig(common) => common.input_scale,
        AnyEmbeddingConfig::UntiedEmbeddingConfig(common) => common.input_scale,
    };
    match scale {
        Some(scale) => scale.bits,
        None => one_bits(),
    }
}

/// What looking tokens up in a table comes to.
pub open spec fn vectors_of(
    table: Table,
    tokens: Value,
    count: usize,
    shape: TableShape,
    scale: u32,
) -> Value {
    let vectors = Value::LookedUp {
        tokens: Box::new(tokens),
        matrix: Box::new(table.matrix()),
        count: count as int,
        vocabulary: shape.vocab_size as int,
        columns: shape.model_dim as int,
        scale,
        data_type: shape.data_type,
    };
    behind(vectors, table.signs(), count as int, shape.model_dim as int, shape.data_type)
}

/// What reading logits from a table comes to: a number for each token, for each vector.
pub open spec fn logits_of(table: Table, vectors: Value, count: usize, shape: TableShape) -> Value {
    Value::Product {
        factor: Box::new(vectors),
        matrix: Box::new(table.matrix()),
        rows: count as int,
        columns: shape.vocab_size as int,
        inner: shape.model_dim as int,
        data_type: shape.data_type,
    }
}

/// The parts of a table, as an embedding holds them.
pub enum Parts {
    Plain { weights: Allocation },
    Quantized { weights: Allocation, scales: Allocation, offsets: Allocation },
}

/// Whether the parts of a table hold the table.
pub open spec fn parts_are(requests: Seq<RequestView>, table: Table, parts: Parts) -> bool {
    match (table.matrix(), parts) {
        (Matrix::Plain { numbers }, Parts::Plain { weights }) => {
            weights is Resident && loaded(requests, weights->Resident_0) == numbers
        },
        (
            Matrix::Quantized { integers, scales: s, offsets: o, .. },
            Parts::Quantized { weights, scales, offsets },
        ) => {
            &&& weights is Resident && loaded(requests, weights->Resident_0) == integers
            &&& scales is Resident && loaded(requests, scales->Resident_0) == s
            &&& offsets is Resident && loaded(requests, offsets->Resident_0) == o
        },
        _ => false,
    }
}

/// Whether a kernel looks tokens up in a table.
pub open spec fn looks_up(
    requests: Seq<RequestView>,
    table: Table,
    kernel: Kernel,
    data_type: DataType,
) -> bool {
    match table.matrix() {
        Matrix::Plain { .. } => kernel_of(requests, kernel) == Some(
            KernelRequest::FullPrecisionEmbeddingLookup { data_type },
        ),
        Matrix::Quantized { bits, group_size, method, .. } => kernel_of(requests, kernel) matches Some(
            KernelRequest::QuantizedEmbeddingLookup {
                data_type: made_for,
                group_size: size,
                mode,
                quantization_method,
                use_hadamard,
            },
        ) && made_for == data_type && size == group_size && width(mode) == bits && quantization_method == method
            && use_hadamard == table.signs() is Some,
    }
}

/// Whether a kernel reads logits from a table.
pub open spec fn reads_out(
    requests: Seq<RequestView>,
    table: Table,
    kernel: Kernel,
    shape: TableShape,
) -> bool {
    match table.matrix() {
        Matrix::Plain { .. } => kernel_of(requests, kernel) == Some(
            KernelRequest::Matmul { data_type: shape.data_type },
        ),
        Matrix::Quantized { bits, group_size, method, .. } => kernel_of(requests, kernel) matches Some(
            KernelRequest::QuantizedMatmul(made),
        ) && made.data_type == shape.data_type && made.group_size == group_size && made.input_dim
            == shape.model_dim && made.output_dim == shape.vocab_size && width(made.mode) == bits
            && made.quantization_method == method && !made.use_hadamard,
    }
}

/// Whether signs for transforming vectors are there exactly where the table is
/// transformed, and are those of the table.
pub open spec fn signs_are(requests: Seq<RequestView>, table: Table, factors: Option<Allocation>) -> bool {
    match (table.signs(), factors) {
        (Some(signs), Some(Allocation::Resident(number))) => loaded(requests, number) == signs,
        (None, None) => true,
        _ => false,
    }
}

/// Whether an embedding is made of the tables that are stored.
pub open spec fn embedding_is(
    requests: Seq<RequestView>,
    embedding: Embedding,
    config: AnyEmbeddingConfig,
    lookup_tree: TreeView,
    readout_tree: TreeView,
    shape: TableShape,
) -> bool {
    let input = lookup_table(config, lookup_tree);
    let output = readout_table(config, lookup_tree, readout_tree);
    &&& input.fits(shape.vocab_size as usize, shape.model_dim as usize, shape.data_type)
    &&& output.fits(shape.vocab_size as usize, shape.model_dim as usize, shape.data_type)
    &&& embedding.vocab_size == shape.vocab_size
    &&& embedding.model_dim == shape.model_dim
    &&& embedding.data_type == shape.data_type
    &&& embedding.input_scale.bits == configured_scale(config)
    &&& signs_are(requests, input, embedding.readout_input_hadamard_factors)
    &&& match embedding.tying {
        EmbeddingTying::Tied { ty: TiedEmbeddingType::FullPrecision { weights, lookup, readout } } => {
            &&& config is TiedEmbeddingConfig
            &&& parts_are(requests, input, Parts::Plain { weights })
            &&& looks_up(requests, input, lookup, shape.data_type)
            &&& reads_out(requests, output, readout, shape)
        },
        EmbeddingTying::Tied {
            ty: TiedEmbeddingType::Quantized {
                weights,
                scales,
                zero_points_or_biases,
                quantization_method,
                output_hadamard_factors,
                lookup,
                readout,
            },
        } => {
            &&& config is TiedEmbeddingConfig
            &&& parts_are(
                requests,
                input,
                Parts::Quantized { weights, scales, offsets: zero_points_or_biases },
            )
            &&& input.matrix() is Quantized && quantization_method == input.matrix()->method
            &&& signs_are(requests, input, output_hadamard_factors)
            &&& looks_up(requests, input, lookup, shape.data_type)
            &&& reads_out(requests, output, readout, shape)
        },
        EmbeddingTying::Untied { input_ty, output_ty } => {
            &&& config is UntiedEmbeddingConfig
            &&& match input_ty {
                UntiedEmbeddingLookupType::FullPrecision { weights, lookup } => {
                    &&& parts_are(requests, input, Parts::Plain { weights })
                    &&& looks_up(requests, input, lookup, shape.data_type)
                },
                UntiedEmbeddingLookupType::Quantized {
                    weights,
                    scales,
                    zero_points_or_biases,
                    quantization_method,
                    output_hadamard_factors,
                    lookup,
                } => {
                    &&& parts_are(
                        requests,
                        input,
                        Parts::Quantized { weights, scales, offsets: zero_points_or_biases },
                    )
                    &&& input.matrix() is Quantized && quantization_method == input.matrix()->method
                    &&& signs_are(requests, input, output_hadamard_factors)
                    &&& looks_up(requests, input, lookup, shape.data_type)
                },
            }
            &&& match output_ty {
                UntiedEmbeddingReadoutType::FullPrecision { weights, readout } => {
                    &&& parts_are(requests, output, Parts::Plain { weights })
                    &&& reads_out(requests, output, readout, shape)
                },
                UntiedEmbeddingReadoutType::Quantized { weights, scales, zero_points_or_biases, readout } => {
                    &&& parts_are(
                        requests,
                        output,
                        Parts::Quantized { weights, scales, offsets: zero_points_or_biases },
                    )
                    &&& reads_out(requests, output, readout, shape)
                },
            }
        },
    }
}

/// An embedding that is made of a table looks tokens up in it.
proof fn embedding_looks_up(
    requests: Seq<RequestView>,
    embedding: Embedding,
    config: AnyEmbeddingConfig,
    lookup_tree: TreeView,
    readout_tree: TreeView,
    shape: TableShape,
    memory: Memory,
    token_ids: Allocation,
    batch_dim: usize,
    start: int,
)
    requires
        embedding_is(requests, embedding, config, lookup_tree, readout_tree, shape),
        is_before(memory, token_ids, start),
        0 <= start,
        start + 2 <= usize::MAX,
        batch_dim <= u32::MAX,
    ensures
        computed(
            requests,
            memory,
            embedding.lookup_plan(token_ids, batch_dim, start),
            start,
            Allocation::Scratch(start as usize),
        ) == vectors_of(
            lookup_table(config, lookup_tree),
            memory[token_ids],
            batch_dim,
            shape,
            configured_scale(config),
        ),
{
    reveal_with_fuel(run, 3);
    let commands = embedding.lookup_plan(token_ids, batch_dim, start);
    let m1 = run(requests, memory, commands, start, 1);
    assert(read(requests, m1, token_ids) == memory[token_ids]);
    assert forall|number: usize| !#[trigger] m1.contains_key(Allocation::Resident(number)) by {}
    assert(commands[0] is AllocateScratch);
    assert(commands[1] == embedding.lookup_command(
        token_ids,
        Allocation::Scratch(start as usize),
        batch_dim as u32,
    ));
}

/// An embedding that is made of a table reads logits from it.
proof fn embedding_reads_out(
    requests: Seq<RequestView>,
    embedding: Embedding,
    config: AnyEmbeddingConfig,
    lookup_tree: TreeView,
    readout_tree: TreeView,
    shape: TableShape,
    memory: Memory,
    input: Allocation,
    batch_dim: usize,
    start: int,
)
    requires
        embedding_is(requests, embedding, config, lookup_tree, readout_tree, shape),
        is_before(memory, input, start),
        0 <= start,
        start + 2 <= usize::MAX,
        batch_dim <= u32::MAX,
    ensures
        computed(
            requests,
            memory,
            embedding.readout_plan(batch_dim, input, start),
            start,
            Allocation::Scratch(start as usize),
        ) == logits_of(
            readout_table(config, lookup_tree, readout_tree),
            memory[input],
            batch_dim,
            shape,
        ),
{
    reveal_with_fuel(run, 3);
    let commands = embedding.readout_plan(batch_dim, input, start);
    let m1 = run(requests, memory, commands, start, 1);
    assert(read(requests, m1, input) == memory[input]);
    assert forall|number: usize| !#[trigger] m1.contains_key(Allocation::Resident(number)) by {}
    assert(commands[0] is AllocateScratch);
    assert(commands[1] == embedding.readout_command(input, Allocation::Scratch(start as usize), batch_dim));
}

/// The steps for a quantized table are those for a matrix with a row for each token.
proof fn matrix_steps_fill(
    context: ContextView,
    shape: TableShape,
    tree: TreeView,
    bits: u32,
    group_size: usize,
    method: QuantizationMethod,
    weights: Allocation,
    scales: Allocation,
    offsets: Allocation,
)
    requires
        group_size > 0,
        bits == 4 || bits == 8,
        holds_matrix(
            context,
            shape.matrix_steps(
                tree,
                if bits == 4 { QuantizationMode::U4 } else { QuantizationMode::U8 },
                group_size,
                method,
            ),
            weights,
            scales,
            offsets,
        ),
    ensures
        is_quantized(
            tree,
            bits,
            group_size,
            method,
            shape.model_dim as usize,
            shape.vocab_size as usize,
            shape.data_type,
        ),
        weights is Resident && loaded(context.requests, weights->Resident_0) == contents(tree, "weights"@),
        scales is Resident && loaded(context.requests, scales->Resident_0) == contents(tree, "scales"@),
        offsets is Resident && loaded(context.requests, offsets->Resident_0) == contents(
            tree,
            offsets_name(method),
        ),
{
    let mode = if bits == 4 { QuantizationMode::U4 } else { QuantizationMode::U8 };
    let steps = shape.matrix_steps(tree, mode, group_size, method);
    matrix_steps_are(
        tree,
        bits,
        group_size,
        method,
        shape.model_dim as usize,
        shape.vocab_size as usize,
        shape.data_type,
    );
    steps_fill(
        context,
        tree,
        "weights"@,
        steps[0]->Tensor_shape,
        steps[0]->Tensor_data_type,
        weights->Resident_0,
    );
    steps_fill(
        context,
        tree,
        "scales"@,
        steps[1]->Tensor_shape,
        steps[1]->Tensor_data_type,
        scales->Resident_0,
    );
    steps_fill(
        context,
        tree,
        offsets_name(method),
        steps[2]->Tensor_shape,
        steps[2]->Tensor_data_type,
        offsets->Resident_0,
    );
}

/// An embedding for both ways that was loaded is made of the table that is stored.
proof fn loaded_tied_embedding(
    context: ContextView,
    config: AnyEmbeddingConfig,
    lookup_tree: TreeView,
    readout_tree: TreeView,
    shape: TableShape,
)
    requires
        config is TiedEmbeddingConfig,
        lookup_table(config, lookup_tree).in_groups(),
        shape.outcome(context, config, lookup_tree, readout_tree).1 is Ok,
        shape.outcome(context, config, lookup_tree, readout_tree).0.requests.len() <= usize::MAX,
    ensures
        embedding_is(
            shape.outcome(context, config, lookup_tree, readout_tree).0.requests,
            shape.outcome(context, config, lookup_tree, readout_tree).1->Ok_0,
            config,
            lookup_tree,
            readout_tree,
            shape,
        ),
{
    let (after, made) = shape.outcome(context, config, lookup_tree, readout_tree);
    let embedding = made->Ok_0;
    let tree = below(lookup_tree, "embedding"@);
    let table = lookup_table(config, lookup_tree);
    names_are_full(lookup_tree, "embedding"@);
    names_are_full(tree, "spec"@);
    names_are_full(tree, "quantized"@);
    names_are_full(tree, "incoherence_signs"@);
    shape.tables_are_loaded(context, config, lookup_tree, readout_tree);
    shape.both_ways_are_transformed_alike(context, config, lookup_tree, readout_tree);
    match embedding.tying->ty {
        TiedEmbeddingType::FullPrecision { weights, lookup, readout } => {
            steps_fill(
                after,
                tree,
                "weights"@,
                seq![shape.vocab_size as usize, shape.model_dim as usize],
                shape.data_type,
                weights->Resident_0,
            );
        },
        TiedEmbeddingType::Quantized {
            weights,
            scales,
            zero_points_or_biases,
            output_hadamard_factors,
            ..
        } => {
            match table {
                Table::Quantized { tree, bits, group_size, method } => {
                    matrix_steps_fill(
                        after,
                        shape,
                        tree,
                        bits,
                        group_size,
                        method,
                        weights,
                        scales,
                        zero_points_or_biases,
                    );
                },
                Table::Transformed { tree, bits, group_size, method, signs } => {
                    matrix_steps_fill(
                        after,
                        shape,
                        tree,
                        bits,
                        group_size,
                        method,
                        weights,
                        scales,
                        zero_points_or_biases,
                    );
                    steps_fill(
                        after,
                        signs,
                        "output_signs"@,
                        seq![shape.model_dim as usize],
                        DataType::I32,
                        output_hadamard_factors->0->Resident_0,
                    );
                    steps_fill(
                        after,
                        signs,
                        "output_signs"@,
                        seq![shape.model_dim as usize],
                        DataType::I32,
                        embedding.readout_input_hadamard_factors->0->Resident_0,
                    );
                },
                _ => {},
            }
        },
    }
}

/// An embedding with a table for each way that was loaded is made of the tables that are
/// stored.
proof fn loaded_untied_embedding(
    context: ContextView,
    config: AnyEmbeddingConfig,
    lookup_tree: TreeView,
    readout_tree: TreeView,
    shape: TableShape,
)
    requires
        config is UntiedEmbeddingConfig,
        lookup_table(config, lookup_tree).in_groups(),
        readout_table(config, lookup_tree, readout_tree).in_groups(),
        shape.outcome(context, config, lookup_tree, readout_tree).1 is Ok,
        shape.outcome(context, config, lookup_tree, readout_tree).0.requests.len() <= usize::MAX,
    ensures
        embedding_is(
            shape.outcome(context, config, lookup_tree, readout_tree).0.requests,
            shape.outcome(context, config, lookup_tree, readout_tree).1->Ok_0,
            config,
            lookup_tree,
            readout_tree,
            shape,
        ),
{
    let (after, made) = shape.outcome(context, config, lookup_tree, readout_tree);
    let embedding = made->Ok_0;
    let input_tree = below(lookup_tree, "input_embedding"@);
    let output_tree = below(readout_tree, "output_embedding"@);
    names_are_full(lookup_tree, "input_embedding"@);
    names_are_full(readout_tree, "output_embedding"@);
    names_are_full(input_tree, "spec"@);
    names_are_full(output_tree, "spec"@);
    shape.tables_are_loaded(context, config, lookup_tree, readout_tree);
    let plain = seq![shape.vocab_size as usize, shape.model_dim as usize];
    match embedding.tying->input_ty {
        UntiedEmbeddingLookupType::FullPrecision { weights, .. } => {
            steps_fill(after, input_tree, "weights"@, plain, shape.data_type, weights->Resident_0);
        },
        UntiedEmbeddingLookupType::Quantized { weights, scales, zero_points_or_biases, .. } => {
            if let Table::Quantized { tree, bits, group_size, method } = lookup_table(config, lookup_tree) {
                matrix_steps_fill(
                    after,
                    shape,
                    tree,
                    bits,
                    group_size,
                    method,
                    weights,
                    scales,
                    zero_points_or_biases,
                );
            }
        },
    }
    match embedding.tying->output_ty {
        UntiedEmbeddingReadoutType::FullPrecision { weights, .. } => {
            steps_fill(after, output_tree, "weights"@, plain, shape.data_type, weights->Resident_0);
        },
        UntiedEmbeddingReadoutType::Quantized { weights, scales, zero_points_or_biases, .. } => {
            if let Table::Quantized { tree, bits, group_size, method } = readout_table(
                config,
                lookup_tree,
                readout_tree,
            ) {
                matrix_steps_fill(
                    after,
                    shape,
                    tree,
                    bits,
                    group_size,
                    method,
                    weights,
                    scales,
                    zero_points_or_biases,
                );
            }
        },
    }
}

/// An embedding that was loaded is made of the tables that are stored.
pub(crate) proof fn loaded_embedding(
    context: ContextView,
    config: AnyEmbeddingConfig,
    lookup_tree: TreeView,
    readout_tree: TreeView,
    shape: TableShape,
)
    requires
        lookup_table(config, lookup_tree).in_groups(),
        readout_table(config, lookup_tree, readout_tree).in_groups(),
        shape.outcome(context, config, lookup_tree, readout_tree).1 is Ok,
        shape.outcome(context, config, lookup_tree, readout_tree).0.requests.len() <= usize::MAX,
    ensures
        embedding_is(
            shape.outcome(context, config, lookup_tree, readout_tree).0.requests,
            shape.outcome(context, config, lookup_tree, readout_tree).1->Ok_0,
            config,
            lookup_tree,
            readout_tree,
            shape,
        ),
{
    if config is TiedEmbeddingConfig {
        loaded_tied_embedding(context, config, lookup_tree, readout_tree, shape);
    } else {
        loaded_untied_embedding(context, config, lookup_tree, readout_tree, shape);
    }
}

/// Tokens are looked up in the table that is stored for that, each vector is multiplied by
/// the configured scale, and transformed where the table is.
pub proof fn tokens_are_looked_up_in_what_is_stored(
    context: ContextView,
    config: AnyEmbeddingConfig,
    lookup_tree: TreeView,
    readout_tree: TreeView,
    shape: TableShape,
    later: ContextView,
    memory: Memory,
    token_ids: Allocation,
    batch_dim: usize,
    start: int,
)
    requires
        lookup_table(config, lookup_tree).in_groups(),
        readout_table(config, lookup_tree, readout_tree).in_groups(),
        shape.outcome(context, config, lookup_tree, readout_tree).1 is Ok,
        shape.outcome(context, config, lookup_tree, readout_tree).0.requests.is_prefix_of(later.requests),
        later.requests.len() <= usize::MAX,
        is_before(memory, token_ids, start),
        0 <= start,
        start + 2 <= usize::MAX,
        batch_dim <= u32::MAX,
    ensures
        ({
            let embedding = shape.outcome(context, config, lookup_tree, readout_tree).1->Ok_0;
            computed(
                later.requests,
                memory,
                embedding.lookup_plan(token_ids, batch_dim, start),
                start,
                Allocation::Scratch(start as usize),
            ) == vectors_of(
                lookup_table(config, lookup_tree),
                memory[token_ids],
                batch_dim,
                shape,
                configured_scale(config),
            )
        }),
{
    let (after, made) = shape.outcome(context, config, lookup_tree, readout_tree);
    loaded_embedding(context, config, lookup_tree, readout_tree, shape);
    embedding_stays(after, made->Ok_0, config, lookup_tree, readout_tree, shape, later);
    embedding_looks_up(
        later.requests,
        made->Ok_0,
        config,
        lookup_tree,
        readout_tree,
        shape,
        memory,
        token_ids,
        batch_dim,
        start,
    );
}

/// Logits are read from the table that is stored for that. Where that table is transformed,
/// the embedding comes with the signs for transforming vectors before.
pub proof fn logits_are_read_from_what_is_stored(
    context: ContextView,
    config: AnyEmbeddingConfig,
    lookup_tree: TreeView,
    readout_tree: TreeView,
    shape: TableShape,
    later: ContextView,
    memory: Memory,
    input: Allocation,
    batch_dim: usize,
    start: int,
)
    requires
        lookup_table(config, lookup_tree).in_groups(),
        readout_table(config, lookup_tree, readout_tree).in_groups(),
        shape.outcome(context, config, lookup_tree, readout_tree).1 is Ok,
        shape.outcome(context, config, lookup_tree, readout_tree).0.requests.is_prefix_of(later.requests),
        later.requests.len() <= usize::MAX,
        is_before(memory, input, start),
        0 <= start,
        start + 2 <= usize::MAX,
        batch_dim <= u32::MAX,
    ensures
        ({
            let embedding = shape.outcome(context, config, lookup_tree, readout_tree).1->Ok_0;
            let table = readout_table(config, lookup_tree, readout_tree);
            &&& computed(
                later.requests,
                memory,
                embedding.readout_plan(batch_dim, input, start),
                start,
                Allocation::Scratch(start as usize),
            ) == logits_of(table, memory[input], batch_dim, shape)
            &&& match (table.signs(), embedding.readout_input_hadamard_factors) {
                (Some(signs), Some(factors)) => read(later.requests, memory, factors) == signs,
                (None, None) => true,
                _ => false,
            }
        }),
{
    let (after, made) = shape.outcome(context, config, lookup_tree, readout_tree);
    loaded_embedding(context, config, lookup_tree, readout_tree, shape);
    embedding_stays(after, made->Ok_0, config, lookup_tree, readout_tree, shape, later);
    embedding_reads_out(
        later.requests,
        made->Ok_0,
        config,
        lookup_tree,
        readout_tree,
        shape,
        memory,
        input,
        batch_dim,
        start,
    );
    if let Some(factors) = made->Ok_0.readout_input_hadamard_factors {
        assert(!memory.contains_key(factors));
    }
}

/// The tables of an embedding are still there once more was asked for.
pub(crate) proof fn embedding_stays(
    earlier: ContextView,
    embedding: Embedding,
    config: AnyEmbeddingConfig,
    lookup_tree: TreeView,
    readout_tree: TreeView,
    shape: TableShape,
    later: ContextView,
)
    requires
        embedding_is(earlier.requests, embedding, config, lookup_tree, readout_tree, shape),
        earlier.requests.is_prefix_of(later.requests),
    ensures
        embedding_is(later.requests, embedding, config, lookup_tree, readout_tree, shape),
{
    loaded_stays(earlier.requests, later.requests);
}

/// The steps for a quantized table can be taken exactly where it is stored.
proof fn matrix_steps_are_there(
    shape: TableShape,
    tree: TreeView,
    bits: u32,
    group_size: usize,
    method: QuantizationMethod,
)
    requires
        group_size > 0,
        bits == 4 || bits == 8,
    ensures
        ({
            let mode = if bits == 4 { QuantizationMode::U4 } else { QuantizationMode::U8 };
            let steps = shape.matrix_steps(tree, mode, group_size, method);
            &&& steps.len() == 3
            &&& is_there(steps[0]) && is_there(steps[1]) && is_there(steps[2]) <==> is_quantized(
                tree,
                bits,
                group_size,
                method,
                shape.model_dim as usize,
                shape.vocab_size as usize,
                shape.data_type,
            )
            &&& is_there(steps[0]) ==> tree.has_leaf("weights"@)
        }),
{
    matrix_steps_are(
        tree,
        bits,
        group_size,
        method,
        shape.model_dim as usize,
        shape.vocab_size as usize,
        shape.data_type,
    );
    names_are_full(tree, "weights"@);
}

/// Where nothing is refused, a table for both ways is loaded exactly where it is stored as
/// it should be.
proof fn tied_tables_load(context: ContextView, lookup_tree: TreeView, shape: TableShape)
    requires
        context.fault is None,
        table_in(below(lookup_tree, "embedding"@), Layout::InputOutput, true).in_groups(),
    ensures
        shape.tied_outcome(context, lookup_tree).1 is Ok <==> table_in(
            below(lookup_tree, "embedding"@),
            Layout::InputOutput,
            true,
        ).fits(shape.vocab_size as usize, shape.model_dim as usize, shape.data_type),
{
    let tree = below(lookup_tree, "embedding"@);
    let table = table_in(tree, Layout::InputOutput, true);
    names_are_full(lookup_tree, "embedding"@);
    names_are_full(tree, "spec"@);
    names_are_full(tree, "weights"@);
    names_are_full(tree, "quantized"@);
    names_are_full(tree, "incoherence_signs"@);
    what_stands_below_is_found(lookup_tree, "embedding"@, "weights"@);
    what_stands_below_is_found(lookup_tree, "embedding"@, "quantized"@);
    match table {
        Table::Plain { tree } => {
            let steps = seq![shape.plain_step(tree), shape.plain_lookup(), shape.plain_readout()];
            lists_take_what_is_stored(context, steps);
            assert(is_there(steps[0]) <==> is_stored(
                tree,
                "weights"@,
                seq![shape.vocab_size as usize, shape.model_dim as usize],
                shape.data_type,
            ));
            assert(is_there(steps[1]) && is_there(steps[2]));
        },
        Table::Quantized { tree, bits, group_size, method } => {
            if bits == 4 || bits == 8 {
                let mode = if bits == 4 { QuantizationMode::U4 } else { QuantizationMode::U8 };
                let matrix = shape.matrix_steps(tree, mode, group_size, method);
                let steps = matrix + seq![
                    shape.quantized_lookup(mode, group_size, method, false),
                    shape.quantized_readout(mode, group_size, method),
                ];
                matrix_steps_are_there(shape, tree, bits, group_size, method);
                lists_take_what_is_stored(context, steps);
                assert(steps[0] == matrix[0] && steps[1] == matrix[1] && steps[2] == matrix[2]);
                assert(is_there(steps[3]) && is_there(steps[4]));
            }
        },
        Table::Transformed { tree: quantized, bits, group_size, method, signs } => {
            names_are_full(quantized, "weights"@);
            names_are_full(signs, "output_signs"@);
            what_stands_below_is_found(tree, "quantized"@, "weights"@);
            what_stands_below_is_found(tree, "incoherence_signs"@, "output_signs"@);
            if bits == 4 || bits == 8 {
                let mode = if bits == 4 { QuantizationMode::U4 } else { QuantizationMode::U8 };
                let matrix = shape.matrix_steps(quantized, mode, group_size, method);
                let (middle, _) = taken(context, matrix);
                let steps = seq![
                    shape.sign_step(signs),
                    shape.sign_step(signs),
                    shape.quantized_lookup(mode, group_size, method, true),
                    shape.quantized_readout(mode, group_size, method),
                ];
                matrix_steps_are_there(shape, quantized, bits, group_size, method);
                lists_take_what_is_stored(context, matrix);
                steps_follow(context, matrix);
                lists_take_what_is_stored(middle, steps);
                assert(is_there(steps[0]) <==> is_stored(
                    signs,
                    "output_signs"@,
                    seq![shape.model_dim as usize],
                    DataType::I32,
                ));
                assert(steps[1] == steps[0]);
                assert(is_there(steps[2]) && is_there(steps[3]));
            }
        },
        Table::Other => {},
    }
}

/// Where nothing is refused, each of two tables is loaded exactly where it is stored as it
/// should be.
proof fn untied_tables_load(context: ContextView, tree_above: TreeView, shape: TableShape)
    requires
        context.fault is None,
        table_in(below(tree_above, "input_embedding"@), Layout::InputOutput, false).in_groups(),
    ensures
        shape.lookup_outcome(context, tree_above).1 is Ok <==> table_in(
            below(tree_above, "input_embedding"@),
            Layout::InputOutput,
            false,
        ).fits(shape.vocab_size as usize, shape.model_dim as usize, shape.data_type),
{
    let tree = below(tree_above, "input_embedding"@);
    let table = table_in(tree, Layout::InputOutput, false);
    names_are_full(tree_above, "input_embedding"@);
    names_are_full(tree, "spec"@);
    names_are_full(tree, "weights"@);
    what_stands_below_is_found(tree_above, "input_embedding"@, "weights"@);
    match table {
        Table::Plain { tree } => {
            let steps = seq![shape.plain_step(tree), shape.plain_lookup()];
            lists_take_what_is_stored(context, steps);
            assert(is_there(steps[0]) <==> is_stored(
                tree,
                "weights"@,
                seq![shape.vocab_size as usize, shape.model_dim as usize],
                shape.data_type,
            ));
            assert(is_there(steps[1]));
        },
        Table::Quantized { tree, bits, group_size, method } => {
            if bits == 4 || bits == 8 {
                let mode = if bits == 4 { QuantizationMode::U4 } else { QuantizationMode::U8 };
                let matrix = shape.matrix_steps(tree, mode, group_size, method);
                let steps = matrix + seq![shape.quantized_lookup(mode, group_size, method, false)];
                matrix_steps_are_there(shape, tree, bits, group_size, method);
                lists_take_what_is_stored(context, steps);
                assert(steps[0] == matrix[0] && steps[1] == matrix[1] && steps[2] == matrix[2]);
                assert(is_there(steps[3]));
            }
        },
        _ => {},
    }
}

/// Where nothing is refused, a table for logits is loaded exactly where it is stored as it
/// should be.
proof fn readout_tables_load(context: ContextView, tree_above: TreeView, shape: TableShape)
    requires
        context.fault is None,
        table_in(below(tree_above, "output_embedding"@), Layout::OutputInput, false).in_groups(),
    ensures
        shape.readout_outcome(context, tree_above).1 is Ok <==> table_in(
            below(tree_above, "output_embedding"@),
            Layout::OutputInput,
            false,
        ).fits(shape.vocab_size as usize, shape.model_dim as usize, shape.data_type),
{
    let tree = below(tree_above, "output_embedding"@);
    let table = table_in(tree, Layout::OutputInput, false);
    names_are_full(tree_above, "output_embedding"@);
    names_are_full(tree, "spec"@);
    names_are_full(tree, "weights"@);
    what_stands_below_is_found(tree_above, "output_embedding"@, "weights"@);
    match table {
        Table::Plain { tree } => {
            let steps = seq![shape.plain_step(tree), shape.plain_readout()];
            lists_take_what_is_stored(context, steps);
            assert(is_there(steps[0]) <==> is_stored(
                tree,
                "weights"@,
                seq![shape.vocab_size as usize, shape.model_dim as usize],
                shape.data_type,
            ));
            assert(is_there(steps[1]));
        },
        Table::Quantized { tree, bits, group_size, method } => {
            if bits == 4 || bits == 8 {
                let mode = if bits == 4 { QuantizationMode::U4 } else { QuantizationMode::U8 };
                let matrix = shape.matrix_steps(tree, mode, group_size, method);
                let steps = matrix + seq![shape.quantized_readout(mode, group_size, method)];
                matrix_steps_are_there(shape, tree, bits, group_size, method);
                lists_take_what_is_stored(context, steps);
                assert(steps[0] == matrix[0] && steps[1] == matrix[1] && steps[2] == matrix[2]);
                assert(is_there(steps[3]));
            }
        },
        _ => {},
    }
}

/// Where nothing is refused, an embedding is loaded exactly where its tables are stored as
/// they should be and no bound on logits is configured.
pub proof fn embeddings_load_what_is_stored(
    context: ContextView,
    config: AnyEmbeddingConfig,
    lookup_tree: TreeView,
    readout_tree: TreeView,
    shape: TableShape,
)
    requires
        context.fault is None,
        lookup_table(config, lookup_tree).in_groups(),
        readout_table(config, lookup_tree, readout_tree).in_groups(),
    ensures
        shape.outcome(context, config, lookup_tree, readout_tree).1 is Ok <==> {
            let vocab_size = shape.vocab_size as usize;
            let model_dim = shape.model_dim as usize;
            &&& lookup_table(config, lookup_tree).fits(vocab_size, model_dim, shape.data_type)
            &&& readout_table(config, lookup_tree, readout_tree).fits(vocab_size, model_dim, shape.data_type)
            &&& match config {
                AnyEmbeddingConfig::TiedEmbeddingConfig(common) => common.logit_soft_cap is None,
                AnyEmbeddingConfig::UntiedEmbeddingConfig(common) => common.logit_soft_cap is None,
            }
        },
{
    if config is TiedEmbeddingConfig {
        tied_tables_load(context, lookup_tree, shape);
    } else {
        untied_tables_load(context, lookup_tree, shape);
        let (middle, made) = shape.lookup_outcome(context, lookup_tree);
        shape.lookup_follows(context, lookup_tree);
        readout_tables_load(middle, readout_tree, shape);
    }
}

/// What an embedding is refused with, by what was asked for.
pub open spec fn embedding_refusal(request: RequestView, error: DeviceError) -> EmbeddingErrorView {
    match request {
        Request::CreateKernel(KernelRequest::Matmul { .. }) => EmbeddingError::MatmulError(error),
        Request::CreateKernel(KernelRequest::QuantizedMatmul(_)) => {
            EmbeddingError::QuantizedMatmulError(error)
        },
        Request::CreateKernel(_) => EmbeddingError::BackendError(error),
        _ => EmbeddingError::ParameterError(tensor_refusal(request, error)),
    }
}

/// The error of an embedding whose one table serves both ways tells which of its requests
/// was refused, and why.
proof fn tied_embeddings_name_refusals(context: ContextView, lookup_tree: TreeView, shape: TableShape)
    ensures
        ({
            let (after, made) = shape.tied_outcome(context, lookup_tree);
            ends_in_refusal(context, after) ==> made is Err && made->Err_0 == embedding_refusal(
                after.requests.last(),
                context.fault->0.error,
            )
        }),
{
    let tree = lookup_tree.child("embedding"@);
    let spec = tree.metadata("spec"@)->Ok_0;
    match table_kind(spec, Layout::InputOutput) {
        TableKind::FullPrecision => {
            lists_name_refusals(
                context,
                seq![shape.plain_step(tree), shape.plain_lookup(), shape.plain_readout()],
            );
        },
        TableKind::Mlx { bits, group_size } => {
            let method = QuantizationMethod::ScaleBias;
            let mode = QuantizationMode::spec_from_bits(bits)->0;
            lists_name_refusals(
                context,
                shape.matrix_steps(tree, mode, group_size, method) + seq![
                    shape.quantized_lookup(mode, group_size, method, false),
                    shape.quantized_readout(mode, group_size, method),
                ],
            );
        },
        TableKind::Hybrid => {
            let by = quantization(*spec->HybridSpec_0.quantization_spec, Layout::InputOutput)->0;
            let mode = QuantizationMode::spec_from_bits(by.bits)->0;
            let signs = tree.child("incoherence_signs"@);
            let matrix = shape.matrix_steps(tree.child("quantized"@), mode, by.group_size, by.method);
            let (middle, _) = taken(context, matrix);
            let steps = seq![
                shape.sign_step(signs),
                shape.sign_step(signs),
                shape.quantized_lookup(mode, by.group_size, by.method, true),
                shape.quantized_readout(mode, by.group_size, by.method),
            ];
            lists_name_refusals(context, matrix);
            steps_follow(context, matrix);
            lists_name_refusals(middle, steps);
            steps_follow(middle, steps);
        },
        TableKind::Unsupported => {},
    }
}

/// The error of the table for lookups tells which of its requests was refused, and why.
proof fn lookups_name_refusals(context: ContextView, lookup_tree: TreeView, shape: TableShape)
    ensures
        ({
            let (after, made) = shape.lookup_outcome(context, lookup_tree);
            ends_in_refusal(context, after) ==> made is Err && made->Err_0 == embedding_refusal(
                after.requests.last(),
                context.fault->0.error,
            )
        }),
{
    let tree = lookup_tree.child("input_embedding"@);
    let method = QuantizationMethod::ScaleBias;
    lists_name_refusals(context, seq![shape.plain_step(tree), shape.plain_lookup()]);
    if let TableKind::Mlx { bits, group_size } = table_kind(
        tree.metadata("spec"@)->Ok_0,
        Layout::InputOutput,
    ) {
        let mode = QuantizationMode::spec_from_bits(bits)->0;
        lists_name_refusals(
            context,
            shape.matrix_steps(tree, mode, group_size, method) + seq![
                shape.quantized_lookup(mode, group_size, method, false),
            ],
        );
    }
}

/// The error of the table for logits tells which of its requests was refused, and why.
proof fn readouts_name_refusals(context: ContextView, readout_tree: TreeView, shape: TableShape)
    ensures
        ({
            let (after, made) = shape.readout_outcome(context, readout_tree);
            ends_in_refusal(context, after) ==> made is Err && made->Err_0 == embedding_refusal(
                after.requests.last(),
                context.fault->0.error,
            )
        }),
{
    let tree = readout_tree.child("output_embedding"@);
    let method = QuantizationMethod::ScaleBias;
    lists_name_refusals(context, seq![shape.plain_step(tree), shape.plain_readout()]);
    if let TableKind::Mlx { bits, group_size } = table_kind(
        tree.metadata("spec"@)->Ok_0,
        Layout::OutputInput,
    ) {
        let mode = QuantizationMode::spec_from_bits(bits)->0;
        lists_name_refusals(
            context,
            shape.matrix_steps(tree, mode, group_size, method) + seq![
                shape.quantized_readout(mode, group_size, method),
            ],
        );
    }
}

/// The error of an embedding tells which of its requests was refused, and why.
pub proof fn embeddings_name_refusals(
    context: ContextView,
    config: AnyEmbeddingConfig,
    lookup_tree: TreeView,
    readout_tree: TreeView,
    shape: TableShape,
)
    ensures
        ({
            let (after, made) = shape.outcome(context, config, lookup_tree, readout_tree);
            ends_in_refusal(context, after) ==> made is Err && made->Err_0 == embedding_refusal(
                after.requests.last(),
                context.fault->0.error,
            )
        }),
{
    tied_embeddings_name_refusals(context, lookup_tree, shape);
    lookups_name_refusals(context, lookup_tree, shape);
    let (middle, made) = shape.lookup_outcome(context, lookup_tree);
    shape.lookup_follows(context, lookup_tree);
    readouts_name_refusals(middle, readout_tree, shape);
    shape.readout_follows(middle, readout_tree);
}

/// Why nothing is asked for a table: it is missing, not described, stored in a way that is
/// not known, or in a number of bits for which there are no kernels.
pub open spec fn table_error(
    tree_above: TreeView,
    name: Seq<char>,
    layout: Layout,
    both_ways: bool,
) -> Option<EmbeddingErrorView> {
    let tree = below(tree_above, name);
    let unknown = |spec: AnyWeightMatrixSpec|
        Some(EmbeddingErrorView::UnsupportedConfiguration(UnsupportedEmbedding::Spec(spec)));
    if !stands_below(tree_above, name) {
        Some(EmbeddingError::ParameterError(ParameterLoaderError::SubtreeNotFound(name)))
    } else {
        match description(tree) {
            None => Some(EmbeddingError::ParameterError(missing_description(tree))),
            Some(spec) => match spec {
                AnyWeightMatrixSpec::FullPrecisionSpec(full) => if full.layout == layout {
                    None
                } else {
                    unknown(spec)
                },
                AnyWeightMatrixSpec::MLXSpec(mlx) => if mlx.layout != layout {
                    unknown(spec)
                } else if mlx.bits != 4 && mlx.bits != 8 {
                    Some(
                        EmbeddingError::UnsupportedConfiguration(
                            UnsupportedEmbedding::MlxBits {
                                bits: mlx.bits,
                                group_size: mlx.group_size,
                                layout,
                            },
                        ),
                    )
                } else {
                    None
                },
                AnyWeightMatrixSpec::HybridSpec(hybrid) => if both_ways && hybrid.adapter_spec is None
                    && hybrid.incoherence_block_size == Some(32usize) && hybrid.incoherence_processing_mode
                    == IncoherenceProcessingMode::Output {
                    if table_in(tree, layout, both_ways) is Other {
                        unknown(*hybrid.quantization_spec)
                    } else {
                        None
                    }
                } else {
                    unknown(spec)
                },
                _ => unknown(spec),
            },
        }
    }
}

/// Nothing is asked for where the first table cannot be: the error says why, and of what
/// table.
pub proof fn unknown_tables_are_named(
    context: ContextView,
    config: AnyEmbeddingConfig,
    lookup_tree: TreeView,
    readout_tree: TreeView,
    shape: TableShape,
)
    ensures
        ({
            let (after, made) = shape.outcome(context, config, lookup_tree, readout_tree);
            let error = match config {
                AnyEmbeddingConfig::TiedEmbeddingConfig(_) => table_error(
                    lookup_tree,
                    "embedding"@,
                    Layout::InputOutput,
                    true,
                ),
                AnyEmbeddingConfig::UntiedEmbeddingConfig(_) => table_error(
                    lookup_tree,
                    "input_embedding"@,
                    Layout::InputOutput,
                    false,
                ),
            };
            error is Some ==> after == context && made is Err && made->Err_0 == error->0
        }),
{
    let tied = below(lookup_tree, "embedding"@);
    let untied = below(lookup_tree, "input_embedding"@);
    names_are_full(lookup_tree, "embedding"@);
    names_are_full(lookup_tree, "input_embedding"@);
    trees_give_out_what_stands_under_full_names(lookup_tree, "embedding"@);
    trees_give_out_what_stands_under_full_names(lookup_tree, "input_embedding"@);
    trees_give_out_what_stands_under_full_names(tied, "spec"@);
    trees_give_out_what_stands_under_full_names(untied, "spec"@);
}

/// What comes of the table for logits is named likewise, once the table for lookups is
/// there.
pub proof fn unknown_readout_tables_are_named(
    context: ContextView,
    readout_tree: TreeView,
    shape: TableShape,
)
    ensures
        ({
            let (after, made) = shape.readout_outcome(context, readout_tree);
            let error = table_error(readout_tree, "output_embedding"@, Layout::OutputInput, false);
            error is Some ==> after == context && made is Err && made->Err_0 == error->0
        }),
{
    let tree = below(readout_tree, "output_embedding"@);
    names_are_full(readout_tree, "output_embedding"@);
    trees_give_out_what_stands_under_full_names(readout_tree, "output_embedding"@);
    trees_give_out_what_stands_under_full_names(tree, "spec"@);
}

/// A bound on logits is refused once the tables are there, whatever they are.
pub proof fn bounds_on_logits_are_named(
    context: ContextView,
    config: AnyEmbeddingConfig,
    lookup_tree: TreeView,
    readout_tree: TreeView,
    shape: TableShape,
    bound: F32Bits,
)
    requires
        match config {
            AnyEmbeddingConfig::TiedEmbeddingConfig(common) => common.logit_soft_cap == Some(bound),
            AnyEmbeddingConfig::UntiedEmbeddingConfig(common) => common.logit_soft_cap == Some(bound),
        },
        context.fault is None,
        lookup_table(config, lookup_tree).in_groups(),
        readout_table(config, lookup_tree, readout_tree).in_groups(),
        lookup_table(config, lookup_tree).fits(
            shape.vocab_size as usize,
            shape.model_dim as usize,
            shape.data_type,
        ),
        readout_table(config, lookup_tree, readout_tree).fits(
            shape.vocab_size as usize,
            shape.model_dim as usize,
            shape.data_type,
        ),
    ensures
        shape.outcome(context, config, lookup_tree, readout_tree).1 == Err::<Embedding, EmbeddingErrorView>(
            EmbeddingError::UnsupportedConfiguration(UnsupportedEmbedding::LogitSoftCap(bound)),
        ),
{
    if config is TiedEmbeddingConfig {
        tied_tables_load(context, lookup_tree, shape);
    } else {
        untied_tables_load(context, lookup_tree, shape);
        let (middle, _) = shape.lookup_outcome(context, lookup_tree);
        shape.lookup_follows(context, lookup_tree);
        readout_tables_load(middle, readout_tree, shape);
    }
}

} // verus!
