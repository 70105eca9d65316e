//! What a device computes.
//!
//! The commands of an encoder are carried out on values that are formulas: what the
//! caller put into memory, what a weights file holds, and what is computed of them.
//! Laws say by these formulas what a list of commands is for.

use vstd::prelude::*;

use crate::backend::context::{Request, RequestView};
use crate::backend::encoder::{Command, MatmulArgumentC};
use crate::backend::types::{
    Allocation, FileId, HadamardTransformOrder, Kernel, KernelRequest, QuantizationMethod,
    QuantizationMode,
};
use crate::data_type::DataType;

verus! {

/// What a piece of device memory holds, as a formula.
pub enum Value {
    /// Nothing that a kernel is made for.
    Unknown,
    /// Something that the caller knows by a name of its own.
    Given(int),
    /// What a weights file holds.
    Stored { file: FileId, offset: usize, length: usize },
    /// A matrix to which nothing was written yet.
    Fresh { rows: int, columns: int, data_type: DataType },
    /// What something held when it was copied into a matrix.
    Copied { matrix: Box<Value>, rows: int, columns: int, data_type: DataType },
    /// The rows of a matrix, each multiplied by a stored matrix with a row for each column
    /// of the product.
    Product {
        factor: Box<Value>,
        matrix: Box<Matrix>,
        rows: int,
        columns: int,
        inner: int,
        data_type: DataType,
    },
    /// The sum of two matrices.
    Sum { first: Box<Value>, second: Box<Value> },
    /// A matrix with a row added to each of its rows.
    Biased { matrix: Box<Value>, row: Box<Value>, columns: int, length: int, data_type: DataType },
    /// A matrix, each row of which was transformed.
    Transformed {
        matrix: Box<Value>,
        signs: Box<Value>,
        order: HadamardTransformOrder,
        rows: int,
        columns: int,
        data_type: DataType,
    },
    /// A scaled row of a stored matrix for each token.
    LookedUp {
        tokens: Box<Value>,
        matrix: Box<Matrix>,
        count: int,
        vocabulary: int,
        columns: int,
        scale: u32,
        data_type: DataType,
    },
}

/// A matrix as it is stored.
pub enum Matrix {
    Plain { numbers: Value },
    /// Groups of small integers with a scale, and a bias or a zero point, for each group.
    Quantized {
        integers: Value,
        scales: Value,
        offsets: Value,
        bits: int,
        group_size: int,
        method: QuantizationMethod,
    },
}

/// What the memory of a device holds, where something was written to it.
pub type Memory = Map<Allocation, Value>;

/// The kernel that a handle stands for.
pub open spec fn kernel_of(requests: Seq<RequestView>, kernel: Kernel) -> Option<KernelRequest> {
    if kernel.request < requests.len() {
        match requests[kernel.request as int] {
            Request::CreateKernel(made) => Some(made),
            _ => None,
        }
    } else {
        None
    }
}

/// What was read into an allocation when it was created.
pub open spec fn loaded(requests: Seq<RequestView>, number: usize) -> Value {
    if number + 1 < requests.len() {
        match (requests[number as int], requests[number + 1]) {
            (Request::CreateAllocation { size }, Request::ReadFile { file, allocation, offset, length }) => {
                if allocation == Allocation::Resident(number) && length == size {
                    Value::Stored { file, offset, length }
                } else {
                    Value::Unknown
                }
            },
            _ => Value::Unknown,
        }
    } else {
        Value::Unknown
    }
}

/// What an allocation holds.
pub open spec fn read(requests: Seq<RequestView>, memory: Memory, allocation: Allocation) -> Value {
    if memory.contains_key(allocation) {
        memory[allocation]
    } else {
        match allocation {
            Allocation::Resident(number) => loaded(requests, number),
            _ => Value::Unknown,
        }
    }
}

/// How many bits a weight has.
pub open spec fn width(mode: QuantizationMode) -> int {
    match mode {
        QuantizationMode::U4 => 4,
        QuantizationMode::U8 => 8,
    }
}

/// A matrix with its rows transformed behind a product, where there are signs for that.
pub open spec fn behind(
    matrix: Value,
    signs: Option<Value>,
    rows: int,
    columns: int,
    data_type: DataType,
) -> Value {
    match signs {
        Some(signs) => Value::Transformed {
            matrix: Box::new(matrix),
            signs: Box::new(signs),
            order: HadamardTransformOrder::Output,
            rows,
            columns,
            data_type,
        },
        None => matrix,
    }
}

/// A matrix of `length` numbers with a row added to each of its rows, where there is one.
pub open spec fn with_row(
    matrix: Value,
    row: Option<Value>,
    columns: int,
    length: int,
    data_type: DataType,
) -> Value {
    match row {
        Some(row) => Value::Biased {
            matrix: Box::new(matrix),
            row: Box::new(row),
            columns,
            length,
            data_type,
        },
        None => matrix,
    }
}

/// The bits of the single-precision number one.
pub open spec fn one_bits() -> u32 {
    0x3f80_0000
}

/// What a command writes. A command that its kernel is not made for, or that does not fit
/// into the matrix it writes to, writes nothing that is known.
pub open spec fn written_value(requests: Seq<RequestView>, memory: Memory, command: Command) -> Value {
    match command {
        Command::AllocateScratch { rows, columns, data_type } => {
            Value::Fresh { rows: rows as int, columns: columns as int, data_type }
        },
        Command::Copy { from, to } => match read(requests, memory, to) {
            Value::Fresh { rows, columns, data_type } => Value::Copied {
                matrix: Box::new(read(requests, memory, from)),
                rows,
                columns,
                data_type,
            },
            _ => Value::Unknown,
        },
        Command::Matmul { kernel, arguments } => match kernel_of(requests, kernel) {
            Some(KernelRequest::Matmul { data_type }) => {
                let rows = arguments.batch_dim as int;
                let columns = arguments.output_dim as int;
                let product = Value::Product {
                    factor: Box::new(read(requests, memory, arguments.a)),
                    matrix: Box::new(Matrix::Plain { numbers: read(requests, memory, arguments.b) }),
                    rows,
                    columns,
                    inner: arguments.input_dim as int,
                    data_type,
                };
                let before = read(requests, memory, arguments.d);
                let fits = before == (Value::Fresh { rows, columns, data_type });
                if arguments.a_offset != 0 || arguments.b_offset != 0 || arguments.b_leading_dimension is Some
                    || !arguments.b_transpose || arguments.ab_scale.bits != one_bits() {
                    Value::Unknown
                } else {
                    match arguments.c {
                        MatmulArgumentC::Nothing => if fits {
                            product
                        } else {
                            Value::Unknown
                        },
                        MatmulArgumentC::Accumulate => Value::Sum {
                            first: Box::new(before),
                            second: Box::new(product),
                        },
                        MatmulArgumentC::Bias(row) => if fits {
                            let row = read(requests, memory, row);
                            with_row(product, Some(row), columns, rows * columns, data_type)
                        } else {
                            Value::Unknown
                        },
                    }
                }
            },
            _ => Value::Unknown,
        },
        Command::QuantizedMatmul { kernel, arguments } => match kernel_of(requests, kernel) {
            Some(KernelRequest::QuantizedMatmul(made)) => {
                let rows = arguments.batch_dim as int;
                let columns = made.output_dim as int;
                let data_type = made.data_type;
                let product = Value::Product {
                    factor: Box::new(read(requests, memory, arguments.a)),
                    matrix: Box::new(
                        Matrix::Quantized {
                            integers: read(requests, memory, arguments.b),
                            scales: read(requests, memory, arguments.scales),
                            offsets: read(requests, memory, arguments.zero_points_or_biases),
                            bits: width(made.mode),
                            group_size: made.group_size as int,
                            method: made.quantization_method,
                        },
                    ),
                    rows,
                    columns,
                    inner: made.input_dim as int,
                    data_type,
                };
                let before = read(requests, memory, arguments.output);
                let fits = before == (Value::Fresh { rows, columns, data_type });
                if arguments.a_offset != 0 || !fits || made.use_hadamard != arguments.hadamard_factors is Some {
                    Value::Unknown
                } else {
                    let signs = match arguments.hadamard_factors {
                        Some(factors) => Some(read(requests, memory, factors)),
                        None => None,
                    };
                    behind(product, signs, rows, columns, data_type)
                }
            },
            _ => Value::Unknown,
        },
        Command::TensorAddBias { kernel, input, biases, output, columns, length } => match kernel_of(
            requests,
            kernel,
        ) {
            Some(KernelRequest::TensorAddBias { data_type, in_place }) => if in_place && input is None {
                with_row(
                    read(requests, memory, output),
                    Some(read(requests, memory, biases)),
                    columns as int,
                    length as int,
                    data_type,
                )
            } else {
                Value::Unknown
            },
            _ => Value::Unknown,
        },
        Command::HadamardTransform { kernel, data, factors, columns, rows } => match kernel_of(
            requests,
            kernel,
        ) {
            Some(KernelRequest::HadamardTransform { data_type, order }) => Value::Transformed {
                matrix: Box::new(read(requests, memory, data)),
                signs: Box::new(read(requests, memory, factors)),
                order,
                rows: rows as int,
                columns: columns as int,
                data_type,
            },
            _ => Value::Unknown,
        },
        Command::FullPrecisionEmbeddingLookup {
            kernel,
            token_ids,
            weights,
            output,
            batch_dim,
            vocab_size,
            model_dim,
            input_scale,
        } => match kernel_of(requests, kernel) {
            Some(KernelRequest::FullPrecisionEmbeddingLookup { data_type }) => {
                let (count, columns) = (batch_dim as int, model_dim as int);
                if read(requests, memory, output) == (Value::Fresh { rows: count, columns, data_type }) {
                    Value::LookedUp {
                        tokens: Box::new(read(requests, memory, token_ids)),
                        matrix: Box::new(Matrix::Plain { numbers: read(requests, memory, weights) }),
                        count,
                        vocabulary: vocab_size as int,
                        columns,
                        scale: input_scale.bits,
                        data_type,
                    }
                } else {
                    Value::Unknown
                }
            },
            _ => Value::Unknown,
        },
        Command::QuantizedEmbeddingLookup {
            kernel,
            token_ids,
            weights,
            scales,
            zero_points,
            biases,
            output,
            hadamard_factors,
            batch_dim,
            vocab_size,
            model_dim,
            input_scale,
        } => match kernel_of(requests, kernel) {
            Some(
                KernelRequest::QuantizedEmbeddingLookup {
                    data_type,
                    group_size,
                    mode,
                    quantization_method,
                    use_hadamard,
                },
            ) => {
                let (count, columns) = (batch_dim as int, model_dim as int);
                let offsets = match (quantization_method, zero_points, biases) {
                    (QuantizationMethod::ScaleBias, None, Some(biases)) => Some(biases),
                    (QuantizationMethod::ScaleZeroPoint, Some(zero_points), None) => Some(zero_points),
                    _ => None,
                };
                if read(requests, memory, output) == (Value::Fresh { rows: count, columns, data_type })
                    && offsets is Some && use_hadamard == hadamard_factors is Some {
                    let vectors = Value::LookedUp {
                        tokens: Box::new(read(requests, memory, token_ids)),
                        matrix: Box::new(
                            Matrix::Quantized {
                                integers: read(requests, memory, weights),
                                scales: read(requests, memory, scales),
                                offsets: read(requests, memory, offsets->0),
                                bits: width(mode),
                                group_size: group_size as int,
                                method: quantization_method,
                            },
                        ),
                        count,
                        vocabulary: vocab_size as int,
                        columns,
                        scale: input_scale.bits,
                        data_type,
                    };
                    let signs = match hadamard_factors {
                        Some(factors) => Some(read(requests, memory, factors)),
                        None => None,
                    };
                    behind(vectors, signs, count, columns, data_type)
                } else {
                    Value::Unknown
                }
            },
            _ => Value::Unknown,
        },
    }
}

/// Where a command with a number writes.
pub open spec fn target(command: Command, number: int) -> Allocation {
    match command {
        Command::AllocateScratch { .. } => Allocation::Scratch(number as usize),
        Command::Copy { to, .. } => to,
        Command::Matmul { arguments, .. } => arguments.d,
        Command::QuantizedMatmul { arguments, .. } => arguments.output,
        Command::TensorAddBias { output, .. } => output,
        Command::HadamardTransform { data, .. } => data,
        Command::FullPrecisionEmbeddingLookup { output, .. } => output,
        Command::QuantizedEmbeddingLookup { output, .. } => output,
    }
}

/// The memory after the first `n` commands of a plan whose first one has the number
/// `start`, where the requests were carried out before.
pub open spec fn run(
    requests: Seq<RequestView>,
    memory: Memory,
    plan: Seq<Command>,
    start: int,
    n: int,
) -> Memory
    decreases n,
{
    if n <= 0 {
        memory
    } else {
        let before = run(requests, memory, plan, start, n - 1);
        let command = plan[n - 1];
        before.insert(target(command, start + n - 1), written_value(requests, before, command))
    }
}

/// What an allocation holds after all commands of a plan.
pub open spec fn computed(
    requests: Seq<RequestView>,
    memory: Memory,
    plan: Seq<Command>,
    start: int,
    allocation: Allocation,
) -> Value {
    read(requests, run(requests, memory, plan, start, plan.len() as int), allocation)
}

/// Whether memory that was loaded holds what was read into it, and a piece of memory was
/// there before the commands from `start` on.
pub open spec fn is_before(memory: Memory, input: Allocation, start: int) -> bool {
    &&& forall|number: usize| !#[trigger] memory.contains_key(Allocation::Resident(number))
    &&& memory.contains_key(input)
    &&& match input {
        Allocation::Scratch(number) => number < start,
        Allocation::Bound(_) => true,
        Allocation::Resident(_) => false,
    }
}

} // verus!
