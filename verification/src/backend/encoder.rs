//! The record of what a device has to run.

use vstd::prelude::*;

use crate::backend::types::{Allocation, DeviceError, Fault, Kernel};
use crate::data_type::{DataType, F32Bits};

verus! {

/// What a matrix product is added to.
#[derive(Clone, Copy, Debug, PartialEq, Eq, Structural)]
pub enum MatmulArgumentC {
    Nothing,
    /// What the destination holds.
    Accumulate,
    /// The same row everywhere.
    Bias(Allocation),
}

/// The arguments of a matrix product.
#[derive(Clone, Copy, Debug, PartialEq, Eq, Structural)]
pub struct MatmulArguments {
    pub a: Allocation,
    pub a_offset: usize,
    pub b: Allocation,
    pub b_offset: usize,
    pub b_leading_dimension: Option<u32>,
    pub b_transpose: bool,
    pub ab_scale: F32Bits,
    pub c: MatmulArgumentC,
    pub d: Allocation,
    pub batch_dim: u32,
    pub input_dim: u32,
    pub output_dim: u32,
}

/// The arguments of a product with a quantized matrix.
#[derive(Clone, Copy, Debug, PartialEq, Eq, Structural)]
pub struct QuantizedMatmulArguments {
    pub a: Allocation,
    pub a_offset: usize,
    pub b: Allocation,
    pub scales: Allocation,
    pub zero_points_or_biases: Allocation,
    pub output: Allocation,
    pub hadamard_factors: Option<Allocation>,
    pub batch_dim: usize,
}

/// Something that a device has to do while a model runs.
#[derive(Clone, Copy, Debug, PartialEq, Eq, Structural)]
#[allow(inconsistent_fields)]
pub enum Command {
    /// Create an allocation for a matrix; it lives as long as the commands do.
    AllocateScratch { rows: usize, columns: usize, data_type: DataType },
    /// Copy one allocation into another.
    Copy { from: Allocation, to: Allocation },
    Matmul { kernel: Kernel, arguments: MatmulArguments },
    QuantizedMatmul { kernel: Kernel, arguments: QuantizedMatmulArguments },
    /// Add a row to each row of `output`, which holds `length` elements.
    TensorAddBias {
        kernel: Kernel,
        input: Option<Allocation>,
        biases: Allocation,
        output: Allocation,
        columns: u32,
        length: u32,
    },
    /// Transform each row of `data` in place.
    HadamardTransform { kernel: Kernel, data: Allocation, factors: Allocation, columns: u32, rows: u32 },
    FullPrecisionEmbeddingLookup {
        kernel: Kernel,
        token_ids: Allocation,
        weights: Allocation,
        output: Allocation,
        batch_dim: u32,
        vocab_size: u32,
        model_dim: u32,
        input_scale: F32Bits,
    },
    QuantizedEmbeddingLookup {
        kernel: Kernel,
        token_ids: Allocation,
        weights: Allocation,
        scales: Allocation,
        zero_points: Option<Allocation>,
        biases: Option<Allocation>,
        output: Allocation,
        hadamard_factors: Option<Allocation>,
        batch_dim: u32,
        vocab_size: u32,
        model_dim: u32,
        input_scale: F32Bits,
    },
}

impl Command {
    /// The allocation that the command writes to.
    pub open spec fn written(self) -> Option<Allocation> {
        match self {
            Command::AllocateScratch { .. } => None,
            Command::Copy { to, .. } => Some(to),
            Command::Matmul { arguments, .. } => Some(arguments.d),
            Command::QuantizedMatmul { arguments, .. } => Some(arguments.output),
            Command::TensorAddBias { output, .. } => Some(output),
            Command::HadamardTransform { data, .. } => Some(data),
            Command::FullPrecisionEmbeddingLookup { output, .. } => Some(output),
            Command::QuantizedEmbeddingLookup { output, .. } => Some(output),
        }
    }
}

/// Whether an allocation is created by one of the first `n` commands of a plan whose
/// first command has the number `start`.
pub open spec fn allocated_within(plan: Seq<Command>, start: int, n: int, allocation: Allocation) -> bool {
    allocation matches Allocation::Scratch(number) && start <= number < start + n && n <= plan.len()
        && plan[number - start] is AllocateScratch
}

/// The commands for a device, in order. A device can refuse none of them but
/// the creation of an allocation; the fault names the one that it refused.
pub struct Encoder {
    pub commands: Vec<Command>,
    pub fault: Option<Fault>,
}

/// The commands of an [`Encoder`] and the one that was refused.
#[verifier::ext_equal]
pub struct EncoderView {
    pub commands: Seq<Command>,
    pub fault: Option<Fault>,
}

impl View for Encoder {
    type V = EncoderView;

    open spec fn view(&self) -> EncoderView {
        EncoderView { commands: self.commands@, fault: self.fault }
    }
}

impl EncoderView {
    /// Whether one of the next commands is refused: an allocation with the
    /// fault's number.
    pub open spec fn refuses(self, plan: Seq<Command>) -> bool {
        match self.fault {
            Some(fault) => {
                let at = fault.at - self.commands.len();
                0 <= at < plan.len() && plan[at] is AllocateScratch
            },
            None => false,
        }
    }

    /// The encoder after the next commands: all of them, or those up to the one
    /// that is refused.
    pub open spec fn emit(self, plan: Seq<Command>) -> EncoderView {
        let emitted = if self.refuses(plan) {
            plan.take(self.fault->0.at - self.commands.len() + 1)
        } else {
            plan
        };
        EncoderView { commands: self.commands + emitted, fault: self.fault }
    }

    /// What comes of the next commands: their output, or the error reported.
    pub open spec fn answer(self, plan: Seq<Command>, output: Allocation) -> Result<Allocation, DeviceError> {
        if self.refuses(plan) {
            Err(self.fault->0.error)
        } else {
            Ok(output)
        }
    }

    /// The number of the next command.
    pub open spec fn next(self) -> int {
        self.commands.len() as int
    }
}

/// Commands come to the same whether they are given at once or one part after
/// the other: the second part is dropped where the first is refused.
pub proof fn emit_in_parts(encoder: EncoderView, first: Seq<Command>, second: Seq<Command>)
    ensures
        encoder.refuses(first) ==> {
            &&& encoder.refuses(first + second)
            &&& encoder.emit(first + second) == encoder.emit(first)
        },
        !encoder.refuses(first) ==> {
            &&& encoder.refuses(first + second) == encoder.emit(first).refuses(second)
            &&& encoder.emit(first + second) == encoder.emit(first).emit(second)
        },
{
    if encoder.refuses(first) {
        let n = encoder.fault->0.at - encoder.commands.len() + 1;
        assert((first + second)[n - 1] == first[n - 1]);
        assert((first + second).take(n) =~= first.take(n));
    } else {
        let middle = encoder.emit(first);
        match encoder.fault {
            Some(fault) => {
                let at = fault.at - encoder.commands.len();
                if first.len() <= at < first.len() + second.len() {
                    assert((first + second)[at] == second[at - first.len()]);
                } else if 0 <= at < first.len() {
                    assert((first + second)[at] == first[at]);
                }
                if middle.refuses(second) {
                    assert((first + second).take(at + 1) =~= first + second.take(at - first.len() + 1));
                }
            },
            None => {},
        }
        assert(encoder.emit(first + second).commands =~= middle.emit(second).commands);
    }
}

/// Commands keep those that were given before. Where one is refused, it is the last
/// one given; where none is, all of them are.
pub proof fn nothing_is_run_after_a_refusal(encoder: EncoderView, plan: Seq<Command>)
    ensures
        encoder.commands.is_prefix_of(encoder.emit(plan).commands),
        encoder.emit(plan).fault == encoder.fault,
        encoder.refuses(plan) ==> {
            let after = encoder.emit(plan).commands;
            &&& after.len() == encoder.fault->0.at + 1
            &&& after.last() is AllocateScratch
            &&& after.is_prefix_of(encoder.commands + plan)
        },
        !encoder.refuses(plan) ==> encoder.emit(plan).commands == encoder.commands + plan,
{
    let after = encoder.emit(plan).commands;
    assert(after.take(encoder.commands.len() as int) =~= encoder.commands);
    if encoder.refuses(plan) {
        assert((encoder.commands + plan).take(after.len() as int) =~= after);
    }
}

/// All commands are given, and their output is answered, unless an allocation among them is
/// refused: the error is then what was reported.
pub proof fn commands_are_answered(encoder: EncoderView, plan: Seq<Command>, output: Allocation)
    ensures
        ({
            let refused = match encoder.fault {
                Some(fault) => encoder.commands.len() <= fault.at < encoder.commands.len() + plan.len()
                    && plan[fault.at - encoder.commands.len()] is AllocateScratch,
                None => false,
            };
            &&& refused ==> encoder.answer(plan, output) == Err::<Allocation, DeviceError>(
                encoder.fault->0.error,
            )
            &&& refused ==> encoder.emit(plan).commands.len() == encoder.fault->0.at + 1
            &&& !refused ==> encoder.answer(plan, output) == Ok::<Allocation, DeviceError>(output)
            &&& !refused ==> encoder.emit(plan).commands == encoder.commands + plan
            &&& encoder.emit(plan).fault == encoder.fault
            &&& encoder.next() == encoder.commands.len()
        }),
{
}

impl Encoder {
    /// Creates an encoder in which nothing is refused.
    pub fn new() -> (res: Encoder)
        ensures
            res@ == (EncoderView { commands: Seq::empty(), fault: None }),
    {
        Encoder { commands: Vec::new(), fault: None }
    }

    /// Creates an encoder in which the allocation with the fault's number is
    /// refused.
    pub fn with_fault(fault: Fault) -> (res: Encoder)
        ensures
            res@ == (EncoderView { commands: Seq::empty(), fault: Some(fault) }),
    {
        Encoder { commands: Vec::new(), fault: Some(fault) }
    }

    /// Asks for an allocation for a matrix.
    pub fn allocate_scratch(&mut self, rows: usize, columns: usize, data_type: DataType) -> (res: Result<
        Allocation,
        DeviceError,
    >)
        ensures
            ({
                let plan = seq![Command::AllocateScratch { rows, columns, data_type }];
                &&& final(self)@ == old(self)@.emit(plan)
                &&& res == old(self)@.answer(plan, Allocation::Scratch(old(self)@.next() as usize))
            }),
    {
        let ghost plan = seq![Command::AllocateScratch { rows, columns, data_type }];
        let ghost before = self@;
        let number: usize = self.commands.len();
        self.commands.push(Command::AllocateScratch { rows, columns, data_type });
        assert(plan.take(1) =~= plan);
        assert(self@.commands =~= before.commands + plan);
        match self.fault {
            Some(fault) => if fault.at == number {
                Err(fault.error)
            } else {
                Ok(Allocation::Scratch(number))
            },
            None => Ok(Allocation::Scratch(number)),
        }
    }

    /// Adds a command that cannot be refused.
    pub fn record(&mut self, command: Command)
        requires
            !(command is AllocateScratch),
        ensures
            !old(self)@.refuses(seq![command]),
            final(self)@ == old(self)@.emit(seq![command]),
    {
        let ghost before = self@;
        self.commands.push(command);
        assert(self@.commands =~= before.commands + seq![command]);
    }
}

} // verus!
