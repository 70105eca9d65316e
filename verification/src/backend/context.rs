//! The record of what is asked of a device while a model is loaded.

use vstd::prelude::*;

use crate::backend::types::{Allocation, DeviceError, Fault, FileId, KernelRequest};
use crate::data_type::DataType;
use crate::forward_pass::config::TransformerForwardPassConfig;
use crate::text::option_text;

verus! {

/// Where a tree of parameters stands.
#[derive(Debug, PartialEq, Eq)]
pub struct TreeLocation<Name = String> {
    pub file: FileId,
    pub prefix: Option<Name>,
}

/// A [`TreeLocation`] with its prefix as a sequence.
pub type TreeLocationView = TreeLocation<Seq<char>>;

impl View for TreeLocation {
    type V = TreeLocationView;

    open spec fn view(&self) -> TreeLocationView {
        TreeLocation { file: self.file, prefix: option_text(self.prefix) }
    }
}

/// Which normalization of a classifier is meant.
#[derive(Clone, Copy, Debug, PartialEq, Eq, Structural)]
pub enum NormalizationRole {
    Output,
    Embedding,
    PredictionHead,
}

/// Something that a device has to do while a model is loaded.
#[derive(Debug, PartialEq, Eq)]
#[allow(inconsistent_fields)]
pub enum Request<Name = String> {
    /// Open the device.
    OpenDevice,
    /// Create an allocation of this many bytes that lives as long as the model.
    CreateAllocation { size: usize },
    /// Fill an allocation with the bytes of the file from `offset` on.
    ReadFile { file: FileId, allocation: Allocation, offset: usize, length: usize },
    /// Create a kernel.
    CreateKernel(KernelRequest),
    /// Create an allocation for this many elements, whatever they hold.
    CreateArray { length: usize, data_type: DataType },
    /// Create the cosines and sines for rotating heads.
    CreateRopeBuffers { max_sequence_length: usize, head_dim: usize, data_type: DataType },
    /// Fill rope buffers with those that a tree holds under a number.
    UpdateRopeBuffers { buffers: usize, tree: TreeLocation<Name>, index: usize },
    /// Create what rotates heads.
    CreateRope { data_type: DataType, rope_data_type: DataType },
    /// Create what takes queries and keys apart.
    CreateQkUnpack { data_type: DataType },
    /// Create a normalization and load its parameters.
    CreateNormalization {
        role: NormalizationRole,
        data_type: DataType,
        model_dim: usize,
        accumulation_data_type: DataType,
        tree: TreeLocation<Name>,
    },
    /// Create a layer of a classifier and load its parameters.
    CreateClassifierLayer {
        index: usize,
        tree: TreeLocation<Name>,
        rope: usize,
        qk_unpack: usize,
        forward_pass_config: TransformerForwardPassConfig,
        data_type: DataType,
        weights_data_type: DataType,
    },
    /// Create what makes one vector of those of a text.
    CreatePooling { data_type: DataType, model_dim: usize },
    /// Create what stands between the two linear maps of a prediction head.
    CreatePredictionHead { data_type: DataType, model_dim: usize },
}

/// A [`Request`] with its text as sequences.
pub type RequestView = Request<Seq<char>>;

impl View for Request {
    type V = RequestView;

    open spec fn view(&self) -> RequestView {
        match *self {
            Request::OpenDevice => Request::OpenDevice,
            Request::CreateAllocation { size } => Request::CreateAllocation { size },
            Request::ReadFile { file, allocation, offset, length } => {
                Request::ReadFile { file, allocation, offset, length }
            },
            Request::CreateKernel(kernel) => Request::CreateKernel(kernel),
            Request::CreateArray { length, data_type } => Request::CreateArray { length, data_type },
            Request::CreateRopeBuffers { max_sequence_length, head_dim, data_type } => {
                Request::CreateRopeBuffers { max_sequence_length, head_dim, data_type }
            },
            Request::UpdateRopeBuffers { buffers, tree, index } => {
                Request::UpdateRopeBuffers { buffers, tree: tree@, index }
            },
            Request::CreateRope { data_type, rope_data_type } => {
                Request::CreateRope { data_type, rope_data_type }
            },
            Request::CreateQkUnpack { data_type } => Request::CreateQkUnpack { data_type },
            Request::CreateNormalization { role, data_type, model_dim, accumulation_data_type, tree } => {
                Request::CreateNormalization {
                    role,
                    data_type,
                    model_dim,
                    accumulation_data_type,
                    tree: tree@,
                }
            },
            Request::CreateClassifierLayer {
                index,
                tree,
                rope,
                qk_unpack,
                forward_pass_config,
                data_type,
                weights_data_type,
            } => Request::CreateClassifierLayer {
                index,
                tree: tree@,
                rope,
                qk_unpack,
                forward_pass_config,
                data_type,
                weights_data_type,
            },
            Request::CreatePooling { data_type, model_dim } => Request::CreatePooling { data_type, model_dim },
            Request::CreatePredictionHead { data_type, model_dim } => {
                Request::CreatePredictionHead { data_type, model_dim }
            },
        }
    }
}

/// The requests made of a device, in order. A request that is recorded is taken
/// to be carried out, except for the one that the fault names.
pub struct Context {
    pub requests: Vec<Request>,
    pub fault: Option<Fault>,
}

/// The requests of a [`Context`] and the one that was refused.
#[verifier::ext_equal]
pub struct ContextView {
    pub requests: Seq<RequestView>,
    pub fault: Option<Fault>,
}

impl View for Context {
    type V = ContextView;

    open spec fn view(&self) -> ContextView {
        ContextView {
            requests: self.requests@.map_values(|request: Request| request@),
            fault: self.fault,
        }
    }
}

impl ContextView {
    /// The context after one more request.
    pub open spec fn record(self, request: RequestView) -> ContextView {
        ContextView { requests: self.requests.push(request), fault: self.fault }
    }

    /// What comes of the next request: its number, or the error reported.
    pub open spec fn answer(self) -> Result<usize, DeviceError> {
        match self.fault {
            Some(fault) => if fault.at == self.requests.len() {
                Err(fault.error)
            } else {
                Ok(self.requests.len() as usize)
            },
            None => Ok(self.requests.len() as usize),
        }
    }
}

impl ContextView {
    /// Whether this context comes of `earlier` by making more requests, the last of
    /// them refused or none, as `refused` says: nothing is asked after a refusal.
    pub open spec fn follows(self, earlier: ContextView, refused: bool) -> bool {
        &&& earlier.requests.is_prefix_of(self.requests)
        &&& self.fault == earlier.fault
        &&& refused == match self.fault {
            Some(fault) => earlier.requests.len() <= fault.at < self.requests.len(),
            None => false,
        }
        &&& refused ==> self.fault->0.at == self.requests.len() - 1
    }
}

/// What follows a context from which nothing was refused also follows the contexts
/// before that.
pub proof fn follows_in_parts(first: ContextView, second: ContextView, third: ContextView, refused: bool)
    requires
        second.follows(first, false),
        third.follows(second, refused),
    ensures
        third.follows(first, refused),
{
    assert(first.requests =~= third.requests.take(first.requests.len() as int)) by {
        assert(second.requests.take(first.requests.len() as int) =~= first.requests);
        assert(third.requests.take(second.requests.len() as int) =~= second.requests);
        assert forall|i: int| 0 <= i < first.requests.len() implies first.requests[i] == third.requests[i] by {
            assert(second.requests[i] == first.requests[i]);
            assert(third.requests[i] == second.requests[i]);
        }
    }
    assert(first.requests.is_prefix_of(third.requests));
}

/// One request follows: it is refused where the answer is an error.
pub proof fn a_request_follows(context: ContextView, request: RequestView)
    ensures
        context.record(request).follows(context, context.answer() is Err),
{
    assert(context.record(request).requests.take(context.requests.len() as int) =~= context.requests);
}

/// A request is put behind those before, and is answered with its number, unless it is the
/// one that is refused: the error is then what was reported.
pub proof fn requests_are_answered(context: ContextView, request: RequestView)
    ensures
        context.record(request).requests == context.requests + seq![request],
        context.record(request).fault == context.fault,
        context.fault is Some && context.fault->0.at == context.requests.len() ==> context.answer() == Err::<
            usize,
            DeviceError,
        >(context.fault->0.error),
        !(context.fault is Some && context.fault->0.at == context.requests.len()) ==> context.answer() == Ok::<
            usize,
            DeviceError,
        >(context.requests.len() as usize),
{
    assert(context.requests.push(request) =~= context.requests + seq![request]);
}

impl ContextView {
    /// The same requests, with a fault.
    pub open spec fn with(self, fault: Fault) -> ContextView {
        ContextView { requests: self.requests, fault: Some(fault) }
    }
}

/// Whether a run with a fault is the run without one up to the refused request: it
/// asks for the same and comes to the same, or it ends with that request in an error.
pub open spec fn replays<T, E>(
    plain: (ContextView, Result<T, E>),
    faulty: (ContextView, Result<T, E>),
    fault: Fault,
) -> bool {
    &&& plain.0.fault is None
    &&& faulty.0.fault == Some(fault)
    &&& {
        ||| faulty == (plain.0.with(fault), plain.1)
        ||| faulty.0.is_cut(plain.0, fault) && faulty.1 is Err
    }
}

impl ContextView {
    /// Whether this context holds the requests of another one up to the refused one.
    pub open spec fn is_cut(self, whole: ContextView, fault: Fault) -> bool {
        fault.at < whole.requests.len() && self.requests == whole.requests.take(fault.at + 1)
    }
}

/// What is cut short stays so where the run without a fault goes on.
pub proof fn cut_stays(cut: ContextView, earlier: ContextView, later: ContextView, fault: Fault)
    requires
        cut.is_cut(earlier, fault),
        earlier.requests.is_prefix_of(later.requests),
    ensures
        cut.is_cut(later, fault),
{
    assert(later.requests.take(fault.at + 1) =~= earlier.requests.take(fault.at + 1));
}

/// A request that is refused cuts the run short.
pub proof fn a_request_replays(context: ContextView, request: RequestView, fault: Fault)
    requires
        context.fault is None,
    ensures
        context.with(fault).answer() is Err ==> context.with(fault).record(request).is_cut(
            context.record(request),
            fault,
        ),
        context.with(fault).answer() is Ok ==> context.with(fault).answer() == context.answer(),
        context.with(fault).record(request) == context.record(request).with(fault),
{
    let after = context.record(request);
    assert(after.requests.take(after.requests.len() as int) =~= after.requests);
}

impl Context {
    /// Creates a context in which nothing is refused.
    pub fn new() -> (res: Context)
        ensures
            res@ == (ContextView { requests: Seq::empty(), fault: None }),
    {
        let requests: Vec<Request> = Vec::new();
        assert(requests@.map_values(|request: Request| request@) =~= Seq::empty());
        Context { requests, fault: None }
    }

    /// Creates a context in which the request with the fault's number is
    /// refused.
    pub fn with_fault(fault: Fault) -> (res: Context)
        ensures
            res@ == (ContextView { requests: Seq::empty(), fault: Some(fault) }),
    {
        let requests: Vec<Request> = Vec::new();
        assert(requests@.map_values(|request: Request| request@) =~= Seq::empty());
        Context { requests, fault: Some(fault) }
    }

    /// Makes a request that is not refused, and gives its number back.
    pub fn record(&mut self, request: Request) -> (res: usize)
        ensures
            final(self)@ == old(self)@.record(request@),
            res == old(self)@.requests.len(),
    {
        let ghost before = self@;
        let number: usize = self.requests.len();
        self.requests.push(request);
        assert(self@.requests =~= before.requests.push(request@));
        number
    }

    /// Makes a request, and gives its number back where it is not refused.
    pub fn issue(&mut self, request: Request) -> (res: Result<usize, DeviceError>)
        ensures
            final(self)@ == old(self)@.record(request@),
            res == old(self)@.answer(),
    {
        let number: usize = self.record(request);
        match self.fault {
            Some(fault) => if fault.at == number {
                Err(fault.error)
            } else {
                Ok(number)
            },
            None => Ok(number),
        }
    }
}

} // verus!
