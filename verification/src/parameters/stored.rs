//! What a weights file holds under a name.

use vstd::prelude::*;

use crate::backend::context::{ContextView, Request, RequestView};
use crate::backend::machine::{kernel_of, loaded, Value};
use crate::backend::types::{Allocation, DeviceError, Kernel, KernelRequest};
use crate::data_type::DataType;
use crate::parameters::loader::{
    conforms, is_index_of, mismatch, LoaderErrorView, ParameterLoaderError, ParameterMetadata,
    TensorInfo, TreeView,
};
use crate::parameters::manifest::{
    is_made_by, later_steps_follow, later_steps_make, outcome, outcome_from, step_follows,
    step_outcome, LoadFailure, LoadFailureView, StepView,
};
use crate::weight_matrix::AnyWeightMatrixSpec;

verus! {

/// The name of something in a tree, from the root on: names are told apart by dots.
pub open spec fn full_name(tree: TreeView, name: Seq<char>) -> Seq<char> {
    match tree.prefix {
        Some(prefix) => prefix + seq!['.'] + name,
        None => name,
    }
}

/// The tree below a name.
pub open spec fn below(tree: TreeView, name: Seq<char>) -> TreeView {
    TreeView { loader: tree.loader, prefix: Some(full_name(tree, name)) }
}

/// Whether there is a tensor with the name, of the given shape and type.
pub open spec fn is_stored(tree: TreeView, name: Seq<char>, shape: Seq<usize>, data_type: DataType) -> bool {
    let key = full_name(tree, name);
    &&& tree.loader.index.contains_key(key)
    &&& tree.loader.index[key].shape@ == shape
    &&& tree.loader.index[key].data_type == data_type
}

/// The contents of the tensor with the name.
pub open spec fn contents(tree: TreeView, name: Seq<char>) -> Value {
    let entry = tree.loader.index[full_name(tree, name)];
    Value::Stored { file: tree.loader.file, offset: entry.offset, length: entry.size }
}

/// Trees are walked by full names.
pub proof fn names_are_full(tree: TreeView, name: Seq<char>)
    ensures
        tree.key(name) == full_name(tree, name),
        tree.child(name) == below(tree, name),
{
    if let Some(prefix) = tree.prefix {
        assert(tree.key(name) =~= prefix + seq!['.'] + name);
    }
}

/// Whether an allocation was filled with the tensor with the name, which has the given
/// shape and type.
pub open spec fn holds_tensor(
    requests: Seq<RequestView>,
    allocation: Allocation,
    tree: TreeView,
    name: Seq<char>,
    shape: Seq<usize>,
    data_type: DataType,
) -> bool {
    &&& is_stored(tree, name, shape, data_type)
    &&& allocation matches Allocation::Resident(number) && loaded(requests, number) == contents(tree, name)
}

/// What a step for a tensor made holds that tensor.
pub proof fn steps_fill(
    context: ContextView,
    tree: TreeView,
    name: Seq<char>,
    shape: Seq<usize>,
    data_type: DataType,
    number: usize,
)
    requires
        is_made_by(context, StepView::Tensor { tree, name, shape, data_type }, number),
    ensures
        holds_tensor(context.requests, Allocation::Resident(number), tree, name, shape, data_type),
{
    names_are_full(tree, name);
}

/// What a step for a kernel made is that kernel.
pub proof fn steps_create(context: ContextView, request: KernelRequest, number: usize)
    requires
        is_made_by(context, StepView::Kernel(request), number),
    ensures
        kernel_of(context.requests, Kernel { request: number }) == Some(request),
{
}

/// Whether a step can be taken where nothing is refused.
pub open spec fn is_there(step: StepView) -> bool {
    match step {
        StepView::Tensor { tree, name, shape, data_type } => is_stored(tree, name, shape, data_type),
        StepView::Kernel(_) => true,
    }
}

/// Where nothing is refused, a step is taken exactly where what it wants is stored. The
/// error tells whether there is no such tensor, or what it is instead.
proof fn steps_take_what_is_stored(context: ContextView, step: StepView)
    requires
        context.fault is None,
    ensures
        step_outcome(context, step).0.fault is None,
        step_outcome(context, step).1 is Ok <==> is_there(step),
        !is_there(step) ==> step_outcome(context, step).1 == Err::<usize, LoadFailureView>(
            LoadFailure::Parameter(what_is_wrong(step)),
        ),
{
    if let StepView::Tensor { tree, name, .. } = step {
        names_are_full(tree, name);
    }
}

/// What is wrong with the tensor that a step wants: that there is none, or that it has
/// another shape or type.
pub open spec fn what_is_wrong(step: StepView) -> LoaderErrorView {
    let (tree, name) = (step->tree, step->name);
    let key = full_name(tree, name);
    if tree.loader.index.contains_key(key) {
        ParameterLoaderError::InvalidTensor {
            shape: tree.loader.index[key].shape@,
            data_type: tree.loader.index[key].data_type,
            expected_shape: step->shape,
            expected_data_type: step->data_type,
        }
    } else {
        ParameterLoaderError::KeyNotFound(key)
    }
}

/// Whether a step is the first of a list that cannot be taken.
pub open spec fn is_first_missing(steps: Seq<StepView>, i: int) -> bool {
    &&& 0 <= i < steps.len()
    &&& !is_there(steps[i])
    &&& forall|j: int| 0 <= j < i ==> is_there(#[trigger] steps[j])
}

proof fn later_steps_take_what_is_stored(
    context: ContextView,
    steps: Seq<StepView>,
    from: int,
    made: Seq<usize>,
)
    requires
        context.fault is None,
        0 <= from <= steps.len(),
        forall|j: int| 0 <= j < from ==> is_there(#[trigger] steps[j]),
    ensures
        ({
            let (_, taken) = outcome_from(context, steps, from, made);
            &&& taken is Ok <==> forall|i: int| 0 <= i < steps.len() ==> is_there(#[trigger] steps[i])
            &&& taken is Err ==> exists|i: int| #[trigger]
                is_first_missing(steps, i) && taken->Err_0 == LoadFailureView::Parameter(
                    what_is_wrong(steps[i]),
                )
        }),
    decreases steps.len() - from,
{
    if from < steps.len() {
        steps_take_what_is_stored(context, steps[from]);
        let (after, taken) = step_outcome(context, steps[from]);
        if taken is Ok {
            later_steps_take_what_is_stored(after, steps, from + 1, made.push(taken->Ok_0));
        } else {
            assert(is_first_missing(steps, from));
        }
    }
}

/// Where nothing is refused, the steps of a list are taken exactly where everything that
/// they want is stored. Otherwise the first that cannot be taken is named.
pub proof fn lists_take_what_is_stored(context: ContextView, steps: Seq<StepView>)
    requires
        context.fault is None,
    ensures
        ({
            let (_, taken) = outcome(context, steps);
            &&& taken is Ok <==> forall|i: int| 0 <= i < steps.len() ==> is_there(#[trigger] steps[i])
            &&& taken is Err ==> exists|i: int| #[trigger]
                is_first_missing(steps, i) && taken->Err_0 == LoadFailureView::Parameter(
                    what_is_wrong(steps[i]),
                )
        }),
{
    later_steps_take_what_is_stored(context, steps, 0, Seq::empty());
}

/// What a tree gives out stands under the full name: a tensor, a description, or the tree
/// below, which is there where some tensor's name begins with it.
pub proof fn trees_give_out_what_stands_under_full_names(tree: TreeView, name: Seq<char>)
    ensures
        ({
            let key = full_name(tree, name);
            let tensors = tree.loader.index;
            let descriptions = tree.loader.metadata;
            &&& tree.key(name) == key
            &&& tree.has_leaf(name) <==> tensors.contains_key(key)
            &&& tree.entry(name) == tensors[key]
            &&& tree.subtree(name) == if exists|other: Seq<char>| #[trigger]
                tensors.contains_key(other) && key.is_prefix_of(other) {
                Ok::<TreeView, LoaderErrorView>(below(tree, name))
            } else {
                Err(ParameterLoaderError::SubtreeNotFound(name))
            }
            &&& tree.metadata(name) == if descriptions.contains_key(key) {
                match descriptions[key] {
                    Ok(spec) => Ok::<AnyWeightMatrixSpec, LoaderErrorView>(spec),
                    Err(e) => Err(ParameterLoaderError::MetadataDeserializationError(e)),
                }
            } else {
                Err(ParameterLoaderError::KeyNotFound(key))
            }
        }),
{
    names_are_full(tree, name);
}

/// A tensor is admitted exactly where it has the shape and the type that are expected.
/// Otherwise both are reported, what it has and what was expected.
pub proof fn tensors_are_held_to_shape_and_type(
    metadata: ParameterMetadata,
    shape: Seq<usize>,
    data_type: DataType,
)
    ensures
        conforms(metadata, shape, data_type) <==> metadata.shape@ == shape && metadata.data_type == data_type,
        mismatch(metadata, shape, data_type) == (LoaderErrorView::InvalidTensor {
            shape: metadata.shape@,
            data_type: metadata.data_type,
            expected_shape: shape,
            expected_data_type: data_type,
        }),
{
}

/// A tensor that is stored as it should be is read whole, into an allocation of its size
/// that was created right before. Nothing is asked for otherwise. A refusal tells the
/// allocation from the file.
pub proof fn tensors_are_read_whole(
    tree: TreeView,
    context: ContextView,
    name: Seq<char>,
    shape: Seq<usize>,
    data_type: DataType,
)
    requires
        context.requests.len() + 2 <= usize::MAX,
    ensures
        ({
            let (after, loaded) = tree.load(context, name, shape, data_type);
            let entry = tree.loader.index[full_name(tree, name)];
            let n = context.requests.len() as int;
            let create = Request::<Seq<char>>::CreateAllocation { size: entry.size };
            let read = Request::<Seq<char>>::ReadFile {
                file: tree.loader.file,
                allocation: Allocation::Resident(n as usize),
                offset: entry.offset,
                length: entry.size,
            };
            let refused = |at: int| context.fault is Some && context.fault->0.at == at;
            &&& after.fault == context.fault
            &&& !is_stored(tree, name, shape, data_type) ==> after == context && loaded is Err && loaded->Err_0
                == what_is_wrong(StepView::Tensor { tree, name, shape, data_type })
            &&& is_stored(tree, name, shape, data_type) ==> if refused(n) {
                &&& after.requests == context.requests + seq![create]
                &&& loaded == Err::<Allocation, LoaderErrorView>(
                    ParameterLoaderError::BackendError(context.fault->0.error),
                )
            } else if refused(n + 1) {
                &&& after.requests == context.requests + seq![create, read]
                &&& loaded == Err::<Allocation, LoaderErrorView>(
                    ParameterLoaderError::ArrayLoadingError(context.fault->0.error),
                )
            } else {
                &&& after.requests == context.requests + seq![create, read]
                &&& loaded == Ok::<Allocation, LoaderErrorView>(Allocation::Resident(n as usize))
            }
        }),
{
    let (after, loaded) = tree.load(context, name, shape, data_type);
    let entry = tree.loader.index[full_name(tree, name)];
    let n = context.requests.len() as int;
    let create = Request::<Seq<char>>::CreateAllocation { size: entry.size };
    let read = Request::<Seq<char>>::ReadFile {
        file: tree.loader.file,
        allocation: Allocation::Resident(n as usize),
        offset: entry.offset,
        length: entry.size,
    };
    names_are_full(tree, name);
    assert(context.requests.push(create) =~= context.requests + seq![create]);
    assert(context.requests.push(create).push(read) =~= context.requests + seq![create, read]);
}

/// An index places every tensor behind the header, where the header says, and holds no
/// other.
pub proof fn tensors_stand_behind_the_header(
    index: Map<Seq<char>, ParameterMetadata>,
    header_length: int,
    tensors: Map<Seq<char>, TensorInfo>,
    key: Seq<char>,
)
    requires
        is_index_of(index, header_length, tensors),
    ensures
        index.contains_key(key) <==> tensors.contains_key(key),
        tensors.contains_key(key) ==> {
            let (begin, end) = tensors[key].data_offsets;
            &&& index[key].offset == header_length + begin
            &&& index[key].offset + index[key].size == header_length + end
            &&& index[key].shape@ == tensors[key].shape@
            &&& index[key].data_type == tensors[key].dtype
        },
{
    assert(index.dom().contains(key) <==> tensors.dom().contains(key));
}

/// Why a request of a list was refused, by what was asked for.
pub open spec fn refusal_of(request: RequestView, error: DeviceError) -> LoadFailureView {
    match request {
        Request::CreateAllocation { .. } => LoadFailure::Parameter(ParameterLoaderError::BackendError(error)),
        Request::CreateKernel(kernel) => LoadFailure::Kernel { request: kernel, error },
        _ => LoadFailure::Parameter(ParameterLoaderError::ArrayLoadingError(error)),
    }
}

/// Whether the last request that was made since a context was refused.
pub open spec fn ends_in_refusal(earlier: ContextView, later: ContextView) -> bool {
    earlier.fault is Some && earlier.requests.len() <= earlier.fault->0.at && earlier.fault->0.at
        == later.requests.len() - 1
}

proof fn later_steps_name_refusals(
    context: ContextView,
    steps: Seq<StepView>,
    from: int,
    made: Seq<usize>,
)
    requires
        0 <= from <= steps.len(),
    ensures
        ({
            let (after, taken) = outcome_from(context, steps, from, made);
            &&& context.requests.is_prefix_of(after.requests)
            &&& ends_in_refusal(context, after) ==> taken == Err::<Seq<usize>, LoadFailureView>(
                refusal_of(after.requests.last(), context.fault->0.error),
            )
        }),
    decreases steps.len() - from,
{
    assert(context.requests.take(context.requests.len() as int) =~= context.requests);
    if from < steps.len() {
        let (middle, taken) = step_outcome(context, steps[from]);
        step_follows(context, steps[from]);
        if let Ok(number) = taken {
            later_steps_name_refusals(middle, steps, from + 1, made.push(number));
            later_steps_follow(middle, steps, from + 1, made.push(number));
            let (after, _) = outcome_from(context, steps, from, made);
            assert(after.requests.take(middle.requests.len() as int) =~= middle.requests);
            assert(middle.requests.take(context.requests.len() as int) =~= context.requests);
            assert(after.requests.take(context.requests.len() as int) =~= context.requests);
        }
    }
}

/// Where one of the requests of a list is refused, the list ends with it, and the failure
/// tells what was asked for.
pub proof fn lists_name_refusals(context: ContextView, steps: Seq<StepView>)
    ensures
        ({
            let (after, taken) = outcome(context, steps);
            ends_in_refusal(context, after) ==> taken == Err::<Seq<usize>, LoadFailureView>(
                refusal_of(after.requests.last(), context.fault->0.error),
            )
        }),
{
    later_steps_name_refusals(context, steps, 0, Seq::empty());
}

/// What a list made was made by requests of its own.
pub proof fn lists_begin_behind(context: ContextView, steps: Seq<StepView>)
    requires
        outcome(context, steps).1 is Ok,
        outcome(context, steps).0.requests.len() <= usize::MAX,
    ensures
        forall|i: int|
            0 <= i < steps.len() ==> #[trigger] outcome(context, steps).1->Ok_0[i] >= context.requests.len(),
{
    later_steps_make(context, steps, 0, Seq::empty());
}

} // verus!
