//! Lists of the tensors and kernels that a part of a model is made of.

use vstd::prelude::*;

use crate::backend::context::{
    a_request_follows, a_request_replays, cut_stays, follows_in_parts, replays, Context, ContextView,
    Request,
};
use crate::backend::types::{Allocation, DeviceError, Fault, KernelRequest};
use crate::data_type::DataType;
use crate::parameters::loader::{
    conforms, load_follows, load_replays, ParameterLoaderError, ParameterTree, TreeView,
};

verus! {

/// One thing to be had before a part of a model is complete.
pub enum Step<'tree> {
    /// A tensor, in an allocation of its own.
    Tensor {
        tree: &'tree ParameterTree<'tree>,
        name: &'static str,
        shape: Vec<usize>,
        data_type: DataType,
    },
    /// A kernel.
    Kernel(KernelRequest),
}

/// A [`Step`] with its tree, text and shape taken by their views.
pub enum StepView {
    Tensor { tree: TreeView, name: Seq<char>, shape: Seq<usize>, data_type: DataType },
    Kernel(KernelRequest),
}

impl<'tree> View for Step<'tree> {
    type V = StepView;

    open spec fn view(&self) -> StepView {
        match self {
            Step::Tensor { tree, name, shape, data_type } => StepView::Tensor {
                tree: tree@,
                name: name@,
                shape: shape@,
                data_type: *data_type,
            },
            Step::Kernel(request) => StepView::Kernel(*request),
        }
    }
}

/// The steps of a list, each by its view.
pub open spec fn step_views(steps: Seq<Step>) -> Seq<StepView> {
    steps.map_values(|step: Step| step@)
}

/// Why a step could not be taken.
#[derive(Debug, PartialEq, Eq)]
pub enum LoadFailure<Name = String, Shape = Vec<usize>> {
    Parameter(ParameterLoaderError<Name, Shape>),
    Kernel { request: KernelRequest, error: DeviceError },
}

/// A [`LoadFailure`] with its text and shapes as sequences.
pub type LoadFailureView = LoadFailure<Seq<char>, Seq<usize>>;

impl View for LoadFailure {
    type V = LoadFailureView;

    open spec fn view(&self) -> LoadFailureView {
        match self {
            LoadFailure::Parameter(e) => LoadFailure::Parameter(e@),
            LoadFailure::Kernel { request, error } => LoadFailure::Kernel { request: *request, error: *error },
        }
    }
}

/// What one step asks of the device, and what comes of it: the number of the
/// request that created the allocation or the kernel.
pub open spec fn step_outcome(context: ContextView, step: StepView) -> (
    ContextView,
    Result<usize, LoadFailureView>,
) {
    match step {
        StepView::Tensor { tree, name, shape, data_type } => {
            let (after, loaded) = tree.load(context, name, shape, data_type);
            match loaded {
                Ok(allocation) => (after, Ok(allocation->Resident_0)),
                Err(e) => (after, Err(LoadFailure::Parameter(e))),
            }
        },
        StepView::Kernel(request) => {
            let after = context.record(Request::CreateKernel(request));
            match context.answer() {
                Ok(number) => (after, Ok(number)),
                Err(error) => (after, Err(LoadFailure::Kernel { request, error })),
            }
        },
    }
}

/// What the steps from `from` on ask of the device, and what comes of them: the
/// numbers of what they created, behind those in `made`. The first step that
/// fails is the last one taken.
pub open spec fn outcome_from(context: ContextView, steps: Seq<StepView>, from: int, made: Seq<usize>) -> (
    ContextView,
    Result<Seq<usize>, LoadFailureView>,
)
    decreases steps.len() - from,
{
    if from < 0 || from >= steps.len() {
        (context, Ok(made))
    } else {
        let (after, taken) = step_outcome(context, steps[from]);
        match taken {
            Ok(number) => outcome_from(after, steps, from + 1, made.push(number)),
            Err(failure) => (after, Err(failure)),
        }
    }
}

/// What the steps of a list ask of the device, and what comes of them.
pub open spec fn outcome(context: ContextView, steps: Seq<StepView>) -> (
    ContextView,
    Result<Seq<usize>, LoadFailureView>,
) {
    outcome_from(context, steps, 0, Seq::empty())
}

/// A list's result with its numbers as a sequence and its failure by its view.
pub open spec fn load_result(res: Result<Vec<usize>, LoadFailure>) -> Result<Seq<usize>, LoadFailureView> {
    match res {
        Ok(made) => Ok(made@),
        Err(failure) => Err(failure@),
    }
}

impl<'tree> Step<'tree> {
    /// Takes the step.
    pub fn take(&self, context: &mut Context) -> (res: Result<usize, LoadFailure>)
        ensures
            final(context)@ == step_outcome(old(context)@, self@).0,
            match res {
                Ok(number) => step_outcome(old(context)@, self@).1 == Ok::<usize, LoadFailureView>(number),
                Err(failure) => step_outcome(old(context)@, self@).1 == Err::<usize, LoadFailureView>(
                    failure@,
                ),
            },
    {
        match self {
            Step::Tensor { tree, name, shape, data_type } => {
                match tree.load(context, name, shape.as_slice(), *data_type) {
                    Ok(Allocation::Resident(number)) => Ok(number),
                    Ok(Allocation::Scratch(number)) => Ok(number),
                    Ok(Allocation::Bound(number)) => Ok(number),
                    Err(e) => Err(LoadFailure::Parameter(e)),
                }
            },
            Step::Kernel(request) => match context.issue(Request::CreateKernel(*request)) {
                Ok(number) => Ok(number),
                Err(error) => Err(LoadFailure::Kernel { request: *request, error }),
            },
        }
    }
}

/// Takes the steps of a list in order, up to the first that fails.
pub fn load(context: &mut Context, steps: &Vec<Step<'_>>) -> (res: Result<Vec<usize>, LoadFailure>)
    ensures
        (final(context)@, load_result(res)) == outcome(old(context)@, step_views(steps@)),
        res is Ok ==> res->Ok_0@.len() == steps@.len(),
{
    let ghost views = step_views(steps@);
    let ghost before = context@;
    let mut made: Vec<usize> = Vec::new();
    let mut i: usize = 0;
    while i < steps.len()
        invariant
            i <= steps@.len(),
            views == step_views(steps@),
            before == old(context)@,
            made@.len() == i,
            outcome(before, views) == outcome_from(context@, views, i as int, made@),
        decreases steps@.len() - i,
    {
        assert(views[i as int] == steps@[i as int]@);
        match steps[i].take(context) {
            Ok(number) => {
                made.push(number);
            },
            Err(failure) => {
                return Err(failure);
            },
        }
        i += 1;
    }
    Ok(made)
}

impl LoadFailureView {
    /// Whether the failure is a refusal of the device or of the file.
    pub open spec fn is_refusal(self) -> bool {
        match self {
            LoadFailure::Parameter(e) => e.is_refusal(),
            LoadFailure::Kernel { .. } => true,
        }
    }
}

/// A step asks for nothing after a refusal.
pub(crate) proof fn step_follows(context: ContextView, step: StepView)
    ensures
        ({
            let (after, taken) = step_outcome(context, step);
            after.follows(context, taken is Err && taken->Err_0.is_refusal())
        }),
{
    match step {
        StepView::Tensor { tree, name, shape, data_type } => {
            load_follows(tree, context, name, shape, data_type);
        },
        StepView::Kernel(request) => {
            a_request_follows(context, Request::CreateKernel(request));
        },
    }
}

/// The steps from `from` on ask for nothing after a refusal.
pub(crate) proof fn later_steps_follow(context: ContextView, steps: Seq<StepView>, from: int, made: Seq<usize>)
    ensures
        ({
            let (after, taken) = outcome_from(context, steps, from, made);
            after.follows(context, taken is Err && taken->Err_0.is_refusal())
        }),
    decreases steps.len() - from,
{
    assert(context.requests.take(context.requests.len() as int) =~= context.requests);
    if 0 <= from < steps.len() {
        let (middle, taken) = step_outcome(context, steps[from]);
        step_follows(context, steps[from]);
        if let Ok(number) = taken {
            later_steps_follow(middle, steps, from + 1, made.push(number));
            let (after, rest) = outcome_from(middle, steps, from + 1, made.push(number));
            follows_in_parts(context, middle, after, rest is Err && rest->Err_0.is_refusal());
        }
    }
}

/// Taking the steps of a list keeps the requests that were made before, asks for
/// nothing after a refusal, and fails with a refusal exactly where there was one.
pub proof fn steps_follow(context: ContextView, steps: Seq<StepView>)
    ensures
        ({
            let (after, taken) = outcome(context, steps);
            after.follows(context, taken is Err && taken->Err_0.is_refusal())
        }),
{
    later_steps_follow(context, steps, 0, Seq::empty());
}

/// Whether a number is that of the request that created what a step wants: the
/// allocation, which the next request fills with the whole tensor, or the kernel.
pub open spec fn is_made_by(context: ContextView, step: StepView, number: usize) -> bool {
    &&& number < context.requests.len()
    &&& match step {
        StepView::Tensor { tree, name, shape, data_type } => {
            let entry = tree.entry(name);
            &&& tree.has_leaf(name)
            &&& conforms(entry, shape, data_type)
            &&& number + 1 < context.requests.len()
            &&& context.requests[number as int] == Request::<Seq<char>>::CreateAllocation { size: entry.size }
            &&& context.requests[number + 1] == Request::<Seq<char>>::ReadFile {
                file: tree.loader.file,
                allocation: Allocation::Resident(number),
                offset: entry.offset,
                length: entry.size,
            }
        },
        StepView::Kernel(request) => context.requests[number as int] == Request::<Seq<char>>::CreateKernel(
            request,
        ),
    }
}

/// What a step made is still there once more requests were made.
pub proof fn made_stays(earlier: ContextView, later: ContextView, step: StepView, number: usize)
    requires
        is_made_by(earlier, step, number),
        earlier.requests.is_prefix_of(later.requests),
    ensures
        is_made_by(later, step, number),
{
    assert(later.requests.take(earlier.requests.len() as int) =~= earlier.requests);
    assert(later.requests[number as int] == earlier.requests[number as int]);
    if step is Tensor {
        assert(later.requests[number + 1] == earlier.requests[number + 1]);
    }
}

/// The steps from `from` on made what they want.
pub(crate) proof fn later_steps_make(context: ContextView, steps: Seq<StepView>, from: int, made: Seq<usize>)
    requires
        0 <= from <= steps.len(),
        made.len() == from,
        outcome_from(context, steps, from, made).1 is Ok,
        outcome_from(context, steps, from, made).0.requests.len() <= usize::MAX,
    ensures
        ({
            let (after, taken) = outcome_from(context, steps, from, made);
            let all = taken->Ok_0;
            &&& all.len() == steps.len()
            &&& forall|i: int| 0 <= i < from ==> #[trigger] all[i] == made[i]
            &&& forall|i: int|
                from <= i < steps.len() ==> #[trigger] all[i] >= context.requests.len() && is_made_by(
                    after,
                    steps[i],
                    all[i],
                )
            &&& forall|i: int, j: int| from <= i < j < steps.len() ==> #[trigger] all[i] < #[trigger] all[j]
        }),
    decreases steps.len() - from,
{
    if from < steps.len() {
        let (middle, taken) = step_outcome(context, steps[from]);
        let number = taken->Ok_0;
        step_follows(context, steps[from]);
        later_steps_make(middle, steps, from + 1, made.push(number));
        later_steps_follow(middle, steps, from + 1, made.push(number));
        let (after, all) = outcome_from(context, steps, from, made);
        assert(after.requests.take(middle.requests.len() as int) =~= middle.requests);
        assert(all->Ok_0[from] == made.push(number)[from]);
        assert(number == context.requests.len());
        assert(is_made_by(middle, steps[from], number));
        made_stays(middle, after, steps[from], number);
        assert forall|i: int| 0 <= i < from implies #[trigger] (all->Ok_0)[i] == made[i] by {
            assert((all->Ok_0)[i] == made.push(number)[i]);
        }
    }
}

/// Where all steps were taken, every tensor has the shape and the type that was
/// asked for, every number is that of the request that created what its step wants,
/// and no two steps share it.
pub proof fn steps_make_what_they_want(context: ContextView, steps: Seq<StepView>)
    requires
        outcome(context, steps).1 is Ok,
        outcome(context, steps).0.requests.len() <= usize::MAX,
    ensures
        ({
            let (after, taken) = outcome(context, steps);
            let made = taken->Ok_0;
            &&& made.len() == steps.len()
            &&& forall|i: int| 0 <= i < steps.len() ==> is_made_by(after, steps[i], #[trigger] made[i])
            &&& forall|i: int, j: int| 0 <= i < j < steps.len() ==> #[trigger] made[i] < #[trigger] made[j]
        }),
{
    later_steps_make(context, steps, 0, Seq::empty());
}

/// Taking a step with a fault is taking it without one, up to the refusal.
proof fn step_replays(context: ContextView, step: StepView, fault: Fault)
    requires
        context.fault is None,
    ensures
        replays(step_outcome(context, step), step_outcome(context.with(fault), step), fault),
{
    match step {
        StepView::Tensor { tree, name, shape, data_type } => {
            load_replays(tree, context, name, shape, data_type, fault);
        },
        StepView::Kernel(request) => {
            a_request_replays(context, Request::CreateKernel(request), fault);
        },
    }
}

/// Taking the steps from `from` on with a fault is taking them without one, up to the
/// refusal.
proof fn later_steps_replay(
    context: ContextView,
    steps: Seq<StepView>,
    from: int,
    made: Seq<usize>,
    fault: Fault,
)
    requires
        context.fault is None,
    ensures
        replays(
            outcome_from(context, steps, from, made),
            outcome_from(context.with(fault), steps, from, made),
            fault,
        ),
    decreases steps.len() - from,
{
    if 0 <= from < steps.len() {
        let (middle, taken) = step_outcome(context, steps[from]);
        let (cut, refused) = step_outcome(context.with(fault), steps[from]);
        step_replays(context, steps[from], fault);
        if let Ok(number) = taken {
            let (after, _) = outcome_from(middle, steps, from + 1, made.push(number));
            later_steps_replay(middle, steps, from + 1, made.push(number), fault);
            later_steps_follow(middle, steps, from + 1, made.push(number));
            if refused is Err {
                cut_stays(cut, middle, after, fault);
            }
        }
    }
}

/// Taking the steps of a list with a fault is taking them without one, up to the
/// refusal.
pub proof fn steps_replay(context: ContextView, steps: Seq<StepView>, fault: Fault)
    requires
        context.fault is None,
    ensures
        replays(outcome(context, steps), outcome(context.with(fault), steps), fault),
{
    later_steps_replay(context, steps, 0, Seq::empty(), fault);
}

} // verus!
