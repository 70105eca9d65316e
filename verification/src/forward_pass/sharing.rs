//! What layers share, and what it is filled with.

use vstd::prelude::*;

use crate::backend::context::{ContextView, Request, RequestView, TreeLocation};
use crate::backend::types::Allocation;
use crate::config::model::{LayerConfig, MixerConfig, RopeConfig};
use crate::data_type::DataType;
use crate::error::ErrorView;
use crate::forward_pass::shared_buffers::{
    buffers_are_what_was_asked_for, first_missing, layer_sinks_stored, mixer_tree, rope_request, rope_updates,
    rope_want, rope_wants, shared_requests, sink_reads, sink_requests, sinks_stored,
    wants_are_distinct, AttentionSinks, LayerRopeKind, RopeBuffers, SharedBuffersView,
};
use crate::parameters::loader::TreeView;
use crate::parameters::stored::{below, full_name, is_stored, names_are_full};
use crate::text::decimal;

verus! {

/// How the heads of a layer are rotated, and how wide they are: a width of the rotation
/// goes before that of the attention. Layers that do not attend rotate nothing.
pub open spec fn rotation(layer: LayerConfig) -> Option<(RopeConfig, usize)> {
    match (layer.mixer_config, layer.rope_config) {
        (MixerConfig::Attention(attention), Some(config)) => Some(
            (
                config,
                match config.head_dim {
                    Some(head_dim) => head_dim,
                    None => attention.head_dim,
                },
            ),
        ),
        _ => None,
    }
}

/// How many sinks a layer has, where it has some.
pub open spec fn sink_count(layer: LayerConfig) -> Option<usize> {
    match layer.mixer_config {
        MixerConfig::Attention(attention) => if attention.has_sinks {
            Some(attention.num_heads)
        } else {
            None
        },
        MixerConfig::Other => None,
    }
}

/// The rope buffers that a layer uses.
pub open spec fn buffers_of(buffers: SharedBuffersView, layer: int) -> Option<RopeBuffers> {
    match buffers.layer_rope_kinds[layer] {
        LayerRopeKind::NoKernel => None,
        LayerRopeKind::Indexed(index) => Some(buffers.rope_buffers[index as int]),
    }
}

/// Each layer that rotates its heads uses rope buffers that were created for its rotation
/// and the width of its heads, and two layers use the same exactly where they agree in
/// both. No other layer uses any.
pub proof fn layers_use_what_they_need(
    context: ContextView,
    layers: Seq<LayerConfig>,
    rope_data_type: DataType,
    i: int,
    j: int,
)
    requires
        0 <= i < layers.len(),
        0 <= j < layers.len(),
        layers.len() <= usize::MAX,
        context.requests.len() + shared_requests(layers, rope_data_type).len() <= usize::MAX,
    ensures
        ({
            let requests = context.requests + shared_requests(layers, rope_data_type);
            let buffers = SharedBuffersView::of(layers, context.requests.len() as int);
            &&& buffers.layer_rope_kinds.len() == layers.len()
            &&& match rotation(layers[i]) {
                Some((config, head_dim)) => {
                    &&& buffers_of(buffers, i) is Some
                    &&& context.requests.len() <= buffers_of(buffers, i)->0.request < requests.len()
                    &&& requests[buffers_of(buffers, i)->0.request as int] == Request::<
                        Seq<char>,
                    >::CreateRopeBuffers {
                        max_sequence_length: config.max_sequence_length,
                        head_dim,
                        data_type: rope_data_type,
                    }
                },
                None => buffers_of(buffers, i) is None,
            }
            &&& buffers_of(buffers, i) == buffers_of(buffers, j) <==> rotation(layers[i]) == rotation(layers[j])
        }),
{
    let requests = context.requests + shared_requests(layers, rope_data_type);
    let buffers = SharedBuffersView::of(layers, context.requests.len() as int);
    let wants = rope_wants(layers);
    wants_are_distinct(layers);
    buffers_are_what_was_asked_for(context, layers, rope_data_type);
    if let Some(want) = rope_want(layers[i]) {
        let index = wants.index_of(want);
        assert(wants.contains(want));
        assert(wants[index] == want);
        assert(buffers.rope_buffers[index].request == context.requests.len() + index);
        assert(requests[buffers.rope_buffers[index].request as int] == rope_request(want, rope_data_type));
    }
    if let Some(want) = rope_want(layers[j]) {
        let index = wants.index_of(want);
        assert(wants.contains(want));
        assert(wants[index] == want);
        assert(buffers.rope_buffers[index].request == context.requests.len() + index);
    }
}

/// Each layer with sinks has an allocation of its own for them, which holds a number for
/// each head. No other layer has any.
pub proof fn layers_have_sinks_of_their_own(
    context: ContextView,
    layers: Seq<LayerConfig>,
    rope_data_type: DataType,
    i: int,
    j: int,
)
    requires
        0 <= i < j < layers.len(),
        layers.len() <= usize::MAX,
        context.requests.len() + shared_requests(layers, rope_data_type).len() <= usize::MAX,
    ensures
        ({
            let requests = context.requests + shared_requests(layers, rope_data_type);
            let buffers = SharedBuffersView::of(layers, context.requests.len() as int);
            &&& buffers.attention_sinks.len() == layers.len()
            &&& sinks_are(requests, context.requests.len() as int, buffers.attention_sinks[i], layers[i])
            &&& sinks_are(requests, context.requests.len() as int, buffers.attention_sinks[j], layers[j])
            &&& buffers.attention_sinks[i] is Some && buffers.attention_sinks[j] is Some
                ==> buffers.attention_sinks[i]->0.allocation != buffers.attention_sinks[j]->0.allocation
        }),
{
    layer_has_sinks(context, layers, rope_data_type, i);
    layer_has_sinks(context, layers, rope_data_type, j);
    sinks_come_in_order(layers, i, j);
    sinks_come_in_order(layers, j, layers.len() as int);
    assert(layers.take(layers.len() as int) =~= layers);
}

/// Whether a layer has the sinks that it should have, created by one of the requests from
/// `start` on.
pub open spec fn sinks_are(
    requests: Seq<RequestView>,
    start: int,
    sinks: Option<AttentionSinks>,
    layer: LayerConfig,
) -> bool {
    match (sinks, sink_count(layer)) {
        (Some(AttentionSinks { allocation: Allocation::Resident(number), num_heads }), Some(count)) => {
            &&& num_heads == count
            &&& start <= number < requests.len()
            &&& requests[number as int] == Request::<Seq<char>>::CreateArray {
                length: count,
                data_type: DataType::F32,
            }
        },
        (None, None) => true,
        _ => false,
    }
}

/// A layer has the sinks that it should have.
pub proof fn layer_has_sinks(
    context: ContextView,
    layers: Seq<LayerConfig>,
    rope_data_type: DataType,
    i: int,
)
    requires
        0 <= i < layers.len(),
        layers.len() <= usize::MAX,
        context.requests.len() + shared_requests(layers, rope_data_type).len() <= usize::MAX,
    ensures
        ({
            let requests = context.requests + shared_requests(layers, rope_data_type);
            let buffers = SharedBuffersView::of(layers, context.requests.len() as int);
            &&& buffers.attention_sinks.len() == layers.len()
            &&& sinks_are(requests, context.requests.len() as int, buffers.attention_sinks[i], layers[i])
        }),
{
    let buffers = SharedBuffersView::of(layers, context.requests.len() as int);
    buffers_are_what_was_asked_for(context, layers, rope_data_type);
    assert(buffers.attention_sinks[i] is Some <==> sink_count(layers[i]) is Some);
    if sink_count(layers[i]) is Some {
        sinks_come_in_order(layers, i, layers.len() as int);
        assert(layers.take(layers.len() as int) =~= layers);
    }
}

/// The requests for the sinks of more layers are more.
proof fn sinks_come_in_order(layers: Seq<LayerConfig>, i: int, j: int)
    requires
        0 <= i < j <= layers.len(),
    ensures
        sink_requests(layers.take(i)).len() + (if sink_count(layers[i]) is Some { 1int } else { 0 })
            <= sink_requests(layers.take(j)).len(),
    decreases j - i,
{
    assert(layers.take(j).drop_last() =~= layers.take(j - 1));
    assert(layers.take(j).last() == layers[j - 1]);
    if i < j - 1 {
        sinks_come_in_order(layers, i, j - 1);
    }
}

/// The request that fills rope buffers from a tree, where they come at a place.
pub open spec fn fills(buffers: RopeBuffers, transformer: TreeView, index: int) -> RequestView {
    Request::UpdateRopeBuffers {
        buffers: buffers.request,
        tree: TreeLocation { file: transformer.loader.file, prefix: transformer.prefix },
        index: index as usize,
    }
}

/// Filling rope buffers goes through them in order.
proof fn updates_come_in_order(
    context: ContextView,
    buffers: Seq<RopeBuffers>,
    transformer: TreeView,
    from: int,
)
    requires
        0 <= from <= buffers.len(),
    ensures
        ({
            let (after, updated) = rope_updates(context, buffers, transformer, from);
            &&& after.fault == context.fault
            &&& context.requests.is_prefix_of(after.requests)
            &&& forall|k: int|
                context.requests.len() <= k < after.requests.len() ==> {
                    let index = from + k - context.requests.len();
                    &&& index < buffers.len()
                    &&& #[trigger] after.requests[k] == fills(buffers[index], transformer, index)
                }
            &&& updated is Ok ==> after.requests.len() == context.requests.len() + buffers.len() - from
            &&& updated is Err ==> context.fault is Some && context.fault->0.at == after.requests.len() - 1
                && updated->Err_0 == ErrorView::Reported(context.fault->0.error)
        }),
    decreases buffers.len() - from,
{
    assert(context.requests.take(context.requests.len() as int) =~= context.requests);
    if from < buffers.len() {
        let request = fills(buffers[from], transformer, from);
        let middle = context.record(request);
        let (after, updated) = rope_updates(context, buffers, transformer, from);
        assert(middle.requests.take(context.requests.len() as int) =~= context.requests);
        if context.answer() is Ok {
            updates_come_in_order(middle, buffers, transformer, from + 1);
            assert(after.requests.take(middle.requests.len() as int) =~= middle.requests);
            assert(after.requests.take(context.requests.len() as int) =~= context.requests);
            assert(after.requests[context.requests.len() as int] == middle.requests.last());
        }
    }
}

/// The tensor with the sinks of a layer stands in this tree.
pub open spec fn tree_of_sinks(transformer: TreeView, layer: int) -> TreeView {
    below(below(transformer, "layers."@ + decimal(layer as nat)), "mixer"@)
}

/// Whether a request fills the sinks of a layer with the tensor that is stored for it.
pub open spec fn fills_sinks(
    request: RequestView,
    sinks: AttentionSinks,
    transformer: TreeView,
    layer: int,
) -> bool {
    let tree = tree_of_sinks(transformer, layer);
    request == Request::<Seq<char>>::ReadFile {
        file: transformer.loader.file,
        allocation: sinks.allocation,
        offset: tree.loader.index[full_name(tree, "sinks"@)].offset,
        length: (4 * sinks.num_heads) as usize,
    }
}

/// Whether the sinks of a layer, where it has some, are stored, a number for each head.
pub open spec fn has_stored_sinks(
    sinks: Option<AttentionSinks>,
    transformer: TreeView,
    layer: int,
) -> bool {
    let tree = tree_of_sinks(transformer, layer);
    sinks matches Some(sinks) ==> {
        &&& is_stored(tree, "sinks"@, seq![sinks.num_heads], DataType::F32)
        &&& tree.loader.index[full_name(tree, "sinks"@)].size as int / 4 == sinks.num_heads
    }
}

/// Sinks count as stored exactly where they are.
proof fn sinks_are_found_where_they_are(
    sinks: Seq<Option<AttentionSinks>>,
    transformer: TreeView,
    layer: int,
)
    requires
        0 <= layer < sinks.len(),
    ensures
        layer_sinks_stored(sinks, transformer, layer) <==> has_stored_sinks(sinks[layer], transformer, layer),
        mixer_tree(transformer, layer) == tree_of_sinks(transformer, layer),
        mixer_tree(transformer, layer).entry("sinks"@) == tree_of_sinks(
            transformer,
            layer,
        ).loader.index[full_name(tree_of_sinks(transformer, layer), "sinks"@)],
{
    let name = "layers."@ + decimal(layer as nat);
    names_are_full(transformer, name);
    names_are_full(below(transformer, name), "mixer"@);
    names_are_full(tree_of_sinks(transformer, layer), "sinks"@);
}

/// The sinks of the first `n` layers are filled one after the other, each once.
proof fn reads_come_in_order(sinks: Seq<Option<AttentionSinks>>, transformer: TreeView, layer: int)
    requires
        0 <= layer < sinks.len(),
        forall|i: int| 0 <= i < sinks.len() ==> has_stored_sinks(#[trigger] sinks[i], transformer, i),
    ensures
        sinks[layer] matches Some(layer_sinks) ==> exists|k: int|
            0 <= k < sink_reads(sinks, transformer).len() && fills_sinks(
                #[trigger] sink_reads(sinks, transformer)[k],
                layer_sinks,
                transformer,
                layer,
            ),
    decreases sinks.len(),
{
    let before = sink_reads(sinks.drop_last(), transformer);
    let all = sink_reads(sinks, transformer);
    let last = sinks.len() - 1;
    sinks_are_found_where_they_are(sinks, transformer, last);
    if sinks[layer] is Some {
        if layer == last {
            let size = tree_of_sinks(transformer, layer).loader.index[full_name(
                tree_of_sinks(transformer, layer),
                "sinks"@,
            )].size as int;
            assert(size / 4 * 4 == 4 * sinks[layer]->0.num_heads);
            assert(has_stored_sinks(sinks[layer], transformer, layer));
            assert(fills_sinks(all[before.len() as int], sinks[layer]->0, transformer, layer));
        } else {
            let shorter = sinks.drop_last();
            assert forall|i: int| 0 <= i < shorter.len() implies has_stored_sinks(
                #[trigger] shorter[i],
                transformer,
                i,
            ) by {
                assert(has_stored_sinks(sinks[i], transformer, i));
            }
            reads_come_in_order(shorter, transformer, layer);
            let k = choose|k: int|
                0 <= k < before.len() && fills_sinks(
                    #[trigger] before[k],
                    sinks[layer]->0,
                    transformer,
                    layer,
                );
            assert(all[k] == before[k]);
        }
    }
}

/// How many layers have sinks.
pub open spec fn count_sinks(sinks: Seq<Option<AttentionSinks>>) -> int
    decreases sinks.len(),
{
    if sinks.len() == 0 {
        0
    } else {
        count_sinks(sinks.drop_last()) + if sinks.last() is Some { 1int } else { 0 }
    }
}

proof fn reads_are_counted(sinks: Seq<Option<AttentionSinks>>, transformer: TreeView)
    ensures
        sink_reads(sinks, transformer).len() == count_sinks(sinks),
    decreases sinks.len(),
{
    if sinks.len() > 0 {
        reads_are_counted(sinks.drop_last(), transformer);
    }
}

/// Filling the buffers fills all rope buffers, the very ones that were created, in order,
/// so that those of every layer are filled. It fails exactly where one of these requests
/// is refused, with what was reported.
pub proof fn rope_buffers_are_filled(
    buffers: SharedBuffersView,
    context: ContextView,
    transformer: TreeView,
    layer: int,
)
    requires
        0 <= layer < buffers.layer_rope_kinds.len(),
        buffers.indices_fit(),
    ensures
        ({
            let (after, updated) = buffers.update(context, transformer);
            let start = context.requests.len() as int;
            let ropes = buffers.rope_buffers.len() as int;
            &&& context.requests.is_prefix_of(after.requests)
            &&& updated is Err <==> context.fault is Some && start <= context.fault->0.at < start + ropes
            &&& updated is Err ==> updated->Err_0 == ErrorView::Reported(context.fault->0.error)
            &&& updated is Err ==> context.fault->0.at == after.requests.len() - 1
            &&& updated is Ok ==> {
                &&& after.requests.len() >= start + ropes
                &&& forall|k: int|
                    start <= k < start + ropes ==> #[trigger] after.requests[k] == fills(
                        buffers.rope_buffers[k - start],
                        transformer,
                        k - start,
                    )
                &&& buffers_of(buffers, layer) matches Some(used) ==> exists|k: int|
                    start <= k < start + ropes && #[trigger] after.requests[k] == fills(
                        used,
                        transformer,
                        k - start,
                    )
            }
        }),
{
    let (middle, updated) = rope_updates(context, buffers.rope_buffers, transformer, 0);
    let (after, _) = buffers.update(context, transformer);
    let start = context.requests.len() as int;
    let ropes = buffers.rope_buffers.len() as int;
    updates_come_in_order(context, buffers.rope_buffers, transformer, 0);
    refusals_are_met(context, buffers.rope_buffers, transformer, 0);
    if updated is Ok {
        assert(middle.requests.take(start) =~= context.requests);
        assert(after.requests.take(start) =~= context.requests);
        assert forall|k: int| start <= k < start + ropes implies #[trigger] after.requests[k] == fills(
            buffers.rope_buffers[k - start],
            transformer,
            k - start,
        ) by {
            assert(after.requests[k] == middle.requests[k]);
        }
        if let LayerRopeKind::Indexed(index) = buffers.layer_rope_kinds[layer] {
            let used = buffers_of(buffers, layer)->0;
            assert(index < ropes);
            assert(after.requests[start + index] == fills(used, transformer, start + index - start));
        }
    }
}

/// Behind the rope buffers, filling the buffers fills the sinks of every layer that has
/// some with the tensor of that layer, and asks for nothing else.
pub proof fn sinks_are_filled(
    buffers: SharedBuffersView,
    context: ContextView,
    transformer: TreeView,
    layer: int,
)
    requires
        0 <= layer < buffers.attention_sinks.len(),
        buffers.update(context, transformer).1 is Ok,
        forall|i: int|
            0 <= i < buffers.attention_sinks.len() ==> has_stored_sinks(
                #[trigger] buffers.attention_sinks[i],
                transformer,
                i,
            ),
    ensures
        ({
            let (after, _) = buffers.update(context, transformer);
            let behind = context.requests.len() + buffers.rope_buffers.len();
            &&& after.requests.len() == behind + count_sinks(buffers.attention_sinks)
            &&& buffers.attention_sinks[layer] matches Some(sinks) ==> exists|k: int|
                behind <= k < after.requests.len() && fills_sinks(
                    #[trigger] after.requests[k],
                    sinks,
                    transformer,
                    layer,
                )
        }),
{
    let (middle, _) = rope_updates(context, buffers.rope_buffers, transformer, 0);
    let (after, _) = buffers.update(context, transformer);
    let reads = sink_reads(buffers.attention_sinks, transformer);
    updates_come_in_order(context, buffers.rope_buffers, transformer, 0);
    reads_are_counted(buffers.attention_sinks, transformer);
    if let Some(sinks) = buffers.attention_sinks[layer] {
        reads_come_in_order(buffers.attention_sinks, transformer, layer);
        let k = choose|k: int|
            0 <= k < reads.len() && fills_sinks(#[trigger] reads[k], sinks, transformer, layer);
        let at = middle.requests.len() + k;
        assert(after.requests[at] == reads[k]);
        assert(fills_sinks(after.requests[at], sinks, transformer, layer));
    }
}

/// Filling rope buffers fails where one of its requests is refused.
proof fn refusals_are_met(
    context: ContextView,
    buffers: Seq<RopeBuffers>,
    transformer: TreeView,
    from: int,
)
    requires
        0 <= from <= buffers.len(),
    ensures
        rope_updates(context, buffers, transformer, from).1 is Err <==> context.fault is Some
            && context.requests.len() <= context.fault->0.at < context.requests.len() + buffers.len() - from,
    decreases buffers.len() - from,
{
    if from < buffers.len() {
        let middle = context.record(fills(buffers[from], transformer, from));
        refusals_are_met(middle, buffers, transformer, from + 1);
    }
}

/// The sinks of the layers are all found exactly where all are stored.
pub proof fn sinks_are_wanted_where_they_are(
    buffers: SharedBuffersView,
    context: ContextView,
    transformer: TreeView,
)
    ensures
        buffers.updatable(context, transformer) <==> (buffers.update(context, transformer).1 is Ok ==> forall|
            i: int,
        |
            0 <= i < buffers.attention_sinks.len() ==> has_stored_sinks(
                #[trigger] buffers.attention_sinks[i],
                transformer,
                i,
            )),
{
    let sinks = buffers.attention_sinks;
    assert forall|i: int| 0 <= i < sinks.len() implies (#[trigger] layer_sinks_stored(sinks, transformer, i)
        <==> has_stored_sinks(sinks[i], transformer, i)) by {
        sinks_are_found_where_they_are(sinks, transformer, i);
    }
    if sinks_stored(sinks, transformer) {
        assert forall|i: int| 0 <= i < sinks.len() implies has_stored_sinks(
            #[trigger] sinks[i],
            transformer,
            i,
        ) by {
            assert(layer_sinks_stored(sinks, transformer, i));
        }
    }
}

/// Whether a layer is the first whose sinks are not stored.
pub open spec fn is_first_without(
    sinks: Seq<Option<AttentionSinks>>,
    transformer: TreeView,
    layer: int,
) -> bool {
    &&& 0 <= layer < sinks.len()
    &&& !has_stored_sinks(sinks[layer], transformer, layer)
    &&& forall|i: int| 0 <= i < layer ==> has_stored_sinks(#[trigger] sinks[i], transformer, i)
}

proof fn the_first_missing_is_found(
    sinks: Seq<Option<AttentionSinks>>,
    transformer: TreeView,
    from: int,
    layer: int,
)
    requires
        is_first_without(sinks, transformer, layer),
        0 <= from <= layer,
    ensures
        first_missing(sinks, transformer, from) == layer,
    decreases layer - from,
{
    sinks_are_found_where_they_are(sinks, transformer, from);
    if from < layer {
        assert(has_stored_sinks(sinks[from], transformer, from));
        the_first_missing_is_found(sinks, transformer, from + 1, layer);
    }
}

/// Where the sinks of a layer are not stored, all rope buffers have been filled until then,
/// and the sinks of the layers before the first such layer, and nothing else.
pub proof fn filling_stops_at_missing_sinks(
    buffers: SharedBuffersView,
    context: ContextView,
    transformer: TreeView,
    layer: int,
)
    requires
        is_first_without(buffers.attention_sinks, transformer, layer),
        buffers.update(context, transformer).1 is Ok,
    ensures
        ({
            let earlier = SharedBuffersView {
                attention_sinks: buffers.attention_sinks.take(layer),
                ..buffers
            };
            buffers.update_stop(context, transformer) == earlier.update(context, transformer).0
        }),
{
    the_first_missing_is_found(buffers.attention_sinks, transformer, 0, layer);
}

} // verus!
