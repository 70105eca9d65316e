//! Buffers that the layers of a model share.

use vstd::pervasive::unreached;
use vstd::prelude::*;

use crate::array_element::WORD_SIZE;
use crate::backend::context::{
    a_request_follows, a_request_replays, cut_stays, follows_in_parts, replays, Context, ContextView,
    Request, RequestView,
};
use crate::backend::types::{Allocation, Fault};
use crate::data_type::DataType;
use crate::error::{session_result, Error, ErrorView};
use crate::forward_pass::config::TransformerForwardPassConfig;
use crate::config::model::{DecoderConfig, LayerConfig, RopeConfig};
use crate::parameters::loader::{
    conforms, spec_slice_length, tree_location, what_stands_below_is_found, ParameterTree, TreeView,
};
use crate::text::{append_decimal, decimal, decimal_is_injective};

verus! {

/// The cosines and sines for rotating heads, by the number of the request that
/// created them.
#[derive(Clone, Copy, Debug, PartialEq, Eq, Structural)]
pub struct RopeBuffers {
    pub request: usize,
}

/// The attention sinks of a layer, one for each head.
#[derive(Clone, Copy, Debug, PartialEq, Eq, Structural)]
pub struct AttentionSinks {
    pub allocation: Allocation,
    pub num_heads: usize,
}

/// Which rope buffers a layer uses.
#[derive(Clone, Copy, Debug, PartialEq, Eq, Structural)]
pub enum LayerRopeKind {
    NoKernel,
    Indexed(usize),
}

/// What rope buffers are made for. Layers that want the same share them.
#[derive(Clone, Copy, Debug, PartialEq, Eq, Structural)]
pub struct RopeWant {
    pub config: RopeConfig,
    pub head_dim: usize,
}

/// What a layer wants its rope buffers for: one without attention, or without a
/// rotation, wants none.
pub open spec fn rope_want(layer: LayerConfig) -> Option<RopeWant> {
    match (layer.mixer_config.attention(), layer.rope_config) {
        (Some(attention), Some(config)) => Some(
            RopeWant {
                config,
                head_dim: match config.head_dim {
                    Some(head_dim) => head_dim,
                    None => attention.head_dim,
                },
            },
        ),
        _ => None,
    }
}

/// Tells what a layer wants its rope buffers for.
fn rope_want_of(layer: &LayerConfig) -> (res: Option<RopeWant>)
    ensures
        res == rope_want(*layer),
{
    let attention = match layer.mixer_config.as_attention() {
        Some(attention) => attention,
        None => {
            return None;
        },
    };
    match layer.rope_config {
        Some(config) => {
            let head_dim: usize = match config.head_dim {
                Some(head_dim) => head_dim,
                None => attention.head_dim,
            };
            Some(RopeWant { config, head_dim })
        },
        None => None,
    }
}

/// What the rope buffers of some layers are made for: everything that a layer
/// wants, once, in the order in which it is first wanted.
pub open spec fn rope_wants(layers: Seq<LayerConfig>) -> Seq<RopeWant>
    decreases layers.len(),
{
    if layers.len() == 0 {
        Seq::empty()
    } else {
        let before = rope_wants(layers.drop_last());
        match rope_want(layers.last()) {
            Some(want) => if before.contains(want) {
                before
            } else {
                before.push(want)
            },
            None => before,
        }
    }
}

/// Which of the buffers a layer uses.
pub open spec fn rope_kind(wants: Seq<RopeWant>, layer: LayerConfig) -> LayerRopeKind {
    match rope_want(layer) {
        Some(want) => LayerRopeKind::Indexed(wants.index_of(want) as usize),
        None => LayerRopeKind::NoKernel,
    }
}

/// The number of heads of a layer with attention sinks.
pub open spec fn sink_heads(layer: LayerConfig) -> Option<usize> {
    match layer.mixer_config.attention() {
        Some(attention) => if attention.has_sinks {
            Some(attention.num_heads)
        } else {
            None
        },
        None => None,
    }
}

/// The requests for the attention sinks of some layers.
pub open spec fn sink_requests(layers: Seq<LayerConfig>) -> Seq<RequestView>
    decreases layers.len(),
{
    if layers.len() == 0 {
        Seq::empty()
    } else {
        let before = sink_requests(layers.drop_last());
        match sink_heads(layers.last()) {
            Some(num_heads) => before.push(
                Request::CreateArray { length: num_heads, data_type: DataType::F32 },
            ),
            None => before,
        }
    }
}

/// The request for the rope buffers for a want.
pub open spec fn rope_request(want: RopeWant, data_type: DataType) -> RequestView {
    Request::CreateRopeBuffers {
        max_sequence_length: want.config.max_sequence_length,
        head_dim: want.head_dim,
        data_type,
    }
}

/// Buffers that the layers of a model share.
pub struct SharedBuffers {
    rope_buffers: Vec<RopeBuffers>,
    layer_rope_kinds: Vec<LayerRopeKind>,
    attention_sinks: Vec<Option<AttentionSinks>>,
}

/// What [`SharedBuffers`] hold.
#[verifier::ext_equal]
pub struct SharedBuffersView {
    pub rope_buffers: Seq<RopeBuffers>,
    pub layer_rope_kinds: Seq<LayerRopeKind>,
    pub attention_sinks: Seq<Option<AttentionSinks>>,
}

impl View for SharedBuffers {
    type V = SharedBuffersView;

    closed spec fn view(&self) -> SharedBuffersView {
        SharedBuffersView {
            rope_buffers: self.rope_buffers@,
            layer_rope_kinds: self.layer_rope_kinds@,
            attention_sinks: self.attention_sinks@,
        }
    }
}

impl SharedBuffers {
    /// Every layer's rope buffers are there.
    #[verifier::type_invariant]
    spec fn indices_fit(self) -> bool {
        self@.indices_fit()
    }
}

impl SharedBuffersView {
    /// Every layer's rope buffers are there.
    pub open spec fn indices_fit(self) -> bool {
        forall|i: int|
            0 <= i < self.layer_rope_kinds.len() ==> (#[trigger] self.layer_rope_kinds[i] matches LayerRopeKind::Indexed(
                index,
            ) ==> index < self.rope_buffers.len())
    }

    /// The buffers that some layers share, where the first request for them has the
    /// number `start`.
    pub open spec fn of(layers: Seq<LayerConfig>, start: int) -> SharedBuffersView {
        let wants = rope_wants(layers);
        SharedBuffersView {
            rope_buffers: Seq::new(wants.len(), |i: int| RopeBuffers { request: (start + i) as usize }),
            layer_rope_kinds: layers.map_values(|layer: LayerConfig| rope_kind(wants, layer)),
            attention_sinks: Seq::new(
                layers.len(),
                |i: int|
                    match sink_heads(layers[i]) {
                        Some(num_heads) => Some(
                            AttentionSinks {
                                allocation: Allocation::Resident(
                                    (start + wants.len() + sink_requests(layers.take(i)).len()) as usize,
                                ),
                                num_heads,
                            },
                        ),
                        None => None,
                    },
            ),
        }
    }
}

/// The requests for the buffers that some layers share.
pub open spec fn shared_requests(layers: Seq<LayerConfig>, rope_data_type: DataType) -> Seq<RequestView> {
    rope_wants(layers).map_values(|want: RopeWant| rope_request(want, rope_data_type)) + sink_requests(layers)
}

/// Nothing is wanted twice, and what a layer wants is there.
pub proof fn wants_are_distinct(layers: Seq<LayerConfig>)
    ensures
        rope_wants(layers).no_duplicates(),
        forall|i: int|
            0 <= i < layers.len() ==> (rope_want(#[trigger] layers[i]) matches Some(want) ==> rope_wants(
                layers,
            ).contains(want)),
        forall|want: RopeWant| #[trigger]
            rope_wants(layers).contains(want) ==> exists|i: int|
                0 <= i < layers.len() && rope_want(#[trigger] layers[i]) == Some(want),
        rope_wants(layers).len() <= layers.len(),
    decreases layers.len(),
{
    if layers.len() > 0 {
        let before = rope_wants(layers.drop_last());
        let all = rope_wants(layers);
        wants_are_distinct(layers.drop_last());
        assert forall|i: int| 0 <= i < layers.len() implies (rope_want(#[trigger] layers[i]) matches Some(want)
            ==> all.contains(want)) by {
            if i < layers.len() - 1 {
                assert(layers.drop_last()[i] == layers[i]);
            }
            if let Some(want) = rope_want(layers[i]) {
                if before.contains(want) {
                    let j = choose|j: int| 0 <= j < before.len() && before[j] == want;
                    assert(all[j] == want);
                } else {
                    assert(all.last() == want);
                }
            }
        }
        assert forall|want: RopeWant| #[trigger] all.contains(want) implies exists|i: int|
            0 <= i < layers.len() && rope_want(#[trigger] layers[i]) == Some(want) by {
            if before.contains(want) {
                let i = choose|i: int|
                    0 <= i < layers.drop_last().len() && rope_want(#[trigger] layers.drop_last()[i]) == Some(
                        want,
                    );
                assert(rope_want(layers[i]) == Some(want));
            } else {
                let j = choose|j: int| 0 <= j < all.len() && all[j] == want;
                assert(j == before.len());
                assert(rope_want(layers[layers.len() - 1]) == Some(want));
            }
        }
    }
}

/// Another want behind those that are there moves none of them.
proof fn index_stays(wants: Seq<RopeWant>, new: RopeWant, want: RopeWant)
    requires
        wants.no_duplicates(),
        !wants.contains(new),
        wants.contains(want),
    ensures
        wants.push(new).index_of(want) == wants.index_of(want),
{
    let longer = wants.push(new);
    let i = choose|i: int| 0 <= i < wants.len() && wants[i] == want;
    assert(longer[i] == want);
    let j = longer.index_of(want);
    let k = wants.index_of(want);
    assert(0 <= k < wants.len() && wants[k] == want);
    assert(0 <= j < longer.len() && longer[j] == want);
    if j == wants.len() {
        assert(want == new);
    }
    assert(wants[j] == want);
}

/// Looks a want up among others.
fn position(wants: &Vec<RopeWant>, want: RopeWant) -> (res: Option<usize>)
    requires
        wants@.no_duplicates(),
    ensures
        match res {
            Some(index) => wants@.contains(want) && index == wants@.index_of(want),
            None => !wants@.contains(want),
        },
{
    let mut i: usize = 0;
    while i < wants.len()
        invariant
            i <= wants@.len(),
            wants@.no_duplicates(),
            forall|j: int| 0 <= j < i ==> wants@[j] != want,
        decreases wants@.len() - i,
    {
        if wants[i] == want {
            assert(wants@[i as int] == want);
            return Some(i);
        }
        i += 1;
    }
    None
}

/// The layers' rope kinds, and what buffers they index.
fn assign_rope_buffers(layers: &Vec<LayerConfig>) -> (res: (Vec<RopeWant>, Vec<LayerRopeKind>))
    ensures
        res.0@ == rope_wants(layers@),
        res.1@ == layers@.map_values(|layer: LayerConfig| rope_kind(rope_wants(layers@), layer)),
{
    let mut wants: Vec<RopeWant> = Vec::new();
    let mut kinds: Vec<LayerRopeKind> = Vec::new();
    let mut i: usize = 0;
    while i < layers.len()
        invariant
            i <= layers@.len(),
            kinds@.len() == i,
            wants@ == rope_wants(layers@.take(i as int)),
            forall|j: int| 0 <= j < i ==> #[trigger] kinds@[j] == rope_kind(wants@, layers@[j]),
        decreases layers@.len() - i,
    {
        let ghost seen = layers@.take(i as int);
        let ghost more = layers@.take(i + 1);
        let ghost before = wants@;
        proof {
            assert(more.drop_last() =~= seen);
            assert(more.last() == layers@[i as int]);
            wants_are_distinct(seen);
            wants_are_distinct(more);
        }
        let kind = match rope_want_of(&layers[i]) {
            None => LayerRopeKind::NoKernel,
            Some(want) => {
                let index: usize = match position(&wants, want) {
                    Some(index) => index,
                    None => {
                        wants.push(want);
                        assert(wants@.last() == want);
                        wants.len() - 1
                    },
                };
                LayerRopeKind::Indexed(index)
            },
        };
        kinds.push(kind);
        assert forall|j: int| 0 <= j < i + 1 implies #[trigger] kinds@[j] == rope_kind(wants@, layers@[j]) by {
            if j < i {
                if let Some(want) = rope_want(layers@[j]) {
                    assert(seen[j] == layers@[j]);
                    if wants@ != before {
                        index_stays(before, wants@.last(), want);
                    }
                }
            }
        }
        i += 1;
    }
    assert(layers@.take(i as int) =~= layers@);
    (wants, kinds)
}

/// The requests for the sinks of some layers begin with those of the first layers.
proof fn sink_requests_grow(layers: Seq<LayerConfig>, n: int)
    requires
        0 <= n < layers.len(),
    ensures
        sink_requests(layers.take(n + 1)) == match sink_heads(layers[n]) {
            Some(num_heads) => sink_requests(layers.take(n)).push(
                Request::CreateArray { length: num_heads, data_type: DataType::F32 },
            ),
            None => sink_requests(layers.take(n)),
        },
{
    assert(layers.take(n + 1).drop_last() =~= layers.take(n));
}

impl SharedBuffers {
    /// Creates the buffers that the layers of a decoder share: first the rope
    /// buffers, then the attention sinks. Nothing is in them yet.
    pub fn new(
        context: &mut Context,
        decoder_config: &DecoderConfig,
        forward_pass_config: &TransformerForwardPassConfig,
    ) -> (res: SharedBuffers)
        ensures
            ({
                let layers = decoder_config.transformer_config.layer_configs@;
                let data_type = forward_pass_config.mixer_forward_pass_config.rope_data_type;
                &&& final(context)@.requests == old(context)@.requests + shared_requests(layers, data_type)
                &&& final(context)@.fault == old(context)@.fault
                &&& res@ == SharedBuffersView::of(layers, old(context)@.requests.len() as int)
            }),
    {
        let layers = &decoder_config.transformer_config.layer_configs;
        let data_type = forward_pass_config.mixer_forward_pass_config.rope_data_type;
        let ghost before = context@;
        let ghost start = before.requests.len() as int;
        let (wants, layer_rope_kinds) = assign_rope_buffers(layers);
        let ghost rope_requests = wants@.map_values(|want: RopeWant| rope_request(want, data_type));
        let mut rope_buffers: Vec<RopeBuffers> = Vec::new();
        let mut i: usize = 0;
        while i < wants.len()
            invariant
                i <= wants@.len(),
                rope_requests == wants@.map_values(|want: RopeWant| rope_request(want, data_type)),
                start == before.requests.len(),
                context@.fault == before.fault,
                context@.requests == before.requests + rope_requests.take(i as int),
                rope_buffers@ == Seq::new(
                    i as nat,
                    |j: int| RopeBuffers { request: (start + j) as usize },
                ),
            decreases wants@.len() - i,
        {
            let want = wants[i];
            let request: usize = context.record(
                Request::CreateRopeBuffers {
                    max_sequence_length: want.config.max_sequence_length,
                    head_dim: want.head_dim,
                    data_type,
                },
            );
            rope_buffers.push(RopeBuffers { request });
            assert(rope_requests.take(i + 1) =~= rope_requests.take(i as int).push(rope_requests[i as int]));
            assert(context@.requests =~= before.requests + rope_requests.take(i + 1));
            assert(rope_buffers@ =~= Seq::new(
                (i + 1) as nat,
                |j: int| RopeBuffers { request: (start + j) as usize },
            ));
            i += 1;
        }
        assert(rope_requests.take(i as int) =~= rope_requests);
        let ghost wanted = SharedBuffersView::of(layers@, start);
        let ghost middle = context@;
        let mut attention_sinks: Vec<Option<AttentionSinks>> = Vec::new();
        let mut i: usize = 0;
        assert(layers@.take(0) =~= Seq::empty());
        assert(middle.requests + sink_requests(layers@.take(0)) =~= middle.requests);
        while i < layers.len()
            invariant
                i <= layers@.len(),
                wanted == SharedBuffersView::of(layers@, start),
                middle.requests.len() == start + rope_wants(layers@).len(),
                context@.fault == middle.fault,
                context@.requests == middle.requests + sink_requests(layers@.take(i as int)),
                attention_sinks@ =~= wanted.attention_sinks.take(i as int),
            decreases layers@.len() - i,
        {
            proof {
                sink_requests_grow(layers@, i as int);
            }
            let sinks = match layers[i].mixer_config.as_attention() {
                Some(attention) => {
                    if attention.has_sinks {
                        let num_heads: usize = attention.num_heads;
                        let number: usize = context.record(
                            Request::CreateArray { length: num_heads, data_type: DataType::F32 },
                        );
                        Some(AttentionSinks { allocation: Allocation::Resident(number), num_heads })
                    } else {
                        None
                    }
                },
                None => None,
            };
            attention_sinks.push(sinks);
            assert(context@.requests =~= middle.requests + sink_requests(layers@.take(i + 1)));
            assert(attention_sinks@.last() == wanted.attention_sinks[i as int]);
            i += 1;
        }
        proof {
            assert(layers@.take(i as int) =~= layers@);
            assert(context@.requests =~= before.requests + shared_requests(layers@, data_type));
            wants_are_distinct(layers@);
            assert forall|j: int| 0 <= j < layer_rope_kinds@.len() implies (
            #[trigger] layer_rope_kinds@[j] matches LayerRopeKind::Indexed(index) ==> index
                < rope_buffers@.len()) by {
                assert(layer_rope_kinds@[j] == rope_kind(wants@, layers@[j]));
            }
        }
        SharedBuffers { rope_buffers, layer_rope_kinds, attention_sinks }
    }

    /// All rope buffers.
    pub fn rope_buffers(&self) -> (res: &Vec<RopeBuffers>)
        ensures
            res@ == self@.rope_buffers,
    {
        &self.rope_buffers
    }

    /// The rope buffers of a layer, where it uses any.
    pub fn rope_buffers_for_layer(&self, layer_index: usize) -> (res: Option<&RopeBuffers>)
        requires
            layer_index < self@.layer_rope_kinds.len(),
        ensures
            match self@.layer_rope_kinds[layer_index as int] {
                LayerRopeKind::NoKernel => res is None,
                LayerRopeKind::Indexed(index) => res is Some && index < self@.rope_buffers.len() && *res->0
                    == self@.rope_buffers[index as int],
            },
    {
        proof {
            use_type_invariant(self);
        }
        match self.layer_rope_kinds[layer_index] {
            LayerRopeKind::NoKernel => None,
            LayerRopeKind::Indexed(index) => Some(&self.rope_buffers[index]),
        }
    }

    /// The attention sinks of a layer, where it has any.
    pub fn attention_sinks(&self, layer_index: usize) -> (res: Option<&Allocation>)
        ensures
            match res {
                Some(allocation) => layer_index < self@.attention_sinks.len() && (
                self@.attention_sinks[layer_index as int] matches Some(sinks) && *allocation
                    == sinks.allocation),
                None => layer_index < self@.attention_sinks.len()
                    ==> self@.attention_sinks[layer_index as int] is None,
            },
    {
        if layer_index < self.attention_sinks.len() {
            match &self.attention_sinks[layer_index] {
                Some(sinks) => Some(&sinks.allocation),
                None => None,
            }
        } else {
            None
        }
    }
}

/// What filling rope buffers from `from` on asks of the device, and what comes of
/// it. The first failure is the last thing asked, and is passed on.
pub open spec fn rope_updates(
    context: ContextView,
    buffers: Seq<RopeBuffers>,
    tree: TreeView,
    from: int,
) -> (ContextView, Result<(), ErrorView>)
    decreases buffers.len() - from,
{
    if from < 0 || from >= buffers.len() {
        (context, Ok(()))
    } else {
        let after = context.record(
            Request::UpdateRopeBuffers {
                buffers: buffers[from].request,
                tree: tree_location(tree),
                index: from as usize,
            },
        );
        match context.answer() {
            Ok(_) => rope_updates(after, buffers, tree, from + 1),
            Err(e) => (after, Err(Error::Reported(e))),
        }
    }
}

/// The name of a layer's tree.
pub open spec fn layer_name(index: int) -> Seq<char> {
    "layers."@ + decimal(index as nat)
}

/// The tree of a layer's mixer.
pub open spec fn mixer_tree(transformer: TreeView, layer: int) -> TreeView {
    transformer.child(layer_name(layer)).child("mixer"@)
}

/// Whether the sinks of a layer, where it has some, are stored, one for each head.
pub open spec fn layer_sinks_stored(
    sinks: Seq<Option<AttentionSinks>>,
    transformer: TreeView,
    layer: int,
) -> bool {
    sinks[layer] matches Some(layer_sinks) ==> {
        let tree = mixer_tree(transformer, layer);
        &&& tree.has_leaf("sinks"@)
        &&& conforms(tree.entry("sinks"@), seq![layer_sinks.num_heads], DataType::F32)
        &&& tree.entry("sinks"@).size / WORD_SIZE == layer_sinks.num_heads
    }
}

/// Whether the sinks of every layer that has some are stored, one for each head.
pub open spec fn sinks_stored(sinks: Seq<Option<AttentionSinks>>, transformer: TreeView) -> bool {
    forall|i: int| 0 <= i < sinks.len() ==> #[trigger] layer_sinks_stored(sinks, transformer, i)
}

/// The first layer from `from` on whose sinks are not stored.
pub open spec fn first_missing(sinks: Seq<Option<AttentionSinks>>, transformer: TreeView, from: int) -> int
    decreases sinks.len() - from,
{
    if 0 <= from < sinks.len() && layer_sinks_stored(sinks, transformer, from) {
        first_missing(sinks, transformer, from + 1)
    } else {
        from
    }
}

/// The requests that fill the sinks of some layers.
pub open spec fn sink_reads(sinks: Seq<Option<AttentionSinks>>, transformer: TreeView) -> Seq<RequestView>
    decreases sinks.len(),
{
    if sinks.len() == 0 {
        Seq::empty()
    } else {
        let before = sink_reads(sinks.drop_last(), transformer);
        match sinks.last() {
            Some(layer_sinks) => {
                let entry = mixer_tree(transformer, sinks.len() - 1).entry("sinks"@);
                before.push(
                    Request::ReadFile {
                        file: transformer.loader.file,
                        allocation: layer_sinks.allocation,
                        offset: entry.offset,
                        length: spec_slice_length(entry, WORD_SIZE as int) as usize,
                    },
                )
            },
            None => before,
        }
    }
}

impl SharedBuffersView {
    /// What filling the buffers asks of the device, and what comes of it: first the
    /// rope buffers are filled, then the sinks.
    pub open spec fn update(self, context: ContextView, transformer: TreeView) -> (
        ContextView,
        Result<(), ErrorView>,
    ) {
        let (middle, updated) = rope_updates(context, self.rope_buffers, transformer, 0);
        match updated {
            Err(e) => (middle, Err(e)),
            Ok(_) => {
                let reads = sink_reads(self.attention_sinks, transformer);
                (ContextView { requests: middle.requests + reads, fault: middle.fault }, Ok(()))
            },
        }
    }

    /// What has been asked of the device where sinks are reached that are not stored.
    pub open spec fn update_stop(self, context: ContextView, transformer: TreeView) -> ContextView {
        let (middle, _) = rope_updates(context, self.rope_buffers, transformer, 0);
        let found = first_missing(self.attention_sinks, transformer, 0);
        let reads = sink_reads(self.attention_sinks.take(found), transformer);
        ContextView { requests: middle.requests + reads, fault: middle.fault }
    }

    /// Whether the sinks, where they are reached, are stored.
    pub open spec fn updatable(self, context: ContextView, transformer: TreeView) -> bool {
        rope_updates(context, self.rope_buffers, transformer, 0).1 is Ok ==> sinks_stored(
            self.attention_sinks,
            transformer,
        )
    }
}

impl SharedBuffers {
    /// Fills the buffers from the transformer in a tree.
    pub fn update_data(&self, context: &mut Context, parameter_tree: &ParameterTree<'_>) -> (res: Result<
        (),
        Error,
    >)
        requires
            parameter_tree@.subtree("transformer"@) is Ok ==> self@.updatable(
                old(context)@,
                parameter_tree@.child("transformer"@),
            ),
        ensures
            (final(context)@, session_result(res)) == match parameter_tree@.subtree("transformer"@) {
                Ok(transformer) => self@.update(old(context)@, transformer),
                Err(_) => (old(context)@, Err(ErrorView::UnableToLoadWeights)),
            },
    {
        match parameter_tree.subtree("transformer") {
            Ok(transformer_tree) => self.update_data_from_transformer_tree(context, &transformer_tree),
            Err(_) => Err(Error::UnableToLoadWeights),
        }
    }

    /// Fills the buffers from the tree of a transformer.
    pub fn update_data_from_transformer_tree(
        &self,
        context: &mut Context,
        transformer_tree: &ParameterTree<'_>,
    ) -> (res: Result<(), Error>)
        requires
            self@.updatable(old(context)@, transformer_tree@),
        ensures
            (final(context)@, session_result(res)) == self@.update(old(context)@, transformer_tree@),
    {
        match self.attempt_update(context, transformer_tree) {
            Some(res) => res,
            None => unreached(),
        }
    }

    /// Fills the buffers from the tree of a transformer, up to sinks that are not
    /// stored: where some are reached, there is nothing to give back.
    pub(crate) fn attempt_update(&self, context: &mut Context, transformer_tree: &ParameterTree<'_>) -> (res:
        Option<Result<(), Error>>)
        ensures
            ({
                let ready = self@.updatable(old(context)@, transformer_tree@);
                match res {
                    Some(res) => ready && (final(context)@, session_result(res)) == self@.update(
                        old(context)@,
                        transformer_tree@,
                    ),
                    None => !ready && final(context)@ == self@.update_stop(old(context)@, transformer_tree@),
                }
            }),
    {
        let ghost before = context@;
        let ghost transformer = transformer_tree@;
        let mut i: usize = 0;
        while i < self.rope_buffers.len()
            invariant
                i <= self.rope_buffers@.len(),
                before == old(context)@,
                transformer == transformer_tree@,
                rope_updates(before, self.rope_buffers@, transformer, 0) == rope_updates(
                    context@,
                    self.rope_buffers@,
                    transformer,
                    i as int,
                ),
            decreases self.rope_buffers@.len() - i,
        {
            let request = Request::UpdateRopeBuffers {
                buffers: self.rope_buffers[i].request,
                tree: transformer_tree.location(),
                index: i,
            };
            match context.issue(request) {
                Ok(_) => {},
                Err(e) => {
                    return Some(Err(Error::Reported(e)));
                },
            }
            i += 1;
        }
        let ghost middle = context@;
        let ghost sinks = self.attention_sinks@;
        let mut i: usize = 0;
        assert(sinks.take(0) =~= Seq::empty());
        assert(middle.requests + sink_reads(sinks.take(0), transformer) =~= middle.requests);
        while i < self.attention_sinks.len()
            invariant
                i <= sinks.len(),
                before == old(context)@,
                sinks == self.attention_sinks@,
                transformer == transformer_tree@,
                rope_updates(before, self.rope_buffers@, transformer, 0) == (
                    middle,
                    Ok::<(), ErrorView>(()),
                ),
                forall|j: int| 0 <= j < i ==> #[trigger] layer_sinks_stored(sinks, transformer, j),
                first_missing(sinks, transformer, 0) == first_missing(sinks, transformer, i as int),
                context@.fault == middle.fault,
                context@.requests == middle.requests + sink_reads(sinks.take(i as int), transformer),
            decreases sinks.len() - i,
        {
            assert(sinks.take(i + 1).drop_last() =~= sinks.take(i as int));
            if let Some(layer_sinks) = self.attention_sinks[i] {
                match SharedBuffers::find_sinks(transformer_tree, i, layer_sinks.num_heads) {
                    Some((offset, length)) => {
                        context.record(
                            Request::ReadFile {
                                file: transformer_tree.loader.file,
                                allocation: layer_sinks.allocation,
                                offset,
                                length,
                            },
                        );
                    },
                    None => {
                        assert(!layer_sinks_stored(sinks, transformer, i as int));
                        return None;
                    },
                }
            }
            assert(layer_sinks_stored(sinks, transformer, i as int));
            assert(context@.requests =~= middle.requests + sink_reads(sinks.take(i + 1), transformer));
            i += 1;
        }
        assert(sinks.take(i as int) =~= sinks);
        Some(Ok(()))
    }

    /// Looks for the stored sinks of a layer: where they begin, and how long they are.
    fn find_sinks(transformer_tree: &ParameterTree<'_>, layer: usize, num_heads: usize) -> (res: Option<
        (usize, usize),
    >)
        ensures
            ({
                let tree = mixer_tree(transformer_tree@, layer as int);
                let entry = tree.entry("sinks"@);
                let stored = tree.has_leaf("sinks"@) && conforms(entry, seq![num_heads], DataType::F32)
                    && entry.size / WORD_SIZE == num_heads;
                match res {
                    Some((offset, length)) => stored && offset == entry.offset && length == spec_slice_length(
                        entry,
                        WORD_SIZE as int,
                    ),
                    None => !stored,
                }
            }),
    {
        let name = append_decimal("layers.", layer);
        proof {
            let layer = transformer_tree@.child(name@);
            what_stands_below_is_found(layer, "mixer"@, "sinks"@);
            what_stands_below_is_found(transformer_tree@, name@, "mixer"@);
        }
        let layer_tree = match transformer_tree.subtree(name.as_str()) {
            Ok(tree) => tree,
            Err(_) => {
                return None;
            },
        };
        let mixer_tree = match layer_tree.subtree("mixer") {
            Ok(tree) => tree,
            Err(_) => {
                return None;
            },
        };
        let leaf = match mixer_tree.leaf("sinks") {
            Ok(leaf) => leaf,
            Err(_) => {
                return None;
            },
        };
        let shape = [num_heads];
        assert(shape@ =~= seq![num_heads]);
        match leaf.validate(shape.as_slice(), DataType::F32) {
            Ok(leaf) => {
                if leaf.metadata.size / WORD_SIZE == num_heads {
                    Some((leaf.metadata.offset, leaf.slice_length::<u32>()))
                } else {
                    None
                }
            },
            Err(_) => None,
        }
    }
}

/// Two layers share rope buffers exactly where they want them for the same. A layer
/// that wants none has none.
pub proof fn layers_share_what_both_want(layers: Seq<LayerConfig>, start: int, i: int, j: int)
    requires
        0 <= i < layers.len(),
        0 <= j < layers.len(),
        layers.len() <= usize::MAX,
    ensures
        ({
            let kinds = SharedBuffersView::of(layers, start).layer_rope_kinds;
            &&& kinds[i] is NoKernel <==> rope_want(layers[i]) is None
            &&& kinds[i] == kinds[j] <==> rope_want(layers[i]) == rope_want(layers[j])
        }),
{
    let wants = rope_wants(layers);
    wants_are_distinct(layers);
    if let Some(want) = rope_want(layers[i]) {
        assert(wants.contains(want));
        assert(wants[wants.index_of(want)] == want);
    }
    if let Some(want) = rope_want(layers[j]) {
        assert(wants.contains(want));
        assert(wants[wants.index_of(want)] == want);
    }
}

/// Every rope buffer is used by some layer, and is made for what that layer wants.
pub proof fn rope_buffers_are_used(layers: Seq<LayerConfig>, start: int, index: int)
    requires
        layers.len() <= usize::MAX,
        0 <= index < SharedBuffersView::of(layers, start).rope_buffers.len(),
    ensures
        exists|i: int|
            0 <= i < layers.len() && #[trigger] SharedBuffersView::of(layers, start).layer_rope_kinds[i]
                == LayerRopeKind::Indexed(index as usize) && rope_want(layers[i]) == Some(
                rope_wants(layers)[index],
            ),
{
    let wants = rope_wants(layers);
    wants_are_distinct(layers);
    let want = wants[index];
    assert(wants.contains(want));
    let i = choose|i: int| 0 <= i < layers.len() && rope_want(#[trigger] layers[i]) == Some(want);
    assert(wants[wants.index_of(want)] == want);
    assert(SharedBuffersView::of(layers, start).layer_rope_kinds[i] == LayerRopeKind::Indexed(
        index as usize,
    ));
}

/// The buffers of the layers are those that the requests create: each rope buffer for
/// its want, and sinks of its own for each layer that has some.
pub proof fn buffers_are_what_was_asked_for(
    context: ContextView,
    layers: Seq<LayerConfig>,
    rope_data_type: DataType,
)
    requires
        context.requests.len() + shared_requests(layers, rope_data_type).len() <= usize::MAX,
    ensures
        ({
            let requests = context.requests + shared_requests(layers, rope_data_type);
            let buffers = SharedBuffersView::of(layers, context.requests.len() as int);
            &&& forall|i: int|
                0 <= i < buffers.rope_buffers.len() ==> requests[(
                #[trigger] buffers.rope_buffers[i]).request as int] == rope_request(
                    rope_wants(layers)[i],
                    rope_data_type,
                )
            &&& forall|i: int|
                0 <= i < layers.len() ==> match (#[trigger] buffers.attention_sinks[i], sink_heads(layers[i])) {
                    (
                        Some(AttentionSinks { allocation: Allocation::Resident(number), num_heads }),
                        Some(heads),
                    ) => num_heads == heads && requests[number as int] == Request::<Seq<char>>::CreateArray {
                        length: heads,
                        data_type: DataType::F32,
                    },
                    (None, None) => true,
                    _ => false,
                }
        }),
{
    let requests = context.requests + shared_requests(layers, rope_data_type);
    let buffers = SharedBuffersView::of(layers, context.requests.len() as int);
    assert forall|i: int| 0 <= i < layers.len() && sink_heads(layers[i]) is Some implies {
        let before = sink_requests(#[trigger] layers.take(i));
        &&& before.len() < sink_requests(layers).len()
        &&& sink_requests(layers)[before.len() as int] == Request::<Seq<char>>::CreateArray {
            length: sink_heads(layers[i])->0,
            data_type: DataType::F32,
        }
    } by {
        sink_requests_grow(layers, i);
        sink_requests_extend(layers, i + 1);
        let longer = sink_requests(layers.take(i + 1));
        assert(sink_requests(layers).take(longer.len() as int) =~= longer);
        assert(longer.last() == sink_requests(layers)[longer.len() - 1]);
    }
    assert forall|i: int| 0 <= i < layers.len() implies match (
        #[trigger] buffers.attention_sinks[i],
        sink_heads(layers[i]),
    ) {
        (Some(AttentionSinks { allocation: Allocation::Resident(number), num_heads }), Some(heads)) => {
            num_heads == heads && requests[number as int] == Request::<Seq<char>>::CreateArray {
                length: heads,
                data_type: DataType::F32,
            }
        },
        (None, None) => true,
        _ => false,
    } by {
        let before = sink_requests(layers.take(i));
    }
}

/// The requests for the sinks of the first layers are the first requests.
proof fn sink_requests_extend(layers: Seq<LayerConfig>, n: int)
    requires
        0 <= n <= layers.len(),
    ensures
        sink_requests(layers.take(n)).is_prefix_of(sink_requests(layers)),
    decreases layers.len() - n,
{
    if n == layers.len() {
        assert(layers.take(n) =~= layers);
        assert(sink_requests(layers).take(sink_requests(layers).len() as int) =~= sink_requests(layers));
    } else {
        sink_requests_grow(layers, n);
        sink_requests_extend(layers, n + 1);
        let shorter = sink_requests(layers.take(n));
        let longer = sink_requests(layers.take(n + 1));
        assert(sink_requests(layers).take(longer.len() as int) =~= longer);
        assert(sink_requests(layers).take(shorter.len() as int) =~= shorter);
    }
}

/// Filling rope buffers asks for nothing after a refusal, and fails exactly where there
/// was one.
pub proof fn rope_updates_follow(
    context: ContextView,
    buffers: Seq<RopeBuffers>,
    tree: TreeView,
    from: int,
)
    ensures
        ({
            let (after, updated) = rope_updates(context, buffers, tree, from);
            after.follows(context, updated is Err)
        }),
    decreases buffers.len() - from,
{
    assert(context.requests.take(context.requests.len() as int) =~= context.requests);
    if 0 <= from < buffers.len() {
        let request = Request::UpdateRopeBuffers {
            buffers: buffers[from].request,
            tree: tree_location(tree),
            index: from as usize,
        };
        let middle = context.record(request);
        a_request_follows(context, request);
        if context.answer() is Ok {
            rope_updates_follow(middle, buffers, tree, from + 1);
            let (after, updated) = rope_updates(middle, buffers, tree, from + 1);
            follows_in_parts(context, middle, after, updated is Err);
        }
    }
}

/// Filling rope buffers with a fault is filling them without one, up to the refusal.
pub proof fn rope_updates_replay(
    context: ContextView,
    buffers: Seq<RopeBuffers>,
    tree: TreeView,
    from: int,
    fault: Fault,
)
    requires
        context.fault is None,
    ensures
        replays(
            rope_updates(context, buffers, tree, from),
            rope_updates(context.with(fault), buffers, tree, from),
            fault,
        ),
    decreases buffers.len() - from,
{
    if 0 <= from < buffers.len() {
        let request = Request::UpdateRopeBuffers {
            buffers: buffers[from].request,
            tree: tree_location(tree),
            index: from as usize,
        };
        let middle = context.record(request);
        a_request_replays(context, request, fault);
        rope_updates_replay(middle, buffers, tree, from + 1, fault);
        rope_updates_follow(middle, buffers, tree, from + 1);
        if context.with(fault).answer() is Err {
            cut_stays(
                context.with(fault).record(request),
                middle,
                rope_updates(middle, buffers, tree, from + 1).0,
                fault,
            );
        }
    }
}

/// Filling the buffers with a fault is filling them without one, up to the refusal.
pub proof fn update_replays(
    buffers: SharedBuffersView,
    context: ContextView,
    transformer: TreeView,
    fault: Fault,
)
    requires
        context.fault is None,
    ensures
        replays(buffers.update(context, transformer), buffers.update(context.with(fault), transformer), fault),
{
    let (middle, updated) = rope_updates(context, buffers.rope_buffers, transformer, 0);
    let (cut, refused) = rope_updates(context.with(fault), buffers.rope_buffers, transformer, 0);
    let (after, _) = buffers.update(context, transformer);
    rope_updates_replay(context, buffers.rope_buffers, transformer, 0, fault);
    if updated is Ok && refused is Err {
        assert(after.requests.take(middle.requests.len() as int) =~= middle.requests);
        cut_stays(cut, middle, after, fault);
    }
}

/// Different layers are stored in trees of different names.
pub proof fn layers_have_names_of_their_own(i: nat, j: nat)
    requires
        layer_name(i as int) == layer_name(j as int),
    ensures
        i == j,
{
    let prefix = "layers."@;
    assert(decimal(i) =~= layer_name(i as int).skip(prefix.len() as int));
    assert(decimal(j) =~= layer_name(j as int).skip(prefix.len() as int));
    decimal_is_injective(i, j);
}

} // verus!
