//! What a classifier is made of.

use vstd::prelude::*;

use crate::backend::context::{
    ContextView, NormalizationRole, Request, RequestView, TreeLocation,
    TreeLocationView,
};
use crate::classifier::{
    classifier_outcome, classifier_plan, classifier_ready, stay, Crown, Trunk,
};
use crate::config::model::{ClassifierConfigView, LayerConfig};
use crate::data_type::DataType;
use crate::embedding::{AnyEmbeddingConfig, ModelShape, TableShape};
use crate::error::{ClassifierError, Error, ErrorView};
use crate::forward_pass::config::{
    ClassifierForwardPassConfig, EmbeddingForwardPassConfig, MixerForwardPassConfig,
    NormalizationForwardPassConfig, TransformerForwardPassConfig,
};
use crate::forward_pass::shared_buffers::{
    layer_name, rope_updates_follow, shared_requests, SharedBuffersView,
};
use crate::forward_pass::sharing::{
    has_stored_sinks, sink_count, sinks_are_wanted_where_they_are, tree_of_sinks,
};
use crate::linear::block::{linear_outcome, LinearBlock, LinearBlockErrorView};
use crate::linear::laws::linear_follows;
use crate::linear::storage::{fits, in_groups, maps_in_groups_are_ready, maps_load_what_is_described};
use crate::parameters::loader::{LoaderView, TreeView};
use crate::parameters::stored::{below, full_name, is_stored, names_are_full};
use crate::tables::{
    embedding_is, embedding_stays, embeddings_load_what_is_stored, loaded_embedding, lookup_table,
    readout_table,
};
use crate::text::decimal;

verus! {

/// The tree of the classifier in a file.
pub open spec fn classifier_tree(loader: LoaderView) -> TreeView {
    below(TreeView { loader, prefix: None }, "classifier"@)
}

/// The tree of the transformer of a classifier.
pub open spec fn transformer_tree(loader: LoaderView) -> TreeView {
    below(classifier_tree(loader), "transformer"@)
}

/// The tree of the prediction head of a classifier.
pub open spec fn head_tree(loader: LoaderView) -> TreeView {
    below(classifier_tree(loader), "prediction_head"@)
}

/// Where a tree stands.
pub open spec fn place(tree: TreeView) -> TreeLocationView {
    TreeLocation { file: tree.loader.file, prefix: tree.prefix }
}

/// Whether a number is that of a request.
pub open spec fn is_made(requests: Seq<RequestView>, number: usize, request: RequestView) -> bool {
    number < requests.len() && requests[number as int] == request
}

/// Whether a number is that of the request for a normalization, which adds up in single
/// precision.
pub open spec fn is_norm(
    requests: Seq<RequestView>,
    number: usize,
    role: NormalizationRole,
    data_type: DataType,
    model_dim: usize,
    tree: TreeView,
) -> bool {
    is_made(
        requests,
        number,
        Request::CreateNormalization {
            role,
            data_type,
            model_dim,
            accumulation_data_type: DataType::F32,
            tree: place(tree),
        },
    )
}

/// Whether a linear map is the one that was loaded from a tree, in the course of some
/// requests.
pub open spec fn is_map_from(
    requests: Seq<RequestView>,
    linear: LinearBlock,
    input_dim: usize,
    output_dim: usize,
    data_type: DataType,
    tree: TreeView,
) -> bool {
    exists|context: ContextView|
        (#[trigger] linear_outcome(context, input_dim, output_dim, data_type, tree)).1 == Ok::<
            LinearBlock,
            LinearBlockErrorView,
        >(linear) && linear_outcome(
            context,
            input_dim,
            output_dim,
            data_type,
            tree,
        ).0.requests.is_prefix_of(requests)
}

/// The size of a classifier's table of tokens.
pub open spec fn table_of(config: ClassifierConfigView, model_shape: ModelShape) -> TableShape {
    TableShape {
        vocab_size: config.vocab_size as u32,
        model_dim: config.transformer_config.model_dim as u32,
        data_type: model_shape.weights_data_type,
    }
}

/// What stands behind the layers of a classifier: the normalization of the output, that of
/// the embedding, the two linear maps of the prediction head with a normalization between
/// them, what pools, and what stands between the maps, in this order.
pub open spec fn crown_is(
    requests: Seq<RequestView>,
    start: int,
    crown: Crown,
    loader: LoaderView,
    config: ClassifierConfigView,
    data_type: DataType,
) -> bool {
    let head = crown.prediction_head;
    &&& is_norm(
        requests,
        crown.output_norm,
        NormalizationRole::Output,
        DataType::BF16,
        config.transformer_config.model_dim,
        below(transformer_tree(loader), "output_norm"@),
    )
    &&& is_norm(
        requests,
        crown.embedding_norm,
        NormalizationRole::Embedding,
        DataType::BF16,
        config.transformer_config.model_dim,
        below(classifier_tree(loader), "embedding_norm"@),
    )
    &&& is_norm(
        requests,
        head.norm,
        NormalizationRole::PredictionHead,
        data_type,
        config.model_dim,
        below(head_tree(loader), "norm"@),
    )
    &&& is_map_from(
        requests,
        head.dense,
        config.model_dim,
        config.model_dim,
        data_type,
        below(head_tree(loader), "dense"@),
    )
    &&& is_map_from(
        requests,
        head.readout,
        config.model_dim,
        config.num_labels,
        data_type,
        below(head_tree(loader), "readout"@),
    )
    &&& is_made(
        requests,
        crown.pooling,
        Request::CreatePooling { data_type: DataType::BF16, model_dim: config.model_dim },
    )
    &&& is_made(
        requests,
        head.activation,
        Request::CreatePredictionHead { data_type, model_dim: config.model_dim },
    )
    &&& head.data_type == data_type
    &&& head.model_dim == config.model_dim
    &&& start == crown.output_norm
    &&& crown.output_norm + 1 == crown.embedding_norm
    &&& crown.embedding_norm < head.norm < crown.pooling
    &&& crown.pooling + 1 == head.activation
    &&& head.activation == requests.len() - 1
}

/// The plan of a classifier walks the trees of that name, and computes in the types for
/// inference.
proof fn plan_is(loader: LoaderView, config: ClassifierConfigView, model_shape: ModelShape)
    ensures
        ({
            let plan = classifier_plan(loader, config, model_shape);
            &&& plan.config == config
            &&& plan.weights_data_type == model_shape.weights_data_type
            &&& plan.root == classifier_tree(loader)
            &&& plan.transformer() == transformer_tree(loader)
            &&& plan.head() == head_tree(loader)
            &&& plan.activation() == DataType::BF16
            &&& plan.forward_pass_config.transformer_forward_pass_config.mixer_forward_pass_config.rope_data_type
                == DataType::F32
            &&& plan.forward_pass_config.normalization_forward_pass_config.accumulation_data_type
                == DataType::F32
            &&& plan.table() == table_of(config, model_shape)
        }),
{
    names_are_full(TreeView { loader, prefix: None }, "classifier"@);
    names_are_full(classifier_tree(loader), "transformer"@);
    names_are_full(classifier_tree(loader), "prediction_head"@);
}

/// What stands behind the layers is what it should be.
proof fn crown_is_right(
    context: ContextView,
    loader: LoaderView,
    config: ClassifierConfigView,
    model_shape: ModelShape,
)
    requires
        classifier_plan(loader, config, model_shape).crown(context).1 is Ok,
        classifier_plan(loader, config, model_shape).crown(context).0.requests.len() <= usize::MAX,
    ensures
        ({
            let (after, crown) = classifier_plan(loader, config, model_shape).crown(context);
            crown_is(
                after.requests,
                context.requests.len() as int,
                crown->Ok_0,
                loader,
                config,
                model_shape.weights_data_type,
            )
        }),
{
    let plan = classifier_plan(loader, config, model_shape);
    let data_type = model_shape.weights_data_type;
    plan_is(loader, config, model_shape);
    plan.crown_grows(context);
    names_are_full(transformer_tree(loader), "output_norm"@);
    names_are_full(classifier_tree(loader), "embedding_norm"@);
    names_are_full(head_tree(loader), "norm"@);
    names_are_full(head_tree(loader), "dense"@);
    names_are_full(head_tree(loader), "readout"@);
    let dense_tree = below(head_tree(loader), "dense"@);
    let readout_tree = below(head_tree(loader), "readout"@);
    let (after, crown) = plan.crown(context);
    let all = after.requests;
    let (c1, _) = plan.norms(context);
    let (c2, dense) = plan.dense(c1);
    let (c3, _) = plan.head_norm(c2);
    let (c4, readout) = plan.readout(c3);
    linear_follows(c1, config.model_dim, config.model_dim, data_type, dense_tree);
    linear_follows(c3, config.model_dim, config.num_labels, data_type, readout_tree);
    assert(all.take(c1.requests.len() as int) =~= c1.requests);
    assert(all.take(c2.requests.len() as int) =~= c2.requests);
    assert(all.take(c3.requests.len() as int) =~= c3.requests);
    assert(all.take(c4.requests.len() as int) =~= c4.requests);
    let n = context.requests.len() as int;
    assert(all[n] == c1.requests[n]);
    assert(all[n + 1] == c1.requests[n + 1]);
    assert(all[c2.requests.len() as int] == c3.requests[c2.requests.len() as int]);
    assert(linear_outcome(c1, config.model_dim, config.model_dim, data_type, dense_tree).1 == Ok::<
        LinearBlock,
        LinearBlockErrorView,
    >(crown->Ok_0.prediction_head.dense));
    assert(linear_outcome(c3, config.model_dim, config.num_labels, data_type, readout_tree).1 == Ok::<
        LinearBlock,
        LinearBlockErrorView,
    >(crown->Ok_0.prediction_head.readout));
}

/// The request for a layer of a classifier. It attends and adds up in single precision.
pub open spec fn layer_of(
    loader: LoaderView,
    layer: int,
    rope: usize,
    qk_unpack: usize,
    data_type: DataType,
) -> RequestView {
    let norm = NormalizationForwardPassConfig { accumulation_data_type: DataType::F32 };
    Request::CreateClassifierLayer {
        index: layer as usize,
        tree: place(below(transformer_tree(loader), "layers."@ + decimal(layer as nat))),
        rope,
        qk_unpack,
        forward_pass_config: TransformerForwardPassConfig {
            mixer_forward_pass_config: MixerForwardPassConfig {
                rope_data_type: DataType::F32,
                normalization_forward_pass_config: norm,
            },
            normalization_forward_pass_config: norm,
        },
        data_type: DataType::BF16,
        weights_data_type: data_type,
    }
}

/// Whether something is stored below a name of a tree.
pub open spec fn is_below(tree: TreeView, name: Seq<char>) -> bool {
    exists|key: Seq<char>| #[trigger]
        tree.loader.index.contains_key(key) && full_name(tree, name).is_prefix_of(key)
}

/// Whether a layer can be loaded: it attends, and something is stored for it.
pub open spec fn layer_fits(loader: LoaderView, layers: Seq<LayerConfig>, i: int) -> bool {
    layers[i].mixer_config is Attention && is_below(
        transformer_tree(loader),
        "layers."@ + decimal(i as nat),
    )
}

/// How a plan goes through the layers.
proof fn layer_is_next(
    context: ContextView,
    loader: LoaderView,
    config: ClassifierConfigView,
    model_shape: ModelShape,
    rope: usize,
    qk_unpack: usize,
    from: int,
    made: Seq<usize>,
)
    requires
        0 <= from < config.transformer_config.layer_configs.len(),
    ensures
        ({
            let plan = classifier_plan(loader, config, model_shape);
            let layers = config.transformer_config.layer_configs;
            plan.layers_from(context, rope, qk_unpack, from, made) == if layer_fits(loader, layers, from) {
                plan.layers_from(
                    context.record(
                        layer_of(loader, from, rope, qk_unpack, model_shape.weights_data_type),
                    ),
                    rope,
                    qk_unpack,
                    from + 1,
                    made.push(context.requests.len() as usize),
                )
            } else {
                (context, Err(layer_error(layers, from)))
            }
        }),
{
    let plan = classifier_plan(loader, config, model_shape);
    let layers = config.transformer_config.layer_configs;
    let name = "layers."@ + decimal(from as nat);
    plan_is(loader, config, model_shape);
    names_are_full(transformer_tree(loader), name);
    assert(layer_name(from) == name);
    assert(transformer_tree(loader).subtree(name) is Ok <==> is_below(transformer_tree(loader), name));
    assert(layers[from].mixer_config.attention() is Some <==> layers[from].mixer_config is Attention);
    assert(plan.layer_request(from, rope, qk_unpack) == layer_of(
        loader,
        from,
        rope,
        qk_unpack,
        model_shape.weights_data_type,
    ));
}

/// Layers are created exactly where all of them can be loaded. Otherwise the first that
/// cannot is named.
proof fn layers_are_created_where_they_fit(
    context: ContextView,
    loader: LoaderView,
    config: ClassifierConfigView,
    model_shape: ModelShape,
    rope: usize,
    qk_unpack: usize,
    from: int,
    made: Seq<usize>,
)
    requires
        0 <= from <= config.transformer_config.layer_configs.len(),
    ensures
        ({
            let plan = classifier_plan(loader, config, model_shape);
            let layers = config.transformer_config.layer_configs;
            let (after, created) = plan.layers_from(context, rope, qk_unpack, from, made);
            let n = context.requests.len() as int;
            &&& created is Ok <==> forall|i: int|
                from <= i < layers.len() ==> #[trigger] layer_fits(loader, layers, i)
            &&& created is Ok ==> after.requests.len() == n + layers.len() - from
            &&& created is Err ==> exists|i: int| #[trigger]
                is_first_unfit(loader, layers, from, i) && created->Err_0 == layer_error(layers, i)
                    && after.requests.len() == n + i - from
        }),
    decreases config.transformer_config.layer_configs.len() - from,
{
    let plan = classifier_plan(loader, config, model_shape);
    let layers = config.transformer_config.layer_configs;
    if from < layers.len() {
        layer_is_next(context, loader, config, model_shape, rope, qk_unpack, from, made);
        let n = context.requests.len() as int;
        if layer_fits(loader, layers, from) {
            let request = layer_of(loader, from, rope, qk_unpack, model_shape.weights_data_type);
            let more = made.push(n as usize);
            layers_are_created_where_they_fit(
                context.record(request),
                loader,
                config,
                model_shape,
                rope,
                qk_unpack,
                from + 1,
                more,
            );
            let (after, created) = plan.layers_from(context, rope, qk_unpack, from, made);
            if created is Err {
                let i = choose|i: int| #[trigger]
                    is_first_unfit(loader, layers, from + 1, i) && created->Err_0 == layer_error(layers, i)
                        && after.requests.len() == n + 1 + i - (from + 1);
                assert(is_first_unfit(loader, layers, from, i));
                assert(!layer_fits(loader, layers, i));
            }
        } else {
            assert(is_first_unfit(loader, layers, from, from));
        }
    }
}

/// Whether a layer was created by the request with a number.
pub open spec fn is_layer(
    requests: Seq<RequestView>,
    number: usize,
    at: int,
    loader: LoaderView,
    layer: int,
    rope: usize,
    qk_unpack: usize,
    data_type: DataType,
) -> bool {
    &&& number == at
    &&& 0 <= at < requests.len()
    &&& requests[at] == layer_of(loader, layer, rope, qk_unpack, data_type)
}

/// Layers are created one after the other.
proof fn layers_come_in_order(
    context: ContextView,
    loader: LoaderView,
    config: ClassifierConfigView,
    model_shape: ModelShape,
    rope: usize,
    qk_unpack: usize,
    from: int,
    made: Seq<usize>,
)
    requires
        0 <= from <= config.transformer_config.layer_configs.len(),
        made.len() == from,
        ({
            let plan = classifier_plan(loader, config, model_shape);
            let (after, created) = plan.layers_from(context, rope, qk_unpack, from, made);
            created is Ok && after.requests.len() <= usize::MAX
        }),
    ensures
        ({
            let plan = classifier_plan(loader, config, model_shape);
            let layers = config.transformer_config.layer_configs;
            let (after, created) = plan.layers_from(context, rope, qk_unpack, from, made);
            &&& context.requests.is_prefix_of(after.requests)
            &&& created->Ok_0.len() == layers.len()
            &&& forall|i: int| 0 <= i < from ==> #[trigger] (created->Ok_0)[i] == made[i]
            &&& forall|i: int|
                from <= i < layers.len() ==> is_layer(
                    after.requests,
                    #[trigger] (created->Ok_0)[i],
                    context.requests.len() + i - from,
                    loader,
                    i,
                    rope,
                    qk_unpack,
                    model_shape.weights_data_type,
                )
        }),
    decreases config.transformer_config.layer_configs.len() - from,
{
    let plan = classifier_plan(loader, config, model_shape);
    let layers = config.transformer_config.layer_configs;
    assert(context.requests.take(context.requests.len() as int) =~= context.requests);
    if from < layers.len() {
        layer_is_next(context, loader, config, model_shape, rope, qk_unpack, from, made);
        let n = context.requests.len() as int;
        let request = layer_of(loader, from, rope, qk_unpack, model_shape.weights_data_type);
        let middle = context.record(request);
        let more = made.push(n as usize);
        layers_come_in_order(middle, loader, config, model_shape, rope, qk_unpack, from + 1, more);
        let (after, created) = plan.layers_from(context, rope, qk_unpack, from, made);
        let all = created->Ok_0;
        assert(middle.requests.take(n) =~= context.requests);
        stay(context.requests, middle.requests, after.requests);
        assert(after.requests.take(n + 1) =~= middle.requests);
        assert(after.requests[n] == middle.requests.last());
        assert(middle.requests.len() <= after.requests.len());
        assert(all[from] == more[from]);
        assert forall|i: int| 0 <= i < from implies #[trigger] all[i] == made[i] by {
            assert(all[i] == more[i]);
        }
    }
}

/// Whether a layer is the first from `from` on that cannot be loaded.
pub open spec fn is_first_unfit(loader: LoaderView, layers: Seq<LayerConfig>, from: int, i: int) -> bool {
    &&& from <= i < layers.len()
    &&& !layer_fits(loader, layers, i)
    &&& forall|j: int| from <= j < i ==> #[trigger] layer_fits(loader, layers, j)
}

/// The error for a layer that cannot be loaded: that it does not attend, or else its name.
pub open spec fn layer_error(layers: Seq<LayerConfig>, i: int) -> ErrorView {
    if layers[i].mixer_config is Attention {
        Error::Classifier(ClassifierError::WeightSubtreeNotFound("layers."@ + decimal(i as nat)))
    } else {
        Error::Classifier(ClassifierError::NonAttentionMixer)
    }
}

/// What stands before the embedding of a classifier: the buffers that the layers share,
/// which were filled.
pub open spec fn buffers_are(
    requests: Seq<RequestView>,
    earlier: ContextView,
    buffers: SharedBuffersView,
    loader: LoaderView,
    config: ClassifierConfigView,
) -> bool {
    let layers = config.transformer_config.layer_configs;
    let created = ContextView {
        requests: earlier.requests + shared_requests(layers, DataType::F32),
        fault: earlier.fault,
    };
    let (filled, updated) = buffers.update(created, transformer_tree(loader));
    &&& buffers == SharedBuffersView::of(layers, earlier.requests.len() as int)
    &&& updated is Ok
    &&& filled.requests.is_prefix_of(requests)
}

/// The layers of a classifier: what rotates heads, what takes queries and keys apart, and
/// then the layers, each of which attends and uses these two.
pub open spec fn layers_are(
    requests: Seq<RequestView>,
    made: Seq<usize>,
    end: int,
    loader: LoaderView,
    config: ClassifierConfigView,
    data_type: DataType,
) -> bool {
    let layers = config.transformer_config.layer_configs;
    let rope = end - layers.len() - 2;
    &&& 0 <= rope && end <= requests.len()
    &&& requests[rope] == Request::<Seq<char>>::CreateRope {
        data_type: DataType::BF16,
        rope_data_type: DataType::F32,
    }
    &&& requests[rope + 1] == Request::<Seq<char>>::CreateQkUnpack { data_type: DataType::BF16 }
    &&& made.len() == layers.len()
    &&& forall|i: int| 0 <= i < layers.len() ==> #[trigger] layer_fits(loader, layers, i)
    &&& forall|i: int|
        0 <= i < layers.len() ==> is_layer(
            requests,
            #[trigger] made[i],
            rope + 2 + i,
            loader,
            i,
            rope as usize,
            (rope + 1) as usize,
            data_type,
        )
}

/// The parts of the way through a classifier up to its layers.
proof fn trunk_parts(
    context: ContextView,
    loader: LoaderView,
    config: ClassifierConfigView,
    model_shape: ModelShape,
)
    requires
        classifier_plan(loader, config, model_shape).trunk(context).1 is Ok,
    ensures
        ({
            let plan = classifier_plan(loader, config, model_shape);
            let tree = below(classifier_tree(loader), "embedding"@);
            let layers = config.transformer_config.layer_configs;
            let buffers = SharedBuffersView::of(layers, context.requests.len() as int);
            let created = ContextView {
                requests: context.requests + shared_requests(layers, DataType::F32),
                fault: context.fault,
            };
            let (c0, updated) = buffers.update(created, transformer_tree(loader));
            let (c1, embed) = table_of(config, model_shape).outcome(
                c0,
                config.embedding_config,
                tree,
                tree,
            );
            let c2 = c1.record(
                Request::CreateRope { data_type: DataType::BF16, rope_data_type: DataType::F32 },
            );
            let c3 = c2.record(Request::CreateQkUnpack { data_type: DataType::BF16 });
            let (after, trunk) = plan.trunk(context);
            let (end, made) = plan.layers_from(
                c3,
                c1.requests.len() as usize,
                c2.requests.len() as usize,
                0,
                Seq::empty(),
            );
            &&& updated is Ok
            &&& plan.filled(context).0 == c0
            &&& end == after
            &&& made is Ok
            &&& trunk->Ok_0 == (Trunk { shared_buffers: buffers, embed: embed->Ok_0, layers: made->Ok_0 })
            &&& c0.requests.is_prefix_of(after.requests)
            &&& c1.requests.is_prefix_of(after.requests)
            &&& c3.requests.is_prefix_of(after.requests)
        }),
{
    let plan = classifier_plan(loader, config, model_shape);
    let tree = below(classifier_tree(loader), "embedding"@);
    plan_is(loader, config, model_shape);
    names_are_full(classifier_tree(loader), "embedding"@);
    let (after, trunk) = plan.trunk(context);
    let (c0, _) = plan.filled(context);
    let (c1, _) = plan.table().outcome(c0, config.embedding_config, tree, tree);
    plan.table().embedding_follows(c0, config.embedding_config, tree, tree);
    let c2 = c1.record(plan.rope_request());
    let c3 = c2.record(Request::CreateQkUnpack { data_type: DataType::BF16 });
    plan.layers_are_created(c3, c1.answer()->Ok_0, c2.answer()->Ok_0, 0, Seq::empty());
    assert(c2.requests.take(c1.requests.len() as int) =~= c1.requests);
    assert(c3.requests.take(c2.requests.len() as int) =~= c2.requests);
    stay(c2.requests, c3.requests, after.requests);
    stay(c1.requests, c2.requests, after.requests);
    stay(c0.requests, c1.requests, after.requests);
}

/// What stands before the layers, and the layers, are what they should be.
proof fn trunk_is_right(
    context: ContextView,
    loader: LoaderView,
    config: ClassifierConfigView,
    model_shape: ModelShape,
)
    requires
        classifier_plan(loader, config, model_shape).trunk_ready(context),
        classifier_plan(loader, config, model_shape).trunk(context).1 is Ok,
        classifier_plan(loader, config, model_shape).trunk(context).0.requests.len() <= usize::MAX,
        table_in_groups(loader, config),
    ensures
        ({
            let (after, trunk) = classifier_plan(loader, config, model_shape).trunk(context);
            let tree = below(classifier_tree(loader), "embedding"@);
            &&& buffers_are(after.requests, context, trunk->Ok_0.shared_buffers, loader, config)
            &&& embedding_is(
                after.requests,
                trunk->Ok_0.embed,
                config.embedding_config,
                tree,
                tree,
                table_of(config, model_shape),
            )
            &&& layers_are(
                after.requests,
                trunk->Ok_0.layers,
                after.requests.len() as int,
                loader,
                config,
                model_shape.weights_data_type,
            )
        }),
{
    let plan = classifier_plan(loader, config, model_shape);
    let layers = config.transformer_config.layer_configs;
    let table = table_of(config, model_shape);
    let tree = below(classifier_tree(loader), "embedding"@);
    plan_is(loader, config, model_shape);
    names_are_full(classifier_tree(loader), "embedding"@);
    trunk_parts(context, loader, config, model_shape);
    let (after, trunk) = plan.trunk(context);
    let (c0, _) = plan.filled(context);
    let (c1, embed) = table.outcome(c0, config.embedding_config, tree, tree);
    assert(embed is Ok);
    let c2 = c1.record(Request::CreateRope { data_type: DataType::BF16, rope_data_type: DataType::F32 });
    let c3 = c2.record(Request::CreateQkUnpack { data_type: DataType::BF16 });
    assert(c1.requests.len() <= after.requests.len());
    loaded_embedding(c0, config.embedding_config, tree, tree, table);
    embedding_stays(c1, trunk->Ok_0.embed, config.embedding_config, tree, tree, table, after);
    let (rope, qk_unpack) = (c1.requests.len() as usize, c2.requests.len() as usize);
    layers_come_in_order(c3, loader, config, model_shape, rope, qk_unpack, 0, Seq::empty());
    layers_are_created_where_they_fit(c3, loader, config, model_shape, rope, qk_unpack, 0, Seq::empty());
    assert(after.requests.take(c3.requests.len() as int) =~= c3.requests);
    assert(after.requests[c1.requests.len() as int] == c3.requests[c1.requests.len() as int]);
    assert(after.requests[c2.requests.len() as int] == c3.requests[c2.requests.len() as int]);
}

/// Whether the tables of a classifier's embedding are in groups of some weights.
pub open spec fn table_in_groups(loader: LoaderView, config: ClassifierConfigView) -> bool {
    let tree = below(classifier_tree(loader), "embedding"@);
    &&& lookup_table(config.embedding_config, tree).in_groups()
    &&& readout_table(config.embedding_config, tree, tree).in_groups()
}

/// The types that a classifier computes with: vectors in half the bits of a
/// single-precision number, with as many for the exponent; rotations and sums in single
/// precision.
pub open spec fn types_for_inference() -> ClassifierForwardPassConfig {
    let norm = NormalizationForwardPassConfig { accumulation_data_type: DataType::F32 };
    ClassifierForwardPassConfig {
        embedding_forward_pass_config: EmbeddingForwardPassConfig { activation_data_type: DataType::BF16 },
        transformer_forward_pass_config: TransformerForwardPassConfig {
            mixer_forward_pass_config: MixerForwardPassConfig {
                rope_data_type: DataType::F32,
                normalization_forward_pass_config: norm,
            },
            normalization_forward_pass_config: norm,
        },
        normalization_forward_pass_config: norm,
    }
}

/// The layers of a classifier are still there once more was asked for.
proof fn layers_stay(
    earlier: Seq<RequestView>,
    later: Seq<RequestView>,
    made: Seq<usize>,
    end: int,
    loader: LoaderView,
    config: ClassifierConfigView,
    data_type: DataType,
)
    requires
        layers_are(earlier, made, end, loader, config, data_type),
        earlier.is_prefix_of(later),
    ensures
        layers_are(later, made, end, loader, config, data_type),
{
    let layers = config.transformer_config.layer_configs;
    let rope = end - layers.len() - 2;
    assert forall|i: int| 0 <= i < earlier.len() implies #[trigger] later[i] == earlier[i] by {
        assert(later.take(earlier.len() as int)[i] == earlier[i]);
    }
    assert forall|i: int| 0 <= i < layers.len() implies is_layer(
        later,
        #[trigger] made[i],
        rope + 2 + i,
        loader,
        i,
        rope as usize,
        (rope + 1) as usize,
        data_type,
    ) by {
        assert(later[rope + 2 + i] == earlier[rope + 2 + i]);
    }
}

/// A classifier that was loaded is made of the parts that are stored for it, each from its
/// own tree, of the sizes that are configured, and created in this order: the device, the
/// shared buffers, the embedding, the layers, and what stands behind them.
pub proof fn classifiers_are_made_of_what_is_stored(
    context: ContextView,
    loader: LoaderView,
    config: ClassifierConfigView,
    model_shape: ModelShape,
)
    requires
        table_in_groups(loader, config),
        classifier_ready(context, Some(loader), config, model_shape),
        classifier_outcome(context, Some(loader), config, model_shape).1 is Ok,
        classifier_outcome(context, Some(loader), config, model_shape).0.requests.len() <= usize::MAX,
    ensures
        ({
            let (after, made) = classifier_outcome(context, Some(loader), config, model_shape);
            let loaded = made->Ok_0;
            let tree = below(classifier_tree(loader), "embedding"@);
            let data_type = model_shape.weights_data_type;
            &&& context.requests.is_prefix_of(after.requests)
            &&& loaded.device == context.requests.len()
            &&& is_made(after.requests, loaded.device, Request::OpenDevice)
            &&& loaded.model_config == config
            &&& loaded.model_shape == model_shape
            &&& loaded.logits_data_type == data_type
            &&& loaded.forward_pass_config == types_for_inference()
            &&& buffers_are(
                after.requests,
                context.record(Request::OpenDevice),
                loaded.shared_buffers,
                loader,
                config,
            )
            &&& embedding_is(
                after.requests,
                loaded.embed,
                config.embedding_config,
                tree,
                tree,
                table_of(config, model_shape),
            )
            &&& layers_are(
                after.requests,
                loaded.layers,
                loaded.output_norm as int,
                loader,
                config,
                data_type,
            )
            &&& crown_is(
                after.requests,
                loaded.output_norm as int,
                Crown {
                    output_norm: loaded.output_norm,
                    embedding_norm: loaded.embedding_norm,
                    pooling: loaded.pooling,
                    prediction_head: loaded.prediction_head,
                },
                loader,
                config,
                data_type,
            )
        }),
{
    let plan = classifier_plan(loader, config, model_shape);
    let data_type = model_shape.weights_data_type;
    let tree = below(classifier_tree(loader), "embedding"@);
    let opened = context.record(Request::OpenDevice);
    let (after, made) = classifier_outcome(context, Some(loader), config, model_shape);
    let (middle, trunk) = plan.trunk(opened);
    let (_, crown) = plan.crown(middle);
    plan_is(loader, config, model_shape);
    names_are_full(TreeView { loader, prefix: None }, "classifier"@);
    plan.crown_grows(middle);
    plan.trunk_keeps(opened);
    stay(middle.requests, plan.norms(middle).0.requests, after.requests);
    stay(opened.requests, middle.requests, after.requests);
    assert(opened.requests.take(context.requests.len() as int) =~= context.requests);
    stay(context.requests, opened.requests, after.requests);
    assert(after.requests.take(opened.requests.len() as int) =~= opened.requests);
    assert(after.requests[context.requests.len() as int] == opened.requests.last());
    assert(middle.requests.len() <= after.requests.len());
    trunk_is_right(opened, loader, config, model_shape);
    crown_is_right(middle, loader, config, model_shape);
    layers_stay(
        middle.requests,
        after.requests,
        trunk->Ok_0.layers,
        middle.requests.len() as int,
        loader,
        config,
        data_type,
    );
    embedding_stays(
        middle,
        trunk->Ok_0.embed,
        config.embedding_config,
        tree,
        tree,
        table_of(config, model_shape),
        after,
    );
    let layers = config.transformer_config.layer_configs;
    let created = ContextView {
        requests: opened.requests + shared_requests(layers, DataType::F32),
        fault: opened.fault,
    };
    let (filled, _) = trunk->Ok_0.shared_buffers.update(created, transformer_tree(loader));
    stay(filled.requests, middle.requests, after.requests);
}

/// Whether everything is there that a classifier is made of.
pub open spec fn classifier_fits(
    loader: LoaderView,
    config: ClassifierConfigView,
    model_shape: ModelShape,
) -> bool {
    &&& is_below(TreeView { loader, prefix: None }, "classifier"@)
    &&& trunk_fits(loader, config, model_shape)
    &&& crown_fits(loader, config, model_shape)
}

/// Whether the sinks of a layer, where it has some, are stored.
pub open spec fn has_its_sinks(loader: LoaderView, layers: Seq<LayerConfig>, i: int) -> bool {
    let tree = tree_of_sinks(transformer_tree(loader), i);
    sink_count(layers[i]) matches Some(count) ==> {
        &&& is_stored(tree, "sinks"@, seq![count], DataType::F32)
        &&& loader.index[full_name(tree, "sinks"@)].size as int / 4 == count
    }
}

/// Where nothing is refused, a classifier is loaded exactly where everything that it is
/// made of is stored as it should be.
pub proof fn classifiers_load_what_is_stored(
    context: ContextView,
    loader: LoaderView,
    config: ClassifierConfigView,
    model_shape: ModelShape,
)
    requires
        context.fault is None,
        table_in_groups(loader, config),
        in_groups(below(head_tree(loader), "dense"@)),
        in_groups(below(head_tree(loader), "readout"@)),
    ensures
        classifier_ready(context, Some(loader), config, model_shape) && classifier_outcome(
            context,
            Some(loader),
            config,
            model_shape,
        ).1 is Ok <==> classifier_fits(loader, config, model_shape),
{
    let plan = classifier_plan(loader, config, model_shape);
    let root = TreeView { loader, prefix: None };
    let opened = context.record(Request::OpenDevice);
    names_are_full(root, "classifier"@);
    assert(root.subtree("classifier"@) is Ok <==> is_below(root, "classifier"@));
    assert(classifier_ready(context, Some(loader), config, model_shape) && classifier_outcome(
        context,
        Some(loader),
        config,
        model_shape,
    ).1 is Ok <==> is_below(root, "classifier"@) && plan.trunk_ready(opened) && plan.trunk(opened).1 is Ok
        && plan.crown_ready(plan.trunk(opened).0) && plan.crown(plan.trunk(opened).0).1 is Ok);
    trunk_loads(opened, loader, config, model_shape);
    plan.trunk_keeps(opened);
    crown_loads(plan.trunk(opened).0, loader, config, model_shape);
}

/// Whether everything is there that a classifier is made of up to its layers, and it is to
/// compute in the type of the stored weights.
pub open spec fn trunk_fits(
    loader: LoaderView,
    config: ClassifierConfigView,
    model_shape: ModelShape,
) -> bool {
    let classifier = classifier_tree(loader);
    let layers = config.transformer_config.layer_configs;
    let table = table_of(config, model_shape);
    let tree = below(classifier, "embedding"@);
    let (vocab_size, model_dim) = (table.vocab_size as usize, table.model_dim as usize);
    let data_type = model_shape.weights_data_type;
    &&& data_type == DataType::BF16
    &&& is_below(classifier, "transformer"@)
    &&& is_below(transformer_tree(loader), "output_norm"@)
    &&& is_below(classifier, "embedding"@)
    &&& forall|i: int| 0 <= i < layers.len() ==> #[trigger] layer_fits(loader, layers, i)
    &&& forall|i: int| 0 <= i < layers.len() ==> #[trigger] has_its_sinks(loader, layers, i)
    &&& lookup_table(config.embedding_config, tree).fits(vocab_size, model_dim, data_type)
    &&& readout_table(config.embedding_config, tree, tree).fits(vocab_size, model_dim, data_type)
    &&& match config.embedding_config {
        AnyEmbeddingConfig::TiedEmbeddingConfig(common) => common.logit_soft_cap is None,
        AnyEmbeddingConfig::UntiedEmbeddingConfig(common) => common.logit_soft_cap is None,
    }
}

/// The way up to the layers is made exactly where everything on it is stored.
proof fn trunk_loads(
    context: ContextView,
    loader: LoaderView,
    config: ClassifierConfigView,
    model_shape: ModelShape,
)
    requires
        context.fault is None,
        table_in_groups(loader, config),
    ensures
        classifier_plan(loader, config, model_shape).trunk_ready(context) && classifier_plan(
            loader,
            config,
            model_shape,
        ).trunk(context).1 is Ok <==> trunk_fits(loader, config, model_shape),
{
    let plan = classifier_plan(loader, config, model_shape);
    let classifier = classifier_tree(loader);
    let transformer = transformer_tree(loader);
    let layers = config.transformer_config.layer_configs;
    let tree = below(classifier, "embedding"@);
    let table = table_of(config, model_shape);
    plan_is(loader, config, model_shape);
    names_are_full(classifier, "transformer"@);
    names_are_full(transformer, "output_norm"@);
    names_are_full(classifier, "embedding"@);
    assert(classifier.subtree("transformer"@) is Ok <==> is_below(classifier, "transformer"@));
    assert(transformer.subtree("output_norm"@) is Ok <==> is_below(transformer, "output_norm"@));
    assert(classifier.subtree("embedding"@) is Ok <==> is_below(classifier, "embedding"@));
    let (created, buffers) = plan.shared(context);
    let (c0, filled) = plan.filled(context);
    let (middle, updated) = buffers.update(created, transformer);
    plan.filling_keeps(context);
    rope_updates_follow(created, buffers.rope_buffers, transformer, 0);
    assert(updated is Ok);
    sinks_are_wanted_where_they_are(buffers, created, transformer);
    assert forall|i: int| 0 <= i < layers.len() implies (#[trigger] has_its_sinks(loader, layers, i)
        <==> has_stored_sinks(buffers.attention_sinks[i], transformer, i)) by {}
    assert(buffers.updatable(created, transformer) <==> forall|i: int|
        0 <= i < layers.len() ==> #[trigger] has_its_sinks(loader, layers, i)) by {
        if buffers.updatable(created, transformer) {
            assert forall|i: int| 0 <= i < layers.len() implies #[trigger] has_its_sinks(
                loader,
                layers,
                i,
            ) by {
                assert(has_stored_sinks(buffers.attention_sinks[i], transformer, i));
            }
        }
        if forall|i: int| 0 <= i < layers.len() ==> #[trigger] has_its_sinks(loader, layers, i) {
            assert forall|i: int| 0 <= i < buffers.attention_sinks.len() implies has_stored_sinks(
                #[trigger] buffers.attention_sinks[i],
                transformer,
                i,
            ) by {
                assert(has_its_sinks(loader, layers, i));
            }
        }
    }
    if filled is Ok {
        embeddings_load_what_is_stored(c0, config.embedding_config, tree, tree, table);
        tables_are_ready(c0, config, loader, table);
        let (c1, _) = table.outcome(c0, config.embedding_config, tree, tree);
        table.embedding_follows(c0, config.embedding_config, tree, tree);
        let c2 = c1.record(plan.rope_request());
        let c3 = c2.record(Request::CreateQkUnpack { data_type: DataType::BF16 });
        layers_are_created_where_they_fit(
            c3,
            loader,
            config,
            model_shape,
            c1.answer()->Ok_0,
            c2.answer()->Ok_0,
            0,
            Seq::empty(),
        );
    }
}

/// Tables in groups can be asked for.
proof fn tables_are_ready(
    context: ContextView,
    config: ClassifierConfigView,
    loader: LoaderView,
    table: TableShape,
)
    requires
        table_in_groups(loader, config),
    ensures
        ({
            let tree = below(classifier_tree(loader), "embedding"@);
            table.tables_ready(context, config.embedding_config, tree, tree)
        }),
{
    let tree = below(classifier_tree(loader), "embedding"@);
    names_are_full(tree, "embedding"@);
    names_are_full(tree, "input_embedding"@);
    names_are_full(tree, "output_embedding"@);
    names_are_full(below(tree, "embedding"@), "spec"@);
    names_are_full(below(tree, "input_embedding"@), "spec"@);
    names_are_full(below(tree, "output_embedding"@), "spec"@);
}

/// Whether everything is there that stands behind the layers of a classifier.
pub open spec fn crown_fits(
    loader: LoaderView,
    config: ClassifierConfigView,
    model_shape: ModelShape,
) -> bool {
    let head = head_tree(loader);
    let data_type = model_shape.weights_data_type;
    &&& is_below(classifier_tree(loader), "embedding_norm"@)
    &&& is_below(classifier_tree(loader), "prediction_head"@)
    &&& is_below(head, "dense"@)
    &&& is_below(head, "norm"@)
    &&& is_below(head, "readout"@)
    &&& fits(below(head, "dense"@), config.model_dim, config.model_dim, data_type)
    &&& fits(below(head, "readout"@), config.model_dim, config.num_labels, data_type)
}

/// What stands behind the layers is made exactly where everything for it is stored.
proof fn crown_loads(
    context: ContextView,
    loader: LoaderView,
    config: ClassifierConfigView,
    model_shape: ModelShape,
)
    requires
        context.fault is None,
        in_groups(below(head_tree(loader), "dense"@)),
        in_groups(below(head_tree(loader), "readout"@)),
    ensures
        classifier_plan(loader, config, model_shape).crown_ready(context),
        classifier_plan(loader, config, model_shape).crown(context).1 is Ok <==> crown_fits(
            loader,
            config,
            model_shape,
        ),
{
    let plan = classifier_plan(loader, config, model_shape);
    let classifier = classifier_tree(loader);
    let head = head_tree(loader);
    let data_type = model_shape.weights_data_type;
    plan_is(loader, config, model_shape);
    plan.crown_grows(context);
    names_are_full(classifier, "embedding_norm"@);
    names_are_full(classifier, "prediction_head"@);
    names_are_full(head, "dense"@);
    names_are_full(head, "norm"@);
    names_are_full(head, "readout"@);
    assert(classifier.subtree("embedding_norm"@) is Ok <==> is_below(classifier, "embedding_norm"@));
    assert(classifier.subtree("prediction_head"@) is Ok <==> is_below(classifier, "prediction_head"@));
    assert(head.subtree("dense"@) is Ok <==> is_below(head, "dense"@));
    assert(head.subtree("norm"@) is Ok <==> is_below(head, "norm"@));
    assert(head.subtree("readout"@) is Ok <==> is_below(head, "readout"@));
    let (c1, _) = plan.norms(context);
    let (c2, _) = plan.dense(c1);
    let (c3, _) = plan.head_norm(c2);
    maps_load_what_is_described(c1, config.model_dim, config.model_dim, data_type, below(head, "dense"@));
    maps_load_what_is_described(
        c3,
        config.model_dim,
        config.num_labels,
        data_type,
        below(head, "readout"@),
    );
    maps_in_groups_are_ready(c1, config.model_dim, config.model_dim, data_type, below(head, "dense"@));
    maps_in_groups_are_ready(
        c3,
        config.model_dim,
        config.num_labels,
        data_type,
        below(head, "readout"@),
    );
}

} // verus!
