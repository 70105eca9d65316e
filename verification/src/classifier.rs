//! Loading a classifier.

use vstd::pervasive::unreached;
use vstd::prelude::*;

use crate::backend::context::{
    a_request_follows, a_request_replays, cut_stays, replays, Context, ContextView, NormalizationRole,
    Request, RequestView,
};
use crate::backend::types::{DeviceError, Fault};
use crate::data_type::DataType;
use crate::embedding::{Embedding, ModelShape, TableShape};
use crate::error::{ClassifierError, Component, CreationFailure, Error, ErrorView};
use crate::forward_pass::config::ClassifierForwardPassConfig;
use crate::forward_pass::shared_buffers::{
    layer_name, rope_updates, rope_updates_follow, shared_requests, update_replays, SharedBuffers,
    SharedBuffersView,
};
use crate::linear::block::{
    linear_outcome, linear_ready, linear_stop, LinearBlock, LinearBlockErrorView,
};
use crate::linear::laws::{linear_follows, linear_replays};
use crate::config::model::{ClassifierConfig, ClassifierConfigView, DecoderConfig};
use crate::parameters::loader::{tree_location, LoaderView, ParameterLoader, ParameterTree, TreeView};
use crate::text::append_decimal;

verus! {

/// The two linear maps of a prediction head, the normalization between them, and
/// the activation.
#[derive(Clone, Copy, Debug, PartialEq, Eq, Structural)]
pub struct PredictionHead {
    pub dense: LinearBlock,
    pub norm: usize,
    pub readout: LinearBlock,
    pub activation: usize,
    pub data_type: DataType,
    pub model_dim: usize,
}

/// A loaded classifier. The parts that are made by a device are known by the
/// numbers of the requests that created them.
pub struct ClassifierContext {
    pub device: usize,
    pub shared_buffers: SharedBuffers,
    pub model_config: ClassifierConfig,
    pub forward_pass_config: ClassifierForwardPassConfig,
    pub model_shape: ModelShape,
    pub embed: Embedding,
    pub embedding_norm: usize,
    pub layers: Vec<usize>,
    pub output_norm: usize,
    pub pooling: usize,
    pub prediction_head: PredictionHead,
    pub logits_data_type: DataType,
}

/// What a [`ClassifierContext`] holds.
#[verifier::ext_equal]
pub struct ClassifierContextView {
    pub device: usize,
    pub shared_buffers: SharedBuffersView,
    pub model_config: ClassifierConfigView,
    pub forward_pass_config: ClassifierForwardPassConfig,
    pub model_shape: ModelShape,
    pub embed: Embedding,
    pub embedding_norm: usize,
    pub layers: Seq<usize>,
    pub output_norm: usize,
    pub pooling: usize,
    pub prediction_head: PredictionHead,
    pub logits_data_type: DataType,
}

impl View for ClassifierContext {
    type V = ClassifierContextView;

    open spec fn view(&self) -> ClassifierContextView {
        ClassifierContextView {
            device: self.device,
            shared_buffers: self.shared_buffers@,
            model_config: self.model_config@,
            forward_pass_config: self.forward_pass_config,
            model_shape: self.model_shape,
            embed: self.embed,
            embedding_norm: self.embedding_norm,
            layers: self.layers@,
            output_norm: self.output_norm,
            pooling: self.pooling,
            prediction_head: self.prediction_head,
            logits_data_type: self.logits_data_type,
        }
    }
}

/// The error for a tree that is not there.
pub open spec fn no_tree(name: Seq<char>) -> ErrorView {
    Error::Classifier(ClassifierError::WeightSubtreeNotFound(name))
}

/// The error for a part that a device refused to create.
pub open spec fn not_created(component: Component, error: DeviceError) -> ErrorView {
    Error::Classifier(
        ClassifierError::KernelCreationFailed { component, cause: CreationFailure::Device(error) },
    )
}

/// The error for a linear map that could not be made.
pub open spec fn no_linear(component: Component, error: LinearBlockErrorView) -> ErrorView {
    Error::Classifier(
        ClassifierError::KernelCreationFailed { component, cause: CreationFailure::Linear(error) },
    )
}

/// What a classifier is loaded from.
pub struct ClassifierPlan {
    pub config: ClassifierConfigView,
    pub weights_data_type: DataType,
    pub forward_pass_config: ClassifierForwardPassConfig,
    /// The tree of the classifier.
    pub root: TreeView,
}

/// What is known of a classifier once its embedding and its layers are loaded.
pub struct Trunk {
    pub shared_buffers: SharedBuffersView,
    pub embed: Embedding,
    pub layers: Seq<usize>,
}

/// The normalizations and the prediction head of a classifier.
pub struct Crown {
    pub output_norm: usize,
    pub embedding_norm: usize,
    pub pooling: usize,
    pub prediction_head: PredictionHead,
}

impl ClassifierPlan {
    /// The type of the activations.
    pub open spec fn activation(self) -> DataType {
        self.forward_pass_config.embedding_forward_pass_config.activation_data_type
    }

    /// The tree of the transformer.
    pub open spec fn transformer(self) -> TreeView {
        self.root.child("transformer"@)
    }

    /// The tree of the prediction head.
    pub open spec fn head(self) -> TreeView {
        self.root.child("prediction_head"@)
    }

    /// The size of the embedding's table.
    pub open spec fn table(self) -> TableShape {
        TableShape {
            vocab_size: self.config.vocab_size as u32,
            model_dim: self.config.transformer_config.model_dim as u32,
            data_type: self.weights_data_type,
        }
    }

    /// The buffers that the layers share, and the context once they were created.
    pub open spec fn shared(self, context: ContextView) -> (ContextView, SharedBuffersView) {
        let layers = self.config.transformer_config.layer_configs;
        let rope_data_type =
            self.forward_pass_config.transformer_forward_pass_config.mixer_forward_pass_config.rope_data_type;
        (
            ContextView {
                requests: context.requests + shared_requests(layers, rope_data_type),
                fault: context.fault,
            },
            SharedBuffersView::of(layers, context.requests.len() as int),
        )
    }

    /// What filling the shared buffers asks of the device, and what comes of it.
    pub open spec fn filled(self, context: ContextView) -> (ContextView, Result<SharedBuffersView, ErrorView>) {
        let (created, buffers) = self.shared(context);
        match self.root.subtree("transformer"@) {
            Err(_) => (created, Err(Error::UnableToLoadWeights)),
            Ok(transformer) => {
                let (after, updated) = buffers.update(created, transformer);
                match updated {
                    Err(e) => (after, Err(e)),
                    Ok(_) => if transformer.subtree("output_norm"@) is Err {
                        (after, Err(no_tree("output_norm"@)))
                    } else {
                        (after, Ok(buffers))
                    },
                }
            },
        }
    }

    /// The request for a layer.
    pub open spec fn layer_request(self, index: int, rope: usize, qk_unpack: usize) -> RequestView {
        Request::CreateClassifierLayer {
            index: index as usize,
            tree: tree_location(self.transformer().child(layer_name(index))),
            rope,
            qk_unpack,
            forward_pass_config: self.forward_pass_config.transformer_forward_pass_config,
            data_type: self.activation(),
            weights_data_type: self.weights_data_type,
        }
    }

    /// What creating the layers from `from` on asks of the device, and what comes of
    /// it: the numbers of the layers, behind those in `made`.
    pub open spec fn layers_from(
        self,
        context: ContextView,
        rope: usize,
        qk_unpack: usize,
        from: int,
        made: Seq<usize>,
    ) -> (ContextView, Result<Seq<usize>, ErrorView>)
        decreases self.config.transformer_config.layer_configs.len() - from,
    {
        let layers = self.config.transformer_config.layer_configs;
        if from < 0 || from >= layers.len() {
            (context, Ok(made))
        } else if layers[from].mixer_config.attention() is None {
            (context, Err(Error::Classifier(ClassifierError::NonAttentionMixer)))
        } else if self.transformer().subtree(layer_name(from)) is Err {
            (context, Err(no_tree(layer_name(from))))
        } else {
            self.layers_from(
                context.record(self.layer_request(from, rope, qk_unpack)),
                rope,
                qk_unpack,
                from + 1,
                made.push(context.requests.len() as usize),
            )
        }
    }

    /// What loading the classifier up to its layers asks of the device, and what
    /// comes of it.
    pub open spec fn trunk(self, context: ContextView) -> (ContextView, Result<Trunk, ErrorView>) {
        let (c0, filled) = self.filled(context);
        match filled {
            Err(e) => (c0, Err(e)),
            Ok(shared_buffers) => {
                let tree = self.root.child("embedding"@);
                let (c1, embed) = self.table().outcome(c0, self.config.embedding_config, tree, tree);
                let c2 = c1.record(self.rope_request());
                match c1.answer() {
                    Err(e) => (c2, Err(not_created(Component::Rope, e))),
                    Ok(rope) => {
                        let c3 = c2.record(Request::CreateQkUnpack { data_type: self.activation() });
                        match c2.answer() {
                            Err(e) => (c3, Err(not_created(Component::QkUnpack, e))),
                            Ok(qk_unpack) => {
                                let (c4, layers) = self.layers_from(c3, rope, qk_unpack, 0, Seq::empty());
                                match layers {
                                    Err(e) => (c4, Err(e)),
                                    Ok(layers) => (
                                        c4,
                                        Ok(Trunk { shared_buffers, embed: embed->Ok_0, layers }),
                                    ),
                                }
                            },
                        }
                    },
                }
            },
        }
    }

    /// The request for what rotates heads.
    pub open spec fn rope_request(self) -> RequestView {
        Request::CreateRope {
            data_type: self.activation(),
            rope_data_type:
                self.forward_pass_config.transformer_forward_pass_config.mixer_forward_pass_config.rope_data_type,
        }
    }

    /// The request for a normalization.
    pub open spec fn norm_request(
        self,
        role: NormalizationRole,
        data_type: DataType,
        model_dim: usize,
        tree: TreeView,
    ) -> RequestView {
        Request::CreateNormalization {
            role,
            data_type,
            model_dim,
            accumulation_data_type:
                self.forward_pass_config.normalization_forward_pass_config.accumulation_data_type,
            tree: tree_location(tree),
        }
    }

    /// What creating the normalizations around the layers asks of the device, and
    /// what comes of it: that of the output, then that of the embedding.
    pub open spec fn norms(self, context: ContextView) -> (ContextView, Result<(usize, usize), ErrorView>) {
        let model_dim = self.config.transformer_config.model_dim;
        let output = self.norm_request(
            NormalizationRole::Output,
            self.activation(),
            model_dim,
            self.transformer().child("output_norm"@),
        );
        let embedding = self.norm_request(
            NormalizationRole::Embedding,
            self.activation(),
            model_dim,
            self.root.child("embedding_norm"@),
        );
        let c1 = context.record(output);
        let c2 = c1.record(embedding);
        match context.answer() {
            Err(e) => (c1, Err(not_created(Component::OutputNorm, e))),
            Ok(output_norm) => if self.root.subtree("embedding_norm"@) is Err {
                (c1, Err(no_tree("embedding_norm"@)))
            } else {
                match c1.answer() {
                    Err(e) => (c2, Err(not_created(Component::EmbeddingNorm, e))),
                    Ok(embedding_norm) => (c2, Ok((output_norm, embedding_norm))),
                }
            },
        }
    }

    /// What making the first linear map of the prediction head asks of the device,
    /// and what comes of it.
    pub open spec fn dense(self, context: ContextView) -> (ContextView, Result<LinearBlock, ErrorView>) {
        if self.root.subtree("prediction_head"@) is Err {
            (context, Err(no_tree("prediction_head"@)))
        } else if self.head().subtree("dense"@) is Err {
            (context, Err(no_tree("prediction_head.dense"@)))
        } else {
            let (after, made) = linear_outcome(
                context,
                self.config.model_dim,
                self.config.model_dim,
                self.weights_data_type,
                self.head().child("dense"@),
            );
            match made {
                Err(e) => (after, Err(no_linear(Component::PredictionHeadDense, e))),
                Ok(dense) => (after, Ok(dense)),
            }
        }
    }

    /// What creating the normalization of the prediction head asks of the device,
    /// and what comes of it.
    pub open spec fn head_norm(self, context: ContextView) -> (ContextView, Result<usize, ErrorView>) {
        if self.head().subtree("norm"@) is Err {
            (context, Err(no_tree("prediction_head.norm"@)))
        } else {
            let after = context.record(
                self.norm_request(
                    NormalizationRole::PredictionHead,
                    self.weights_data_type,
                    self.config.model_dim,
                    self.head().child("norm"@),
                ),
            );
            match context.answer() {
                Err(e) => (after, Err(not_created(Component::PredictionHeadNorm, e))),
                Ok(norm) => (after, Ok(norm)),
            }
        }
    }

    /// What making the second linear map of the prediction head asks of the device,
    /// and what comes of it.
    pub open spec fn readout(self, context: ContextView) -> (ContextView, Result<LinearBlock, ErrorView>) {
        if self.head().subtree("readout"@) is Err {
            (context, Err(no_tree("prediction_head.readout"@)))
        } else {
            let (after, made) = linear_outcome(
                context,
                self.config.model_dim,
                self.config.num_labels,
                self.weights_data_type,
                self.head().child("readout"@),
            );
            match made {
                Err(e) => (after, Err(no_linear(Component::PredictionHeadReadout, e))),
                Ok(readout) => (after, Ok(readout)),
            }
        }
    }

    /// What loading the classifier behind its layers asks of the device, and what
    /// comes of it.
    pub open spec fn crown(self, context: ContextView) -> (ContextView, Result<Crown, ErrorView>) {
        let model_dim = self.config.model_dim;
        let (c1, norms) = self.norms(context);
        match norms {
            Err(e) => (c1, Err(e)),
            Ok((output_norm, embedding_norm)) => {
                let (c2, dense) = self.dense(c1);
                match dense {
                    Err(e) => (c2, Err(e)),
                    Ok(dense) => {
                        let (c3, norm) = self.head_norm(c2);
                        match norm {
                            Err(e) => (c3, Err(e)),
                            Ok(norm) => {
                                let (c4, readout) = self.readout(c3);
                                match readout {
                                    Err(e) => (c4, Err(e)),
                                    Ok(readout) => {
                                        let c5 = c4.record(
                                            Request::CreatePooling { data_type: self.activation(), model_dim },
                                        );
                                        match c4.answer() {
                                            Err(e) => (c5, Err(Error::UnableToCreateContext(e))),
                                            Ok(pooling) => {
                                                let data_type = self.weights_data_type;
                                                let c6 = c5.record(
                                                    Request::CreatePredictionHead { data_type, model_dim },
                                                );
                                                match c5.answer() {
                                                    Err(e) => (
                                                        c6,
                                                        Err(
                                                            not_created(
                                                                Component::PredictionHeadActivation,
                                                                e,
                                                            ),
                                                        ),
                                                    ),
                                                    Ok(activation) => {
                                                        let prediction_head = PredictionHead {
                                                            dense,
                                                            norm,
                                                            readout,
                                                            activation,
                                                            data_type,
                                                            model_dim,
                                                        };
                                                        let crown = Crown {
                                                            output_norm,
                                                            embedding_norm,
                                                            pooling,
                                                            prediction_head,
                                                        };
                                                        (c6, Ok(crown))
                                                    },
                                                }
                                            },
                                        }
                                    },
                                }
                            },
                        }
                    },
                }
            },
        }
    }

    /// What loading the classifier asks of the device that was opened, and what
    /// comes of it.
    pub open spec fn outcome(self, context: ContextView, device: usize) -> (
        ContextView,
        Result<ClassifierContextView, ErrorView>,
    ) {
        let (middle, trunk) = self.trunk(context);
        match trunk {
            Err(e) => (middle, Err(e)),
            Ok(trunk) => {
                let (after, crown) = self.crown(middle);
                match crown {
                    Err(e) => (after, Err(e)),
                    Ok(crown) => {
                        let loaded = ClassifierContextView {
                            device,
                            shared_buffers: trunk.shared_buffers,
                            model_config: self.config,
                            forward_pass_config: self.forward_pass_config,
                            model_shape: ModelShape { weights_data_type: self.weights_data_type },
                            embed: trunk.embed,
                            embedding_norm: crown.embedding_norm,
                            layers: trunk.layers,
                            output_norm: crown.output_norm,
                            pooling: crown.pooling,
                            prediction_head: crown.prediction_head,
                            logits_data_type: self.weights_data_type,
                        };
                        (after, Ok(loaded))
                    },
                }
            },
        }
    }

    /// Whether what must not fail does not: where they are reached, the attention
    /// sinks are stored, and the embedding can be loaded.
    pub open spec fn trunk_ready(self, context: ContextView) -> bool {
        let (created, buffers) = self.shared(context);
        let (filled_context, filled) = self.filled(context);
        let tree = self.root.child("embedding"@);
        let config = self.config.embedding_config;
        &&& self.root.subtree("transformer"@) is Ok ==> buffers.updatable(created, self.transformer())
        &&& filled is Ok ==> {
            &&& self.root.subtree("embedding"@) is Ok
            &&& self.activation() == self.weights_data_type
            &&& self.table().tables_ready(filled_context, config, tree, tree)
            &&& self.table().outcome(filled_context, config, tree, tree).1 is Ok
        }
    }

    /// Whether the linear maps of the prediction head, where they are reached, fall
    /// into groups.
    pub open spec fn crown_ready(self, context: ContextView) -> bool {
        let (c1, norms) = self.norms(context);
        let (c2, dense) = self.dense(c1);
        let (c3, norm) = self.head_norm(c2);
        &&& norms is Ok ==> self.dense_ready(c1)
        &&& norms is Ok && dense is Ok && norm is Ok && self.head().subtree("readout"@) is Ok ==> linear_ready(
            c3,
            self.config.model_dim,
            self.config.num_labels,
            self.weights_data_type,
            self.head().child("readout"@),
        )
    }

    /// What has been asked of the device where something that must not fail does so
    /// before the layers.
    pub open spec fn trunk_stop(self, context: ContextView) -> ContextView {
        let (created, buffers) = self.shared(context);
        let (filled_context, _) = self.filled(context);
        let tree = self.root.child("embedding"@);
        let config = self.config.embedding_config;
        if self.root.subtree("transformer"@) is Ok && !buffers.updatable(created, self.transformer()) {
            buffers.update_stop(created, self.transformer())
        } else if self.root.subtree("embedding"@) is Err || self.activation() != self.weights_data_type {
            filled_context
        } else if !self.table().tables_ready(filled_context, config, tree, tree) {
            self.table().tables_stop(filled_context, config, tree)
        } else {
            self.table().outcome(filled_context, config, tree, tree).0
        }
    }

    /// Whether the first linear map of the prediction head, where it is reached, falls
    /// into groups.
    pub open spec fn dense_ready(self, context: ContextView) -> bool {
        self.root.subtree("prediction_head"@) is Ok && self.head().subtree("dense"@) is Ok ==> linear_ready(
            context,
            self.config.model_dim,
            self.config.model_dim,
            self.weights_data_type,
            self.head().child("dense"@),
        )
    }

    /// What has been asked of the device where something that must not fail does so
    /// behind the layers.
    pub open spec fn crown_stop(self, context: ContextView) -> ContextView {
        let (c1, _) = self.norms(context);
        let (c2, _) = self.dense(c1);
        let (c3, _) = self.head_norm(c2);
        let model_dim = self.config.model_dim;
        let data_type = self.weights_data_type;
        if !self.dense_ready(c1) {
            linear_stop(c1, model_dim, model_dim, data_type, self.head().child("dense"@))
        } else {
            linear_stop(c3, model_dim, self.config.num_labels, data_type, self.head().child("readout"@))
        }
    }

    /// What has been asked of the device where something that must not fail does.
    pub open spec fn stop(self, context: ContextView) -> ContextView {
        if !self.trunk_ready(context) {
            self.trunk_stop(context)
        } else {
            self.crown_stop(self.trunk(context).0)
        }
    }

    /// Whether nothing that must not fail does.
    pub open spec fn ready(self, context: ContextView) -> bool {
        &&& self.trunk_ready(context)
        &&& self.trunk(context).1 is Ok ==> self.crown_ready(self.trunk(context).0)
    }
}

/// A classifier that is being loaded.
struct Loading<'loader> {
    config: &'loader ClassifierConfig,
    weights_data_type: DataType,
    forward_pass_config: ClassifierForwardPassConfig,
    root: ParameterTree<'loader>,
}

/// A result with the value and the error taken by their views.
pub open spec fn classifier_result(res: Result<ClassifierContext, Error>) -> Result<
    ClassifierContextView,
    ErrorView,
> {
    match res {
        Ok(context) => Ok(context@),
        Err(e) => Err(e@),
    }
}

/// The error for a tree that is not there.
fn tree_error(name: &str) -> (res: Error)
    ensures
        res@ == no_tree(name@),
{
    Error::Classifier(ClassifierError::WeightSubtreeNotFound(name.to_owned()))
}

/// The error for a part that a device refused to create.
fn creation_error(component: Component, error: DeviceError) -> (res: Error)
    ensures
        res@ == not_created(component, error),
{
    Error::Classifier(
        ClassifierError::KernelCreationFailed { component, cause: CreationFailure::Device(error) },
    )
}

impl<'loader> Loading<'loader> {
    /// What the classifier is loaded from.
    spec fn plan(self) -> ClassifierPlan {
        ClassifierPlan {
            config: self.config@,
            weights_data_type: self.weights_data_type,
            forward_pass_config: self.forward_pass_config,
            root: self.root@,
        }
    }

    /// The type of the activations.
    fn activation(&self) -> (res: DataType)
        ensures
            res == self.plan().activation(),
    {
        self.forward_pass_config.embedding_forward_pass_config.activation_data_type
    }

    /// Creates and fills the buffers that the layers share, and finds the tree of the
    /// transformer. Where sinks are reached that are not stored, there is nothing to
    /// give back.
    fn fill(&self, context: &mut Context, decoder_config: &DecoderConfig) -> (res: Option<
        Result<(SharedBuffers, ParameterTree<'loader>), Error>,
    >)
        requires
            decoder_config.transformer_config@ == self.config@.transformer_config,
        ensures
            ({
                let plan = self.plan();
                let (created, buffers) = plan.shared(old(context)@);
                let ready = self.root@.subtree("transformer"@) is Ok ==> buffers.updatable(
                    created,
                    plan.transformer(),
                );
                let (after, filled) = plan.filled(old(context)@);
                match res {
                    Some(Ok((buffers, tree))) => {
                        &&& ready
                        &&& final(context)@ == after
                        &&& filled == Ok::<SharedBuffersView, ErrorView>(buffers@)
                        &&& tree@ == plan.transformer()
                    },
                    Some(Err(e)) => {
                        &&& ready
                        &&& final(context)@ == after
                        &&& filled == Err::<SharedBuffersView, ErrorView>(e@)
                    },
                    None => !ready && final(context)@ == plan.trunk_stop(old(context)@),
                }
            }),
    {
        let ghost before = context@;
        let shared_buffers = SharedBuffers::new(
            context,
            decoder_config,
            &self.forward_pass_config.transformer_forward_pass_config,
        );
        assert(context@ =~= self.plan().shared(before).0);
        let transformer_tree = match self.root.subtree("transformer") {
            Ok(tree) => tree,
            Err(_) => {
                return Some(Err(Error::UnableToLoadWeights));
            },
        };
        match shared_buffers.attempt_update(context, &transformer_tree) {
            Some(Ok(_)) => {},
            Some(Err(e)) => {
                return Some(Err(e));
            },
            None => {
                return None;
            },
        }
        match transformer_tree.subtree("output_norm") {
            Ok(_) => Some(Ok((shared_buffers, transformer_tree))),
            Err(_) => Some(Err(tree_error("output_norm"))),
        }
    }

    /// Creates the layers.
    fn create_layers(
        &self,
        context: &mut Context,
        transformer_tree: &ParameterTree<'loader>,
        rope: usize,
        qk_unpack: usize,
    ) -> (res: Result<Vec<usize>, Error>)
        requires
            transformer_tree@ == self.plan().transformer(),
        ensures
            ({
                let (after, layers) = self.plan().layers_from(
                    old(context)@,
                    rope,
                    qk_unpack,
                    0,
                    Seq::empty(),
                );
                &&& final(context)@ == after
                &&& match res {
                    Ok(made) => layers == Ok::<Seq<usize>, ErrorView>(made@),
                    Err(e) => layers == Err::<Seq<usize>, ErrorView>(e@),
                }
            }),
    {
        let ghost before = context@;
        let ghost plan = self.plan();
        let layer_configs = &self.config.transformer_config.layer_configs;
        let data_type = self.activation();
        let mut layers: Vec<usize> = Vec::new();
        let mut i: usize = 0;
        while i < layer_configs.len()
            invariant
                i <= layer_configs@.len(),
                before == old(context)@,
                plan == self.plan(),
                data_type == plan.activation(),
                transformer_tree@ == plan.transformer(),
                layer_configs@ == plan.config.transformer_config.layer_configs,
                plan.layers_from(before, rope, qk_unpack, 0, Seq::empty()) == plan.layers_from(
                    context@,
                    rope,
                    qk_unpack,
                    i as int,
                    layers@,
                ),
            decreases layer_configs@.len() - i,
        {
            if layer_configs[i].mixer_config.as_attention().is_none() {
                return Err(Error::Classifier(ClassifierError::NonAttentionMixer));
            }
            let name = append_decimal("layers.", i);
            let layer_tree = match transformer_tree.subtree(name.as_str()) {
                Ok(tree) => tree,
                Err(_) => {
                    return Err(tree_error(name.as_str()));
                },
            };
            let layer: usize = context.record(
                Request::CreateClassifierLayer {
                    index: i,
                    tree: layer_tree.location(),
                    rope,
                    qk_unpack,
                    forward_pass_config: self.forward_pass_config.transformer_forward_pass_config,
                    data_type,
                    weights_data_type: self.weights_data_type,
                },
            );
            layers.push(layer);
            i += 1;
        }
        Ok(layers)
    }

    /// Loads the classifier up to its layers, and finds the tree of the transformer.
    /// Where something that must not fail does so, there is nothing to give back.
    fn load_trunk(&self, context: &mut Context, decoder_config: &DecoderConfig) -> (res: Option<
        Result<(SharedBuffers, Embedding, Vec<usize>, ParameterTree<'loader>), Error>,
    >)
        requires
            decoder_config.transformer_config@ == self.config@.transformer_config,
            decoder_config.embedding_config == self.config@.embedding_config,
            decoder_config.vocab_size == self.config@.vocab_size,
        ensures
            ({
                let plan = self.plan();
                let ready = plan.trunk_ready(old(context)@);
                let (after, trunk) = plan.trunk(old(context)@);
                match res {
                    Some(Ok((buffers, embed, layers, tree))) => {
                        &&& ready
                        &&& final(context)@ == after
                        &&& trunk == Ok::<Trunk, ErrorView>(
                            Trunk { shared_buffers: buffers@, embed, layers: layers@ },
                        )
                        &&& tree@ == plan.transformer()
                        &&& tree@.subtree("output_norm"@) is Ok
                    },
                    Some(Err(e)) => {
                        &&& ready
                        &&& final(context)@ == after
                        &&& trunk == Err::<Trunk, ErrorView>(e@)
                    },
                    None => !ready && final(context)@ == plan.trunk_stop(old(context)@),
                }
            }),
    {
        let data_type = self.activation();
        let (shared_buffers, transformer_tree) = match self.fill(context, decoder_config) {
            Some(Ok(filled)) => filled,
            Some(Err(e)) => {
                return Some(Err(e));
            },
            None => {
                return None;
            },
        };
        let embedding_tree = match self.root.subtree("embedding") {
            Ok(tree) => tree,
            Err(_) => {
                return None;
            },
        };
        if data_type != self.weights_data_type {
            return None;
        }
        let table = TableShape {
            vocab_size: decoder_config.vocab_size as u32,
            model_dim: decoder_config.transformer_config.model_dim as u32,
            data_type,
        };
        let embed = match table.attempt(
            context,
            &decoder_config.embedding_config,
            &embedding_tree,
            &embedding_tree,
        ) {
            Some(Ok(embed)) => embed,
            _ => {
                return None;
            },
        };
        let rope_data_type =
            self.forward_pass_config.transformer_forward_pass_config.mixer_forward_pass_config.rope_data_type;
        let rope: usize = match context.issue(Request::CreateRope { data_type, rope_data_type }) {
            Ok(rope) => rope,
            Err(e) => {
                return Some(Err(creation_error(Component::Rope, e)));
            },
        };
        let qk_unpack: usize = match context.issue(Request::CreateQkUnpack { data_type }) {
            Ok(qk_unpack) => qk_unpack,
            Err(e) => {
                return Some(Err(creation_error(Component::QkUnpack, e)));
            },
        };
        match self.create_layers(context, &transformer_tree, rope, qk_unpack) {
            Ok(layers) => Some(Ok((shared_buffers, embed, layers, transformer_tree))),
            Err(e) => Some(Err(e)),
        }
    }

    /// Asks for a normalization.
    fn create_norm(
        &self,
        context: &mut Context,
        role: NormalizationRole,
        data_type: DataType,
        model_dim: usize,
        tree: &ParameterTree<'loader>,
    ) -> (res: Result<usize, DeviceError>)
        ensures
            final(context)@ == old(context)@.record(
                self.plan().norm_request(role, data_type, model_dim, tree@),
            ),
            res == old(context)@.answer(),
    {
        let accumulation_data_type =
            self.forward_pass_config.normalization_forward_pass_config.accumulation_data_type;
        context.issue(
            Request::CreateNormalization {
                role,
                data_type,
                model_dim,
                accumulation_data_type,
                tree: tree.location(),
            },
        )
    }

    /// Creates the normalizations around the layers.
    fn create_norms(&self, context: &mut Context, transformer_tree: &ParameterTree<'loader>) -> (res: Result<
        (usize, usize),
        Error,
    >)
        requires
            transformer_tree@ == self.plan().transformer(),
            transformer_tree@.subtree("output_norm"@) is Ok,
        ensures
            final(context)@ == self.plan().norms(old(context)@).0,
            match res {
                Ok(norms) => self.plan().norms(old(context)@).1 == Ok::<(usize, usize), ErrorView>(norms),
                Err(e) => self.plan().norms(old(context)@).1 == Err::<(usize, usize), ErrorView>(e@),
            },
    {
        let data_type = self.activation();
        let model_dim: usize = self.config.transformer_config.model_dim;
        let output_norm_tree = match transformer_tree.subtree("output_norm") {
            Ok(tree) => tree,
            Err(_) => unreached(),
        };
        let output_norm: usize = match self.create_norm(
            context,
            NormalizationRole::Output,
            data_type,
            model_dim,
            &output_norm_tree,
        ) {
            Ok(norm) => norm,
            Err(e) => {
                return Err(creation_error(Component::OutputNorm, e));
            },
        };
        let embedding_norm_tree = match self.root.subtree("embedding_norm") {
            Ok(tree) => tree,
            Err(_) => {
                return Err(tree_error("embedding_norm"));
            },
        };
        match self.create_norm(
            context,
            NormalizationRole::Embedding,
            data_type,
            model_dim,
            &embedding_norm_tree,
        ) {
            Ok(embedding_norm) => Ok((output_norm, embedding_norm)),
            Err(e) => Err(creation_error(Component::EmbeddingNorm, e)),
        }
    }

    /// Makes a linear map of the prediction head. Where its matrix is reached and is in
    /// groups of no weights, there is nothing to give back.
    fn load_linear(
        &self,
        context: &mut Context,
        component: Component,
        output_dim: usize,
        tree: &ParameterTree<'loader>,
    ) -> (res: Option<Result<LinearBlock, Error>>)
        ensures
            ({
                let before = old(context)@;
                let input_dim = self.config@.model_dim;
                let data_type = self.weights_data_type;
                let ready = linear_ready(before, input_dim, output_dim, data_type, tree@);
                let (after, made) = linear_outcome(before, input_dim, output_dim, data_type, tree@);
                match res {
                    Some(Ok(linear)) => {
                        &&& ready
                        &&& final(context)@ == after
                        &&& made == Ok::<LinearBlock, LinearBlockErrorView>(linear)
                    },
                    Some(Err(e)) => {
                        &&& ready
                        &&& final(context)@ == after
                        &&& made is Err && e@ == no_linear(component, made->Err_0)
                    },
                    None => !ready && final(context)@ == linear_stop(
                        before,
                        input_dim,
                        output_dim,
                        data_type,
                        tree@,
                    ),
                }
            }),
    {
        match LinearBlock::attempt(
            self.config.model_dim,
            output_dim,
            context,
            self.weights_data_type,
            tree,
        ) {
            Some(Ok(linear)) => Some(Ok(linear)),
            Some(Err(e)) => {
                let cause = CreationFailure::Linear(e);
                Some(Err(Error::Classifier(ClassifierError::KernelCreationFailed { component, cause })))
            },
            None => None,
        }
    }

    /// Loads the classifier behind its layers. Where something that must not fail does
    /// so, there is nothing to give back.
    fn load_crown(&self, context: &mut Context, transformer_tree: &ParameterTree<'loader>) -> (res: Option<
        Result<(usize, usize, usize, PredictionHead), Error>,
    >)
        requires
            transformer_tree@ == self.plan().transformer(),
            transformer_tree@.subtree("output_norm"@) is Ok,
        ensures
            ({
                let plan = self.plan();
                let ready = plan.crown_ready(old(context)@);
                let (after, crown) = plan.crown(old(context)@);
                match res {
                    Some(Ok((output_norm, embedding_norm, pooling, prediction_head))) => {
                        &&& ready
                        &&& final(context)@ == after
                        &&& crown == Ok::<Crown, ErrorView>(
                            Crown { output_norm, embedding_norm, pooling, prediction_head },
                        )
                    },
                    Some(Err(e)) => {
                        &&& ready
                        &&& final(context)@ == after
                        &&& crown == Err::<Crown, ErrorView>(e@)
                    },
                    None => !ready && final(context)@ == plan.crown_stop(old(context)@),
                }
            }),
    {
        let model_dim: usize = self.config.model_dim;
        let data_type = self.weights_data_type;
        let (output_norm, embedding_norm) = match self.create_norms(context, transformer_tree) {
            Ok(norms) => norms,
            Err(e) => {
                return Some(Err(e));
            },
        };
        let head_tree = match self.root.subtree("prediction_head") {
            Ok(tree) => tree,
            Err(_) => {
                return Some(Err(tree_error("prediction_head")));
            },
        };
        let dense_tree = match head_tree.subtree("dense") {
            Ok(tree) => tree,
            Err(_) => {
                return Some(Err(tree_error("prediction_head.dense")));
            },
        };
        let dense = match self.load_linear(
            context,
            Component::PredictionHeadDense,
            model_dim,
            &dense_tree,
        ) {
            Some(Ok(linear)) => linear,
            Some(Err(e)) => {
                return Some(Err(e));
            },
            None => {
                return None;
            },
        };
        let norm_tree = match head_tree.subtree("norm") {
            Ok(tree) => tree,
            Err(_) => {
                return Some(Err(tree_error("prediction_head.norm")));
            },
        };
        let norm: usize = match self.create_norm(
            context,
            NormalizationRole::PredictionHead,
            data_type,
            model_dim,
            &norm_tree,
        ) {
            Ok(norm) => norm,
            Err(e) => {
                return Some(Err(creation_error(Component::PredictionHeadNorm, e)));
            },
        };
        let readout_tree = match head_tree.subtree("readout") {
            Ok(tree) => tree,
            Err(_) => {
                return Some(Err(tree_error("prediction_head.readout")));
            },
        };
        let readout = match self.load_linear(
            context,
            Component::PredictionHeadReadout,
            self.config.num_labels,
            &readout_tree,
        ) {
            Some(Ok(linear)) => linear,
            Some(Err(e)) => {
                return Some(Err(e));
            },
            None => {
                return None;
            },
        };
        let pooling: usize = match context.issue(
            Request::CreatePooling { data_type: self.activation(), model_dim },
        ) {
            Ok(pooling) => pooling,
            Err(e) => {
                return Some(Err(Error::UnableToCreateContext(e)));
            },
        };
        let activation: usize = match context.issue(Request::CreatePredictionHead { data_type, model_dim }) {
            Ok(activation) => activation,
            Err(e) => {
                return Some(Err(creation_error(Component::PredictionHeadActivation, e)));
            },
        };
        let prediction_head = PredictionHead { dense, norm, readout, activation, data_type, model_dim };
        Some(Ok((output_norm, embedding_norm, pooling, prediction_head)))
    }
}

/// What a classifier in a weights file is loaded from.
pub open spec fn classifier_plan(
    loader: LoaderView,
    config: ClassifierConfigView,
    model_shape: ModelShape,
) -> ClassifierPlan {
    ClassifierPlan {
        config,
        weights_data_type: model_shape.weights_data_type,
        forward_pass_config: ClassifierForwardPassConfig::for_inference(),
        root: (TreeView { loader, prefix: None }).child("classifier"@),
    }
}

/// What loading a classifier asks of the device, and what comes of it. The device
/// is opened before anything else.
pub open spec fn classifier_outcome(
    context: ContextView,
    weights: Option<LoaderView>,
    config: ClassifierConfigView,
    model_shape: ModelShape,
) -> (ContextView, Result<ClassifierContextView, ErrorView>) {
    let opened = context.record(Request::OpenDevice);
    match context.answer() {
        Err(e) => (opened, Err(Error::UnableToCreateContext(e))),
        Ok(device) => match weights {
            None => (opened, Err(Error::UnableToLoadWeights)),
            Some(loader) => if (TreeView { loader, prefix: None }).subtree("classifier"@) is Err {
                (opened, Err(no_tree("classifier"@)))
            } else {
                classifier_plan(loader, config, model_shape).outcome(opened, device)
            },
        },
    }
}

/// Whether nothing that must not fail does.
pub open spec fn classifier_ready(
    context: ContextView,
    weights: Option<LoaderView>,
    config: ClassifierConfigView,
    model_shape: ModelShape,
) -> bool {
    let opened = context.record(Request::OpenDevice);
    context.answer() is Ok ==> (weights matches Some(loader) ==> ((TreeView { loader, prefix: None }).subtree(
        "classifier"@,
    ) is Ok ==> classifier_plan(loader, config, model_shape).ready(opened)))
}

/// What has been asked of the device where something that must not fail does.
pub open spec fn classifier_stop(
    context: ContextView,
    loader: LoaderView,
    config: ClassifierConfigView,
    model_shape: ModelShape,
) -> ContextView {
    classifier_plan(loader, config, model_shape).stop(context.record(Request::OpenDevice))
}

/// Whether loading a classifier answers a refusal with an error that says so. Where it
/// does not, a device that refuses the request ends the load for good.
pub open spec fn refusal_is_reported(
    context: ContextView,
    weights: Option<LoaderView>,
    config: ClassifierConfigView,
    model_shape: ModelShape,
    fault: Fault,
) -> bool {
    let (_, loaded) = classifier_outcome(context.with(fault), weights, config, model_shape);
    &&& classifier_ready(context.with(fault), weights, config, model_shape)
    &&& loaded is Err
    &&& loaded->Err_0.is_refusal()
}

/// The view of an optional loader.
pub open spec fn optional_loader(loader: Option<&ParameterLoader>) -> Option<LoaderView> {
    match loader {
        Some(loader) => Some(loader@),
        None => None,
    }
}

impl ClassifierContext {
    /// Loads a classifier. There are no weights where their file could not be opened
    /// or its header could not be read.
    pub fn new(
        context: &mut Context,
        weights: Option<&ParameterLoader>,
        model_config: &ClassifierConfig,
        model_shape: ModelShape,
    ) -> (res: Result<ClassifierContext, Error>)
        requires
            classifier_ready(old(context)@, optional_loader(weights), model_config@, model_shape),
        ensures
            (final(context)@, classifier_result(res)) == classifier_outcome(
                old(context)@,
                optional_loader(weights),
                model_config@,
                model_shape,
            ),
    {
        match ClassifierContext::attempt(context, weights, model_config, model_shape) {
            Some(res) => res,
            None => unreached(),
        }
    }

    /// Loads a classifier, up to something that must not fail and does: attention sinks
    /// or an embedding that are not stored as they should be, or a matrix in groups of
    /// no weights. Where that is reached, there is nothing to give back.
    pub fn attempt(
        context: &mut Context,
        weights: Option<&ParameterLoader>,
        model_config: &ClassifierConfig,
        model_shape: ModelShape,
    ) -> (res: Option<Result<ClassifierContext, Error>>)
        ensures
            ({
                let before = old(context)@;
                let loader = optional_loader(weights);
                let config = model_config@;
                let ready = classifier_ready(before, loader, config, model_shape);
                match res {
                    Some(res) => ready && (final(context)@, classifier_result(res)) == classifier_outcome(
                        before,
                        loader,
                        config,
                        model_shape,
                    ),
                    None => !ready && loader is Some && final(context)@ == classifier_stop(
                        before,
                        loader->0,
                        config,
                        model_shape,
                    ),
                }
            }),
    {
        let device: usize = match context.issue(Request::OpenDevice) {
            Ok(device) => device,
            Err(e) => {
                return Some(Err(Error::UnableToCreateContext(e)));
            },
        };
        let decoder_config = DecoderConfig {
            embedding_config: model_config.embedding_config,
            transformer_config: model_config.transformer_config.clone(),
            vocab_size: model_config.vocab_size,
        };
        let loader = match weights {
            Some(loader) => loader,
            None => {
                return Some(Err(Error::UnableToLoadWeights));
            },
        };
        let root = match loader.tree().subtree("classifier") {
            Ok(tree) => tree,
            Err(_) => {
                return Some(Err(tree_error("classifier")));
            },
        };
        let forward_pass_config = ClassifierForwardPassConfig::new_for_inference();
        let weights_data_type = model_shape.weights_data_type;
        let loading = Loading { config: model_config, weights_data_type, forward_pass_config, root };
        let ghost plan = classifier_plan(loader@, model_config@, model_shape);
        assert(loading.plan() == plan);
        let (shared_buffers, embed, layers, transformer_tree) = match loading.load_trunk(
            context,
            &decoder_config,
        ) {
            Some(Ok(trunk)) => trunk,
            Some(Err(e)) => {
                return Some(Err(e));
            },
            None => {
                return None;
            },
        };
        let (output_norm, embedding_norm, pooling, prediction_head) = match loading.load_crown(
            context,
            &transformer_tree,
        ) {
            Some(Ok(crown)) => crown,
            Some(Err(e)) => {
                return Some(Err(e));
            },
            None => {
                return None;
            },
        };
        Some(
            Ok(
                ClassifierContext {
                    device,
                    shared_buffers,
                    model_config: model_config.clone(),
                    forward_pass_config,
                    model_shape,
                    embed,
                    embedding_norm,
                    layers,
                    output_norm,
                    pooling,
                    prediction_head,
                    logits_data_type: weights_data_type,
                },
            ),
        )
    }

    /// Says whether a device that refuses a request of a classifier's load is answered
    /// with an error. Otherwise the load must not go on, and there is nothing to give
    /// back.
    pub fn reports_refusal(
        weights: Option<&ParameterLoader>,
        model_config: &ClassifierConfig,
        model_shape: ModelShape,
        fault: Fault,
    ) -> (res: bool)
        ensures
            res == refusal_is_reported(
                (ContextView { requests: Seq::empty(), fault: None }),
                optional_loader(weights),
                model_config@,
                model_shape,
                fault,
            ),
    {
        let mut context = Context::with_fault(fault);
        match ClassifierContext::attempt(&mut context, weights, model_config, model_shape) {
            Some(Err(e)) => e.was_refused(),
            _ => false,
        }
    }
}

/// Requests that were made stay made.
pub(crate) proof fn stay(first: Seq<RequestView>, second: Seq<RequestView>, third: Seq<RequestView>)
    requires
        first.is_prefix_of(second),
        second.is_prefix_of(third),
    ensures
        first.is_prefix_of(third),
{
    assert(third.take(first.len() as int) =~= second.take(first.len() as int));
}

impl ClassifierPlan {
    /// Creating layers keeps the requests that were made before. Where all were
    /// created, all of them attend, and each has a request of its own.
    pub(crate) proof fn layers_are_created(
        self,
        context: ContextView,
        rope: usize,
        qk_unpack: usize,
        from: int,
        made: Seq<usize>,
    )
        requires
            0 <= from <= self.config.transformer_config.layer_configs.len(),
            made.len() == from,
        ensures
            ({
                let layers = self.config.transformer_config.layer_configs;
                let (after, created) = self.layers_from(context, rope, qk_unpack, from, made);
                &&& context.requests.is_prefix_of(after.requests)
                &&& after.fault == context.fault
                &&& created is Ok && after.requests.len() <= usize::MAX ==> {
                    &&& created->Ok_0.len() == layers.len()
                    &&& forall|i: int| 0 <= i < from ==> #[trigger] (created->Ok_0)[i] == made[i]
                    &&& forall|i: int|
                        from <= i < layers.len() ==> {
                            &&& layers[i].mixer_config.attention() is Some
                            &&& (#[trigger] (created->Ok_0)[i]) < after.requests.len()
                            &&& after.requests[(created->Ok_0)[i] as int] == self.layer_request(
                                i,
                                rope,
                                qk_unpack,
                            )
                        }
                }
            }),
        decreases self.config.transformer_config.layer_configs.len() - from,
    {
        let layers = self.config.transformer_config.layer_configs;
        let (after, created) = self.layers_from(context, rope, qk_unpack, from, made);
        assert(context.requests.take(context.requests.len() as int) =~= context.requests);
        if from < layers.len() && layers[from].mixer_config.attention() is Some && self.transformer().subtree(
            layer_name(from),
        ) is Ok {
            let middle = context.record(self.layer_request(from, rope, qk_unpack));
            let more = made.push(context.requests.len() as usize);
            self.layers_are_created(middle, rope, qk_unpack, from + 1, more);
            assert(middle.requests.take(context.requests.len() as int) =~= context.requests);
            stay(context.requests, middle.requests, after.requests);
            assert(after.requests.take(middle.requests.len() as int) =~= middle.requests);
            assert(middle.requests.last() == after.requests[context.requests.len() as int]);
            if created is Ok && after.requests.len() <= usize::MAX {
                assert((created->Ok_0)[from] == more[from]);
                assert forall|i: int| 0 <= i < from implies #[trigger] (created->Ok_0)[i] == made[i] by {
                    assert((created->Ok_0)[i] == more[i]);
                }
            }
        }
    }

    /// Filling the shared buffers keeps the requests that were made before.
    pub(crate) proof fn filling_keeps(self, context: ContextView)
        ensures
            context.requests.is_prefix_of(self.filled(context).0.requests),
            self.filled(context).0.fault == context.fault,
    {
        let (created, buffers) = self.shared(context);
        assert(created.requests.take(context.requests.len() as int) =~= context.requests);
        let (updated, res) = rope_updates(created, buffers.rope_buffers, self.transformer(), 0);
        rope_updates_follow(created, buffers.rope_buffers, self.transformer(), 0);
        stay(context.requests, created.requests, updated.requests);
        let (after, _) = buffers.update(created, self.transformer());
        assert(after.requests.take(updated.requests.len() as int) =~= updated.requests);
        stay(context.requests, updated.requests, after.requests);
    }

    /// Loading the classifier up to its layers keeps the requests that were made
    /// before. Where it succeeds, every layer attends and was created.
    pub(crate) proof fn trunk_keeps(self, context: ContextView)
        ensures
            ({
                let (after, trunk) = self.trunk(context);
                &&& context.requests.is_prefix_of(after.requests)
                &&& after.fault == context.fault
                &&& trunk is Ok && after.requests.len() <= usize::MAX ==> self.has_layers(
                    after.requests,
                    trunk->Ok_0.layers,
                )
            }),
    {
        let (c0, filled) = self.filled(context);
        self.filling_keeps(context);
        if filled is Ok {
            let tree = self.root.child("embedding"@);
            let (c1, embed) = self.table().outcome(c0, self.config.embedding_config, tree, tree);
            self.table().embedding_follows(c0, self.config.embedding_config, tree, tree);
            stay(context.requests, c0.requests, c1.requests);
            let c2 = c1.record(self.rope_request());
            a_request_follows(c1, self.rope_request());
            stay(context.requests, c1.requests, c2.requests);
            if let Ok(rope) = c1.answer() {
                let request = Request::CreateQkUnpack { data_type: self.activation() };
                let c3 = c2.record(request);
                a_request_follows(c2, request);
                stay(context.requests, c2.requests, c3.requests);
                if let Ok(qk_unpack) = c2.answer() {
                    let (c4, layers) = self.layers_from(c3, rope, qk_unpack, 0, Seq::empty());
                    self.layers_are_created(c3, rope, qk_unpack, 0, Seq::empty());
                    stay(context.requests, c3.requests, c4.requests);
                    if layers is Ok && c4.requests.len() <= usize::MAX {
                        let made = layers->Ok_0;
                        assert forall|i: int| 0 <= i < made.len() implies #[trigger] self.creates_layer(
                            c4.requests,
                            made[i],
                            i,
                        ) by {
                            assert(c4.requests[made[i] as int] == self.layer_request(i, rope, qk_unpack));
                        }
                        assert forall|i: int| 0 <= i < made.len() implies (
                        #[trigger] self.config.transformer_config.layer_configs[i]).mixer_config.attention()
                            is Some by {
                            assert(made[i] < c4.requests.len());
                        }
                        assert(self.has_layers(c4.requests, made));
                    }
                }
            }
        }
    }

    /// Whether every layer attends, and `layers` are the numbers of the requests that
    /// created them.
    pub open spec fn has_layers(self, requests: Seq<RequestView>, layers: Seq<usize>) -> bool {
        let configs = self.config.transformer_config.layer_configs;
        &&& layers.len() == configs.len()
        &&& forall|i: int|
            0 <= i < configs.len() ==> {
                &&& configs[i].mixer_config.attention() is Some
                &&& #[trigger] self.creates_layer(requests, layers[i], i)
            }
    }

    /// Whether the request with a number creates a layer.
    pub open spec fn creates_layer(self, requests: Seq<RequestView>, number: usize, layer: int) -> bool {
        &&& number < requests.len()
        &&& exists|rope: usize, qk_unpack: usize|
            requests[number as int] == #[trigger] self.layer_request(layer, rope, qk_unpack)
    }

    /// The layers are still there once more requests were made.
    proof fn layers_stay(self, earlier: Seq<RequestView>, later: Seq<RequestView>, layers: Seq<usize>)
        requires
            self.has_layers(earlier, layers),
            earlier.is_prefix_of(later),
        ensures
            self.has_layers(later, layers),
    {
        assert(later.take(earlier.len() as int) =~= earlier);
        assert forall|i: int| 0 <= i < layers.len() implies #[trigger] self.creates_layer(
            later,
            layers[i],
            i,
        ) by {
            assert(self.creates_layer(earlier, layers[i], i));
            let (r, q) = choose|r: usize, q: usize|
                earlier[layers[i] as int] == #[trigger] self.layer_request(i, r, q);
            assert(later[layers[i] as int] == earlier[layers[i] as int]);
            assert(later[layers[i] as int] == self.layer_request(i, r, q));
        }
        let configs = self.config.transformer_config.layer_configs;
        assert forall|i: int| 0 <= i < configs.len() implies (
        #[trigger] configs[i]).mixer_config.attention() is Some by {
            assert(self.creates_layer(earlier, layers[i], i));
        }
    }

    /// Loading the classifier behind its layers keeps the requests that each part of it
    /// makes.
    pub(crate) proof fn crown_grows(self, context: ContextView)
        ensures
            ({
                let all = self.crown(context).0.requests;
                let (c1, norms) = self.norms(context);
                let (c2, dense) = self.dense(c1);
                let (c3, norm) = self.head_norm(c2);
                let (c4, readout) = self.readout(c3);
                &&& context.requests.is_prefix_of(c1.requests)
                &&& c1.requests.is_prefix_of(all)
                &&& norms is Ok ==> {
                    &&& c2.requests.is_prefix_of(all)
                    &&& dense is Ok ==> {
                        &&& c3.requests.is_prefix_of(all)
                        &&& norm is Ok ==> c4.requests.is_prefix_of(all)
                    }
                }
                &&& c1.fault == context.fault
                &&& c2.fault == context.fault
                &&& c3.fault == context.fault
                &&& c4.fault == context.fault
                &&& self.crown(context).0.fault == context.fault
            }),
    {
        let model_dim = self.config.model_dim;
        let num_labels = self.config.num_labels;
        let data_type = self.weights_data_type;
        let all = self.crown(context).0.requests;
        let (c1, norms) = self.norms(context);
        let (c2, dense) = self.dense(c1);
        let (c3, norm) = self.head_norm(c2);
        let (c4, readout) = self.readout(c3);
        linear_follows(c1, model_dim, model_dim, data_type, self.head().child("dense"@));
        linear_follows(c3, model_dim, num_labels, data_type, self.head().child("readout"@));
        assert(c1.requests.take(context.requests.len() as int) =~= context.requests);
        assert(c1.requests.take(c1.requests.len() as int) =~= c1.requests);
        assert(c3.requests.take(c2.requests.len() as int) =~= c2.requests);
        assert(c3.requests.take(c3.requests.len() as int) =~= c3.requests);
        assert(all.take(all.len() as int) =~= all);
        if norms is Ok && dense is Ok && norm is Ok && readout is Ok {
            assert(all.take(c4.requests.len() as int) =~= c4.requests);
        }
        if norms is Ok && dense is Ok && norm is Ok {
            stay(c3.requests, c4.requests, all);
        }
        if norms is Ok && dense is Ok {
            stay(c2.requests, c3.requests, all);
        }
        if norms is Ok {
            stay(c1.requests, c2.requests, all);
        }
    }

    /// Creating layers asks for the same with a fault.
    proof fn layers_replay(
        self,
        context: ContextView,
        rope: usize,
        qk_unpack: usize,
        from: int,
        made: Seq<usize>,
        fault: Fault,
    )
        ensures
            ({
                let (after, created) = self.layers_from(context, rope, qk_unpack, from, made);
                self.layers_from(context.with(fault), rope, qk_unpack, from, made) == (
                    after.with(fault),
                    created,
                )
            }),
            self.layers_from(context, rope, qk_unpack, from, made).0.fault == context.fault,
        decreases self.config.transformer_config.layer_configs.len() - from,
    {
        let layers = self.config.transformer_config.layer_configs;
        if 0 <= from < layers.len() {
            let request = self.layer_request(from, rope, qk_unpack);
            let more = made.push(context.requests.len() as usize);
            assert(context.with(fault).record(request) == context.record(request).with(fault));
            self.layers_replay(context.record(request), rope, qk_unpack, from + 1, more, fault);
        }
    }

    /// Filling the shared buffers with a fault is filling them without one, up to the
    /// refusal.
    proof fn filled_replays(self, context: ContextView, fault: Fault)
        requires
            context.fault is None,
        ensures
            replays(self.filled(context), self.filled(context.with(fault)), fault),
    {
        let (created, buffers) = self.shared(context);
        assert(self.shared(context.with(fault)).0 == created.with(fault));
        update_replays(buffers, created, self.transformer(), fault);
    }

    /// Loading the classifier up to its layers with a fault is loading it without one,
    /// up to the refusal.
    proof fn trunk_replays(self, context: ContextView, fault: Fault)
        requires
            context.fault is None,
            self.trunk_ready(context.with(fault)),
        ensures
            replays(self.trunk(context), self.trunk(context.with(fault)), fault),
    {
        let (c0, filled) = self.filled(context);
        let (cut, refused) = self.filled(context.with(fault));
        let (after, _) = self.trunk(context);
        self.filled_replays(context, fault);
        if filled is Ok {
            let config = self.config.embedding_config;
            let tree = self.root.child("embedding"@);
            let (c1, embed) = self.table().outcome(c0, config, tree, tree);
            let c2 = c1.record(self.rope_request());
            let request = Request::CreateQkUnpack { data_type: self.activation() };
            let c3 = c2.record(request);
            self.table().embedding_replays(c0, config, tree, tree, fault);
            self.table().embedding_follows(c0, config, tree, tree);
            a_request_replays(c1, self.rope_request(), fault);
            a_request_follows(c1, self.rope_request());
            a_request_replays(c2, request, fault);
            a_request_follows(c2, request);
            let rope = c1.answer()->Ok_0;
            let qk_unpack = c2.answer()->Ok_0;
            self.layers_replay(c3, rope, qk_unpack, 0, Seq::empty(), fault);
            self.layers_are_created(c3, rope, qk_unpack, 0, Seq::empty());
            assert(c1.answer() is Ok && c2.answer() is Ok);
            stay(c2.requests, c3.requests, after.requests);
            stay(c1.requests, c2.requests, after.requests);
            stay(c0.requests, c1.requests, after.requests);
            if refused is Err {
                cut_stays(cut, c0, after, fault);
            } else if c1.with(fault).answer() is Err {
                cut_stays(c1.with(fault).record(self.rope_request()), c2, after, fault);
            } else if c2.with(fault).answer() is Err {
                cut_stays(c2.with(fault).record(request), c3, after, fault);
            }
        }
    }

    /// Creating the normalizations with a fault is creating them without one, up to the
    /// refusal.
    proof fn norms_replay(self, context: ContextView, fault: Fault)
        requires
            context.fault is None,
        ensures
            replays(self.norms(context), self.norms(context.with(fault)), fault),
    {
        let model_dim = self.config.transformer_config.model_dim;
        let output = self.norm_request(
            NormalizationRole::Output,
            self.activation(),
            model_dim,
            self.transformer().child("output_norm"@),
        );
        let embedding = self.norm_request(
            NormalizationRole::Embedding,
            self.activation(),
            model_dim,
            self.root.child("embedding_norm"@),
        );
        let c1 = context.record(output);
        a_request_replays(context, output, fault);
        a_request_replays(c1, embedding, fault);
        a_request_follows(c1, embedding);
        if context.with(fault).answer() is Err {
            cut_stays(context.with(fault).record(output), c1, c1.record(embedding), fault);
        }
    }

    /// Loading the classifier behind its layers with a fault is loading it without one,
    /// up to the refusal.
    proof fn crown_replays(self, context: ContextView, fault: Fault)
        requires
            context.fault is None,
        ensures
            replays(self.crown(context), self.crown(context.with(fault)), fault),
    {
        let model_dim = self.config.model_dim;
        let num_labels = self.config.num_labels;
        let data_type = self.weights_data_type;
        let (after, _) = self.crown(context);
        self.crown_grows(context);
        let (c1, norms) = self.norms(context);
        let (f1, fnorms) = self.norms(context.with(fault));
        self.norms_replay(context, fault);
        if norms is Ok && fnorms is Err {
            cut_stays(f1, c1, after, fault);
        } else if norms is Ok {
            let (c2, dense) = self.dense(c1);
            let (f2, fdense) = self.dense(f1);
            linear_replays(c1, model_dim, model_dim, data_type, self.head().child("dense"@), fault);
            if dense is Ok && fdense is Err {
                cut_stays(f2, c2, after, fault);
            } else if dense is Ok {
                let (c3, norm) = self.head_norm(c2);
                let (f3, fnorm) = self.head_norm(f2);
                a_request_replays(
                    c2,
                    self.norm_request(
                        NormalizationRole::PredictionHead,
                        data_type,
                        model_dim,
                        self.head().child("norm"@),
                    ),
                    fault,
                );
                if norm is Ok && fnorm is Err {
                    cut_stays(f3, c3, after, fault);
                } else if norm is Ok {
                    let (c4, readout) = self.readout(c3);
                    let (f4, freadout) = self.readout(f3);
                    linear_replays(
                        c3,
                        model_dim,
                        num_labels,
                        data_type,
                        self.head().child("readout"@),
                        fault,
                    );
                    if readout is Ok && freadout is Err {
                        cut_stays(f4, c4, after, fault);
                    } else if readout is Ok {
                        let pooling = Request::CreatePooling { data_type: self.activation(), model_dim };
                        let head = Request::CreatePredictionHead { data_type, model_dim };
                        let c5 = c4.record(pooling);
                        a_request_replays(c4, pooling, fault);
                        a_request_replays(c5, head, fault);
                        a_request_follows(c5, head);
                        if c4.with(fault).answer() is Err {
                            cut_stays(c4.with(fault).record(pooling), c5, after, fault);
                        }
                    }
                }
            }
        }
    }
}

impl ClassifierPlan {
    /// Loading the classifier with a fault is loading it without one, up to the
    /// refusal.
    proof fn outcome_replays(self, context: ContextView, device: usize, fault: Fault)
        requires
            context.fault is None,
            self.trunk_ready(context.with(fault)),
        ensures
            replays(self.outcome(context, device), self.outcome(context.with(fault), device), fault),
    {
        let (middle, trunk) = self.trunk(context);
        let (cut, refused) = self.trunk(context.with(fault));
        let (after, _) = self.outcome(context, device);
        self.trunk_replays(context, fault);
        if trunk is Ok {
            self.crown_replays(middle, fault);
            self.crown_grows(middle);
            stay(middle.requests, self.norms(middle).0.requests, after.requests);
            if refused is Err {
                cut_stays(cut, middle, after, fault);
            }
        }
    }
}

/// Loading a classifier keeps the requests that were made before, and opens the device
/// before anything else. Where it succeeds, every layer attends and was created.
pub proof fn classifier_is_what_was_asked_for(
    context: ContextView,
    loader: LoaderView,
    config: ClassifierConfigView,
    model_shape: ModelShape,
)
    ensures
        ({
            let (after, loaded) = classifier_outcome(context, Some(loader), config, model_shape);
            let plan = classifier_plan(loader, config, model_shape);
            &&& context.requests.push(Request::OpenDevice).is_prefix_of(after.requests)
            &&& after.fault == context.fault
            &&& loaded is Ok && after.requests.len() <= usize::MAX ==> plan.has_layers(
                after.requests,
                loaded->Ok_0.layers,
            )
        }),
{
    let opened = context.record(Request::OpenDevice);
    let plan = classifier_plan(loader, config, model_shape);
    let (middle, trunk) = plan.trunk(opened);
    assert(opened.requests.take(opened.requests.len() as int) =~= opened.requests);
    plan.trunk_keeps(opened);
    if trunk is Ok {
        let (after, crown) = plan.crown(middle);
        plan.crown_grows(middle);
        stay(middle.requests, plan.norms(middle).0.requests, after.requests);
        stay(opened.requests, middle.requests, after.requests);
        if after.requests.len() <= usize::MAX {
            assert(middle.requests.len() <= after.requests.len());
            plan.layers_stay(middle.requests, after.requests, trunk->Ok_0.layers);
        }
    }
}

/// Loading a classifier with a fault is loading it without one, up to the refusal.
pub proof fn classifier_replays(
    context: ContextView,
    weights: Option<LoaderView>,
    config: ClassifierConfigView,
    model_shape: ModelShape,
    fault: Fault,
)
    requires
        context.fault is None,
        classifier_ready(context.with(fault), weights, config, model_shape),
    ensures
        replays(
            classifier_outcome(context, weights, config, model_shape),
            classifier_outcome(context.with(fault), weights, config, model_shape),
            fault,
        ),
{
    let opened = context.record(Request::OpenDevice);
    let cut = context.with(fault).record(Request::OpenDevice);
    a_request_replays(context, Request::OpenDevice, fault);
    if context.with(fault).answer() is Err {
        let (after, _) = classifier_outcome(context, weights, config, model_shape);
        assert(opened.requests.is_prefix_of(after.requests) && after.fault is None) by {
            assert(opened.requests.take(opened.requests.len() as int) =~= opened.requests);
            if let Some(loader) = weights {
                classifier_is_what_was_asked_for(context, loader, config, model_shape);
            }
        }
        cut_stays(cut, opened, after, fault);
    } else if let Some(loader) = weights {
        if (TreeView { loader, prefix: None }).subtree("classifier"@) is Ok {
            let plan = classifier_plan(loader, config, model_shape);
            plan.outcome_replays(opened, context.answer()->Ok_0, fault);
        }
    }
}

/// Whether a run that ended in a refusal ended with the request that was refused, and
/// that request was made in it.
pub open spec fn ends_refused(after: ContextView, earlier: ContextView, refused: bool) -> bool {
    refused ==> {
        &&& after.fault is Some
        &&& earlier.requests.len() <= after.fault->0.at
        &&& after.fault->0.at == after.requests.len() - 1
    }
}

impl ClassifierPlan {
    /// Loading the classifier up to its layers ends with the request that is refused.
    proof fn trunk_ends_refused(self, context: ContextView)
        ensures
            ({
                let (after, trunk) = self.trunk(context);
                ends_refused(after, context, trunk is Err && trunk->Err_0.is_refusal())
            }),
    {
        let (created, buffers) = self.shared(context);
        rope_updates_follow(created, buffers.rope_buffers, self.transformer(), 0);
        let (c0, filled) = self.filled(context);
        self.filling_keeps(context);
        if filled is Ok {
            let tree = self.root.child("embedding"@);
            let (c1, _) = self.table().outcome(c0, self.config.embedding_config, tree, tree);
            self.table().embedding_follows(c0, self.config.embedding_config, tree, tree);
            let c2 = c1.record(self.rope_request());
            let c3 = c2.record(Request::CreateQkUnpack { data_type: self.activation() });
            if c1.answer() is Ok && c2.answer() is Ok {
                self.layers_end_unrefused(
                    c3,
                    c1.answer()->Ok_0,
                    c2.answer()->Ok_0,
                    0,
                    Seq::empty(),
                );
            }
        }
    }

    /// Creating layers is not refused.
    proof fn layers_end_unrefused(
        self,
        context: ContextView,
        rope: usize,
        qk_unpack: usize,
        from: int,
        made: Seq<usize>,
    )
        ensures
            ({
                let (_, created) = self.layers_from(context, rope, qk_unpack, from, made);
                created is Err ==> !created->Err_0.is_refusal()
            }),
        decreases self.config.transformer_config.layer_configs.len() - from,
    {
        let layers = self.config.transformer_config.layer_configs;
        if 0 <= from < layers.len() {
            let request = self.layer_request(from, rope, qk_unpack);
            let more = made.push(context.requests.len() as usize);
            self.layers_end_unrefused(context.record(request), rope, qk_unpack, from + 1, more);
        }
    }

    /// Loading the classifier behind its layers ends with the request that is refused.
    proof fn crown_ends_refused(self, context: ContextView)
        ensures
            ({
                let (after, crown) = self.crown(context);
                ends_refused(after, context, crown is Err && crown->Err_0.is_refusal())
            }),
    {
        let model_dim = self.config.model_dim;
        let num_labels = self.config.num_labels;
        let data_type = self.weights_data_type;
        self.crown_grows(context);
        let (c1, _) = self.norms(context);
        let (c2, _) = self.dense(c1);
        let (c3, _) = self.head_norm(c2);
        linear_follows(c1, model_dim, model_dim, data_type, self.head().child("dense"@));
        linear_follows(c3, model_dim, num_labels, data_type, self.head().child("readout"@));
    }
}

/// Where loading a classifier is refused something, that is the last request it makes.
/// Without a fault it is refused nothing.
pub proof fn a_refusal_ends_the_requests(
    context: ContextView,
    weights: Option<LoaderView>,
    config: ClassifierConfigView,
    model_shape: ModelShape,
)
    ensures
        ({
            let (after, loaded) = classifier_outcome(context, weights, config, model_shape);
            &&& after.fault == context.fault
            &&& ends_refused(after, context, loaded is Err && loaded->Err_0.is_refusal())
        }),
{
    if let Some(loader) = weights {
        let opened = context.record(Request::OpenDevice);
        let plan = classifier_plan(loader, config, model_shape);
        let (middle, trunk) = plan.trunk(opened);
        classifier_is_what_was_asked_for(context, loader, config, model_shape);
        plan.trunk_keeps(opened);
        plan.trunk_ends_refused(opened);
        if trunk is Ok {
            plan.crown_ends_refused(middle);
        }
    }
}

/// A refusal that is reported cuts the load short: what was asked for up to the refused
/// request is what is asked for where nothing is refused.
pub proof fn a_reported_refusal_cuts_the_load(
    context: ContextView,
    weights: Option<LoaderView>,
    config: ClassifierConfigView,
    model_shape: ModelShape,
    fault: Fault,
)
    requires
        context.fault is None,
        refusal_is_reported(context, weights, config, model_shape, fault),
    ensures
        ({
            let (whole, _) = classifier_outcome(context, weights, config, model_shape);
            let (after, _) = classifier_outcome(context.with(fault), weights, config, model_shape);
            after.is_cut(whole, fault)
        }),
{
    classifier_replays(context, weights, config, model_shape, fault);
    a_refusal_ends_the_requests(context, weights, config, model_shape);
}

} // verus!
