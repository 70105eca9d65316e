//! The configuration of a model, as far as loading it depends on it.

use vstd::prelude::*;

use crate::embedding::AnyEmbeddingConfig;

verus! {

/// How the heads of a layer are rotated.
#[derive(Clone, Copy, Debug, PartialEq, Eq, Structural)]
pub struct RopeConfig {
    /// The same for two configurations that agree in everything else that they
    /// hold, and in no other case.
    pub identity: u64,
    pub head_dim: Option<usize>,
    pub max_sequence_length: usize,
}

/// The attention of a layer.
#[derive(Clone, Copy, Debug, PartialEq, Eq, Structural)]
pub struct AttentionConfig {
    pub head_dim: usize,
    pub num_heads: usize,
    pub has_sinks: bool,
}

/// What mixes the vectors of a sequence in a layer.
#[derive(Clone, Copy, Debug, PartialEq, Eq, Structural)]
pub enum MixerConfig {
    Attention(AttentionConfig),
    /// Anything but attention.
    Other,
}

impl MixerConfig {
    /// The attention, where it is one.
    pub open spec fn attention(self) -> Option<AttentionConfig> {
        match self {
            MixerConfig::Attention(attention) => Some(attention),
            MixerConfig::Other => None,
        }
    }

    /// The attention, where it is one.
    pub fn as_attention(&self) -> (res: Option<AttentionConfig>)
        ensures
            res == self.attention(),
    {
        match self {
            MixerConfig::Attention(attention) => Some(*attention),
            MixerConfig::Other => None,
        }
    }
}

/// A layer of a transformer.
#[derive(Clone, Copy, Debug, PartialEq, Eq, Structural)]
pub struct LayerConfig {
    pub mixer_config: MixerConfig,
    pub rope_config: Option<RopeConfig>,
}

/// A transformer.
#[derive(Debug, PartialEq, Eq)]
pub struct TransformerConfig {
    pub layer_configs: Vec<LayerConfig>,
    pub model_dim: usize,
}

/// A [`TransformerConfig`] with its layers as a sequence.
pub struct TransformerConfigView {
    pub layer_configs: Seq<LayerConfig>,
    pub model_dim: usize,
}

impl View for TransformerConfig {
    type V = TransformerConfigView;

    open spec fn view(&self) -> TransformerConfigView {
        TransformerConfigView { layer_configs: self.layer_configs@, model_dim: self.model_dim }
    }
}

impl Clone for TransformerConfig {
    fn clone(&self) -> (res: Self)
        ensures
            res@ == self@,
    {
        let layer_configs = self.layer_configs.clone();
        assert(layer_configs@ =~= self.layer_configs@);
        TransformerConfig { layer_configs, model_dim: self.model_dim }
    }
}

/// A decoder.
#[derive(Debug, PartialEq, Eq)]
pub struct DecoderConfig {
    pub embedding_config: AnyEmbeddingConfig,
    pub transformer_config: TransformerConfig,
    pub vocab_size: usize,
}

/// A classifier.
#[derive(Debug, PartialEq, Eq)]
pub struct ClassifierConfig {
    pub embedding_config: AnyEmbeddingConfig,
    pub transformer_config: TransformerConfig,
    pub vocab_size: usize,
    pub model_dim: usize,
    pub num_labels: usize,
}

/// A [`ClassifierConfig`] with its layers as a sequence.
pub struct ClassifierConfigView {
    pub embedding_config: AnyEmbeddingConfig,
    pub transformer_config: TransformerConfigView,
    pub vocab_size: usize,
    pub model_dim: usize,
    pub num_labels: usize,
}

impl View for ClassifierConfig {
    type V = ClassifierConfigView;

    open spec fn view(&self) -> ClassifierConfigView {
        ClassifierConfigView {
            embedding_config: self.embedding_config,
            transformer_config: self.transformer_config@,
            vocab_size: self.vocab_size,
            model_dim: self.model_dim,
            num_labels: self.num_labels,
        }
    }
}

impl Clone for ClassifierConfig {
    fn clone(&self) -> (res: Self)
        ensures
            res@ == self@,
    {
        ClassifierConfig {
            embedding_config: self.embedding_config,
            transformer_config: self.transformer_config.clone(),
            vocab_size: self.vocab_size,
            model_dim: self.model_dim,
            num_labels: self.num_labels,
        }
    }
}

} // verus!
