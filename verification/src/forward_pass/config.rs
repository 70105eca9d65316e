//! The data types that the parts of a model compute with.

use vstd::prelude::*;

use crate::data_type::DataType;

verus! {

/// The types that an embedding computes with.
#[derive(Clone, Copy, Debug, PartialEq, Eq, Structural)]
pub struct EmbeddingForwardPassConfig {
    pub activation_data_type: DataType,
}

impl EmbeddingForwardPassConfig {
    /// The types for inference.
    pub open spec fn for_inference() -> EmbeddingForwardPassConfig {
        EmbeddingForwardPassConfig {
            activation_data_type: DataType::BF16,
        }
    }

    /// Chooses the types for inference.
    pub fn new_for_inference() -> (res: EmbeddingForwardPassConfig)
        ensures
            res == EmbeddingForwardPassConfig::for_inference(),
            res.activation_data_type == DataType::BF16,
    {
        EmbeddingForwardPassConfig {
            activation_data_type: DataType::BF16,
        }
    }
}

/// The types that a normalization computes with.
#[derive(Clone, Copy, Debug, PartialEq, Eq, Structural)]
pub struct NormalizationForwardPassConfig {
    pub accumulation_data_type: DataType,
}

impl NormalizationForwardPassConfig {
    /// The types for inference.
    pub open spec fn for_inference() -> NormalizationForwardPassConfig {
        NormalizationForwardPassConfig {
            accumulation_data_type: DataType::F32,
        }
    }

    /// Chooses the types for inference.
    pub fn new_for_inference() -> (res: NormalizationForwardPassConfig)
        ensures
            res == NormalizationForwardPassConfig::for_inference(),
            res.accumulation_data_type == DataType::F32,
    {
        NormalizationForwardPassConfig {
            accumulation_data_type: DataType::F32,
        }
    }
}

/// The types that a mixer computes with.
#[derive(Clone, Copy, Debug, PartialEq, Eq, Structural)]
pub struct MixerForwardPassConfig {
    pub rope_data_type: DataType,
    pub normalization_forward_pass_config: NormalizationForwardPassConfig,
}

impl MixerForwardPassConfig {
    /// The types for inference.
    pub open spec fn for_inference() -> MixerForwardPassConfig {
        MixerForwardPassConfig {
            rope_data_type: DataType::F32,
            normalization_forward_pass_config: NormalizationForwardPassConfig::for_inference(),
        }
    }

    /// Chooses the types for inference.
    pub fn new_for_inference() -> (res: MixerForwardPassConfig)
        ensures
            res == MixerForwardPassConfig::for_inference(),
            res.rope_data_type == DataType::F32,
            res.normalization_forward_pass_config.accumulation_data_type == DataType::F32,
    {
        MixerForwardPassConfig {
            rope_data_type: DataType::F32,
            normalization_forward_pass_config: NormalizationForwardPassConfig::new_for_inference(),
        }
    }
}

/// The types that a transformer computes with.
#[derive(Clone, Copy, Debug, PartialEq, Eq, Structural)]
pub struct TransformerForwardPassConfig {
    pub mixer_forward_pass_config: MixerForwardPassConfig,
    pub normalization_forward_pass_config: NormalizationForwardPassConfig,
}

impl TransformerForwardPassConfig {
    /// The types for inference.
    pub open spec fn for_inference() -> TransformerForwardPassConfig {
        TransformerForwardPassConfig {
            mixer_forward_pass_config: MixerForwardPassConfig::for_inference(),
            normalization_forward_pass_config: NormalizationForwardPassConfig::for_inference(),
        }
    }

    /// Chooses the types for inference.
    pub fn new_for_inference() -> (res: TransformerForwardPassConfig)
        ensures
            res == TransformerForwardPassConfig::for_inference(),
            res.mixer_forward_pass_config.rope_data_type == DataType::F32,
            res.mixer_forward_pass_config.normalization_forward_pass_config.accumulation_data_type
                == DataType::F32,
            res.normalization_forward_pass_config.accumulation_data_type == DataType::F32,
    {
        TransformerForwardPassConfig {
            mixer_forward_pass_config: MixerForwardPassConfig::new_for_inference(),
            normalization_forward_pass_config: NormalizationForwardPassConfig::new_for_inference(),
        }
    }
}

/// The types that a decoder computes with.
#[derive(Clone, Copy, Debug, PartialEq, Eq, Structural)]
pub struct DecoderForwardPassConfig {
    pub embedding_forward_pass_config: EmbeddingForwardPassConfig,
    pub transformer_forward_pass_config: TransformerForwardPassConfig,
}

impl DecoderForwardPassConfig {
    /// The types for inference.
    pub open spec fn for_inference() -> DecoderForwardPassConfig {
        DecoderForwardPassConfig {
            embedding_forward_pass_config: EmbeddingForwardPassConfig::for_inference(),
            transformer_forward_pass_config: TransformerForwardPassConfig::for_inference(),
        }
    }

    /// Chooses the types for inference.
    pub fn new_for_inference() -> (res: DecoderForwardPassConfig)
        ensures
            res == DecoderForwardPassConfig::for_inference(),
            res.embedding_forward_pass_config.activation_data_type == DataType::BF16,
            res.transformer_forward_pass_config.mixer_forward_pass_config.rope_data_type
                == DataType::F32,
            res.transformer_forward_pass_config.mixer_forward_pass_config.normalization_forward_pass_config.accumulation_data_type
                == DataType::F32,
            res.transformer_forward_pass_config.normalization_forward_pass_config.accumulation_data_type
                == DataType::F32,
    {
        DecoderForwardPassConfig {
            embedding_forward_pass_config: EmbeddingForwardPassConfig::new_for_inference(),
            transformer_forward_pass_config: TransformerForwardPassConfig::new_for_inference(),
        }
    }
}

/// The types that a classifier computes with.
#[derive(Clone, Copy, Debug, PartialEq, Eq, Structural)]
pub struct ClassifierForwardPassConfig {
    pub embedding_forward_pass_config: EmbeddingForwardPassConfig,
    pub transformer_forward_pass_config: TransformerForwardPassConfig,
    pub normalization_forward_pass_config: NormalizationForwardPassConfig,
}

impl ClassifierForwardPassConfig {
    /// The types for inference.
    pub open spec fn for_inference() -> ClassifierForwardPassConfig {
        ClassifierForwardPassConfig {
            embedding_forward_pass_config: EmbeddingForwardPassConfig::for_inference(),
            transformer_forward_pass_config: TransformerForwardPassConfig::for_inference(),
            normalization_forward_pass_config: NormalizationForwardPassConfig::for_inference(),
        }
    }

    /// Chooses the types for inference.
    pub fn new_for_inference() -> (res: ClassifierForwardPassConfig)
        ensures
            res == ClassifierForwardPassConfig::for_inference(),
            res.embedding_forward_pass_config.activation_data_type == DataType::BF16,
            res.transformer_forward_pass_config.mixer_forward_pass_config.rope_data_type
                == DataType::F32,
            res.transformer_forward_pass_config.mixer_forward_pass_config.normalization_forward_pass_config.accumulation_data_type
                == DataType::F32,
            res.transformer_forward_pass_config.normalization_forward_pass_config.accumulation_data_type
                == DataType::F32,
            res.normalization_forward_pass_config.accumulation_data_type == DataType::F32,
    {
        ClassifierForwardPassConfig {
            embedding_forward_pass_config: EmbeddingForwardPassConfig::new_for_inference(),
            transformer_forward_pass_config: TransformerForwardPassConfig::new_for_inference(),
            normalization_forward_pass_config: NormalizationForwardPassConfig::new_for_inference(),
        }
    }
}

} // verus!
