//! Parts that turn the codes of speech into sound.

use vstd::prelude::*;

use crate::data_type::F32Bits;

verus! {

/// A convolution that does not look ahead.
#[derive(Clone, Copy, Debug, PartialEq, Eq, Structural)]
pub struct CausalConv1dConfig {
    pub has_biases: bool,
}

/// A convolution that makes its input longer and does not look ahead.
#[derive(Clone, Copy, Debug, PartialEq, Eq, Structural)]
pub struct CausalTransposeConv1dConfig {
    pub has_biases: bool,
}

/// The activation that adds a squared sine.
#[derive(Clone, Copy, Debug, PartialEq, Eq, Structural)]
pub struct Snake1dConfig {}

/// What is common to all audio decoders.
#[derive(Clone, Copy, Debug, PartialEq, Eq, Structural)]
pub struct TTSAudioDecoderConfig {}

/// A quantizer that rounds each coordinate to one of a few levels.
#[derive(Clone, Debug, PartialEq, Eq)]
pub struct FiniteScalarQuantizerConfig {
    pub num_levels: Vec<usize>,
    pub eps: F32Bits,
}

/// Quantizers side by side.
#[derive(Clone, Debug, PartialEq, Eq)]
pub struct GroupFiniteScalarQuantizerConfig {
    pub num_groups: usize,
    pub quantizer_config: FiniteScalarQuantizerConfig,
}

/// A squared sine on one half of the channels, a leaky rectifier on the other.
#[derive(Clone, Copy, Debug, PartialEq, Eq, Structural)]
pub struct HalfSnakeConfig {
    pub snake_config: Snake1dConfig,
    pub leaky_relu_negative_slope: F32Bits,
}

/// An activation and a convolution with a path around them.
#[derive(Clone, Copy, Debug, PartialEq, Eq, Structural)]
pub struct ResidualBlockConfig {
    pub activation_config: HalfSnakeConfig,
    pub conv_config: CausalConv1dConfig,
}

/// Residual blocks behind one another.
#[derive(Clone, Copy, Debug, PartialEq, Eq, Structural)]
pub struct HiFiGANResBlockConfig {
    pub residual_block_config: ResidualBlockConfig,
}

/// Chains of residual blocks side by side.
#[derive(Clone, Copy, Debug, PartialEq, Eq, Structural)]
pub struct HiFiGANResLayerConfig {
    pub hifigan_res_block_config: HiFiGANResBlockConfig,
}

/// The part of an audio decoder that turns vectors into samples.
#[derive(Clone, Copy, Debug, PartialEq, Eq, Structural)]
pub struct CausalHiFiGANDecoderConfig {
    pub activation_config: HalfSnakeConfig,
    pub pre_conv_config: CausalConv1dConfig,
    pub transpose_conv_config: CausalTransposeConv1dConfig,
    pub res_layer_config: HiFiGANResLayerConfig,
    pub post_conv_config: CausalConv1dConfig,
}

/// An audio decoder.
#[derive(Clone, Debug, PartialEq, Eq)]
pub struct NanoCodecConfig {
    pub quantizer_config: GroupFiniteScalarQuantizerConfig,
    pub decoder_config: CausalHiFiGANDecoderConfig,
    pub samplerate: u32,
    pub base_channels: usize,
    pub up_sample_rates: Vec<usize>,
    pub in_kernel_size: usize,
    pub out_kernel_size: usize,
    pub resblock_kernel_sizes: Vec<usize>,
    pub resblock_dilations: Vec<usize>,
}

} // verus!
