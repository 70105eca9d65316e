use uzu::backend::context::{Context, Request, TreeLocation};
use uzu::backend::types::{Allocation, DeviceError, Fault, FileId};
use uzu::config::model::{
    AttentionConfig, DecoderConfig, LayerConfig, MixerConfig, RopeConfig, TransformerConfig,
};
use uzu::data_type::DataType;
use uzu::embedding::{AnyEmbeddingConfig, EmbeddingConfig};
use uzu::error::Error;
use uzu::forward_pass::config::TransformerForwardPassConfig;
use uzu::forward_pass::shared_buffers::{RopeBuffers, SharedBuffers};
use uzu::parameters::loader::{ParameterLoader, STMetadata, TensorInfo};
use uzu::string_map::StringMap;

const FILE: FileId = FileId { number: 3 };

fn attention(head_dim: usize, has_sinks: bool, rope_config: Option<RopeConfig>) -> LayerConfig {
    LayerConfig {
        mixer_config: MixerConfig::Attention(AttentionConfig { head_dim, num_heads: 4, has_sinks }),
        rope_config,
    }
}

fn rope(identity: u64, head_dim: Option<usize>) -> Option<RopeConfig> {
    Some(RopeConfig { identity, head_dim, max_sequence_length: 128 })
}

fn decoder(layer_configs: Vec<LayerConfig>) -> DecoderConfig {
    DecoderConfig {
        embedding_config: AnyEmbeddingConfig::TiedEmbeddingConfig(EmbeddingConfig {
            input_scale: None,
            logit_soft_cap: None,
        }),
        transformer_config: TransformerConfig { layer_configs, model_dim: 16 },
        vocab_size: 10,
    }
}

fn layers() -> Vec<LayerConfig> {
    vec![
        attention(8, false, rope(1, None)),
        attention(8, true, rope(2, None)),
        LayerConfig { mixer_config: MixerConfig::Other, rope_config: rope(1, None) },
        attention(8, false, rope(1, Some(8))),
        attention(16, false, rope(1, None)),
        attention(8, true, None),
        attention(8, false, rope(1, None)),
    ]
}

fn make(context: &mut Context, layers: Vec<LayerConfig>) -> SharedBuffers {
    SharedBuffers::new(context, &decoder(layers), &TransformerForwardPassConfig::new_for_inference())
}

fn loader(keys: &[&str]) -> ParameterLoader {
    let mut tensors = StringMap::new();
    for (i, key) in keys.iter().enumerate() {
        tensors.insert(
            key.to_string(),
            TensorInfo { shape: vec![4], dtype: DataType::F32, data_offsets: (16 * i, 16 * i + 16) },
        );
    }
    ParameterLoader::new(FILE, Ok((100, STMetadata { tensors, metadata: None }))).unwrap()
}

fn ropes(head_dim: usize) -> Request {
    Request::CreateRopeBuffers { max_sequence_length: 128, head_dim, data_type: DataType::F32 }
}

fn sinks() -> Request {
    Request::CreateArray { length: 4, data_type: DataType::F32 }
}

#[test]
fn layers_that_want_the_same_share_their_buffers() {
    let mut context = Context::new();
    let buffers = make(&mut context, layers());
    let of = |layer: usize| buffers.rope_buffers_for_layer(layer).map(|b| b.request);
    assert_eq!(of(0), Some(0));
    assert_eq!(of(1), Some(1));
    assert_eq!(of(2), None);
    assert_eq!(of(3), Some(2));
    assert_eq!(of(4), Some(3));
    assert_eq!(of(5), None);
    assert_eq!(of(6), Some(0));
    let numbers: Vec<usize> = buffers.rope_buffers().iter().map(|b| b.request).collect();
    assert_eq!(numbers, vec![0, 1, 2, 3]);
    assert_eq!(
        context.requests,
        vec![ropes(8), ropes(8), ropes(8), ropes(16), sinks(), sinks()]
    );
}

#[test]
fn a_configured_head_size_goes_before_that_of_the_attention() {
    let mut context = Context::new();
    let buffers = make(&mut context, vec![attention(8, false, rope(1, Some(32)))]);
    assert_eq!(context.requests, vec![ropes(32)]);
    assert_eq!(buffers.rope_buffers_for_layer(0), Some(&RopeBuffers { request: 0 }));
}

#[test]
fn sinks_belong_to_the_layers_that_have_some() {
    let mut context = Context::new();
    let buffers = make(&mut context, layers());
    assert_eq!(buffers.attention_sinks(0), None);
    assert_eq!(buffers.attention_sinks(1), Some(&Allocation::Resident(4)));
    assert_eq!(buffers.attention_sinks(2), None);
    assert_eq!(buffers.attention_sinks(5), Some(&Allocation::Resident(5)));
    assert_eq!(buffers.attention_sinks(6), None);
    assert_eq!(buffers.attention_sinks(7), None);
}

#[test]
fn a_model_without_layers_has_no_buffers() {
    let mut context = Context::new();
    let buffers = make(&mut context, vec![]);
    assert!(context.requests.is_empty());
    assert_eq!(buffers.attention_sinks(0), None);
}

#[test]
fn buffers_are_filled_from_the_transformer() {
    let loader = loader(&[
        "transformer.ropes.0.cosines",
        "transformer.layers.1.mixer.sinks",
        "transformer.layers.5.mixer.sinks",
    ]);
    let mut context = Context::new();
    let buffers = make(&mut context, layers());
    let created = context.requests.len();
    assert_eq!(buffers.update_data(&mut context, &loader.tree()), Ok(()));
    let update = |index: usize| Request::UpdateRopeBuffers {
        buffers: index,
        tree: TreeLocation { file: FILE, prefix: Some("transformer".to_string()) },
        index,
    };
    let read = |number: usize, offset: usize| Request::ReadFile {
        file: FILE,
        allocation: Allocation::Resident(number),
        offset,
        length: 16,
    };
    assert_eq!(
        context.requests[created..],
        [update(0), update(1), update(2), update(3), read(4, 116), read(5, 132)]
    );
}

#[test]
fn buffers_need_a_transformer() {
    let loader = loader(&["other"]);
    let mut context = Context::new();
    let buffers = make(&mut context, vec![]);
    assert_eq!(buffers.update_data(&mut context, &loader.tree()), Err(Error::UnableToLoadWeights));
    assert!(context.requests.is_empty());
}

#[test]
fn a_refused_update_is_passed_on_and_ends_the_filling() {
    let loader = loader(&["layers.1.mixer.sinks", "layers.5.mixer.sinks"]);
    let error = DeviceError { token: 2 };
    let mut context = Context::with_fault(Fault { at: 7, error });
    let buffers = make(&mut context, layers());
    assert_eq!(
        buffers.update_data_from_transformer_tree(&mut context, &loader.tree()),
        Err(Error::Reported(error))
    );
    assert_eq!(context.requests.len(), 8);
}

#[test]
fn rope_buffers_are_listed_in_the_order_they_were_made_in() {
    let mut context = Context::new();
    let buffers = make(&mut context, layers());
    let numbers: Vec<usize> = buffers.rope_buffers().iter().map(|buffers| buffers.request).collect();
    assert_eq!(numbers, vec![0, 1, 2, 3]);
    assert!(make(&mut Context::new(), vec![]).rope_buffers().is_empty());
}
