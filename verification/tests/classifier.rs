use uzu::backend::context::{Context, NormalizationRole, Request, TreeLocation};
use uzu::backend::types::{Allocation, DeviceError, Fault, FileId};
use uzu::classifier::ClassifierContext;
use uzu::config::model::{
    AttentionConfig, ClassifierConfig, LayerConfig, MixerConfig, TransformerConfig,
};
use uzu::data_type::{DataType, F32Bits};
use uzu::embedding::{AnyEmbeddingConfig, EmbeddingConfig, ModelShape};
use uzu::error::{ClassifierError, Component, CreationFailure, Error};
use uzu::forward_pass::config::TransformerForwardPassConfig;
use uzu::linear::block::{LinearBlock, LinearBlockError};
use uzu::parameters::loader::{ParameterLoader, ParameterLoaderError, STMetadata, TensorInfo};
use uzu::string_map::StringMap;
use uzu::weight_matrix::{AnyWeightMatrixSpec, FullPrecisionSpec, Layout, MLXSpec};

const FILE: FileId = FileId { number: 1 };
const BF16: DataType = DataType::BF16;
const SHAPE: ModelShape = ModelShape { weights_data_type: BF16 };

const TENSORS: [(&str, &[usize]); 9] = [
    ("classifier.embedding.embedding.weights", &[10, 16]),
    ("classifier.embedding_norm.scale", &[16]),
    ("classifier.transformer.layers.0.w", &[1]),
    ("classifier.transformer.layers.1.w", &[1]),
    ("classifier.transformer.output_norm.scale", &[16]),
    ("classifier.prediction_head.dense.weights.weights", &[16, 16]),
    ("classifier.prediction_head.norm.scale", &[16]),
    ("classifier.prediction_head.readout.weights.weights", &[3, 16]),
    ("classifier.prediction_head.readout.biases", &[3]),
];

fn loader_without(missing: &str) -> ParameterLoader {
    let mut tensors = StringMap::new();
    for (key, shape) in TENSORS {
        if !key.starts_with(missing) {
            tensors.insert(
                key.to_string(),
                TensorInfo { shape: shape.to_vec(), dtype: BF16, data_offsets: (0, 8) },
            );
        }
    }
    let mut metadata = StringMap::new();
    for (key, layout) in [
        ("classifier.embedding.embedding.spec", Layout::InputOutput),
        ("classifier.prediction_head.dense.weights.spec", Layout::OutputInput),
        ("classifier.prediction_head.readout.weights.spec", Layout::OutputInput),
    ] {
        metadata.insert(
            key.to_string(),
            Ok(AnyWeightMatrixSpec::FullPrecisionSpec(FullPrecisionSpec { layout })),
        );
    }
    let header = STMetadata { tensors, metadata: Some(metadata) };
    ParameterLoader::new(FILE, Ok((0, header))).unwrap()
}

fn loader() -> ParameterLoader {
    loader_without("-")
}

fn config_with(mixers: &[MixerConfig]) -> ClassifierConfig {
    ClassifierConfig {
        embedding_config: AnyEmbeddingConfig::TiedEmbeddingConfig(EmbeddingConfig {
            input_scale: None,
            logit_soft_cap: None,
        }),
        transformer_config: TransformerConfig {
            layer_configs: mixers
                .iter()
                .map(|mixer| LayerConfig { mixer_config: *mixer, rope_config: None })
                .collect(),
            model_dim: 16,
        },
        vocab_size: 10,
        model_dim: 16,
        num_labels: 3,
    }
}

fn attention() -> MixerConfig {
    MixerConfig::Attention(AttentionConfig { head_dim: 8, num_heads: 2, has_sinks: false })
}

fn config() -> ClassifierConfig {
    config_with(&[attention(), attention()])
}

fn tree(prefix: &str) -> TreeLocation {
    TreeLocation { file: FILE, prefix: Some(prefix.to_string()) }
}

fn subtree_error(loader: &ParameterLoader) -> String {
    let mut context = Context::new();
    match ClassifierContext::new(&mut context, Some(loader), &config(), SHAPE) {
        Err(Error::Classifier(ClassifierError::WeightSubtreeNotFound(name))) => name,
        _ => panic!("no tree was missing"),
    }
}

#[test]
fn a_classifier_is_loaded_in_this_order() {
    let loader = loader();
    let mut context = Context::new();
    let classifier = ClassifierContext::new(&mut context, Some(&loader), &config(), SHAPE).unwrap();
    let kinds: Vec<usize> = context
        .requests
        .iter()
        .enumerate()
        .filter(|(_, r)| {
            !matches!(r, Request::CreateAllocation { .. } | Request::ReadFile { .. } | Request::CreateKernel(_))
        })
        .map(|(i, _)| i)
        .collect();
    assert_eq!(kinds, vec![0, 5, 6, 7, 8, 9, 10, 14, 20, 21]);
    assert_eq!(context.requests[0], Request::OpenDevice);
    assert_eq!(context.requests[5], Request::CreateRope { data_type: BF16, rope_data_type: DataType::F32 });
    assert_eq!(context.requests[6], Request::CreateQkUnpack { data_type: BF16 });
    for (i, number) in [7, 8].into_iter().enumerate() {
        assert_eq!(
            context.requests[number],
            Request::CreateClassifierLayer {
                index: i,
                tree: tree(&format!("classifier.transformer.layers.{i}")),
                rope: 5,
                qk_unpack: 6,
                forward_pass_config: TransformerForwardPassConfig::new_for_inference(),
                data_type: BF16,
                weights_data_type: BF16,
            }
        );
    }
    let norm = |role: NormalizationRole, prefix: &str| Request::CreateNormalization {
        role,
        data_type: BF16,
        model_dim: 16,
        accumulation_data_type: DataType::F32,
        tree: tree(prefix),
    };
    assert_eq!(
        context.requests[9],
        norm(NormalizationRole::Output, "classifier.transformer.output_norm")
    );
    assert_eq!(context.requests[10], norm(NormalizationRole::Embedding, "classifier.embedding_norm"));
    assert_eq!(
        context.requests[14],
        norm(NormalizationRole::PredictionHead, "classifier.prediction_head.norm")
    );
    assert_eq!(context.requests[20], Request::CreatePooling { data_type: BF16, model_dim: 16 });
    assert_eq!(context.requests[21], Request::CreatePredictionHead { data_type: BF16, model_dim: 16 });
    assert_eq!(context.requests.len(), 22);
    assert_eq!(classifier.device, 0);
    assert_eq!(classifier.layers, vec![7, 8]);
    assert_eq!(classifier.output_norm, 9);
    assert_eq!(classifier.embedding_norm, 10);
    assert_eq!(classifier.pooling, 20);
    assert_eq!(classifier.prediction_head.norm, 14);
    assert_eq!(classifier.prediction_head.activation, 21);
    assert!(matches!(classifier.prediction_head.dense, LinearBlock::FullPrecision(l) if l.output_dim == 16));
    assert!(matches!(
        classifier.prediction_head.readout,
        LinearBlock::FullPrecision(l) if l.output_dim == 3 && l.bias.is_some()
    ));
    assert_eq!(classifier.logits_data_type, BF16);
    assert_eq!(classifier.model_config, config());
    assert_eq!(classifier.embed.vocab_size, 10);
    assert_eq!(classifier.shared_buffers.rope_buffers_for_layer(1), None);
}

#[test]
fn a_classifier_needs_weights() {
    let mut context = Context::new();
    assert!(matches!(
        ClassifierContext::new(&mut context, None, &config(), SHAPE),
        Err(Error::UnableToLoadWeights)
    ));
    assert_eq!(context.requests, vec![Request::OpenDevice]);
    let without_transformer = loader_without("classifier.transformer");
    assert!(matches!(
        ClassifierContext::new(&mut context, Some(&without_transformer), &config(), SHAPE),
        Err(Error::UnableToLoadWeights)
    ));
}

#[test]
fn missing_trees_are_named() {
    for (missing, name) in [
        ("classifier", "classifier"),
        ("classifier.transformer.output_norm", "output_norm"),
        ("classifier.transformer.layers.1", "layers.1"),
        ("classifier.embedding_norm", "embedding_norm"),
        ("classifier.prediction_head", "prediction_head"),
        ("classifier.prediction_head.dense", "prediction_head.dense"),
        ("classifier.prediction_head.norm", "prediction_head.norm"),
        ("classifier.prediction_head.readout", "prediction_head.readout"),
    ] {
        assert_eq!(subtree_error(&loader_without(missing)), name);
    }
}

#[test]
fn every_layer_must_attend() {
    let loader = loader();
    let mut context = Context::new();
    assert!(matches!(
        ClassifierContext::new(
            &mut context,
            Some(&loader),
            &config_with(&[attention(), MixerConfig::Other]),
            SHAPE
        ),
        Err(Error::Classifier(ClassifierError::NonAttentionMixer))
    ));
    assert_eq!(context.requests.len(), 8);
}

#[test]
fn a_refused_part_is_named() {
    let loader = loader();
    let error = DeviceError { token: 5 };
    for (at, component) in [
        (5, Component::Rope),
        (6, Component::QkUnpack),
        (9, Component::OutputNorm),
        (10, Component::EmbeddingNorm),
        (14, Component::PredictionHeadNorm),
        (21, Component::PredictionHeadActivation),
    ] {
        let mut context = Context::with_fault(Fault { at, error });
        match ClassifierContext::new(&mut context, Some(&loader), &config(), SHAPE) {
            Err(e) => assert_eq!(
                e,
                Error::Classifier(ClassifierError::KernelCreationFailed {
                    component,
                    cause: CreationFailure::Device(error),
                })
            ),
            Ok(_) => panic!("nothing was refused"),
        }
        assert_eq!(context.requests.len(), at + 1);
    }
    for at in [0, 20] {
        let mut context = Context::with_fault(Fault { at, error });
        assert!(matches!(
            ClassifierContext::new(&mut context, Some(&loader), &config(), SHAPE),
            Err(Error::UnableToCreateContext(e)) if e == error
        ));
    }
}

#[test]
fn a_failing_linear_map_is_named() {
    let loader = loader();
    let error = DeviceError { token: 5 };
    for (at, component) in [(11, Component::PredictionHeadDense), (15, Component::PredictionHeadReadout)] {
        let mut context = Context::with_fault(Fault { at, error });
        match ClassifierContext::new(&mut context, Some(&loader), &config(), SHAPE) {
            Err(Error::Classifier(ClassifierError::KernelCreationFailed {
                component: named,
                cause: CreationFailure::Linear(LinearBlockError::FullPrecisionLinearError(cause)),
            })) => {
                assert_eq!(named, component);
                assert_eq!(
                    cause,
                    uzu::linear::full_precision::FullPrecisionLinearError::ParameterError(
                        ParameterLoaderError::BackendError(error)
                    )
                );
            }
            _ => panic!("the map did not fail"),
        }
    }
}

#[test]
fn loading_with_a_fault_is_loading_without_one_up_to_the_refusal() {
    let loader = loader();
    let mut plain = Context::new();
    assert!(ClassifierContext::new(&mut plain, Some(&loader), &config(), SHAPE).is_ok());
    for at in [0, 5, 6, 9, 10, 11, 12, 13, 14, 15, 16, 17, 18, 19, 20, 21] {
        let mut faulty = Context::with_fault(Fault { at, error: DeviceError { token: 1 } });
        assert!(ClassifierContext::new(&mut faulty, Some(&loader), &config(), SHAPE).is_err());
        assert_eq!(faulty.requests[..], plain.requests[..at + 1]);
    }
    for at in [7, 8, 22] {
        let mut faulty = Context::with_fault(Fault { at, error: DeviceError { token: 1 } });
        assert!(ClassifierContext::new(&mut faulty, Some(&loader), &config(), SHAPE).is_ok());
        assert_eq!(faulty.requests, plain.requests);
    }
}

fn attempt(loader: &ParameterLoader, config: &ClassifierConfig, shape: ModelShape) -> (Context, bool) {
    let mut context = Context::new();
    let attempt = ClassifierContext::attempt(&mut context, Some(loader), config, shape);
    (context, attempt.is_some())
}

fn attending(has_sinks: bool) -> MixerConfig {
    MixerConfig::Attention(AttentionConfig { head_dim: 8, num_heads: 2, has_sinks })
}

#[test]
fn an_attempt_comes_to_what_loading_comes_to() {
    for missing in ["-", "classifier", "classifier.transformer", "classifier.transformer.output_norm"] {
        let loader = loader_without(missing);
        let mut planned = Context::new();
        let loaded = ClassifierContext::new(&mut planned, Some(&loader), &config(), SHAPE);
        let mut context = Context::new();
        let attempt = ClassifierContext::attempt(&mut context, Some(&loader), &config(), SHAPE).unwrap();
        assert_eq!(attempt.err(), loaded.err());
        assert_eq!(context.requests, planned.requests);
    }
    let mut context = Context::new();
    let attempt = ClassifierContext::attempt(&mut context, None, &config(), SHAPE).unwrap();
    assert_eq!(attempt.err(), Some(Error::UnableToLoadWeights));
}

#[test]
fn an_attempt_ends_where_an_embedding_is_not_stored_as_it_should_be() {
    let (context, came_through) = attempt(&loader_without("classifier.embedding."), &config(), SHAPE);
    assert!(!came_through);
    assert_eq!(context.requests, vec![Request::OpenDevice]);
    let shape = ModelShape { weights_data_type: DataType::F16 };
    let (context, came_through) = attempt(&loader(), &config(), shape);
    assert!(!came_through);
    assert_eq!(context.requests, vec![Request::OpenDevice]);
    let mut bounded = config();
    bounded.embedding_config = AnyEmbeddingConfig::TiedEmbeddingConfig(EmbeddingConfig {
        input_scale: None,
        logit_soft_cap: Some(F32Bits::one()),
    });
    let (context, came_through) = attempt(&loader(), &bounded, SHAPE);
    assert!(!came_through);
    assert_eq!(context.requests.len(), 5);
}

#[test]
fn an_attempt_ends_where_sinks_are_not_stored() {
    let mut tensors = StringMap::new();
    for (i, key) in ["classifier.transformer.layers.0.mixer.sinks", "classifier.transformer.output_norm.scale"]
        .into_iter()
        .enumerate()
    {
        let data_offsets = (8 * i, 8 * i + 8);
        tensors.insert(key.to_string(), TensorInfo { shape: vec![2], dtype: DataType::F32, data_offsets });
    }
    let header = STMetadata { tensors, metadata: None };
    let loader = ParameterLoader::new(FILE, Ok((0, header))).unwrap();
    let sinks = Request::CreateArray { length: 2, data_type: DataType::F32 };
    let read = Request::ReadFile { file: FILE, allocation: Allocation::Resident(1), offset: 0, length: 8 };
    let both = config_with(&[attending(true), attending(true)]);
    let (context, came_through) = attempt(&loader, &both, SHAPE);
    assert!(!came_through);
    assert_eq!(context.requests[0], Request::OpenDevice);
    assert_eq!(context.requests[1..3], [sinks, Request::CreateArray { length: 2, data_type: DataType::F32 }]);
    assert_eq!(context.requests[3..], [read]);
    let mut context = Context::with_fault(Fault { at: 0, error: DeviceError { token: 3 } });
    assert!(matches!(
        ClassifierContext::attempt(&mut context, Some(&loader), &both, SHAPE),
        Some(Err(Error::UnableToCreateContext(DeviceError { token: 3 })))
    ));
}

#[test]
fn an_attempt_ends_where_a_map_is_in_groups_of_no_weights() {
    let mut loader = loader();
    let empty = MLXSpec { bits: 4, group_size: 0, layout: Layout::OutputInput };
    for (part, requests) in [("readout", 15), ("dense", 11)] {
        loader.metadata.insert(
            format!("classifier.prediction_head.{part}.weights.spec"),
            Ok(AnyWeightMatrixSpec::MLXSpec(empty)),
        );
        let (context, came_through) = attempt(&loader, &config(), SHAPE);
        assert!(!came_through);
        assert_eq!(context.requests.len(), requests);
    }
}

#[test]
fn refusals_are_reported_but_for_those_that_must_not_happen() {
    let loader = loader();
    for at in 0..23 {
        let fault = Fault { at, error: DeviceError { token: 4 } };
        let fatal = matches!(at, 1..=4 | 7 | 8 | 22);
        assert_eq!(ClassifierContext::reports_refusal(Some(&loader), &config(), SHAPE, fault), !fatal);
    }
    let first = Fault { at: 0, error: DeviceError { token: 4 } };
    assert!(ClassifierContext::reports_refusal(None, &config(), SHAPE, first));
    let later = Fault { at: 1, error: DeviceError { token: 4 } };
    assert!(!ClassifierContext::reports_refusal(None, &config(), SHAPE, later));
    assert!(ClassifierContext::reports_refusal(
        Some(&loader_without("classifier.embedding.")),
        &config(),
        SHAPE,
        first
    ));
}

#[test]
fn a_reported_refusal_ends_the_requests() {
    let loader = loader();
    let mut plain = Context::new();
    assert!(ClassifierContext::new(&mut plain, Some(&loader), &config(), SHAPE).is_ok());
    for at in 0..plain.requests.len() {
        let fault = Fault { at, error: DeviceError { token: 4 } };
        if ClassifierContext::reports_refusal(Some(&loader), &config(), SHAPE, fault) {
            let mut faulty = Context::with_fault(fault);
            let loaded = ClassifierContext::new(&mut faulty, Some(&loader), &config(), SHAPE);
            assert!(loaded.err().unwrap().was_refused());
            assert_eq!(faulty.requests[..], plain.requests[..at + 1]);
        }
    }
}
