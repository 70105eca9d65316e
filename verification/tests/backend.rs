use uzu::backend::context::{Context, Request};
use uzu::backend::encoder::{Command, Encoder};
use uzu::backend::types::{
    div_ceil, Allocation, DeviceError, Fault, KernelRequest, QuantizationMode,
};
use uzu::data_type::{DataType, F32Bits};
use uzu::forward_pass::config::{
    ClassifierForwardPassConfig, DecoderForwardPassConfig, EmbeddingForwardPassConfig,
    MixerForwardPassConfig, NormalizationForwardPassConfig, TransformerForwardPassConfig,
};

#[test]
fn division_rounds_up() {
    assert_eq!(div_ceil(0, 32), 0);
    assert_eq!(div_ceil(1, 32), 1);
    assert_eq!(div_ceil(64, 32), 2);
    assert_eq!(div_ceil(65, 32), 3);
    assert_eq!(div_ceil(usize::MAX, 2), usize::MAX / 2 + 1);
    assert_eq!(div_ceil(usize::MAX, usize::MAX), 1);
}

#[test]
fn four_and_eight_bits_have_a_mode() {
    assert_eq!(QuantizationMode::from_bits(4), Some(QuantizationMode::U4));
    assert_eq!(QuantizationMode::from_bits(8), Some(QuantizationMode::U8));
    for bits in [0, 1, 2, 3, 5, 6, 7, 16] {
        assert_eq!(QuantizationMode::from_bits(bits), None);
    }
    assert_eq!(QuantizationMode::U4.packing_divisor(), 2);
    assert_eq!(QuantizationMode::U8.packing_divisor(), 1);
    assert_eq!(QuantizationMode::U4.storage_type(), DataType::U8);
    assert_eq!(QuantizationMode::U8.storage_type(), DataType::U8);
}

#[test]
fn one_has_the_bits_of_the_float() {
    assert_eq!(F32Bits::one().bits, 1.0f32.to_bits());
}

#[test]
fn products_are_computed_in_three_types() {
    for data_type in [DataType::BF16, DataType::F16, DataType::F32] {
        assert!(data_type.is_matmul_type());
    }
    for data_type in [DataType::F64, DataType::I32, DataType::U8, DataType::I8] {
        assert!(!data_type.is_matmul_type());
    }
}

#[test]
fn requests_are_numbered_and_the_named_one_is_refused() {
    let error = DeviceError { token: 9 };
    let mut context = Context::with_fault(Fault { at: 1, error });
    let kernel = KernelRequest::Matmul { data_type: DataType::F32 };
    assert_eq!(context.issue(Request::OpenDevice), Ok(0));
    assert_eq!(context.issue(Request::CreateKernel(kernel)), Err(error));
    assert_eq!(context.issue(Request::OpenDevice), Ok(2));
    assert_eq!(context.record(Request::OpenDevice), 3);
    assert_eq!(context.requests.len(), 4);
    assert_eq!(context.requests[1], Request::CreateKernel(kernel));
}

#[test]
fn only_allocations_are_refused_while_a_model_runs() {
    let error = DeviceError { token: 3 };
    let mut encoder = Encoder::with_fault(Fault { at: 1, error });
    assert_eq!(encoder.allocate_scratch(1, 2, DataType::F32), Ok(Allocation::Scratch(0)));
    assert_eq!(encoder.allocate_scratch(1, 2, DataType::F32), Err(error));
    let mut encoder = Encoder::with_fault(Fault { at: 0, error });
    encoder.record(Command::Copy { from: Allocation::Bound(0), to: Allocation::Bound(1) });
    assert_eq!(encoder.allocate_scratch(3, 4, DataType::BF16), Ok(Allocation::Scratch(1)));
    assert_eq!(
        encoder.commands,
        vec![
            Command::Copy { from: Allocation::Bound(0), to: Allocation::Bound(1) },
            Command::AllocateScratch { rows: 3, columns: 4, data_type: DataType::BF16 },
        ]
    );
}

#[test]
fn inference_computes_with_these_types() {
    let normalization = NormalizationForwardPassConfig { accumulation_data_type: DataType::F32 };
    let mixer = MixerForwardPassConfig {
        rope_data_type: DataType::F32,
        normalization_forward_pass_config: normalization,
    };
    let transformer = TransformerForwardPassConfig {
        mixer_forward_pass_config: mixer,
        normalization_forward_pass_config: normalization,
    };
    let embedding = EmbeddingForwardPassConfig { activation_data_type: DataType::BF16 };
    assert_eq!(NormalizationForwardPassConfig::new_for_inference(), normalization);
    assert_eq!(MixerForwardPassConfig::new_for_inference(), mixer);
    assert_eq!(TransformerForwardPassConfig::new_for_inference(), transformer);
    assert_eq!(EmbeddingForwardPassConfig::new_for_inference(), embedding);
    assert_eq!(
        DecoderForwardPassConfig::new_for_inference(),
        DecoderForwardPassConfig {
            embedding_forward_pass_config: embedding,
            transformer_forward_pass_config: transformer,
        }
    );
    assert_eq!(
        ClassifierForwardPassConfig::new_for_inference(),
        ClassifierForwardPassConfig {
            embedding_forward_pass_config: embedding,
            transformer_forward_pass_config: transformer,
            normalization_forward_pass_config: normalization,
        }
    );
}
