use uzu::backend::context::{Context, Request};
use uzu::backend::encoder::{
    Command, Encoder, MatmulArgumentC, MatmulArguments, QuantizedMatmulArguments,
};
use uzu::backend::types::{
    Allocation, DeviceError, Fault, FileId, Kernel, KernelRequest, QuantizationMethod, QuantizationMode,
    QuantizedMatmulConfiguration,
};
use uzu::data_type::{DataType, F32Bits};
use uzu::embedding::{
    AnyEmbeddingConfig, Embedding, EmbeddingConfig, EmbeddingError, EmbeddingTying, ModelShape,
    TiedEmbeddingType, UnsupportedEmbedding, UntiedEmbeddingLookupType, UntiedEmbeddingReadoutType,
};
use uzu::forward_pass::config::EmbeddingForwardPassConfig;
use uzu::parameters::loader::{ParameterLoader, ParameterLoaderError, STMetadata, TensorInfo};
use uzu::string_map::StringMap;
use uzu::weight_matrix::{
    AWQSpec, AnyWeightMatrixSpec, FullPrecisionSpec, HybridSpec, IncoherenceProcessingMode, Layout, MLXSpec,
};

const BF16: DataType = DataType::BF16;
const TOKENS: Allocation = Allocation::Bound(0);
const VECTORS: Allocation = Allocation::Bound(1);

fn loader(tensors: &[(&str, &[usize], DataType)], specs: &[(&str, AnyWeightMatrixSpec)]) -> ParameterLoader {
    let mut map = StringMap::new();
    for (i, (key, shape, dtype)) in tensors.iter().enumerate() {
        let data_offsets = (10 * i, 10 * i + 8);
        map.insert(key.to_string(), TensorInfo { shape: shape.to_vec(), dtype: *dtype, data_offsets });
    }
    let mut metadata = StringMap::new();
    for (key, spec) in specs {
        metadata.insert(key.to_string(), Ok(spec.clone()));
    }
    let header = STMetadata { tensors: map, metadata: Some(metadata) };
    ParameterLoader::new(FileId { number: 0 }, Ok((0, header))).unwrap()
}

fn plain(layout: Layout) -> AnyWeightMatrixSpec {
    AnyWeightMatrixSpec::FullPrecisionSpec(FullPrecisionSpec { layout })
}

fn mlx(bits: u32, layout: Layout) -> AnyWeightMatrixSpec {
    AnyWeightMatrixSpec::MLXSpec(MLXSpec { bits, group_size: 32, layout })
}

fn awq(bits: u32) -> AnyWeightMatrixSpec {
    AnyWeightMatrixSpec::AWQSpec(AWQSpec {
        bits,
        group_size: 32,
        is_symmetric: false,
        layout: Layout::InputOutput,
    })
}

fn hybrid(quantized: AnyWeightMatrixSpec, mode: IncoherenceProcessingMode) -> AnyWeightMatrixSpec {
    AnyWeightMatrixSpec::HybridSpec(HybridSpec {
        quantization_spec: Box::new(quantized),
        adapter_spec: None,
        incoherence_block_size: Some(32),
        incoherence_processing_mode: mode,
    })
}

fn common() -> EmbeddingConfig {
    EmbeddingConfig { input_scale: None, logit_soft_cap: None }
}

fn tied() -> AnyEmbeddingConfig {
    AnyEmbeddingConfig::TiedEmbeddingConfig(common())
}

fn untied() -> AnyEmbeddingConfig {
    AnyEmbeddingConfig::UntiedEmbeddingConfig(common())
}

fn make(context: &mut Context, config: &AnyEmbeddingConfig, loader: &ParameterLoader) -> Result<Embedding, EmbeddingError> {
    Embedding::new(
        context,
        10,
        64,
        config,
        &loader.tree(),
        &ModelShape { weights_data_type: BF16 },
        &EmbeddingForwardPassConfig::new_for_inference(),
    )
}

fn kernels(context: &Context) -> Vec<KernelRequest> {
    let mut kernels = Vec::new();
    for request in &context.requests {
        if let Request::CreateKernel(kernel) = request {
            kernels.push(*kernel);
        }
    }
    kernels
}

fn lookup_kernel(method: QuantizationMethod, use_hadamard: bool) -> KernelRequest {
    KernelRequest::QuantizedEmbeddingLookup {
        data_type: BF16,
        group_size: 32,
        mode: QuantizationMode::U4,
        quantization_method: method,
        use_hadamard,
    }
}

fn readout_kernel(method: QuantizationMethod) -> KernelRequest {
    KernelRequest::QuantizedMatmul(QuantizedMatmulConfiguration {
        data_type: BF16,
        group_size: 32,
        input_dim: 64,
        output_dim: 10,
        mode: QuantizationMode::U4,
        quantization_method: method,
        use_hadamard: false,
    })
}

fn tied_plain() -> ParameterLoader {
    loader(
        &[("embedding.weights", &[10, 64], BF16)],
        &[("embedding.spec", plain(Layout::InputOutput))],
    )
}

fn tied_mlx(bits: u32) -> ParameterLoader {
    loader(
        &[
            ("embedding.weights", &[10, 32], DataType::U8),
            ("embedding.scales", &[10, 2], BF16),
            ("embedding.biases", &[10, 2], BF16),
        ],
        &[("embedding.spec", mlx(bits, Layout::InputOutput))],
    )
}

fn tied_hybrid(bits: u32) -> ParameterLoader {
    loader(
        &[
            ("embedding.quantized.weights", &[10, 32], DataType::U8),
            ("embedding.quantized.scales", &[10, 2], BF16),
            ("embedding.quantized.zero_points", &[10, 1], DataType::U8),
            ("embedding.incoherence_signs.output_signs", &[64], DataType::I32),
        ],
        &[("embedding.spec", hybrid(awq(bits), IncoherenceProcessingMode::Output))],
    )
}

#[test]
fn a_plain_table_serves_both_ways() {
    let mut context = Context::new();
    let embedding = make(&mut context, &tied(), &tied_plain()).unwrap();
    assert_eq!(
        embedding,
        Embedding {
            tying: EmbeddingTying::Tied {
                ty: TiedEmbeddingType::FullPrecision {
                    weights: Allocation::Resident(0),
                    lookup: Kernel { request: 2 },
                    readout: Kernel { request: 3 },
                }
            },
            readout_input_hadamard_factors: None,
            input_scale: F32Bits::one(),
            data_type: BF16,
            vocab_size: 10,
            model_dim: 64,
        }
    );
    assert_eq!(
        kernels(&context),
        vec![
            KernelRequest::FullPrecisionEmbeddingLookup { data_type: BF16 },
            KernelRequest::Matmul { data_type: BF16 },
        ]
    );
    let mut encoder = Encoder::new();
    assert!(matches!(embedding.encode_lookup(TOKENS, 7, &mut encoder), Ok(Allocation::Scratch(0))));
    assert!(matches!(embedding.encode_readout(3, VECTORS, &mut encoder), Ok(Allocation::Scratch(2))));
    assert_eq!(
        encoder.commands,
        vec![
            Command::AllocateScratch { rows: 7, columns: 64, data_type: BF16 },
            Command::FullPrecisionEmbeddingLookup {
                kernel: Kernel { request: 2 },
                token_ids: TOKENS,
                weights: Allocation::Resident(0),
                output: Allocation::Scratch(0),
                batch_dim: 7,
                vocab_size: 10,
                model_dim: 64,
                input_scale: F32Bits::one(),
            },
            Command::AllocateScratch { rows: 3, columns: 10, data_type: BF16 },
            Command::Matmul {
                kernel: Kernel { request: 3 },
                arguments: MatmulArguments {
                    a: VECTORS,
                    a_offset: 0,
                    b: Allocation::Resident(0),
                    b_offset: 0,
                    b_leading_dimension: None,
                    b_transpose: true,
                    ab_scale: F32Bits::one(),
                    c: MatmulArgumentC::Nothing,
                    d: Allocation::Scratch(2),
                    batch_dim: 3,
                    input_dim: 64,
                    output_dim: 10,
                },
            },
        ]
    );
}

#[test]
fn a_quantized_table_serves_both_ways() {
    let mut context = Context::new();
    let embedding = make(&mut context, &tied(), &tied_mlx(4)).unwrap();
    let method = QuantizationMethod::ScaleBias;
    assert_eq!(kernels(&context), vec![lookup_kernel(method, false), readout_kernel(method)]);
    let mut encoder = Encoder::new();
    embedding.encode_lookup(TOKENS, 7, &mut encoder).unwrap();
    embedding.encode_readout(3, VECTORS, &mut encoder).unwrap();
    assert_eq!(
        encoder.commands[1],
        Command::QuantizedEmbeddingLookup {
            kernel: Kernel { request: 6 },
            token_ids: TOKENS,
            weights: Allocation::Resident(0),
            scales: Allocation::Resident(2),
            zero_points: None,
            biases: Some(Allocation::Resident(4)),
            output: Allocation::Scratch(0),
            hadamard_factors: None,
            batch_dim: 7,
            vocab_size: 10,
            model_dim: 64,
            input_scale: F32Bits::one(),
        }
    );
    assert_eq!(
        encoder.commands[3],
        Command::QuantizedMatmul {
            kernel: Kernel { request: 7 },
            arguments: QuantizedMatmulArguments {
                a: VECTORS,
                a_offset: 0,
                b: Allocation::Resident(0),
                scales: Allocation::Resident(2),
                zero_points_or_biases: Allocation::Resident(4),
                output: Allocation::Scratch(2),
                hadamard_factors: None,
                batch_dim: 3,
            },
        }
    );
}

#[test]
fn a_transformed_table_comes_with_signs_for_both_ways() {
    let mut context = Context::new();
    let mut embedding = make(&mut context, &tied(), &tied_hybrid(4)).unwrap();
    let method = QuantizationMethod::ScaleZeroPoint;
    assert_eq!(kernels(&context), vec![lookup_kernel(method, true), readout_kernel(method)]);
    let mut encoder = Encoder::new();
    embedding.encode_lookup(TOKENS, 7, &mut encoder).unwrap();
    embedding.encode_readout(3, VECTORS, &mut encoder).unwrap();
    assert!(matches!(
        encoder.commands[1],
        Command::QuantizedEmbeddingLookup {
            zero_points: Some(Allocation::Resident(4)),
            biases: None,
            hadamard_factors: Some(Allocation::Resident(6)),
            ..
        }
    ));
    assert!(matches!(
        encoder.commands[3],
        Command::QuantizedMatmul { arguments: QuantizedMatmulArguments { hadamard_factors: None, .. }, .. }
    ));
    assert_eq!(context.requests[7], Request::ReadFile {
        file: FileId { number: 0 },
        allocation: Allocation::Resident(6),
        offset: 30,
        length: 8,
    });
    assert_eq!(embedding.take_readout_input_hadamard_factors(), Some(Allocation::Resident(8)));
    assert_eq!(embedding.take_readout_input_hadamard_factors(), None);
}

#[test]
fn separate_tables_are_loaded_one_after_the_other() {
    let loader = loader(
        &[
            ("input_embedding.weights", &[10, 32], DataType::U8),
            ("input_embedding.scales", &[10, 2], BF16),
            ("input_embedding.biases", &[10, 2], BF16),
            ("output_embedding.weights", &[10, 64], BF16),
        ],
        &[
            ("input_embedding.spec", mlx(4, Layout::InputOutput)),
            ("output_embedding.spec", plain(Layout::OutputInput)),
        ],
    );
    let mut context = Context::new();
    let embedding = make(&mut context, &untied(), &loader).unwrap();
    assert_eq!(
        embedding.tying,
        EmbeddingTying::Untied {
            input_ty: UntiedEmbeddingLookupType::Quantized {
                weights: Allocation::Resident(0),
                scales: Allocation::Resident(2),
                zero_points_or_biases: Allocation::Resident(4),
                quantization_method: QuantizationMethod::ScaleBias,
                output_hadamard_factors: None,
                lookup: Kernel { request: 6 },
            },
            output_ty: UntiedEmbeddingReadoutType::FullPrecision {
                weights: Allocation::Resident(7),
                readout: Kernel { request: 9 },
            },
        }
    );
    assert_eq!(
        kernels(&context),
        vec![
            lookup_kernel(QuantizationMethod::ScaleBias, false),
            KernelRequest::Matmul { data_type: BF16 },
        ]
    );
    let mut encoder = Encoder::new();
    embedding.encode_lookup(TOKENS, 1, &mut encoder).unwrap();
    embedding.encode_readout(1, VECTORS, &mut encoder).unwrap();
    assert!(matches!(encoder.commands[1], Command::QuantizedEmbeddingLookup { .. }));
    assert!(matches!(encoder.commands[3], Command::Matmul { .. }));
}

#[test]
fn separate_tables_may_stand_in_different_trees() {
    let lookup = loader(
        &[("input_embedding.weights", &[10, 64], BF16)],
        &[("input_embedding.spec", plain(Layout::InputOutput))],
    );
    let readout = loader(
        &[
            ("output_embedding.weights", &[10, 32], DataType::U8),
            ("output_embedding.scales", &[10, 2], BF16),
            ("output_embedding.biases", &[10, 2], BF16),
        ],
        &[("output_embedding.spec", mlx(4, Layout::OutputInput))],
    );
    let mut context = Context::new();
    let embedding = Embedding::new_with_lookup_and_readout_trees(
        &mut context,
        10,
        64,
        &untied(),
        &lookup.tree(),
        &readout.tree(),
        &ModelShape { weights_data_type: BF16 },
        &EmbeddingForwardPassConfig::new_for_inference(),
    )
    .unwrap();
    assert!(matches!(
        embedding.tying,
        EmbeddingTying::Untied {
            input_ty: UntiedEmbeddingLookupType::FullPrecision { .. },
            output_ty: UntiedEmbeddingReadoutType::Quantized { .. },
        }
    ));
}

#[test]
fn one_table_for_both_ways_ignores_the_tree_for_logits() {
    let lookup = tied_plain();
    let empty = loader(&[], &[]);
    let make_with = |readout: &ParameterLoader| {
        let mut context = Context::new();
        let embedding = Embedding::new_with_lookup_and_readout_trees(
            &mut context,
            10,
            64,
            &tied(),
            &lookup.tree(),
            &readout.tree(),
            &ModelShape { weights_data_type: BF16 },
            &EmbeddingForwardPassConfig::new_for_inference(),
        );
        (embedding, context.requests)
    };
    assert_eq!(make_with(&empty), make_with(&lookup));
}

#[test]
fn a_scale_is_taken_over_and_a_bound_is_refused() {
    let scale = F32Bits { bits: 0.5f32.to_bits() };
    let mut context = Context::new();
    let scaled = AnyEmbeddingConfig::TiedEmbeddingConfig(EmbeddingConfig {
        input_scale: Some(scale),
        logit_soft_cap: None,
    });
    assert_eq!(make(&mut context, &scaled, &tied_plain()).unwrap().input_scale, scale);
    let cap = F32Bits { bits: 30.0f32.to_bits() };
    let bounded = AnyEmbeddingConfig::TiedEmbeddingConfig(EmbeddingConfig {
        input_scale: None,
        logit_soft_cap: Some(cap),
    });
    let mut context = Context::new();
    assert_eq!(
        make(&mut context, &bounded, &tied_plain()),
        Err(EmbeddingError::UnsupportedConfiguration(UnsupportedEmbedding::LogitSoftCap(cap)))
    );
    assert_eq!(context.requests.len(), 4);
}

#[test]
fn there_is_no_embedding_for_these_tables() {
    let mut context = Context::new();
    assert_eq!(
        make(&mut context, &tied(), &tied_mlx(3)),
        Err(EmbeddingError::UnsupportedConfiguration(UnsupportedEmbedding::MlxBits {
            bits: 3,
            group_size: 32,
            layout: Layout::InputOutput,
        }))
    );
    assert_eq!(
        make(&mut context, &tied(), &tied_hybrid(2)),
        Err(EmbeddingError::UnsupportedConfiguration(UnsupportedEmbedding::HybridBits {
            quantization_method: QuantizationMethod::ScaleZeroPoint,
            bits: 2,
            group_size: 32,
        }))
    );
    for spec in [
        plain(Layout::OutputInput),
        awq(4),
        hybrid(awq(4), IncoherenceProcessingMode::InputOutput),
    ] {
        let table = loader(&[("embedding.w", &[1], BF16)], &[("embedding.spec", spec.clone())]);
        assert_eq!(
            make(&mut context, &tied(), &table),
            Err(EmbeddingError::UnsupportedConfiguration(UnsupportedEmbedding::Spec(spec)))
        );
    }
    let inner = plain(Layout::InputOutput);
    let table = loader(
        &[("embedding.w", &[1], BF16)],
        &[("embedding.spec", hybrid(inner.clone(), IncoherenceProcessingMode::Output))],
    );
    assert_eq!(
        make(&mut context, &tied(), &table),
        Err(EmbeddingError::UnsupportedConfiguration(UnsupportedEmbedding::Spec(inner)))
    );
    let transformed = hybrid(awq(4), IncoherenceProcessingMode::Output);
    let table = loader(&[("input_embedding.w", &[1], BF16)], &[("input_embedding.spec", transformed.clone())]);
    assert_eq!(
        make(&mut context, &untied(), &table),
        Err(EmbeddingError::UnsupportedConfiguration(UnsupportedEmbedding::Spec(transformed)))
    );
    assert!(context.requests.is_empty());
}

#[test]
fn missing_tables_are_named() {
    let mut context = Context::new();
    let empty = loader(&[("x", &[1], BF16)], &[]);
    assert_eq!(
        make(&mut context, &tied(), &empty),
        Err(EmbeddingError::ParameterError(ParameterLoaderError::SubtreeNotFound("embedding".to_string())))
    );
    assert_eq!(
        make(&mut context, &untied(), &empty),
        Err(EmbeddingError::ParameterError(ParameterLoaderError::SubtreeNotFound(
            "input_embedding".to_string()
        )))
    );
}

#[test]
fn refusals_are_told_apart() {
    let error = DeviceError { token: 3 };
    let refused = |at: usize, table: &ParameterLoader| {
        let mut context = Context::with_fault(Fault { at, error });
        (make(&mut context, &tied(), table), context.requests.len())
    };
    assert_eq!(refused(2, &tied_plain()), (Err(EmbeddingError::BackendError(error)), 3));
    assert_eq!(refused(3, &tied_plain()), (Err(EmbeddingError::MatmulError(error)), 4));
    assert_eq!(refused(7, &tied_mlx(4)), (Err(EmbeddingError::QuantizedMatmulError(error)), 8));
    assert_eq!(
        refused(1, &tied_mlx(4)),
        (Err(EmbeddingError::ParameterError(ParameterLoaderError::ArrayLoadingError(error))), 2)
    );
    let mut context = Context::new();
    let embedding = make(&mut context, &tied(), &tied_plain()).unwrap();
    let mut encoder = Encoder::with_fault(Fault { at: 0, error });
    assert_eq!(embedding.encode_lookup(TOKENS, 1, &mut encoder), Err(EmbeddingError::BackendError(error)));
    assert_eq!(encoder.commands.len(), 1);
    let mut encoder = Encoder::with_fault(Fault { at: 0, error });
    assert_eq!(embedding.encode_readout(1, VECTORS, &mut encoder), Err(EmbeddingError::BackendError(error)));
}

fn offset_of(context: &Context, filled: Allocation) -> usize {
    let mut offsets = context.requests.iter().filter_map(|request| match request {
        Request::ReadFile { allocation, offset, .. } if *allocation == filled => Some(*offset),
        _ => None,
    });
    let offset = offsets.next().unwrap();
    assert_eq!(offsets.next(), None);
    offset
}

fn kernel_of(context: &Context, kernel: Kernel) -> KernelRequest {
    match context.requests[kernel.request] {
        Request::CreateKernel(request) => request,
        _ => panic!("no kernel"),
    }
}

#[test]
fn a_table_for_both_ways_holds_the_tensors_that_are_stored() {
    for (loader, method, use_hadamard) in [
        (tied_mlx(4), QuantizationMethod::ScaleBias, false),
        (tied_hybrid(4), QuantizationMethod::ScaleZeroPoint, true),
    ] {
        let mut context = Context::new();
        match make(&mut context, &tied(), &loader).unwrap().tying {
            EmbeddingTying::Tied {
                ty: TiedEmbeddingType::Quantized { weights, scales, zero_points_or_biases, lookup, readout, .. },
            } => {
                assert_eq!(offset_of(&context, weights), 0);
                assert_eq!(offset_of(&context, scales), 10);
                assert_eq!(offset_of(&context, zero_points_or_biases), 20);
                assert_eq!(kernel_of(&context, lookup), lookup_kernel(method, use_hadamard));
                assert_eq!(kernel_of(&context, readout), readout_kernel(method));
            }
            _ => panic!("not quantized"),
        }
    }
}

#[test]
fn separate_tables_hold_the_tensors_that_are_stored() {
    let loader = loader(
        &[
            ("input_embedding.weights", &[10, 64], BF16),
            ("output_embedding.weights", &[10, 32], DataType::U8),
            ("output_embedding.scales", &[10, 2], BF16),
            ("output_embedding.biases", &[10, 2], BF16),
        ],
        &[
            ("input_embedding.spec", plain(Layout::InputOutput)),
            ("output_embedding.spec", mlx(4, Layout::OutputInput)),
        ],
    );
    let mut context = Context::new();
    match make(&mut context, &untied(), &loader).unwrap().tying {
        EmbeddingTying::Untied {
            input_ty: UntiedEmbeddingLookupType::FullPrecision { weights: table, lookup },
            output_ty: UntiedEmbeddingReadoutType::Quantized { weights, scales, zero_points_or_biases, readout },
        } => {
            assert_eq!(offset_of(&context, table), 0);
            assert_eq!(
                kernel_of(&context, lookup),
                KernelRequest::FullPrecisionEmbeddingLookup { data_type: BF16 }
            );
            assert_eq!(offset_of(&context, weights), 10);
            assert_eq!(offset_of(&context, scales), 20);
            assert_eq!(offset_of(&context, zero_points_or_biases), 30);
            assert_eq!(kernel_of(&context, readout), readout_kernel(QuantizationMethod::ScaleBias));
        }
        _ => panic!("not stored so"),
    }
}
