use uzu::backend::context::{Context, Request};
use uzu::backend::encoder::{
    Command, Encoder, MatmulArgumentC, MatmulArguments, QuantizedMatmulArguments,
};
use uzu::backend::types::{
    Allocation, DeviceError, Fault, FileId, HadamardTransformOrder, Kernel, KernelRequest,
    QuantizationMethod, QuantizationMode, QuantizedMatmulConfiguration,
};
use uzu::data_type::{DataType, F32Bits};
use uzu::linear::block::{LinearBlock, LinearBlockError, UnsupportedLinear};
use uzu::linear::full_precision::{FullPrecisionLinear, FullPrecisionLinearError};
use uzu::linear::qlora_wrapper::QLoRALinearWrapperError;
use uzu::linear::quantized::{QuantizedLinear, QuantizedLinearError};
use uzu::linear::rht_wrapper::{RHTLinearWrapper, RHTLinearWrapperError};
use uzu::linear::Linear;
use uzu::parameters::loader::{ParameterLoader, ParameterLoaderError, STMetadata, TensorInfo};
use uzu::string_map::StringMap;
use uzu::weight_matrix::{
    AWQSpec, AnyWeightMatrixSpec, FullPrecisionSpec, HybridSpec, IncoherenceProcessingMode, Layout,
    LowRankSpec, MLXSpec,
};

const FILE: FileId = FileId { number: 0 };
const INPUT: Allocation = Allocation::Bound(0);
const BF16: DataType = DataType::BF16;

fn loader(tensors: &[(&str, &[usize], DataType)], specs: &[(&str, AnyWeightMatrixSpec)]) -> ParameterLoader {
    let mut map = StringMap::new();
    let mut end = 0;
    for (key, shape, dtype) in tensors {
        map.insert(key.to_string(), TensorInfo { shape: shape.to_vec(), dtype: *dtype, data_offsets: (end, end + 8) });
        end += 8;
    }
    let mut metadata = StringMap::new();
    for (key, spec) in specs {
        metadata.insert(key.to_string(), Ok(spec.clone()));
    }
    ParameterLoader::new(FILE, Ok((0, STMetadata { tensors: map, metadata: Some(metadata) }))).unwrap()
}

fn plain() -> AnyWeightMatrixSpec {
    AnyWeightMatrixSpec::FullPrecisionSpec(FullPrecisionSpec { layout: Layout::OutputInput })
}

fn mlx(bits: u32, group_size: usize) -> AnyWeightMatrixSpec {
    AnyWeightMatrixSpec::MLXSpec(MLXSpec { bits, group_size, layout: Layout::OutputInput })
}

fn awq(is_symmetric: bool) -> AnyWeightMatrixSpec {
    AnyWeightMatrixSpec::AWQSpec(AWQSpec { bits: 4, group_size: 32, is_symmetric, layout: Layout::OutputInput })
}

fn hybrid(
    quantized: AnyWeightMatrixSpec,
    adapter: Option<AnyWeightMatrixSpec>,
    block: Option<usize>,
    mode: IncoherenceProcessingMode,
) -> AnyWeightMatrixSpec {
    AnyWeightMatrixSpec::HybridSpec(HybridSpec {
        quantization_spec: Box::new(quantized),
        adapter_spec: adapter.map(Box::new),
        incoherence_block_size: block,
        incoherence_processing_mode: mode,
    })
}

fn low_rank() -> AnyWeightMatrixSpec {
    AnyWeightMatrixSpec::LowRankSpec(LowRankSpec { rank: 3 })
}

fn kernels(context: &Context) -> Vec<KernelRequest> {
    let mut kernels = Vec::new();
    for request in &context.requests {
        if let Request::CreateKernel(kernel) = request {
            kernels.push(*kernel);
        }
    }
    kernels
}

fn configuration(method: QuantizationMethod, use_hadamard: bool) -> KernelRequest {
    KernelRequest::QuantizedMatmul(QuantizedMatmulConfiguration {
        data_type: BF16,
        group_size: 32,
        input_dim: 64,
        output_dim: 6,
        mode: QuantizationMode::U4,
        quantization_method: method,
        use_hadamard,
    })
}

fn hadamard(order: HadamardTransformOrder) -> KernelRequest {
    KernelRequest::HadamardTransform { data_type: BF16, order }
}

#[test]
fn a_plain_map_is_loaded_and_applied() {
    let loader = loader(
        &[("weights.weights", &[6, 4], BF16), ("biases", &[6], BF16)],
        &[("weights.spec", plain())],
    );
    let mut context = Context::new();
    let linear = LinearBlock::new(4, [2, 4], &mut context, BF16, &loader.tree()).unwrap();
    let expected = FullPrecisionLinear {
        kernel: Kernel { request: 4 },
        bias: Some(Allocation::Resident(2)),
        weights: Allocation::Resident(0),
        input_dim: 4,
        output_dim: 6,
        data_type: BF16,
    };
    assert_eq!(linear, LinearBlock::FullPrecision(expected));
    assert_eq!(kernels(&context), vec![KernelRequest::Matmul { data_type: BF16 }]);
    let mut encoder = Encoder::new();
    assert_eq!(linear.encode(INPUT, 5, &mut encoder), Ok(Allocation::Scratch(0)));
    assert_eq!(
        encoder.commands,
        vec![
            Command::AllocateScratch { rows: 5, columns: 6, data_type: BF16 },
            Command::Matmul {
                kernel: Kernel { request: 4 },
                arguments: MatmulArguments {
                    a: INPUT,
                    a_offset: 0,
                    b: Allocation::Resident(0),
                    b_offset: 0,
                    b_leading_dimension: None,
                    b_transpose: true,
                    ab_scale: F32Bits::one(),
                    c: MatmulArgumentC::Bias(Allocation::Resident(2)),
                    d: Allocation::Scratch(0),
                    batch_dim: 5,
                    input_dim: 4,
                    output_dim: 6,
                },
            },
        ]
    );
}

#[test]
fn a_plain_map_needs_no_biases() {
    let loader = loader(&[("weights.weights", &[6, 4], BF16)], &[]);
    let mut context = Context::new();
    let linear = FullPrecisionLinear::new(&mut context, 4, 6, BF16, &loader.tree()).unwrap();
    assert_eq!(linear.bias, None);
    assert_eq!(linear.kernel, Kernel { request: 2 });
    let mut encoder = Encoder::new();
    linear.encode(INPUT, 1, &mut encoder).unwrap();
    assert!(matches!(
        encoder.commands[1],
        Command::Matmul { arguments: MatmulArguments { c: MatmulArgumentC::Nothing, .. }, .. }
    ));
}

#[test]
fn a_plain_map_fails_in_these_ways() {
    let loader = loader(&[("weights.weights", &[6, 4], BF16)], &[]);
    let tree = loader.tree();
    let mut context = Context::new();
    assert_eq!(
        FullPrecisionLinear::new(&mut context, 4, 6, DataType::I8, &tree),
        Err(FullPrecisionLinearError::UnsupportedDataType(DataType::I8))
    );
    assert!(context.requests.is_empty());
    assert!(matches!(
        FullPrecisionLinear::new(&mut context, 5, 6, BF16, &tree),
        Err(FullPrecisionLinearError::ParameterError(ParameterLoaderError::InvalidTensor { .. }))
    ));
    assert!(context.requests.is_empty());
    let error = DeviceError { token: 2 };
    let mut context = Context::with_fault(Fault { at: 2, error });
    assert_eq!(
        FullPrecisionLinear::new(&mut context, 4, 6, BF16, &tree),
        Err(FullPrecisionLinearError::MatmulError(error))
    );
    assert_eq!(context.requests.len(), 3);
}

#[test]
fn a_quantized_map_is_loaded_and_applied() {
    let loader = loader(
        &[
            ("weights.weights", &[6, 32], DataType::U8),
            ("weights.scales", &[6, 2], BF16),
            ("weights.biases", &[6, 2], BF16),
            ("biases", &[6], BF16),
        ],
        &[("weights.spec", mlx(4, 32))],
    );
    let mut context = Context::new();
    let linear = LinearBlock::new(64, [6], &mut context, BF16, &loader.tree()).unwrap();
    assert_eq!(
        linear,
        LinearBlock::Quantized(QuantizedLinear {
            kernel: Kernel { request: 9 },
            bias_add_kernel: Some(Kernel { request: 6 }),
            biases: Some(Allocation::Resident(7)),
            weights: Allocation::Resident(0),
            scales: Allocation::Resident(2),
            zero_points_or_biases: Allocation::Resident(4),
            output_hadamard_factors: None,
            output_dim: 6,
            output_data_type: BF16,
        })
    );
    assert_eq!(
        kernels(&context),
        vec![
            KernelRequest::TensorAddBias { data_type: BF16, in_place: true },
            configuration(QuantizationMethod::ScaleBias, false),
        ]
    );
    let mut encoder = Encoder::new();
    assert_eq!(linear.encode(INPUT, 5, &mut encoder), Ok(Allocation::Scratch(0)));
    assert_eq!(
        encoder.commands,
        vec![
            Command::AllocateScratch { rows: 5, columns: 6, data_type: BF16 },
            Command::QuantizedMatmul {
                kernel: Kernel { request: 9 },
                arguments: QuantizedMatmulArguments {
                    a: INPUT,
                    a_offset: 0,
                    b: Allocation::Resident(0),
                    scales: Allocation::Resident(2),
                    zero_points_or_biases: Allocation::Resident(4),
                    output: Allocation::Scratch(0),
                    hadamard_factors: None,
                    batch_dim: 5,
                },
            },
            Command::TensorAddBias {
                kernel: Kernel { request: 6 },
                input: None,
                biases: Allocation::Resident(7),
                output: Allocation::Scratch(0),
                columns: 6,
                length: 30,
            },
        ]
    );
}

#[test]
fn zero_points_are_packed_like_the_weights() {
    let tensors = |zero_points: usize| {
        loader(
            &[
                ("weights.weights", &[6, 48], DataType::U8),
                ("weights.scales", &[6, 3], BF16),
                ("weights.zero_points", &[6, zero_points], DataType::U8),
            ],
            &[("weights.spec", awq(false))],
        )
    };
    let mut context = Context::new();
    assert!(LinearBlock::new(96, [6], &mut context, BF16, &tensors(2).tree()).is_ok());
    assert!(matches!(
        LinearBlock::new(96, [6], &mut context, BF16, &tensors(3).tree()),
        Err(LinearBlockError::QuantizedLinearError(QuantizedLinearError::ParameterError(
            ParameterLoaderError::InvalidTensor { .. }
        )))
    ));
}

#[test]
fn a_quantized_map_fails_in_these_ways() {
    let loader = loader(
        &[
            ("weights", &[6, 32], DataType::U8),
            ("scales", &[6, 2], BF16),
            ("biases", &[6, 2], BF16),
            ("bias.biases", &[6], BF16),
        ],
        &[],
    );
    let tree = loader.tree();
    let bias = tree.subtree("bias").unwrap();
    let method = QuantizationMethod::ScaleBias;
    let mut context = Context::new();
    assert_eq!(
        QuantizedLinear::new(&mut context, 5, 32, method, 64, 6, BF16, &tree, None, None),
        Err(QuantizedLinearError::UnsupportedConfiguration {
            quantization_method: method,
            bits: 5,
            group_size: 32
        })
    );
    assert_eq!(
        QuantizedLinear::new(&mut context, 4, 32, method, 64, 6, DataType::U8, &tree, None, None),
        Err(QuantizedLinearError::UnsupportedDataType(DataType::U8))
    );
    assert!(context.requests.is_empty());
    let error = DeviceError { token: 6 };
    let make = |at: usize| {
        let mut context = Context::with_fault(Fault { at, error });
        let res = QuantizedLinear::new(&mut context, 4, 32, method, 64, 6, BF16, &tree, Some(&bias), None);
        (res, context.requests.len())
    };
    assert_eq!(make(6), (Err(QuantizedLinearError::BackendError(error)), 7));
    assert_eq!(make(9), (Err(QuantizedLinearError::QuantizedMatmulError(error)), 10));
    assert_eq!(
        make(5),
        (Err(QuantizedLinearError::ParameterError(ParameterLoaderError::ArrayLoadingError(error))), 6)
    );
    assert!(make(10).0.is_ok());
}

fn adapted(block: Option<usize>) -> ParameterLoader {
    loader(
        &[
            ("weights.quantized.weights", &[6, 32], DataType::U8),
            ("weights.quantized.scales", &[6, 2], BF16),
            ("weights.quantized.biases", &[6, 2], BF16),
            ("weights.adapter.down_projection", &[3, 64], BF16),
            ("weights.adapter.up_projection", &[6, 3], BF16),
            ("weights.incoherence_signs.input_signs", &[64], DataType::I32),
            ("weights.incoherence_signs.output_signs", &[6], DataType::I32),
        ],
        &[(
            "weights.spec",
            hybrid(mlx(4, 32), Some(low_rank()), block, IncoherenceProcessingMode::InputOutput),
        )],
    )
}

#[test]
fn an_adapted_map_adds_the_adapters_product() {
    let loader = adapted(None);
    let mut context = Context::new();
    let linear = LinearBlock::new(64, [6], &mut context, BF16, &loader.tree()).unwrap();
    assert_eq!(
        kernels(&context),
        vec![
            configuration(QuantizationMethod::ScaleBias, false),
            KernelRequest::Matmul { data_type: BF16 },
        ]
    );
    let mut encoder = Encoder::new();
    assert_eq!(linear.encode(INPUT, 5, &mut encoder), Ok(Allocation::Scratch(2)));
    assert_eq!(encoder.commands.len(), 5);
    assert_eq!(encoder.commands[0], Command::AllocateScratch { rows: 5, columns: 3, data_type: BF16 });
    assert!(matches!(
        encoder.commands[1],
        Command::Matmul {
            arguments: MatmulArguments {
                a: INPUT,
                c: MatmulArgumentC::Nothing,
                d: Allocation::Scratch(0),
                input_dim: 64,
                output_dim: 3,
                ..
            },
            ..
        }
    ));
    assert!(matches!(
        encoder.commands[3],
        Command::QuantizedMatmul { arguments: QuantizedMatmulArguments { a: INPUT, .. }, .. }
    ));
    assert!(matches!(
        encoder.commands[4],
        Command::Matmul {
            arguments: MatmulArguments {
                a: Allocation::Scratch(0),
                c: MatmulArgumentC::Accumulate,
                d: Allocation::Scratch(2),
                input_dim: 3,
                output_dim: 6,
                ..
            },
            ..
        }
    ));
}

#[test]
fn an_incoherent_adapted_map_transforms_a_copy() {
    let loader = adapted(Some(32));
    let mut context = Context::new();
    let linear = LinearBlock::new(64, [6], &mut context, BF16, &loader.tree()).unwrap();
    assert_eq!(
        kernels(&context),
        vec![
            configuration(QuantizationMethod::ScaleBias, false),
            hadamard(HadamardTransformOrder::Input),
            hadamard(HadamardTransformOrder::Output),
            KernelRequest::Matmul { data_type: BF16 },
        ]
    );
    let mut encoder = Encoder::new();
    assert_eq!(linear.encode(INPUT, 5, &mut encoder), Ok(Allocation::Scratch(5)));
    let copy = Allocation::Scratch(2);
    assert_eq!(encoder.commands[2], Command::AllocateScratch { rows: 5, columns: 64, data_type: BF16 });
    assert_eq!(encoder.commands[3], Command::Copy { from: INPUT, to: copy });
    assert!(matches!(
        encoder.commands[4],
        Command::HadamardTransform { data, columns: 64, rows: 5, .. } if data == copy
    ));
    assert!(matches!(
        encoder.commands[6],
        Command::QuantizedMatmul { arguments: QuantizedMatmulArguments { a, .. }, .. } if a == copy
    ));
    assert!(matches!(
        encoder.commands[8],
        Command::HadamardTransform { data: Allocation::Scratch(5), columns: 6, rows: 5, .. }
    ));
    assert_eq!(encoder.commands.len(), 9);
}

#[test]
fn an_adapted_map_fails_in_these_ways() {
    let tree_of = adapted(None);
    let error = DeviceError { token: 1 };
    let make = |at: usize| {
        let mut context = Context::with_fault(Fault { at, error });
        LinearBlock::new(64, [6], &mut context, BF16, &tree_of.tree())
    };
    assert_eq!(
        make(6),
        Err(LinearBlockError::QLoRALinearWrapperError(QLoRALinearWrapperError::QuantizedLinearError(
            QuantizedLinearError::QuantizedMatmulError(error)
        )))
    );
    assert_eq!(
        make(7),
        Err(LinearBlockError::QLoRALinearWrapperError(QLoRALinearWrapperError::MatmulError(error)))
    );
    assert_eq!(
        make(8),
        Err(LinearBlockError::QLoRALinearWrapperError(QLoRALinearWrapperError::ParameterLoaderError(
            ParameterLoaderError::BackendError(error)
        )))
    );
    let loader = adapted(Some(32));
    let mut context = Context::with_fault(Fault { at: 11, error });
    assert_eq!(
        LinearBlock::new(64, [6], &mut context, BF16, &loader.tree()),
        Err(LinearBlockError::QLoRALinearWrapperError(QLoRALinearWrapperError::BackendError(error)))
    );
}

fn incoherent() -> ParameterLoader {
    loader(
        &[
            ("weights.quantized.weights", &[6, 32], DataType::U8),
            ("weights.quantized.scales", &[6, 2], BF16),
            ("weights.quantized.zero_points", &[6, 1], DataType::U8),
            ("weights.incoherence_signs.input_signs", &[64], DataType::I32),
            ("weights.incoherence_signs.output_signs", &[6], DataType::I32),
        ],
        &[
            ("weights.spec", hybrid(awq(false), None, Some(32), IncoherenceProcessingMode::InputOutput)),
            ("weights.quantized.spec", awq(false)),
        ],
    )
}

#[test]
fn an_incoherent_map_transforms_its_input_in_place() {
    let loader = incoherent();
    let mut context = Context::new();
    let linear = LinearBlock::new(64, [6], &mut context, BF16, &loader.tree()).unwrap();
    assert_eq!(
        kernels(&context),
        vec![hadamard(HadamardTransformOrder::Input), configuration(QuantizationMethod::ScaleZeroPoint, true)]
    );
    let mut encoder = Encoder::new();
    assert_eq!(linear.encode(INPUT, 5, &mut encoder), Ok(Allocation::Scratch(1)));
    assert_eq!(
        encoder.commands[0],
        Command::HadamardTransform {
            kernel: Kernel { request: 4 },
            data: INPUT,
            factors: Allocation::Resident(0),
            columns: 64,
            rows: 5,
        }
    );
    assert!(matches!(
        encoder.commands[2],
        Command::QuantizedMatmul {
            arguments: QuantizedMatmulArguments {
                a: INPUT,
                hadamard_factors: Some(Allocation::Resident(2)),
                ..
            },
            ..
        }
    ));
}

#[test]
fn the_input_transform_can_be_left_to_the_caller() {
    let loader = incoherent();
    let mut context = Context::new();
    let (linear, signs) =
        LinearBlock::new_extracting_input_hadamard(64, [6], &mut context, BF16, &loader.tree()).unwrap();
    assert_eq!(signs, Some(Allocation::Resident(0)));
    assert_eq!(kernels(&context), vec![configuration(QuantizationMethod::ScaleZeroPoint, true)]);
    let mut encoder = Encoder::new();
    linear.encode(INPUT, 5, &mut encoder).unwrap();
    assert_eq!(encoder.commands.len(), 2);

    let loader = adapted(Some(32));
    let mut direct = Context::new();
    let mut extracting = Context::new();
    let expected = LinearBlock::new(64, [6], &mut direct, BF16, &loader.tree()).unwrap();
    let (linear, signs) =
        LinearBlock::new_extracting_input_hadamard(64, [6], &mut extracting, BF16, &loader.tree()).unwrap();
    assert_eq!((linear, signs), (expected, None));
    assert_eq!(extracting.requests, direct.requests);
}

#[test]
fn an_incoherent_map_fails_in_these_ways() {
    let loader = incoherent();
    let error = DeviceError { token: 1 };
    let make = |at: usize| {
        let mut context = Context::with_fault(Fault { at, error });
        RHTLinearWrapper::new(&mut context, 64, 6, BF16, &loader.tree())
    };
    assert_eq!(make(4), Err(RHTLinearWrapperError::BackendError(error)));
    assert_eq!(
        make(0),
        Err(RHTLinearWrapperError::ParameterError(ParameterLoaderError::BackendError(error)))
    );
    assert_eq!(
        make(11),
        Err(RHTLinearWrapperError::InnerLinearError(Box::new(LinearBlockError::QuantizedLinearError(
            QuantizedLinearError::QuantizedMatmulError(error)
        ))))
    );
    let other = adapted(None);
    let mut context = Context::new();
    assert_eq!(
        RHTLinearWrapper::new(&mut context, 64, 6, BF16, &other.tree()),
        Err(RHTLinearWrapperError::UnsupportedConfiguration(hybrid(
            mlx(4, 32),
            Some(low_rank()),
            None,
            IncoherenceProcessingMode::InputOutput
        )))
    );
}

#[test]
fn an_output_transform_is_fused_into_quantized_maps_only() {
    let quantized = incoherent();
    let tree = quantized.tree().subtree("weights").unwrap().subtree("quantized").unwrap();
    let mut context = Context::new();
    let factors = Allocation::Bound(4);
    let linear =
        LinearBlock::new_with_output_hadamard(&mut context, &tree, None, factors, 64, 6, BF16).unwrap();
    assert_eq!(linear.output_hadamard_factors, Some(factors));
    let plain_loader = loader(&[("weights", &[6, 4], BF16)], &[("spec", plain())]);
    assert_eq!(
        LinearBlock::new_with_output_hadamard(
            &mut context,
            &plain_loader.tree(),
            None,
            factors,
            4,
            6,
            BF16
        ),
        Err(LinearBlockError::UnsupportedConfiguration(UnsupportedLinear::FusedOutputHadamard(plain())))
    );
}

#[test]
fn there_is_no_map_for_these_matrices() {
    let input_output = AnyWeightMatrixSpec::MLXSpec(MLXSpec {
        bits: 4,
        group_size: 32,
        layout: Layout::InputOutput,
    });
    let both = IncoherenceProcessingMode::InputOutput;
    for spec in [
        input_output,
        awq(true),
        low_rank(),
        hybrid(mlx(4, 32), None, None, both),
        hybrid(mlx(4, 32), None, Some(64), both),
        hybrid(mlx(4, 32), None, Some(32), IncoherenceProcessingMode::Output),
        hybrid(mlx(4, 32), Some(low_rank()), Some(16), both),
        hybrid(mlx(4, 32), Some(low_rank()), Some(32), IncoherenceProcessingMode::Input),
    ] {
        let loader = loader(&[("weights.w", &[1], BF16)], &[("weights.spec", spec.clone())]);
        let mut context = Context::new();
        assert_eq!(
            LinearBlock::new(64, [6], &mut context, BF16, &loader.tree()),
            Err(LinearBlockError::UnsupportedConfiguration(UnsupportedLinear::Spec(spec)))
        );
        assert!(context.requests.is_empty());
    }
}

#[test]
fn an_adapter_of_another_kind_is_refused_once_its_trees_are_found() {
    let spec = hybrid(mlx(4, 32), Some(plain()), None, IncoherenceProcessingMode::Input);
    let complete = loader(
        &[("weights.quantized.w", &[1], BF16), ("weights.adapter.w", &[1], BF16)],
        &[("weights.spec", spec.clone())],
    );
    let mut context = Context::new();
    assert_eq!(
        LinearBlock::new(64, [6], &mut context, BF16, &complete.tree()),
        Err(LinearBlockError::UnsupportedConfiguration(UnsupportedLinear::Hybrid {
            quantization: mlx(4, 32),
            adapter: plain(),
        }))
    );
    let incomplete = loader(&[("weights.quantized.w", &[1], BF16)], &[("weights.spec", spec)]);
    assert_eq!(
        LinearBlock::new(64, [6], &mut context, BF16, &incomplete.tree()),
        Err(LinearBlockError::ParameterError(ParameterLoaderError::SubtreeNotFound("adapter".to_string())))
    );
}

#[test]
fn a_map_without_weights_or_description_is_not_made() {
    let mut context = Context::new();
    let empty = loader(&[("other", &[1], BF16)], &[]);
    assert_eq!(
        LinearBlock::new(64, [6], &mut context, BF16, &empty.tree()),
        Err(LinearBlockError::ParameterError(ParameterLoaderError::SubtreeNotFound("weights".to_string())))
    );
    let bare = loader(&[("weights.weights", &[1], BF16)], &[]);
    assert_eq!(
        LinearBlock::new(64, [6], &mut context, BF16, &bare.tree()),
        Err(LinearBlockError::ParameterError(ParameterLoaderError::KeyNotFound("weights.spec".to_string())))
    );
}

#[test]
fn nothing_is_run_after_a_refused_allocation() {
    let loader = adapted(Some(32));
    let mut context = Context::new();
    let linear = LinearBlock::new(64, [6], &mut context, BF16, &loader.tree()).unwrap();
    let error = DeviceError { token: 7 };
    for at in [0, 2, 5] {
        let mut encoder = Encoder::with_fault(Fault { at, error });
        assert_eq!(linear.encode(INPUT, 5, &mut encoder), Err(error));
        assert_eq!(encoder.commands.len(), at + 1);
    }
    let mut encoder = Encoder::with_fault(Fault { at: 1, error });
    assert!(linear.encode(INPUT, 5, &mut encoder).is_ok());
}

#[test]
fn a_run_with_a_fault_is_the_run_without_one_up_to_the_refusal() {
    let make = |loader: &ParameterLoader, context: &mut Context| {
        LinearBlock::new(64, [6], context, BF16, &loader.tree())
    };
    for loader in [adapted(None), adapted(Some(32)), incoherent()] {
        let mut plain = Context::new();
        let made = make(&loader, &mut plain);
        assert!(made.is_ok());
        let count = plain.requests.len();
        for at in 0..count {
            let mut faulty = Context::with_fault(Fault { at, error: DeviceError { token: 1 } });
            assert!(make(&loader, &mut faulty).is_err());
            assert_eq!(faulty.requests[..], plain.requests[..at + 1]);
        }
        let mut late = Context::with_fault(Fault { at: count, error: DeviceError { token: 1 } });
        assert_eq!(make(&loader, &mut late), made);
        assert_eq!(late.requests, plain.requests);
    }
}

#[test]
fn every_handle_is_the_number_of_the_request_that_made_it() {
    let loader = adapted(Some(32));
    let mut context = Context::new();
    let Ok(LinearBlock::QLoRA(linear)) = LinearBlock::new(64, [6], &mut context, BF16, &loader.tree()) else {
        panic!("the map is adapted");
    };
    for allocation in [
        linear.base_linear.weights,
        linear.base_linear.scales,
        linear.base_linear.zero_points_or_biases,
        linear.adapter_down,
        linear.adapter_up,
        linear.input_hadamard.unwrap().factors,
        linear.output_hadamard.unwrap().factors,
    ] {
        let Allocation::Resident(number) = allocation else {
            panic!("the allocation is resident");
        };
        assert_eq!(context.requests[number], Request::CreateAllocation { size: 8 });
        assert!(matches!(
            context.requests[number + 1],
            Request::ReadFile { allocation: filled, length: 8, .. } if filled == allocation
        ));
    }
    assert_eq!(
        context.requests[linear.adapter_kernel.request],
        Request::CreateKernel(KernelRequest::Matmul { data_type: BF16 })
    );
    assert_eq!(
        context.requests[linear.base_linear.kernel.request],
        Request::CreateKernel(configuration(QuantizationMethod::ScaleBias, false))
    );
}

#[test]
fn maps_write_to_what_they_allocate() {
    for loader in [adapted(None), adapted(Some(32))] {
        let mut context = Context::new();
        let linear = LinearBlock::new(64, [6], &mut context, BF16, &loader.tree()).unwrap();
        let mut encoder = Encoder::new();
        let output = linear.encode(INPUT, 5, &mut encoder).unwrap();
        let Allocation::Scratch(number) = output else {
            panic!("the product is scratch");
        };
        assert_eq!(
            encoder.commands[number],
            Command::AllocateScratch { rows: 5, columns: 6, data_type: BF16 }
        );
        for (i, command) in encoder.commands.iter().enumerate() {
            let written = match command {
                Command::Copy { to, .. } => *to,
                Command::Matmul { arguments, .. } => arguments.d,
                Command::QuantizedMatmul { arguments, .. } => arguments.output,
                Command::HadamardTransform { data, .. } => *data,
                _ => continue,
            };
            assert!(matches!(
                written,
                Allocation::Scratch(n) if n < i && matches!(encoder.commands[n], Command::AllocateScratch { .. })
            ));
        }
    }
}
