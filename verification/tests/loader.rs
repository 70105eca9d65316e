use uzu::array_element::ArrayElement;
use uzu::backend::context::{Context, Request};
use uzu::backend::types::{Allocation, DeviceError, Fault, FileId};
use uzu::data_type::DataType;
use uzu::parameters::loader::{
    st_metadata_into_index_metadata, HeaderLoadingError, JsonError, ParameterLoader, ParameterLoaderError,
    STMetadata, TensorInfo,
};
use uzu::string_map::StringMap;
use uzu::text::{append_decimal, join};
use uzu::weight_matrix::{
    AnyWeightMatrixSpec, FullPrecisionSpec, HybridSpec, IncoherenceProcessingMode, Layout, MLXSpec,
};

const FILE: FileId = FileId { number: 5 };

fn header(tensors: &[(&str, &[usize], DataType, (usize, usize))]) -> STMetadata {
    let mut map = StringMap::new();
    for (key, shape, dtype, data_offsets) in tensors {
        map.insert(
            key.to_string(),
            TensorInfo { shape: shape.to_vec(), dtype: *dtype, data_offsets: *data_offsets },
        );
    }
    STMetadata { tensors: map, metadata: None }
}

fn loader(tensors: &[(&str, &[usize], DataType, (usize, usize))]) -> ParameterLoader {
    ParameterLoader::new(FILE, Ok((100, header(tensors)))).unwrap()
}

#[test]
fn paths_are_joined_by_dots() {
    assert_eq!(join(&None, "a"), "a");
    assert_eq!(join(&Some("a".to_string()), "b"), "a.b");
    assert_eq!(join(&Some("a.b".to_string()), "c"), join(&Some("a".to_string()), "b.c"));
    assert_eq!(append_decimal("layers.", 0), "layers.0");
    assert_eq!(append_decimal("layers.", 1203), "layers.1203");
    assert_eq!(append_decimal("", usize::MAX), usize::MAX.to_string());
}

#[test]
fn string_maps_keep_one_value_for_each_key() {
    let mut map: StringMap<u8> = StringMap::new();
    assert_eq!(map.len(), 0);
    map.insert("a".to_string(), 1);
    map.insert("b".to_string(), 2);
    map.insert("a".to_string(), 3);
    assert_eq!(map.len(), 2);
    assert_eq!(map.get("a"), Some(&3));
    assert_eq!(map.get("b"), Some(&2));
    assert_eq!(map.get("c"), None);
    assert!(map.contains_key("b"));
    assert!(!map.contains_key("c"));
    let mut keys: Vec<String> = map.keys().into_iter().cloned().collect();
    keys.sort();
    assert_eq!(keys, vec!["a".to_string(), "b".to_string()]);
}

#[test]
fn offsets_count_from_the_start_of_the_file() {
    let (index, metadata) = st_metadata_into_index_metadata(
        100,
        header(&[("x", &[2, 3], DataType::F32, (8, 32)), ("y", &[1], DataType::U8, (0, 1))]),
    );
    assert_eq!(index.len(), 2);
    assert_eq!(metadata.len(), 0);
    let x = index.get("x").unwrap();
    assert_eq!((x.shape.clone(), x.data_type, x.offset, x.size), (vec![2, 3], DataType::F32, 108, 24));
    let y = index.get("y").unwrap();
    assert_eq!((y.shape.clone(), y.data_type, y.offset, y.size), (vec![1], DataType::U8, 100, 1));
}

#[test]
fn a_header_that_could_not_be_read_is_passed_on() {
    let error = HeaderLoadingError { token: 8 };
    assert!(matches!(ParameterLoader::new(FILE, Err(error)), Err(e) if e == error));
}

#[test]
fn keys_are_those_of_the_tensors() {
    let loader = loader(&[("a.b", &[1], DataType::U8, (0, 1)), ("c", &[1], DataType::U8, (1, 2))]);
    let mut keys: Vec<String> = loader.keys().into_iter().cloned().collect();
    keys.sort();
    assert_eq!(keys, vec!["a.b".to_string(), "c".to_string()]);
}

#[test]
fn subtrees_are_found_by_the_start_of_a_key() {
    let loader = loader(&[("layers.10.w", &[1], DataType::U8, (0, 1))]);
    let root = loader.tree();
    assert_eq!(root.path_prefix(), None);
    let layers = root.subtree("layers").unwrap();
    assert_eq!(layers.path_prefix(), Some("layers"));
    assert_eq!(layers.subtree("10").unwrap().path_prefix(), Some("layers.10"));
    assert_eq!(layers.subtree("1").unwrap().path_prefix(), Some("layers.1"));
    assert!(matches!(layers.subtree("2"), Err(ParameterLoaderError::SubtreeNotFound(name)) if name == "2"));
    assert!(matches!(root.subtree("ayers"), Err(ParameterLoaderError::SubtreeNotFound(name)) if name == "ayers"));
}

#[test]
fn what_stands_below_a_tree_makes_it_found() {
    let loader = loader(&[("a.b.c", &[1], DataType::U8, (0, 1))]);
    let b = loader.tree().subtree("a").unwrap().subtree("b").unwrap();
    assert!(b.leaf("c").is_ok());
    assert_eq!(b.path_prefix(), Some("a.b"));
    assert_eq!(loader.tree().subtree("a.b").unwrap().path_prefix(), Some("a.b"));
}

#[test]
fn a_leaf_that_is_not_there_is_named_by_its_key() {
    let loader = loader(&[("a.b", &[1], DataType::U8, (0, 1))]);
    let tree = loader.tree().subtree("a").unwrap();
    assert!(matches!(tree.leaf("c"), Err(ParameterLoaderError::KeyNotFound(key)) if key == "a.c"));
}

#[test]
fn tensors_must_have_the_expected_shape_and_type() {
    let loader = loader(&[("w", &[2, 3], DataType::F32, (0, 24))]);
    let tree = loader.tree();
    assert!(tree.leaf("w").unwrap().validate(&[2, 3], DataType::F32).is_ok());
    for (shape, data_type) in [(vec![3, 2], DataType::F32), (vec![2, 3], DataType::BF16), (vec![2], DataType::F32)] {
        match tree.leaf("w").unwrap().validate(&shape, data_type) {
            Err(e) => assert_eq!(
                e,
                ParameterLoaderError::InvalidTensor {
                    shape: vec![2, 3],
                    data_type: DataType::F32,
                    expected_shape: shape,
                    expected_data_type: data_type,
                }
            ),
            Ok(_) => panic!("a tensor of another kind was admitted"),
        }
    }
}

#[test]
fn reading_a_tensor_creates_an_allocation_and_fills_it() {
    let loader = loader(&[("w", &[2, 3], DataType::F32, (8, 32))]);
    let mut context = Context::new();
    let leaf = loader.tree().leaf("w").unwrap().validate(&[2, 3], DataType::F32).unwrap();
    assert_eq!(leaf.read_allocation(&mut context), Ok(Allocation::Resident(0)));
    assert_eq!(
        context.requests,
        vec![
            Request::CreateAllocation { size: 24 },
            Request::ReadFile { file: FILE, allocation: Allocation::Resident(0), offset: 108, length: 24 },
        ]
    );
}

#[test]
fn refusals_are_told_apart_and_nothing_follows_them() {
    let loader = loader(&[("w", &[1], DataType::F32, (0, 4))]);
    let tree = loader.tree();
    let error = DeviceError { token: 1 };
    let mut context = Context::with_fault(Fault { at: 0, error });
    assert_eq!(
        tree.load(&mut context, "w", &[1], DataType::F32),
        Err(ParameterLoaderError::BackendError(error))
    );
    assert_eq!(context.requests.len(), 1);
    let mut context = Context::with_fault(Fault { at: 1, error });
    assert_eq!(
        tree.load(&mut context, "w", &[1], DataType::F32),
        Err(ParameterLoaderError::ArrayLoadingError(error))
    );
    assert_eq!(context.requests.len(), 2);
}

#[test]
fn slices_hold_the_words_of_the_file() {
    let loader = loader(&[("w", &[2], DataType::F32, (0, 10))]);
    let leaf = loader.tree().leaf("w").unwrap().unvalidated();
    assert_eq!(leaf.slice_length::<u32>(), 8);
    let mut bytes = Vec::new();
    bytes.extend_from_slice(&1.5f32.to_ne_bytes());
    bytes.extend_from_slice(&(-2.0f32).to_ne_bytes());
    let words: Vec<u32> = leaf.read_slice(Ok(&bytes)).unwrap();
    let floats: Vec<f32> = words.into_iter().map(f32::from_bits).collect();
    assert_eq!(floats, vec![1.5, -2.0]);
    let error = DeviceError { token: 4 };
    assert_eq!(
        leaf.read_slice::<u32>(Err(error)),
        Err(ParameterLoaderError::ArrayLoadingError(error))
    );
}

#[test]
fn slices_hold_elements_of_any_size() {
    let loader = loader(&[("w", &[1], DataType::U8, (0, 21))]);
    let leaf = loader.tree().leaf("w").unwrap().unvalidated();
    let mut bytes: Vec<u8> = (1..=16).collect();
    assert_eq!(leaf.slice_length::<u64>(), 16);
    assert_eq!(
        leaf.read_slice::<u64>(Ok(&bytes)).unwrap(),
        vec![
            u64::from_ne_bytes([1, 2, 3, 4, 5, 6, 7, 8]),
            u64::from_ne_bytes([9, 10, 11, 12, 13, 14, 15, 16]),
        ]
    );
    bytes.extend([17, 18, 19, 20]);
    assert_eq!(leaf.slice_length::<u32>(), 20);
    assert_eq!(leaf.read_slice::<u32>(Ok(&bytes)).unwrap()[4], u32::from_ne_bytes([17, 18, 19, 20]));
    assert_eq!(leaf.slice_length::<u16>(), 20);
    let halves = leaf.read_slice::<u16>(Ok(&bytes)).unwrap();
    assert_eq!(halves.len(), 10);
    assert_eq!(halves[0], u16::from_ne_bytes([1, 2]));
    assert_eq!(halves[9], u16::from_ne_bytes([19, 20]));
    bytes.push(21);
    assert_eq!(leaf.slice_length::<u8>(), 21);
    assert_eq!(leaf.read_slice::<u8>(Ok(&bytes)).unwrap(), bytes);
}

#[test]
fn a_tensor_shorter_than_an_element_holds_none() {
    let loader = loader(&[("w", &[1], DataType::U8, (0, 3))]);
    let leaf = loader.tree().leaf("w").unwrap().unvalidated();
    assert_eq!(leaf.slice_length::<u32>(), 0);
    assert_eq!(leaf.read_slice::<u32>(Ok(&[])), Ok(vec![]));
    assert_eq!((u8::size(), u16::size(), u32::size(), u64::size()), (1, 2, 4, 8));
    assert_eq!((u8::zeroed(), u16::zeroed(), u32::zeroed(), u64::zeroed()), (0, 0, 0, 0));
}

#[test]
fn descriptions_are_looked_up_by_key() {
    let spec = AnyWeightMatrixSpec::FullPrecisionSpec(FullPrecisionSpec { layout: Layout::OutputInput });
    let mut metadata = StringMap::new();
    metadata.insert("a.spec".to_string(), Ok(spec.clone()));
    metadata.insert("b.spec".to_string(), Err(JsonError { line: 1, column: 7 }));
    let mut header = header(&[("a.w", &[1], DataType::U8, (0, 1)), ("b.w", &[1], DataType::U8, (1, 2))]);
    header.metadata = Some(metadata);
    let loader = ParameterLoader::new(FILE, Ok((0, header))).unwrap();
    let root = loader.tree();
    assert_eq!(root.subtree("a").unwrap().metadata("spec"), Ok(&spec));
    assert_eq!(
        root.subtree("b").unwrap().metadata("spec"),
        Err(ParameterLoaderError::MetadataDeserializationError(JsonError { line: 1, column: 7 }))
    );
    assert_eq!(root.metadata("spec"), Err(ParameterLoaderError::KeyNotFound("spec".to_string())));
}

#[test]
fn trees_know_where_they_stand() {
    let loader = loader(&[("a.b", &[1], DataType::U8, (0, 1))]);
    let root = loader.tree().location();
    assert_eq!((root.file, root.prefix), (FILE, None));
    let tree = loader.tree().subtree("a").unwrap().location();
    assert_eq!((tree.file, tree.prefix), (FILE, Some("a".to_string())));
}

#[test]
fn groups_of_no_weights_are_found() {
    let spec = |group_size: usize| {
        AnyWeightMatrixSpec::MLXSpec(MLXSpec { bits: 4, group_size, layout: Layout::OutputInput })
    };
    let hybrid = |group_size: usize| {
        AnyWeightMatrixSpec::HybridSpec(HybridSpec {
            quantization_spec: Box::new(spec(32)),
            adapter_spec: Some(Box::new(spec(group_size))),
            incoherence_block_size: None,
            incoherence_processing_mode: IncoherenceProcessingMode::Input,
        })
    };
    assert!(spec(1).is_grouped());
    assert!(!spec(0).is_grouped());
    assert!(hybrid(1).is_grouped());
    assert!(!hybrid(0).is_grouped());
    let describe = |specs: Vec<AnyWeightMatrixSpec>| {
        let mut metadata = StringMap::new();
        for (i, spec) in specs.into_iter().enumerate() {
            metadata.insert(format!("{i}.spec"), Ok(spec));
        }
        metadata.insert("broken".to_string(), Err(JsonError { line: 1, column: 1 }));
        let header = STMetadata { tensors: StringMap::new(), metadata: Some(metadata) };
        ParameterLoader::new(FILE, Ok((0, header))).unwrap()
    };
    assert!(describe(vec![spec(32), hybrid(8)]).is_grouped());
    assert!(!describe(vec![spec(32), hybrid(0)]).is_grouped());
}
