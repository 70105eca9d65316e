//! The index of a weights file, and the tree of dotted names over it.

use vstd::arithmetic::div_mod::lemma_fundamental_div_mod;
use vstd::arithmetic::mul::lemma_mul_is_commutative;
use vstd::prelude::*;

use crate::array_element::{are_elements_of, ArrayElement};
use crate::backend::context::{
    a_request_follows, a_request_replays, cut_stays, follows_in_parts, replays, Context, ContextView,
    Request, TreeLocation, TreeLocationView,
};
use crate::backend::types::{Allocation, DeviceError, Fault, FileId};
use crate::data_type::DataType;
use crate::string_map::StringMap;
use crate::text::{has_prefix, join, joined, joined_is_associative, option_text};
use crate::weight_matrix::AnyWeightMatrixSpec;

verus! {

/// Where in the file a tensor stands, and what it is.
pub struct ParameterMetadata {
    pub shape: Vec<usize>,
    pub data_type: DataType,
    pub offset: usize,
    pub size: usize,
}

/// A tensor as the header of a weights file describes it. The offsets count
/// from the end of the header.
pub struct TensorInfo {
    pub shape: Vec<usize>,
    pub dtype: DataType,
    pub data_offsets: (usize, usize),
}

/// The place in a text at which it stopped being JSON of the expected form.
#[derive(Clone, Copy, Debug, PartialEq, Eq, Structural)]
pub struct JsonError {
    pub line: usize,
    pub column: usize,
}

/// A metadata text, read as the description of a weight matrix.
pub type MetadataReading = Result<AnyWeightMatrixSpec, JsonError>;

/// The header of a weights file.
pub struct STMetadata {
    pub tensors: StringMap<TensorInfo>,
    pub metadata: Option<StringMap<MetadataReading>>,
}

/// Why the header of a weights file could not be read.
#[derive(Clone, Copy, Debug, PartialEq, Eq, Structural)]
pub struct HeaderLoadingError {
    pub token: u64,
}

/// Why a tensor or a description could not be had.
#[derive(Debug, PartialEq, Eq)]
pub enum ParameterLoaderError<Name = String, Shape = Vec<usize>> {
    KeyNotFound(Name),
    SubtreeNotFound(Name),
    BackendError(DeviceError),
    ArrayLoadingError(DeviceError),
    MetadataDeserializationError(JsonError),
    InvalidTensor {
        shape: Shape,
        data_type: DataType,
        expected_shape: Shape,
        expected_data_type: DataType,
    },
}

/// A [`ParameterLoaderError`] with its text and shapes as sequences.
pub type LoaderErrorView = ParameterLoaderError<Seq<char>, Seq<usize>>;

impl View for ParameterLoaderError {
    type V = LoaderErrorView;

    open spec fn view(&self) -> LoaderErrorView {
        match self {
            ParameterLoaderError::KeyNotFound(key) => ParameterLoaderError::KeyNotFound(key@),
            ParameterLoaderError::SubtreeNotFound(name) => ParameterLoaderError::SubtreeNotFound(name@),
            ParameterLoaderError::BackendError(e) => ParameterLoaderError::BackendError(*e),
            ParameterLoaderError::ArrayLoadingError(e) => ParameterLoaderError::ArrayLoadingError(*e),
            ParameterLoaderError::MetadataDeserializationError(e) => {
                ParameterLoaderError::MetadataDeserializationError(*e)
            },
            ParameterLoaderError::InvalidTensor { shape, data_type, expected_shape, expected_data_type } => {
                ParameterLoaderError::InvalidTensor {
                    shape: shape@,
                    data_type: *data_type,
                    expected_shape: expected_shape@,
                    expected_data_type: *expected_data_type,
                }
            },
        }
    }
}

/// The index entry of a tensor: its place counted from the start of the file.
pub open spec fn is_entry_of(entry: ParameterMetadata, global_offset: int, tensor: TensorInfo) -> bool {
    &&& entry.shape@ == tensor.shape@
    &&& entry.data_type == tensor.dtype
    &&& entry.offset == global_offset + tensor.data_offsets.0
    &&& entry.size == tensor.data_offsets.1 - tensor.data_offsets.0
}

/// Whether `index` has an entry for each tensor and no other.
pub open spec fn is_index_of(
    index: Map<Seq<char>, ParameterMetadata>,
    global_offset: int,
    tensors: Map<Seq<char>, TensorInfo>,
) -> bool {
    &&& index.dom() == tensors.dom()
    &&& forall|key: Seq<char>| #[trigger]
        tensors.contains_key(key) ==> is_entry_of(index[key], global_offset, tensors[key])
}

/// Whether the places of all tensors can be written in machine words.
pub open spec fn offsets_fit(global_offset: int, tensors: Map<Seq<char>, TensorInfo>) -> bool {
    forall|key: Seq<char>| #[trigger]
        tensors.contains_key(key) ==> {
            &&& tensors[key].data_offsets.0 <= tensors[key].data_offsets.1
            &&& global_offset + tensors[key].data_offsets.0 <= usize::MAX
        }
}

/// Turns the header of a weights file into an index by key and the metadata by
/// key.
pub fn st_metadata_into_index_metadata(global_offset: usize, st_metadata: STMetadata) -> (res: (
    StringMap<ParameterMetadata>,
    StringMap<MetadataReading>,
))
    requires
        offsets_fit(global_offset as int, st_metadata.tensors@),
    ensures
        is_index_of(res.0@, global_offset as int, st_metadata.tensors@),
        res.1@ == match st_metadata.metadata {
            Some(metadata) => metadata@,
            None => Map::empty(),
        },
{
    let tensors = st_metadata.tensors;
    let keys = tensors.keys();
    let mut index: StringMap<ParameterMetadata> = StringMap::new();
    let mut i: usize = 0;
    while i < keys.len()
        invariant
            i <= keys@.len(),
            offsets_fit(global_offset as int, tensors@),
            forall|j: int| 0 <= j < keys@.len() ==> tensors@.contains_key((#[trigger] keys@[j])@),
            forall|k: Seq<char>| #[trigger]
                index@.contains_key(k) <==> exists|j: int| 0 <= j < i && (#[trigger] keys@[j])@ == k,
            forall|k: Seq<char>| #[trigger]
                index@.contains_key(k) ==> is_entry_of(index@[k], global_offset as int, tensors@[k]),
        decreases keys@.len() - i,
    {
        let key: &String = keys[i];
        assert(tensors@.contains_key(keys@[i as int]@));
        let ghost before = index@;
        if let Some(value) = tensors.get(key.as_str()) {
            let (local_begin, local_end) = value.data_offsets;
            index.insert(
                key.clone(),
                ParameterMetadata {
                    shape: value.shape.clone(),
                    data_type: value.dtype,
                    offset: global_offset + local_begin,
                    size: local_end - local_begin,
                },
            );
            assert(index@[key@].shape@ =~= value.shape@);
        }
        proof {
            assert forall|k: Seq<char>| #[trigger] index@.contains_key(k) <==> exists|j: int|
                0 <= j < i + 1 && (#[trigger] keys@[j])@ == k by {
                if before.contains_key(k) {
                    let j = choose|j: int| 0 <= j < i && (#[trigger] keys@[j])@ == k;
                    assert(keys@[j]@ == k);
                }
                if k == key@ {
                    assert(keys@[i as int]@ == k);
                }
                if exists|j: int| 0 <= j < i + 1 && (#[trigger] keys@[j])@ == k {
                    let j = choose|j: int| 0 <= j < i + 1 && (#[trigger] keys@[j])@ == k;
                    if j < i {
                        assert(keys@[j]@ == k);
                        assert(before.contains_key(k));
                    }
                }
            }
        }
        i += 1;
    }
    assert(index@.dom() =~= tensors@.dom()) by {
        assert forall|k: Seq<char>| index@.dom().contains(k) <==> tensors@.dom().contains(k) by {
            assert(index@.contains_key(k) <==> tensors@.contains_key(k));
        }
    }
    let metadata = match st_metadata.metadata {
        Some(metadata) => metadata,
        None => StringMap::new(),
    };
    (index, metadata)
}

/// The tensors of a weights file and the descriptions that go with them.
pub struct ParameterLoader {
    pub file: FileId,
    pub index: StringMap<ParameterMetadata>,
    pub metadata: StringMap<MetadataReading>,
}

/// What a [`ParameterLoader`] knows, by key.
#[verifier::ext_equal]
pub struct LoaderView {
    pub file: FileId,
    pub index: Map<Seq<char>, ParameterMetadata>,
    pub metadata: Map<Seq<char>, MetadataReading>,
}

impl View for ParameterLoader {
    type V = LoaderView;

    open spec fn view(&self) -> LoaderView {
        LoaderView { file: self.file, index: self.index@, metadata: self.metadata@ }
    }
}

impl ParameterLoader {
    /// Makes a loader of what came of reading a file's header: the length of
    /// the header and its contents.
    pub fn new(file: FileId, header: Result<(usize, STMetadata), HeaderLoadingError>) -> (res: Result<
        ParameterLoader,
        HeaderLoadingError,
    >)
        requires
            header matches Ok((global_offset, st_metadata)) ==> offsets_fit(
                global_offset as int,
                st_metadata.tensors@,
            ),
        ensures
            match header {
                Err(e) => res == Err::<ParameterLoader, HeaderLoadingError>(e),
                Ok((global_offset, st_metadata)) => {
                    &&& res is Ok
                    &&& res->Ok_0.file == file
                    &&& is_index_of(res->Ok_0@.index, global_offset as int, st_metadata.tensors@)
                    &&& res->Ok_0@.metadata == match st_metadata.metadata {
                        Some(metadata) => metadata@,
                        None => Map::empty(),
                    }
                },
            },
    {
        match header {
            Err(e) => Err(e),
            Ok((global_offset, st_metadata)) => {
                let (index, metadata) = st_metadata_into_index_metadata(global_offset, st_metadata);
                Ok(ParameterLoader { file, index, metadata })
            },
        }
    }

    /// The keys of the tensors, each once.
    pub fn keys(&self) -> (res: Vec<&String>)
        ensures
            forall|k: Seq<char>| #[trigger]
                self@.index.contains_key(k) <==> exists|i: int|
                    0 <= i < res@.len() && (#[trigger] res@[i])@ == k,
            forall|i: int, j: int|
                0 <= i < j < res@.len() ==> (#[trigger] res@[i])@ != (#[trigger] res@[j])@,
    {
        self.index.keys()
    }

    /// The tensor with a key.
    pub fn get_leaf(&self, key: &str) -> (res: Result<ParameterLeaf<'_, false>, ParameterLoaderError>)
        ensures
            match res {
                Ok(leaf) => {
                    &&& self@.index.contains_key(key@)
                    &&& *leaf.metadata == self@.index[key@]
                    &&& leaf.loader == self
                },
                Err(e) => {
                    &&& !self@.index.contains_key(key@)
                    &&& e@ == LoaderErrorView::KeyNotFound(key@)
                },
            },
    {
        match self.index.get(key) {
            Some(metadata) => Ok(ParameterLeaf { metadata, loader: self }),
            None => Err(ParameterLoaderError::KeyNotFound(key.to_owned())),
        }
    }

    /// The tree of all tensors.
    pub fn tree(&self) -> (res: ParameterTree<'_>)
        ensures
            res.loader == self,
            res@ == (TreeView { loader: self@, prefix: None }),
    {
        ParameterTree { loader: self, prefix: None }
    }
}

/// A tensor of the file. It can be read once it is known to have the shape and
/// the data type that its reader expects.
pub struct ParameterLeaf<'leaf, const VALIDATED: bool> {
    pub metadata: &'leaf ParameterMetadata,
    pub loader: &'leaf ParameterLoader,
}

/// Whether a tensor has the given shape and data type.
pub open spec fn conforms(metadata: ParameterMetadata, shape: Seq<usize>, data_type: DataType) -> bool {
    metadata.shape@ == shape && metadata.data_type == data_type
}

/// The complaint about a tensor of another shape or data type.
pub open spec fn mismatch(
    metadata: ParameterMetadata,
    shape: Seq<usize>,
    data_type: DataType,
) -> LoaderErrorView {
    ParameterLoaderError::InvalidTensor {
        shape: metadata.shape@,
        data_type: metadata.data_type,
        expected_shape: shape,
        expected_data_type: data_type,
    }
}

/// Whether two shapes are the same.
fn same_shape(a: &Vec<usize>, b: &[usize]) -> (res: bool)
    ensures
        res == (a@ == b@),
{
    if a.len() != b.len() {
        return false;
    }
    let mut i: usize = 0;
    while i < a.len()
        invariant
            i <= a@.len(),
            a@.len() == b@.len(),
            forall|j: int| 0 <= j < i ==> a@[j] == b@[j],
        decreases a@.len() - i,
    {
        if a[i] != b[i] {
            return false;
        }
        i += 1;
    }
    assert(a@ =~= b@);
    true
}

impl<'leaf> ParameterLeaf<'leaf, false> {
    /// Admits the tensor to reading where it has the expected shape and data
    /// type.
    pub fn validate(self, expected_shape: &[usize], expected_data_type: DataType) -> (res: Result<
        ParameterLeaf<'leaf, true>,
        ParameterLoaderError,
    >)
        ensures
            match res {
                Ok(leaf) => {
                    &&& conforms(*self.metadata, expected_shape@, expected_data_type)
                    &&& leaf.metadata == self.metadata
                    &&& leaf.loader == self.loader
                },
                Err(e) => {
                    &&& !conforms(*self.metadata, expected_shape@, expected_data_type)
                    &&& e@ == mismatch(*self.metadata, expected_shape@, expected_data_type)
                },
            },
    {
        if !same_shape(&self.metadata.shape, expected_shape) || self.metadata.data_type != expected_data_type {
            let shape = self.metadata.shape.clone();
            assert(shape@ =~= self.metadata.shape@);
            return Err(
                ParameterLoaderError::InvalidTensor {
                    shape,
                    data_type: self.metadata.data_type,
                    expected_shape: vstd::slice::slice_to_vec(expected_shape),
                    expected_data_type,
                },
            );
        }
        Ok(ParameterLeaf { metadata: self.metadata, loader: self.loader })
    }

    /// Admits the tensor to reading whatever its shape and data type are.
    pub fn unvalidated(self) -> (res: ParameterLeaf<'leaf, true>)
        ensures
            res.metadata == self.metadata,
            res.loader == self.loader,
    {
        ParameterLeaf { metadata: self.metadata, loader: self.loader }
    }
}

/// What reading a tensor into an allocation of its own asks of the device, and
/// what comes of it: the allocation is created first and then filled.
pub open spec fn read_to_allocation(
    context: ContextView,
    file: FileId,
    metadata: ParameterMetadata,
) -> (ContextView, Result<Allocation, LoaderErrorView>) {
    let created = context.record(Request::CreateAllocation { size: metadata.size });
    match context.answer() {
        Err(e) => (created, Err(ParameterLoaderError::BackendError(e))),
        Ok(number) => {
            let allocation = Allocation::Resident(number);
            let filled = created.record(
                Request::ReadFile { file, allocation, offset: metadata.offset, length: metadata.size },
            );
            match created.answer() {
                Err(e) => (filled, Err(ParameterLoaderError::ArrayLoadingError(e))),
                Ok(_) => (filled, Ok(allocation)),
            }
        },
    }
}

/// A result with the error taken by its view.
pub open spec fn loader_result<T>(res: Result<T, ParameterLoaderError>) -> Result<T, LoaderErrorView> {
    match res {
        Ok(value) => Ok(value),
        Err(e) => Err(e@),
    }
}

impl<'leaf> ParameterLeaf<'leaf, true> {
    /// Reads the tensor into an allocation of its own.
    pub fn read_allocation(&self, context: &mut Context) -> (res: Result<Allocation, ParameterLoaderError>)
        ensures
            (final(context)@, loader_result(res)) == read_to_allocation(
                old(context)@,
                self.loader.file,
                *self.metadata,
            ),
    {
        let number: usize = match context.issue(Request::CreateAllocation { size: self.metadata.size }) {
            Ok(number) => number,
            Err(e) => {
                return Err(ParameterLoaderError::BackendError(e));
            },
        };
        let allocation = Allocation::Resident(number);
        let request = Request::ReadFile {
            file: self.loader.file,
            allocation,
            offset: self.metadata.offset,
            length: self.metadata.size,
        };
        match context.issue(request) {
            Ok(_) => Ok(allocation),
            Err(e) => Err(ParameterLoaderError::ArrayLoadingError(e)),
        }
    }

    /// How many bytes of the file [`ParameterLeaf::read_slice`] takes: as many
    /// whole elements as the tensor holds. They start at the tensor's offset.
    pub fn slice_length<T: ArrayElement>(&self) -> (res: usize)
        ensures
            res == spec_slice_length(*self.metadata, T::spec_size()),
    {
        let element_size: usize = T::size();
        proof {
            lemma_fundamental_div_mod(self.metadata.size as int, element_size as int);
            lemma_mul_is_commutative(
                element_size as int,
                self.metadata.size as int / element_size as int,
            );
        }
        self.metadata.size / element_size * element_size
    }

    /// Makes elements of what came of reading the tensor's bytes.
    pub fn read_slice<T: ArrayElement>(&self, bytes: Result<&[u8], DeviceError>) -> (res: Result<
        Vec<T>,
        ParameterLoaderError,
    >)
        requires
            bytes matches Ok(b) ==> b@.len() == spec_slice_length(*self.metadata, T::spec_size()),
        ensures
            match bytes {
                Ok(b) => {
                    &&& res is Ok
                    &&& res->Ok_0@.len() == self.metadata.size as int / T::spec_size()
                    &&& are_elements_of(res->Ok_0@, b@)
                },
                Err(e) => res is Err && res->Err_0@ == LoaderErrorView::ArrayLoadingError(e),
            },
    {
        match bytes {
            Ok(bytes) => {
                let element_count: usize = self.metadata.size / T::size();
                let mut data: Vec<T> = vec![T::zeroed(); element_count];
                T::overwrite(&mut data, bytes);
                Ok(data)
            },
            Err(e) => Err(ParameterLoaderError::ArrayLoadingError(e)),
        }
    }
}

/// The bytes of the whole elements of a size that fit into a tensor's.
pub open spec fn spec_slice_length(metadata: ParameterMetadata, element_size: int) -> int {
    metadata.size as int / element_size * element_size
}

/// The tensors whose keys start with a prefix, by the rest of their keys.
pub struct ParameterTree<'loader> {
    pub loader: &'loader ParameterLoader,
    pub prefix: Option<String>,
}

/// What a [`ParameterTree`] knows.
#[verifier::ext_equal]
pub struct TreeView {
    pub loader: LoaderView,
    pub prefix: Option<Seq<char>>,
}

impl<'loader> View for ParameterTree<'loader> {
    type V = TreeView;

    open spec fn view(&self) -> TreeView {
        TreeView { loader: self.loader@, prefix: option_text(self.prefix) }
    }
}

impl TreeView {
    /// The key of a name in the tree.
    pub open spec fn key(self, name: Seq<char>) -> Seq<char> {
        joined(self.prefix, name)
    }

    /// Whether some tensor's key starts with the key of a name.
    pub open spec fn has_subtree(self, name: Seq<char>) -> bool {
        exists|key: Seq<char>| #[trigger]
            self.loader.index.contains_key(key) && self.key(name).is_prefix_of(key)
    }

    /// The tree below a name.
    pub open spec fn child(self, name: Seq<char>) -> TreeView {
        TreeView { loader: self.loader, prefix: Some(self.key(name)) }
    }

    /// Whether there is a tensor with the name.
    pub open spec fn has_leaf(self, name: Seq<char>) -> bool {
        self.loader.index.contains_key(self.key(name))
    }

    /// The entry of the tensor with the name.
    pub open spec fn entry(self, name: Seq<char>) -> ParameterMetadata {
        self.loader.index[self.key(name)]
    }

    /// The tree below a name, where some tensor stands there.
    pub open spec fn subtree(self, name: Seq<char>) -> Result<TreeView, LoaderErrorView> {
        if self.has_subtree(name) {
            Ok(self.child(name))
        } else {
            Err(ParameterLoaderError::SubtreeNotFound(name))
        }
    }

    /// The description of the weight matrix with the name.
    pub open spec fn metadata(self, name: Seq<char>) -> Result<AnyWeightMatrixSpec, LoaderErrorView> {
        let key = self.key(name);
        if !self.loader.metadata.contains_key(key) {
            Err(ParameterLoaderError::KeyNotFound(key))
        } else {
            match self.loader.metadata[key] {
                Ok(spec) => Ok(spec),
                Err(e) => Err(ParameterLoaderError::MetadataDeserializationError(e)),
            }
        }
    }

    /// What loading the tensor with the name asks of the device, and what comes
    /// of it: nothing is asked unless the tensor is there and has the expected
    /// shape and data type.
    pub open spec fn load(
        self,
        context: ContextView,
        name: Seq<char>,
        shape: Seq<usize>,
        data_type: DataType,
    ) -> (ContextView, Result<Allocation, LoaderErrorView>) {
        if !self.has_leaf(name) {
            (context, Err(ParameterLoaderError::KeyNotFound(self.key(name))))
        } else if !conforms(self.entry(name), shape, data_type) {
            (context, Err(mismatch(self.entry(name), shape, data_type)))
        } else {
            read_to_allocation(context, self.loader.file, self.entry(name))
        }
    }
}

impl<'loader> ParameterTree<'loader> {
    /// The prefix of the tree's keys; none at the root.
    pub fn path_prefix(&self) -> (res: Option<&str>)
        ensures
            match res {
                Some(prefix) => self@.prefix == Some(prefix@),
                None => self@.prefix is None,
            },
    {
        match &self.prefix {
            Some(prefix) => Some(prefix.as_str()),
            None => None,
        }
    }

    /// The key of a name in the tree.
    pub fn join_prefix(&self, name: &str) -> (res: String)
        ensures
            res@ == self@.key(name@),
    {
        join(&self.prefix, name)
    }

    /// The tree below a name.
    pub fn subtree(&self, name: &str) -> (res: Result<ParameterTree<'loader>, ParameterLoaderError>)
        ensures
            match res {
                Ok(tree) => self@.subtree(name@) == Ok::<TreeView, LoaderErrorView>(tree@) && tree.loader
                    == self.loader,
                Err(e) => self@.subtree(name@) == Err::<TreeView, LoaderErrorView>(e@),
            },
    {
        let new_prefix = self.join_prefix(name);
        let keys = self.loader.keys();
        let mut i: usize = 0;
        while i < keys.len()
            invariant
                i <= keys@.len(),
                new_prefix@ == self@.key(name@),
                forall|k: Seq<char>| #[trigger]
                    self.loader@.index.contains_key(k) <==> exists|j: int|
                        0 <= j < keys@.len() && (#[trigger] keys@[j])@ == k,
                forall|j: int| 0 <= j < i ==> !new_prefix@.is_prefix_of((#[trigger] keys@[j])@),
            decreases keys@.len() - i,
        {
            if has_prefix(keys[i].as_str(), new_prefix.as_str()) {
                assert(self.loader@.index.contains_key(keys@[i as int]@));
                return Ok(ParameterTree { loader: self.loader, prefix: Some(new_prefix) });
            }
            i += 1;
        }
        Err(ParameterLoaderError::SubtreeNotFound(name.to_owned()))
    }

    /// The tensor with a name.
    pub fn leaf(&self, name: &str) -> (res: Result<ParameterLeaf<'loader, false>, ParameterLoaderError>)
        ensures
            match res {
                Ok(leaf) => {
                    &&& self@.has_leaf(name@)
                    &&& *leaf.metadata == self@.entry(name@)
                    &&& leaf.loader == self.loader
                },
                Err(e) => {
                    &&& !self@.has_leaf(name@)
                    &&& e@ == LoaderErrorView::KeyNotFound(self@.key(name@))
                },
            },
    {
        let key = self.join_prefix(name);
        self.loader.get_leaf(key.as_str())
    }

    /// Reads a tensor that must have the given shape and type.
    pub fn load(&self, context: &mut Context, name: &str, shape: &[usize], data_type: DataType) -> (res: Result<
        Allocation,
        ParameterLoaderError,
    >)
        ensures
            (final(context)@, loader_result(res)) == self@.load(old(context)@, name@, shape@, data_type),
    {
        let leaf = match self.leaf(name) {
            Ok(leaf) => leaf,
            Err(e) => {
                return Err(e);
            },
        };
        match leaf.validate(shape, data_type) {
            Ok(leaf) => leaf.read_allocation(context),
            Err(e) => Err(e),
        }
    }

    /// The description of the weight matrix with a name.
    pub fn metadata(&self, name: &str) -> (res: Result<&'loader AnyWeightMatrixSpec, ParameterLoaderError>)
        ensures
            match res {
                Ok(spec) => self@.metadata(name@) == Ok::<AnyWeightMatrixSpec, LoaderErrorView>(*spec),
                Err(e) => self@.metadata(name@) == Err::<AnyWeightMatrixSpec, LoaderErrorView>(e@),
            },
    {
        let new_prefix = self.join_prefix(name);
        match self.loader.metadata.get(new_prefix.as_str()) {
            Some(reading) => match reading {
                Ok(spec) => Ok(spec),
                Err(e) => Err(ParameterLoaderError::MetadataDeserializationError(*e)),
            },
            None => Err(ParameterLoaderError::KeyNotFound(new_prefix)),
        }
    }
}

/// A tree in which something stands is found from the tree above it.
pub proof fn what_stands_below_is_found(tree: TreeView, name: Seq<char>, below: Seq<char>)
    ensures
        tree.child(name).has_leaf(below) ==> tree.has_subtree(name),
        tree.child(name).has_subtree(below) ==> tree.has_subtree(name),
{
    let prefix = tree.key(name);
    let longer = tree.child(name).key(below);
    assert(longer =~= prefix + longer.skip(prefix.len() as int));
    assert(prefix.is_prefix_of(longer));
    if tree.child(name).has_leaf(below) {
        assert(tree.loader.index.contains_key(longer));
    }
    if tree.child(name).has_subtree(below) {
        let key = choose|key: Seq<char>| #[trigger]
            tree.loader.index.contains_key(key) && longer.is_prefix_of(key);
        assert(key.take(prefix.len() as int) =~= longer.take(prefix.len() as int));
        assert(prefix.is_prefix_of(key));
    }
}

/// Where a tree stands.
pub open spec fn tree_location(tree: TreeView) -> TreeLocationView {
    TreeLocation { file: tree.loader.file, prefix: tree.prefix }
}

impl<'loader> ParameterTree<'loader> {
    /// Tells where the tree stands.
    pub fn location(&self) -> (res: TreeLocation)
        ensures
            res@ == tree_location(self@),
    {
        let prefix = match &self.prefix {
            Some(prefix) => Some(prefix.clone()),
            None => None,
        };
        TreeLocation { file: self.loader.file, prefix }
    }
}

impl LoaderErrorView {
    /// Whether the error is a refusal of the device or of the file.
    pub open spec fn is_refusal(self) -> bool {
        self is BackendError || self is ArrayLoadingError
    }
}

impl ParameterLoaderError {
    /// Tells whether the error is a refusal of the device or of the file.
    pub fn was_refused(&self) -> (res: bool)
        ensures
            res == self@.is_refusal(),
    {
        matches!(self, ParameterLoaderError::BackendError(_) | ParameterLoaderError::ArrayLoadingError(_))
    }
}

/// Loading a tensor asks for nothing after a refusal, and fails with a refusal
/// exactly where there was one.
pub proof fn load_follows(
    tree: TreeView,
    context: ContextView,
    name: Seq<char>,
    shape: Seq<usize>,
    data_type: DataType,
)
    ensures
        ({
            let (after, loaded) = tree.load(context, name, shape, data_type);
            after.follows(context, loaded is Err && loaded->Err_0.is_refusal())
        }),
{
    assert(context.requests.take(context.requests.len() as int) =~= context.requests);
    let entry = tree.entry(name);
    let created = context.record(Request::CreateAllocation { size: entry.size });
    if tree.has_leaf(name) && conforms(entry, shape, data_type) {
        a_request_follows(context, Request::CreateAllocation { size: entry.size });
        if let Ok(number) = context.answer() {
            let read = Request::ReadFile {
                file: tree.loader.file,
                allocation: Allocation::Resident(number),
                offset: entry.offset,
                length: entry.size,
            };
            a_request_follows(created, read);
            follows_in_parts(context, created, created.record(read), created.answer() is Err);
        }
    }
}

/// Loading a tensor with a fault is loading it without one, up to the refusal.
pub proof fn load_replays(
    tree: TreeView,
    context: ContextView,
    name: Seq<char>,
    shape: Seq<usize>,
    data_type: DataType,
    fault: Fault,
)
    requires
        context.fault is None,
    ensures
        replays(
            tree.load(context, name, shape, data_type),
            tree.load(context.with(fault), name, shape, data_type),
            fault,
        ),
{
    let entry = tree.entry(name);
    if tree.has_leaf(name) && conforms(entry, shape, data_type) {
        let create = Request::CreateAllocation { size: entry.size };
        let created = context.record(create);
        let read = Request::ReadFile {
            file: tree.loader.file,
            allocation: Allocation::Resident(context.requests.len() as usize),
            offset: entry.offset,
            length: entry.size,
        };
        a_request_replays(context, create, fault);
        a_request_replays(created, read, fault);
        a_request_follows(created, read);
        if context.with(fault).answer() is Err {
            cut_stays(context.with(fault).record(create), created, created.record(read), fault);
        }
    }
}

/// The tree below a tree is found by their names at once.
pub proof fn trees_nest(tree: TreeView, name: Seq<char>, below: Seq<char>)
    ensures
        tree.child(name).child(below) == tree.child(joined(Some(name), below)),
        tree.child(name).key(below) == tree.key(joined(Some(name), below)),
{
    joined_is_associative(tree.prefix, name, below);
}

impl LoaderView {
    /// Whether no matrix that is described is in groups of no weights.
    pub open spec fn grouped(self) -> bool {
        forall|key: Seq<char>| #[trigger]
            self.metadata.contains_key(key) ==> (self.metadata[key] matches Ok(spec) ==> spec.grouped())
    }
}

impl ParameterLoader {
    /// Tells whether no matrix that is described is in groups of no weights.
    pub fn is_grouped(&self) -> (res: bool)
        ensures
            res == self@.grouped(),
    {
        let keys = self.metadata.keys();
        let mut i: usize = 0;
        while i < keys.len()
            invariant
                i <= keys@.len(),
                forall|k: Seq<char>|
                    self.metadata@.contains_key(k) <==> exists|j: int|
                        0 <= j < keys@.len() && (#[trigger] keys@[j])@ == k,
                forall|j: int|
                    0 <= j < i ==> (self.metadata@[(#[trigger] keys@[j])@] matches Ok(spec) ==> spec.grouped()),
            decreases keys@.len() - i,
        {
            let ghost key = keys@[i as int]@;
            assert(self@.metadata.contains_key(key));
            if let Some(Ok(spec)) = self.metadata.get(keys[i].as_str()) {
                if !spec.is_grouped() {
                    return false;
                }
            }
            i += 1;
        }
        assert forall|key: Seq<char>| #[trigger] self@.metadata.contains_key(key) implies (
        self@.metadata[key] matches Ok(spec) ==> spec.grouped()) by {
            let j = choose|j: int| 0 <= j < keys@.len() && (#[trigger] keys@[j])@ == key;
            assert(keys@[j]@ == key);
        }
        true
    }
}

} // verus!
