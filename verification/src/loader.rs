//! Loading the parameters of a model from a checkpoint.
use crate::archive::{
    archive_of, archive_tensors, find_tensor, offsets_fit, open_archive, ArchiveError,
};
use crate::bindings::{
    binding_views, bindings, bindings_of, decimal, decimal_text, BindingSpec, ParameterBinding,
};
use crate::config::MambaVersion;
use crate::encoding::SourceEncoding;
use crate::layout::{element_count, swap_axes};
use crate::tensor::{
    exchanged_shape, expected_bytes, materialize, materialized, ParamTensor, ShapeMismatch,
};
use safetensors::SafeTensors;
use vstd::prelude::*;
use vstd::string::StringExecFns;

verus! {

/// Why a checkpoint could not be loaded.
#[derive(Debug)]
pub enum LoadError {
    /// The buffer is no archive of named tensors.
    MalformedArchive { cause: ArchiveError },
    /// The archive holds no tensor of this name.
    NotFound { name: String },
    /// The tensor of this name has a byte length other than the one its
    /// target parameter asks for.
    ShapeMismatch { name: String, expected_bytes: Option<usize>, actual_bytes: usize },
}

/// A `LoadError` with its names as sequences of characters. Of the cause for
/// which a buffer is no archive it keeps whether a number of the header is
/// out of range; what the parser said is left out.
pub enum LoadFailure {
    MalformedArchive { out_of_range: bool },
    NotFound { name: Seq<char> },
    ShapeMismatch { name: Seq<char>, expected_bytes: Option<usize>, actual_bytes: nat },
}

impl View for LoadError {
    type V = LoadFailure;

    open spec fn view(&self) -> LoadFailure {
        match self {
            LoadError::MalformedArchive { cause } => LoadFailure::MalformedArchive {
                out_of_range: cause is OffsetOutOfRange,
            },
            LoadError::NotFound { name } => LoadFailure::NotFound { name: name@ },
            LoadError::ShapeMismatch { name, expected_bytes, actual_bytes } => {
                LoadFailure::ShapeMismatch {
                    name: name@,
                    expected_bytes: *expected_bytes,
                    actual_bytes: *actual_bytes as nat,
                }
            },
        }
    }
}

impl LoadError {
    /// The failure in words: which tensor is missing, or which tensor has
    /// how many bytes where its parameter asks for how many.
    pub open spec fn spec_message(&self) -> Seq<char> {
        match self {
            LoadError::MalformedArchive { cause: ArchiveError::OffsetOutOfRange } => {
                "the checkpoint is no archive of tensors: a number of its header is out of range"@
            },
            LoadError::MalformedArchive { cause: ArchiveError::Parser { cause } } => {
                "the checkpoint is no archive of tensors"@
            },
            LoadError::NotFound { name } => "the checkpoint has no tensor "@ + name@,
            LoadError::ShapeMismatch { name, expected_bytes: Some(expected), actual_bytes } => {
                "tensor "@ + name@ + " has "@ + decimal(*actual_bytes as nat)
                    + " bytes, its parameter "@ + decimal(*expected as nat)
            },
            LoadError::ShapeMismatch { name, expected_bytes: None, actual_bytes } => {
                "tensor "@ + name@ + " has "@ + decimal(*actual_bytes as nat)
                    + " bytes, its parameter more than the machine can address"@
            },
        }
    }

    /// The failure in words.
    pub fn message(&self) -> (r: String)
        ensures
            r@ == self.spec_message(),
    {
        match self {
            LoadError::MalformedArchive { cause: ArchiveError::OffsetOutOfRange } => {
                String::from_str(
                    "the checkpoint is no archive of tensors: a number of its header is out of range",
                )
            },
            LoadError::MalformedArchive { cause: ArchiveError::Parser { cause } } => {
                String::from_str("the checkpoint is no archive of tensors")
            },
            LoadError::NotFound { name } => {
                let mut r = String::from_str("the checkpoint has no tensor ");
                r.append(name.as_str());
                r
            },
            LoadError::ShapeMismatch { name, expected_bytes, actual_bytes } => {
                let mut r = String::from_str("tensor ");
                r.append(name.as_str());
                r.append(" has ");
                let actual = decimal_text(*actual_bytes);
                r.append(actual.as_str());
                match expected_bytes {
                    Some(expected) => {
                        r.append(" bytes, its parameter ");
                        let expected = decimal_text(*expected);
                        r.append(expected.as_str());
                    },
                    None => {
                        r.append(" bytes, its parameter more than the machine can address");
                    },
                }
                r
            },
        }
    }
}

/// The parameters read from a checkpoint.
#[derive(Debug)]
pub struct LoadedModel {
    /// The architecture version whose bindings were loaded.
    pub version: MambaVersion,
    /// One value for each binding of the version, in the order of the
    /// bindings.
    pub params: Vec<ParamTensor>,
    /// The output projection. It is not read from the checkpoint: it is the
    /// embedding table with its two axes exchanged.
    pub lm_head: ParamTensor,
}

/// The bytes stored under a name, if the archive holds the name.
pub open spec fn lookup(tensors: Map<Seq<char>, Seq<u8>>, name: Seq<char>) -> Option<Seq<u8>> {
    if tensors.contains_key(name) {
        Some(tensors[name])
    } else {
        None
    }
}

/// The view of the outcome of a lookup.
pub open spec fn found_view(found: Option<&[u8]>) -> Option<Seq<u8>> {
    match found {
        Some(bytes) => Some(bytes@),
        None => None,
    }
}

/// What loading one parameter gives, from the outcome of looking its tensor
/// up: the elements of the parameter, `NotFound` for a missing tensor,
/// `ShapeMismatch` for one of the wrong length.
pub open spec fn entry_outcome(
    name: Seq<char>,
    found: Option<Seq<u8>>,
    encoding: SourceEncoding,
    shape: Seq<usize>,
    transpose: bool,
) -> Result<Seq<u32>, LoadFailure> {
    match found {
        None => Err(LoadFailure::NotFound { name }),
        Some(bytes) => match materialized(bytes, encoding, shape, transpose) {
            Some(data) => Ok(data),
            None => Err(
                LoadFailure::ShapeMismatch {
                    name,
                    expected_bytes: expected_bytes(shape, encoding),
                    actual_bytes: bytes.len(),
                },
            ),
        },
    }
}

/// What loading one binding from an archive gives.
pub open spec fn binding_outcome(
    tensors: Map<Seq<char>, Seq<u8>>,
    binding: BindingSpec,
    shape: Seq<usize>,
) -> Result<Seq<u32>, LoadFailure> {
    entry_outcome(
        binding.source,
        lookup(tensors, binding.source),
        binding.encoding,
        shape,
        binding.transpose,
    )
}

/// What loading the first `k` bindings gives: the elements of each
/// parameter, or the failure of the first binding that fails.
pub open spec fn prefix_outcome(
    tensors: Map<Seq<char>, Seq<u8>>,
    bindings: Seq<BindingSpec>,
    shapes: Seq<Seq<usize>>,
    k: nat,
) -> Result<Seq<Seq<u32>>, LoadFailure>
    decreases k,
{
    if k == 0 {
        Ok(Seq::empty())
    } else {
        match prefix_outcome(tensors, bindings, shapes, (k - 1) as nat) {
            Err(failure) => Err(failure),
            Ok(loaded) => match binding_outcome(tensors, bindings[k - 1], shapes[k - 1]) {
                Err(failure) => Err(failure),
                Ok(data) => Ok(loaded.push(data)),
            },
        }
    }
}

/// What loading all bindings from a buffer gives: `MalformedArchive` for a
/// buffer that is no archive, because a number of its header is out of range
/// or because the parser refuses it; else what loading the bindings from the
/// tensors of the archive gives.
pub open spec fn load_outcome(
    bytes: Seq<u8>,
    bindings: Seq<BindingSpec>,
    shapes: Seq<Seq<usize>>,
) -> Result<Seq<Seq<u32>>, LoadFailure> {
    match archive_of(bytes) {
        None => Err(LoadFailure::MalformedArchive { out_of_range: !offsets_fit(bytes) }),
        Some(tensors) => prefix_outcome(tensors, bindings, shapes, bindings.len()),
    }
}

/// The target shapes fit the bindings: there is one for each binding, and a
/// tensor that is stored with exchanged axes has two axes at least.
pub open spec fn shapes_fit(bindings: Seq<BindingSpec>, shapes: Seq<Seq<usize>>) -> bool {
    &&& shapes.len() == bindings.len()
    &&& forall|k: int|
        0 <= k < bindings.len() && (#[trigger] bindings[k]).transpose ==> shapes[k].len() >= 2
}

/// The elements of each parameter of a list.
pub open spec fn param_data(params: Seq<ParamTensor>) -> Seq<Seq<u32>> {
    Seq::new(params.len(), |k: int| params[k].data@)
}

/// Each parameter of the list is well formed and has its target shape.
pub open spec fn params_shaped(params: Seq<ParamTensor>, shapes: Seq<Seq<usize>>) -> bool {
    &&& params.len() == shapes.len()
    &&& forall|k: int|
        0 <= k < params.len() ==> (#[trigger] params[k]).well_formed() && params[k].shape@
            == shapes[k]
}

/// The outcome of loading one parameter is what `outcome` says: the parameter
/// with its elements, well formed and of the target shape, or the failure.
pub open spec fn param_loaded_as(
    r: Result<ParamTensor, LoadError>,
    shape: Seq<usize>,
    outcome: Result<Seq<u32>, LoadFailure>,
) -> bool {
    match r {
        Ok(t) => t.well_formed() && t.shape@ == shape && outcome == Ok::<Seq<u32>, LoadFailure>(
            t.data@,
        ),
        Err(e) => outcome == Err::<Seq<u32>, LoadFailure>(e@),
    }
}

/// The outcome of loading a list of parameters is what `outcome` says: the
/// parameters with their elements, each well formed and of its target shape,
/// or the failure.
pub open spec fn params_loaded_as(
    r: Result<Vec<ParamTensor>, LoadError>,
    shapes: Seq<Seq<usize>>,
    outcome: Result<Seq<Seq<u32>>, LoadFailure>,
) -> bool {
    match r {
        Ok(params) => params_shaped(params@, shapes) && outcome == Ok::<
            Seq<Seq<u32>>,
            LoadFailure,
        >(param_data(params@)),
        Err(e) => outcome == Err::<Seq<Seq<u32>>, LoadFailure>(e@),
    }
}

/// The outcome of loading a model is what `outcome` says: the parameters with
/// their elements, each well formed and of its target shape, and the output
/// projection, which is the first parameter, the embedding table, with its
/// first two axes exchanged; or the failure.
pub open spec fn model_loaded_as(
    r: Result<LoadedModel, LoadError>,
    version: MambaVersion,
    shapes: Seq<Seq<usize>>,
    outcome: Result<Seq<Seq<u32>>, LoadFailure>,
) -> bool {
    match r {
        Ok(model) => {
            &&& model.version == version
            &&& params_shaped(model.params@, shapes)
            &&& outcome == Ok::<Seq<Seq<u32>>, LoadFailure>(param_data(model.params@))
            &&& model.lm_head.well_formed()
            &&& model.lm_head.shape@ == exchanged_shape(shapes[0])
            &&& model.lm_head.data@ == swap_axes(
                model.params@[0].data@,
                shapes[0][0] as nat,
                shapes[0][1] as nat,
                element_count(shapes[0].skip(2)),
            )
        },
        Err(e) => outcome == Err::<Seq<Seq<u32>>, LoadFailure>(e@),
    }
}

/// Whether the target shapes fit the bindings.
pub fn shapes_checked(bindings: &Vec<ParameterBinding>, shapes: &Vec<Vec<usize>>) -> (r: bool)
    ensures
        r == shapes_fit(binding_views(bindings@), shapes.deep_view()),
{
    let n: usize = bindings.len();
    assert(shapes.deep_view().len() == shapes@.len());
    if shapes.len() != n {
        return false;
    }
    let mut k: usize = 0;
    while k < n
        invariant
            n == bindings@.len(),
            n == shapes@.len(),
            k <= n,
            forall|j: int|
                0 <= j < k && (#[trigger] binding_views(bindings@)[j]).transpose
                    ==> shapes.deep_view()[j].len() >= 2,
        decreases n - k,
    {
        assert(binding_views(bindings@)[k as int] == bindings@[k as int]@);
        assert(shapes.deep_view()[k as int] == shapes@[k as int]@);
        if bindings[k].transpose && shapes[k].len() < 2 {
            return false;
        }
        k = k + 1;
    }
    true
}

/// Loads one parameter from the outcome of looking its tensor up.
pub fn materialize_entry(
    name: &str,
    found: Option<&[u8]>,
    encoding: SourceEncoding,
    shape: &Vec<usize>,
    transpose: bool,
) -> (r: Result<ParamTensor, LoadError>)
    requires
        transpose ==> shape@.len() >= 2,
    ensures
        param_loaded_as(
            r,
            shape@,
            entry_outcome(name@, found_view(found), encoding, shape@, transpose),
        ),
{
    match found {
        None => Err(LoadError::NotFound { name: String::from_str(name) }),
        Some(bytes) => match materialize(bytes, encoding, shape, transpose) {
            Ok(t) => Ok(t),
            Err(ShapeMismatch { expected_bytes, actual_bytes }) => Err(
                LoadError::ShapeMismatch {
                    name: String::from_str(name),
                    expected_bytes,
                    actual_bytes,
                },
            ),
        },
    }
}

/// Loads one parameter of the given shape from the tensor of the given name
/// and encoding.
pub fn load_param(
    shape: &Vec<usize>,
    name: &str,
    tensors: &SafeTensors,
    encoding: SourceEncoding,
    swap_dims: bool,
) -> (r: Result<ParamTensor, LoadError>)
    requires
        swap_dims ==> shape@.len() >= 2,
    ensures
        param_loaded_as(
            r,
            shape@,
            entry_outcome(
                name@,
                lookup(archive_tensors(tensors), name@),
                encoding,
                shape@,
                swap_dims,
            ),
        ),
{
    let found = find_tensor(tensors, name);
    materialize_entry(name, found, encoding, shape, swap_dims)
}

/// Loads one parameter from a tensor of half-precision values.
pub fn load_param_f16_to_f32(
    shape: &Vec<usize>,
    name: String,
    tensors: &SafeTensors,
    swap_dims: bool,
) -> (r: Result<ParamTensor, LoadError>)
    requires
        swap_dims ==> shape@.len() >= 2,
    ensures
        param_loaded_as(
            r,
            shape@,
            entry_outcome(
                name@,
                lookup(archive_tensors(tensors), name@),
                SourceEncoding::Half,
                shape@,
                swap_dims,
            ),
        ),
{
    load_param(shape, name.as_str(), tensors, SourceEncoding::Half, swap_dims)
}

/// Loads one parameter from a tensor of single-precision values.
pub fn load_param_f32_to_f32(
    shape: &Vec<usize>,
    name: String,
    tensors: &SafeTensors,
    swap_dims: bool,
) -> (r: Result<ParamTensor, LoadError>)
    requires
        swap_dims ==> shape@.len() >= 2,
    ensures
        param_loaded_as(
            r,
            shape@,
            entry_outcome(
                name@,
                lookup(archive_tensors(tensors), name@),
                SourceEncoding::Single,
                shape@,
                swap_dims,
            ),
        ),
{
    load_param(shape, name.as_str(), tensors, SourceEncoding::Single, swap_dims)
}

/// Loads every binding of a list from an archive, in order, and stops at the
/// first that fails.
pub fn load_bindings(
    tensors: &SafeTensors,
    bindings: &Vec<ParameterBinding>,
    shapes: &Vec<Vec<usize>>,
) -> (r: Result<Vec<ParamTensor>, LoadError>)
    requires
        shapes_fit(binding_views(bindings@), shapes.deep_view()),
    ensures
        params_loaded_as(
            r,
            shapes.deep_view(),
            prefix_outcome(
                archive_tensors(tensors),
                binding_views(bindings@),
                shapes.deep_view(),
                bindings@.len(),
            ),
        ),
{
    let n: usize = bindings.len();
    let mut params: Vec<ParamTensor> = Vec::with_capacity(n);
    let mut k: usize = 0;
    assert(param_data(params@) =~= Seq::<Seq<u32>>::empty());
    while k < n
        invariant
            n == bindings@.len(),
            shapes_fit(binding_views(bindings@), shapes.deep_view()),
            k <= n,
            params@.len() == k,
            forall|j: int|
                0 <= j < k ==> (#[trigger] params@[j]).well_formed() && params@[j].shape@
                    == shapes.deep_view()[j],
            prefix_outcome(
                archive_tensors(tensors),
                binding_views(bindings@),
                shapes.deep_view(),
                k as nat,
            ) == Ok::<Seq<Seq<u32>>, LoadFailure>(param_data(params@)),
        decreases n - k,
    {
        let binding = &bindings[k];
        let shape = &shapes[k];
        proof {
            assert(binding_views(bindings@)[k as int] == binding@);
            assert(shapes.deep_view()[k as int] == shape@);
        }
        let ghost before = param_data(params@);
        match load_param(
            shape,
            binding.source.as_str(),
            tensors,
            binding.encoding,
            binding.transpose,
        ) {
            Ok(t) => {
                params.push(t);
                assert(param_data(params@) =~= before.push(t.data@));
            },
            Err(e) => {
                proof {
                    lemma_prefix_failure(
                        archive_tensors(tensors),
                        binding_views(bindings@),
                        shapes.deep_view(),
                        (k + 1) as nat,
                        n as nat,
                    );
                }
                return Err(e);
            },
        }
        k = k + 1;
    }
    Ok(params)
}

/// Once a prefix of the bindings has failed, every longer prefix fails in the
/// same way.
pub proof fn lemma_prefix_failure(
    tensors: Map<Seq<char>, Seq<u8>>,
    bindings: Seq<BindingSpec>,
    shapes: Seq<Seq<usize>>,
    k: nat,
    n: nat,
)
    requires
        k <= n,
        prefix_outcome(tensors, bindings, shapes, k) is Err,
    ensures
        prefix_outcome(tensors, bindings, shapes, n) == prefix_outcome(
            tensors,
            bindings,
            shapes,
            k,
        ),
    decreases n,
{
    if k < n {
        lemma_prefix_failure(tensors, bindings, shapes, k, (n - 1) as nat);
    }
}

/// A load in which a key is missing fails, whatever else the archive holds.
/// Where every binding in front of the missing one loads, the failure names
/// the missing key.
pub proof fn lemma_missing_key_aborts(
    tensors: Map<Seq<char>, Seq<u8>>,
    bindings: Seq<BindingSpec>,
    shapes: Seq<Seq<usize>>,
    k: int,
)
    requires
        0 <= k < bindings.len(),
        !tensors.contains_key(bindings[k].source),
    ensures
        prefix_outcome(tensors, bindings, shapes, bindings.len()) is Err,
        (forall|j: int| 0 <= j < k ==> binding_outcome(tensors, bindings[j], shapes[j]) is Ok)
            ==> prefix_outcome(tensors, bindings, shapes, bindings.len()) == Err::<
            Seq<Seq<u32>>,
            LoadFailure,
        >(LoadFailure::NotFound { name: bindings[k].source }),
{
    lemma_prefix_failure(tensors, bindings, shapes, (k + 1) as nat, bindings.len());
    if forall|j: int| 0 <= j < k ==> binding_outcome(tensors, bindings[j], shapes[j]) is Ok {
        lemma_prefix_loads(tensors, bindings, shapes, k as nat);
    }
}

/// A prefix of the bindings loads where each of its bindings does.
pub proof fn lemma_prefix_loads(
    tensors: Map<Seq<char>, Seq<u8>>,
    bindings: Seq<BindingSpec>,
    shapes: Seq<Seq<usize>>,
    k: nat,
)
    requires
        forall|j: int| 0 <= j < k ==> binding_outcome(tensors, bindings[j], shapes[j]) is Ok,
    ensures
        prefix_outcome(tensors, bindings, shapes, k) is Ok,
    decreases k,
{
    if k > 0 {
        lemma_prefix_loads(tensors, bindings, shapes, (k - 1) as nat);
    }
}

/// Loading bindings from an archive fails for a tensor that is missing or of
/// the wrong length, and for nothing else.
pub proof fn lemma_prefix_failure_names_a_tensor(
    tensors: Map<Seq<char>, Seq<u8>>,
    bindings: Seq<BindingSpec>,
    shapes: Seq<Seq<usize>>,
    n: nat,
)
    ensures
        prefix_outcome(tensors, bindings, shapes, n) matches Err(failure) ==> failure
            is NotFound || failure is ShapeMismatch,
    decreases n,
{
    if n > 0 {
        lemma_prefix_failure_names_a_tensor(tensors, bindings, shapes, (n - 1) as nat);
    }
}

/// A load that fails with `MalformedArchive` found no archive in the buffer;
/// the cause is `OffsetOutOfRange` exactly where a number of the header is
/// out of range, else the parser refused the buffer.
pub open spec fn archive_failure_stated(r: Result<LoadedModel, LoadError>, bytes: Seq<u8>) -> bool {
    r matches Err(LoadError::MalformedArchive { cause }) ==> archive_of(bytes) is None && (cause
        is OffsetOutOfRange <==> !offsets_fit(bytes))
}

/// Where the first `n` bindings load, there is one parameter for each of
/// them, and parameter `k` holds what loading binding `k` gives.
pub proof fn lemma_prefix_parameters(
    tensors: Map<Seq<char>, Seq<u8>>,
    bindings: Seq<BindingSpec>,
    shapes: Seq<Seq<usize>>,
    n: nat,
)
    requires
        prefix_outcome(tensors, bindings, shapes, n) is Ok,
    ensures
        prefix_outcome(tensors, bindings, shapes, n)->Ok_0.len() == n,
        forall|k: int|
            0 <= k < n ==> binding_outcome(tensors, bindings[k], shapes[k]) == Ok::<
                Seq<u32>,
                LoadFailure,
            >(#[trigger] prefix_outcome(tensors, bindings, shapes, n)->Ok_0[k]),
    decreases n,
{
    if n > 0 {
        lemma_prefix_parameters(tensors, bindings, shapes, (n - 1) as nat);
    }
}

/// The target shapes fit the bindings of a version, and the embedding table,
/// which comes first, has two axes at least.
pub open spec fn model_shapes_fit(
    version: MambaVersion,
    n_layer: nat,
    shapes: Seq<Seq<usize>>,
) -> bool {
    &&& shapes_fit(bindings_of(version, n_layer), shapes)
    &&& shapes[0].len() >= 2
}

/// Loads every parameter of a model of the given version from the bytes of a
/// checkpoint.
///
/// `target_shapes` holds the shape of each parameter, in the order of the
/// version's bindings. Any failure aborts the load: no parameter is returned
/// then. The output projection is derived from the embedding table once that
/// is loaded.
pub fn safetensors_load(
    version: MambaVersion,
    mamba_safetensors_bytes: &[u8],
    n_layer: usize,
    target_shapes: &Vec<Vec<usize>>,
) -> (r: Result<LoadedModel, LoadError>)
    requires
        model_shapes_fit(version, n_layer as nat, target_shapes.deep_view()),
    ensures
        model_loaded_as(
            r,
            version,
            target_shapes.deep_view(),
            load_outcome(
                mamba_safetensors_bytes@,
                bindings_of(version, n_layer as nat),
                target_shapes.deep_view(),
            ),
        ),
        archive_failure_stated(r, mamba_safetensors_bytes@),
{
    let archive = match open_archive(mamba_safetensors_bytes) {
        Ok(archive) => archive,
        Err(cause) => {
            return Err(LoadError::MalformedArchive { cause });
        },
    };
    let count: usize = target_shapes.len();
    assert(target_shapes.deep_view().len() == count);
    let list = bindings(version, n_layer);
    let params = match load_bindings(&archive, &list, target_shapes) {
        Ok(params) => params,
        Err(e) => {
            proof {
                lemma_prefix_failure_names_a_tensor(
                    archive_tensors(&archive),
                    binding_views(list@),
                    target_shapes.deep_view(),
                    list@.len(),
                );
            }
            return Err(e);
        },
    };
    let lm_head = params[0].swap_dims();
    Ok(LoadedModel { version, params, lm_head })
}

/// Loads the parameters of a model of the first version, whose checkpoint
/// stores single precision.
pub fn safetensors_load_mamba1(
    mamba_safetensors_bytes: &[u8],
    n_layer: usize,
    target_shapes: &Vec<Vec<usize>>,
) -> (r: Result<LoadedModel, LoadError>)
    requires
        model_shapes_fit(MambaVersion::Mamba1, n_layer as nat, target_shapes.deep_view()),
    ensures
        model_loaded_as(
            r,
            MambaVersion::Mamba1,
            target_shapes.deep_view(),
            load_outcome(
                mamba_safetensors_bytes@,
                bindings_of(MambaVersion::Mamba1, n_layer as nat),
                target_shapes.deep_view(),
            ),
        ),
        archive_failure_stated(r, mamba_safetensors_bytes@),
{
    safetensors_load(MambaVersion::Mamba1, mamba_safetensors_bytes, n_layer, target_shapes)
}

/// Loads the parameters of a model of the second version, whose checkpoint
/// stores half precision but for `D`.
pub fn safetensors_load_mamba2(
    mamba_safetensors_bytes: &[u8],
    n_layer: usize,
    target_shapes: &Vec<Vec<usize>>,
) -> (r: Result<LoadedModel, LoadError>)
    requires
        model_shapes_fit(MambaVersion::Mamba2, n_layer as nat, target_shapes.deep_view()),
    ensures
        model_loaded_as(
            r,
            MambaVersion::Mamba2,
            target_shapes.deep_view(),
            load_outcome(
                mamba_safetensors_bytes@,
                bindings_of(MambaVersion::Mamba2, n_layer as nat),
                target_shapes.deep_view(),
            ),
        ),
        archive_failure_stated(r, mamba_safetensors_bytes@),
{
    safetensors_load(MambaVersion::Mamba2, mamba_safetensors_bytes, n_layer, target_shapes)
}

} // verus!
