//! The pretrained model of the first version with 130 million parameters.
use crate::config::{padded, MambaModelConfig, ModelDims};
use vstd::prelude::*;

verus! {

/// Repository of the model.
pub const REPO_ID: &'static str = "state-spaces/mamba-130m";

/// Revision of the repository that holds the checkpoint as an archive of
/// named tensors.
pub const REVISION_PATH: &'static str = "refs/pr/1";

/// Path of the model's configuration inside the repository.
pub const FILE_PATH_CONFIG_JSON: &'static str = "config.json";

/// Path of the checkpoint inside the repository.
pub const FILE_PATH_MODEL_SAFETENSORS: &'static str = "model.safetensors";

pub const VOCAB_SIZE: usize = 50277;

pub const PAD_VOCAB_SIZE_MULTIPLE: usize = 8;

pub const N_LAYER: usize = 24;

pub const D_MODEL: usize = 768;

/// The configuration of the model. Its padded vocabulary has 50280 entries.
pub fn config() -> (r: MambaModelConfig)
    ensures
        r == MambaModelConfig::Mamba1(
            ModelDims {
                n_layer: N_LAYER,
                vocab_size: VOCAB_SIZE,
                pad_vocab_size_multiple: PAD_VOCAB_SIZE_MULTIPLE,
                d_model: D_MODEL,
            },
        ),
        r.spec_dims().well_formed(),
        padded(VOCAB_SIZE as nat, PAD_VOCAB_SIZE_MULTIPLE as nat) == 50280,
{
    MambaModelConfig::Mamba1(
        ModelDims {
            n_layer: N_LAYER,
            vocab_size: VOCAB_SIZE,
            pad_vocab_size_multiple: PAD_VOCAB_SIZE_MULTIPLE,
            d_model: D_MODEL,
        },
    )
}

} // verus!
