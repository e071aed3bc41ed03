//! The tokenizer that both models were trained with.
use vstd::prelude::*;

verus! {

/// Repository of the tokenizer.
pub const REPO_ID: &'static str = "EleutherAI/gpt-neox-20b";

/// Path of the tokenizer's definition inside the repository.
pub const FILE_PATH_TOKENIZER_JSON: &'static str = "tokenizer.json";

/// The token that ends a sequence.
pub const END_OF_SEQUENCE: &'static str = "<|endoftext|>";

} // verus!
