//! The tokenizer that turns a prompt into token ids.
//!
//! Tokenization is left to the `tokenizers` crate. Nothing is proved of it.
//! Of the ids that it gives for a text nothing is claimed; of its vocabulary,
//! that a lookup gives what the vocabulary holds. A tokenizer whose
//! truncation cannot be carried out is kept away from encoding.
use crate::hf::tokenizer::END_OF_SEQUENCE;
use tokenizers::{PostProcessor, Tokenizer};
use vstd::prelude::*;

verus! {

/// `tokenizers::Tokenizer`: a tokenizer with its vocabulary. Nothing inside
/// it is seen here.
#[verifier::external_type_specification]
#[verifier::external_body]
pub struct ExTokenizer(Tokenizer);

/// The truncation that a tokenizer is set to: nothing, or one pair of the
/// greatest length of an encoding and the stride between its parts.
pub uninterp spec fn truncation_settings(tokenizer: &Tokenizer) -> Seq<(usize, usize)>;

/// The number of tokens that the post-processor of a tokenizer adds to the
/// encoding of one text: nothing where the tokenizer has no post-processor,
/// else that one number.
pub uninterp spec fn added_token_counts(tokenizer: &Tokenizer) -> Seq<usize>;

/// The number of tokens that a tokenizer adds to the encoding of one text.
pub open spec fn added_tokens(tokenizer: &Tokenizer) -> nat {
    if added_token_counts(tokenizer).len() == 0 {
        0
    } else {
        added_token_counts(tokenizer)[0] as nat
    }
}

/// The truncation of the tokenizer cannot be carried out: the tokens that it
/// adds do not fit in the greatest length, or the stride is not below what
/// they leave of it.
pub open spec fn truncation_fails(tokenizer: &Tokenizer) -> bool {
    truncation_settings(tokenizer).len() > 0 && {
        let max_length = truncation_settings(tokenizer)[0].0 as nat;
        let stride = truncation_settings(tokenizer)[0].1 as nat;
        let added = added_tokens(tokenizer);
        max_length < added || (max_length > added && stride >= max_length - added)
    }
}

/// Calls `Tokenizer::get_truncation` and takes the greatest length and the
/// stride. Claimed: it gives the two where the tokenizer truncates, and
/// nothing where it does not.
#[verifier::external_body]
pub(crate) fn truncation(tokenizer: &Tokenizer) -> (r: Option<(usize, usize)>)
    ensures
        r is None <==> truncation_settings(tokenizer).len() == 0,
        r matches Some(pair) ==> truncation_settings(tokenizer) == seq![pair],
{
    tokenizer.get_truncation().map(|params| (params.max_length, params.stride))
}

/// Calls `Tokenizer::get_post_processor` and, on the post-processor,
/// `PostProcessor::added_tokens` for a single text. Claimed: it gives the
/// number of tokens that the post-processor adds, and nothing where the
/// tokenizer has none.
#[verifier::external_body]
pub(crate) fn added_token_count(tokenizer: &Tokenizer) -> (r: Option<usize>)
    ensures
        r is None <==> added_token_counts(tokenizer).len() == 0,
        r matches Some(count) ==> added_token_counts(tokenizer) == seq![count],
{
    match tokenizer.get_post_processor() {
        Some(processor) => Some(processor.added_tokens(false)),
        None => None,
    }
}

/// Calls `Tokenizer::encode` on the text, with the special tokens of the
/// tokenizer added, and takes the ids of the encoding. A failure is handed on
/// as its message. Nothing is claimed of the ids.
///
/// Where the tokenizer truncates, the crate takes the tokens that the
/// post-processor adds from the greatest length with a plain `-`, and, once
/// an encoding is longer than what is left, asserts that the stride is below
/// it. The call is kept to tokenizers whose truncation passes both.
#[verifier::external_body]
pub(crate) fn encode_ids(tokenizer: &Tokenizer, text: &str) -> (r: Result<Vec<u32>, String>)
    requires
        !truncation_fails(tokenizer),
{
    match tokenizer.encode(text, true) {
        Ok(encoding) => Ok(encoding.get_ids().to_vec()),
        Err(e) => Err(e.to_string()),
    }
}

/// The vocabulary of a tokenizer: for each token that it knows, the added
/// tokens among them, the id of the token.
pub uninterp spec fn vocabulary(tokenizer: &Tokenizer) -> Map<Seq<char>, u32>;

/// The id that the vocabulary of a tokenizer holds for the end-of-sequence
/// token, if it holds that token.
pub open spec fn end_of_sequence_id(tokenizer: &Tokenizer) -> Option<u32> {
    if vocabulary(tokenizer).contains_key(END_OF_SEQUENCE@) {
        Some(vocabulary(tokenizer)[END_OF_SEQUENCE@])
    } else {
        None
    }
}

/// Calls `Tokenizer::get_vocab` with the added tokens, which gives the
/// vocabulary of the tokenizer's model overlaid with its added tokens, and
/// looks the token up in it. Claimed: the id is the one that the vocabulary
/// holds for the token, and there is none exactly where the vocabulary does
/// not hold the token.
#[verifier::external_body]
pub(crate) fn vocabulary_id(tokenizer: &Tokenizer, token: &str) -> (r: Option<u32>)
    ensures
        r is Some <==> vocabulary(tokenizer).contains_key(token@),
        r matches Some(id) ==> id == vocabulary(tokenizer)[token@],
{
    tokenizer.get_vocab(true).get(token).copied()
}

} // verus!
