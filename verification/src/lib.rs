//! Text generation with a recurrent state-space model.
//!
//! The library reads the parameters of a model from a checkpoint, an archive
//! of named tensors, and steers the generation of text: it keeps the token
//! buffer, says what the model has to compute next, and decides between
//! replaying a token of the buffer and drawing a new one.
//!
//! Tensors are held as shapes and single-precision bit patterns. The model
//! itself, with its arithmetic, is the caller's.
pub mod archive;
pub mod bindings;
pub mod cache;
pub mod config;
pub mod encoding;
pub mod generation;
pub mod hf;
pub mod layout;
pub mod loader;
pub mod logits;
pub mod sampler;
pub mod tensor;
pub mod tokenizer;
pub mod ui;
