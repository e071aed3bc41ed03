//! Where the pretrained models and their tokenizer are kept on the model hub,
//! and the sizes of the models.
pub mod mamba1_130m;
pub mod mamba2_130m;
pub mod tokenizer;
