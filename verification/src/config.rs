//! Architecture versions and their configuration.
use vstd::prelude::*;

verus! {

/// A supported architecture version.
#[derive(Clone, Copy, Debug, PartialEq, Eq, Structural)]
pub enum MambaVersion {
    Mamba1,
    Mamba2,
}

/// The sizes that make up a model.
#[derive(Clone, Copy, Debug, PartialEq, Eq, Structural)]
pub struct ModelDims {
    /// Number of layers.
    pub n_layer: usize,
    /// Number of tokens of the vocabulary.
    pub vocab_size: usize,
    /// The vocabulary is padded to a multiple of this.
    pub pad_vocab_size_multiple: usize,
    /// Width of the embedding.
    pub d_model: usize,
}

/// Configuration of a model of one of the supported versions.
#[derive(Clone, Copy, Debug, PartialEq, Eq, Structural)]
pub enum MambaModelConfig {
    Mamba1(ModelDims),
    Mamba2(ModelDims),
}

/// `size` rounded up to the nearest multiple of `multiple`.
pub open spec fn padded(size: nat, multiple: nat) -> nat
    recommends
        multiple > 0,
{
    if size % multiple == 0 {
        size
    } else {
        (size / multiple + 1) * multiple
    }
}

/// The padded size is a multiple of `multiple`, not below `size` and less than
/// `multiple` above it.
pub proof fn lemma_padded_is_multiple(size: nat, multiple: nat)
    requires
        multiple > 0,
    ensures
        padded(size, multiple) % multiple == 0,
        size <= padded(size, multiple) < size + multiple,
{
    let q = size / multiple;
    vstd::arithmetic::div_mod::lemma_fundamental_div_mod(size as int, multiple as int);
    vstd::arithmetic::div_mod::lemma_mod_bound(size as int, multiple as int);
    if size % multiple != 0 {
        vstd::arithmetic::div_mod::lemma_mod_multiples_basic((q + 1) as int, multiple as int);
        assert((q + 1) * multiple == multiple * q + multiple) by (nonlinear_arith);
    }
}

/// No multiple of `multiple` lies between `size` and the padded size.
pub proof fn lemma_padded_is_least(size: nat, multiple: nat, other: nat)
    requires
        multiple > 0,
        other % multiple == 0,
        size <= other,
    ensures
        padded(size, multiple) <= other,
{
    let q = size / multiple;
    let p = other / multiple;
    vstd::arithmetic::div_mod::lemma_fundamental_div_mod(size as int, multiple as int);
    vstd::arithmetic::div_mod::lemma_fundamental_div_mod(other as int, multiple as int);
    vstd::arithmetic::div_mod::lemma_mod_bound(size as int, multiple as int);
    if size % multiple != 0 {
        assert(p >= q + 1) by (nonlinear_arith)
            requires
                other == multiple * p,
                size == multiple * q + size % multiple,
                0 < size % multiple < multiple,
                size <= other,
                multiple > 0,
        ;
        assert((q + 1) * multiple <= multiple * p) by (nonlinear_arith)
            requires
                p >= q + 1,
                multiple > 0,
        ;
    }
}

impl ModelDims {
    /// The padding factor is positive and the padded vocabulary fits in a
    /// machine word.
    pub open spec fn well_formed(&self) -> bool {
        &&& self.pad_vocab_size_multiple > 0
        &&& padded(self.vocab_size as nat, self.pad_vocab_size_multiple as nat) <= usize::MAX
    }

    /// Whether the padding factor is positive and the padded vocabulary fits
    /// in a machine word.
    pub fn is_well_formed(&self) -> (r: bool)
        ensures
            r == self.well_formed(),
    {
        let size: usize = self.vocab_size;
        let multiple: usize = self.pad_vocab_size_multiple;
        if multiple == 0 {
            return false;
        }
        if size % multiple == 0 {
            return true;
        }
        assert(multiple >= 2 && size / multiple <= size / 2) by (nonlinear_arith)
            requires
                multiple > 0,
                size % multiple != 0,
        ;
        (size / multiple + 1).checked_mul(multiple).is_some()
    }

    /// Size of the vocabulary after padding: the length of every vector of
    /// logits that the model gives.
    pub fn padded_vocab_size(&self) -> (r: usize)
        requires
            self.well_formed(),
        ensures
            r == padded(self.vocab_size as nat, self.pad_vocab_size_multiple as nat),
    {
        if self.vocab_size % self.pad_vocab_size_multiple == 0 {
            self.vocab_size
        } else {
            let ghost q = self.vocab_size as nat / self.pad_vocab_size_multiple as nat;
            assert(q + 1 <= (q + 1) * self.pad_vocab_size_multiple) by (nonlinear_arith)
                requires
                    self.pad_vocab_size_multiple >= 1,
            ;
            (self.vocab_size / self.pad_vocab_size_multiple + 1) * self.pad_vocab_size_multiple
        }
    }
}

impl MambaModelConfig {
    /// The sizes of the model.
    pub open spec fn spec_dims(&self) -> ModelDims {
        match self {
            MambaModelConfig::Mamba1(dims) => *dims,
            MambaModelConfig::Mamba2(dims) => *dims,
        }
    }

    /// The version that the configuration is for.
    pub open spec fn spec_version(&self) -> MambaVersion {
        match self {
            MambaModelConfig::Mamba1(_) => MambaVersion::Mamba1,
            MambaModelConfig::Mamba2(_) => MambaVersion::Mamba2,
        }
    }

    /// The sizes of the model.
    pub fn dims(&self) -> (r: ModelDims)
        ensures
            r == self.spec_dims(),
    {
        match self {
            MambaModelConfig::Mamba1(dims) => *dims,
            MambaModelConfig::Mamba2(dims) => *dims,
        }
    }

    /// The version that the configuration is for.
    pub fn version(&self) -> (r: MambaVersion)
        ensures
            r == self.spec_version(),
    {
        match self {
            MambaModelConfig::Mamba1(_) => MambaVersion::Mamba1,
            MambaModelConfig::Mamba2(_) => MambaVersion::Mamba2,
        }
    }

    /// Size of the vocabulary after padding.
    pub fn padded_vocab_size(&self) -> (r: usize)
        requires
            self.spec_dims().well_formed(),
        ensures
            r == padded(
                self.spec_dims().vocab_size as nat,
                self.spec_dims().pad_vocab_size_multiple as nat,
            ),
    {
        self.dims().padded_vocab_size()
    }
}

} // verus!
