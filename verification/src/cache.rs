//! The recurrent cache: one state for each layer of the model.
//!
//! What a layer's state holds is the model's affair. The cache is generic over
//! it and sees to the number of states and to the version they are for.
use crate::config::{MambaModelConfig, MambaVersion};
use vstd::prelude::*;

verus! {

/// The recurrent state of every layer of a model, of type `S` each.
#[derive(Debug)]
pub struct MambaBlockCaches<S> {
    /// The version of the model that the states are for.
    pub version: MambaVersion,
    /// The state of each layer, in the order of the layers.
    pub layers: Vec<S>,
}

impl<S> MambaBlockCaches<S> {
    /// The cache is for the version of the configuration and has one state
    /// for each of its layers.
    pub open spec fn fits(&self, config: MambaModelConfig) -> bool {
        &&& self.version == config.spec_version()
        &&& self.layers@.len() == config.spec_dims().n_layer
    }

    /// A fresh cache for a batch of the given size: one state for each layer
    /// of the model, each made by `init_layer` for that batch size.
    pub fn empty_caches<F: Fn(usize) -> S>(
        batch: usize,
        mamba_config: &MambaModelConfig,
        init_layer: &F,
    ) -> (r: Self)
        requires
            init_layer.requires((batch,)),
        ensures
            r.fits(*mamba_config),
            forall|k: int| 0 <= k < r.layers@.len() ==> init_layer.ensures((batch,), r.layers@[k]),
    {
        let version = mamba_config.version();
        let len: usize = mamba_config.dims().n_layer;
        let mut layers: Vec<S> = Vec::with_capacity(len);
        let mut k: usize = 0;
        while k < len
            invariant
                init_layer.requires((batch,)),
                k <= len,
                layers@.len() == k,
                forall|j: int| 0 <= j < k ==> init_layer.ensures((batch,), layers@[j]),
            decreases len - k,
        {
            let state = init_layer(batch);
            layers.push(state);
            k = k + 1;
        }
        MambaBlockCaches { version, layers }
    }

    /// Whether the cache is for the version of the configuration and has one
    /// state for each of its layers.
    pub fn matches(&self, mamba_config: &MambaModelConfig) -> (r: bool)
        ensures
            r == self.fits(*mamba_config),
    {
        self.version == mamba_config.version() && self.layers.len() == mamba_config.dims().n_layer
    }

    /// Number of layers that the cache has a state for.
    pub fn layers_len(&self) -> (r: usize)
        ensures
            r == self.layers@.len(),
    {
        self.layers.len()
    }

    /// Puts the cache that a step returned in the place of this one. The
    /// whole cache is replaced: no state of the old one is kept.
    ///
    /// Gives the new cache back, and keeps the old one, where the new one is
    /// for another version or another number of layers.
    pub fn replace(&mut self, new_caches: MambaBlockCaches<S>) -> (r: Option<MambaBlockCaches<S>>)
        ensures
            r is None <==> new_caches.version == old(self).version && new_caches.layers@.len()
                == old(self).layers@.len(),
            r is None ==> *final(self) == new_caches,
            r matches Some(refused) ==> refused == new_caches && *final(self) == *old(self),
    {
        if new_caches.version == self.version && new_caches.layers.len() == self.layers.len() {
            *self = new_caches;
            None
        } else {
            Some(new_caches)
        }
    }
}

} // verus!
