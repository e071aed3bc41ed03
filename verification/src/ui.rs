//! Plain state of a front end that fetches and loads its models.
use vstd::prelude::*;

verus! {

/// State of a connection that is set up and torn down in the background.
#[derive(Debug)]
pub enum Connection<T> {
    Disconnected,
    Connecting,
    Connected(T),
    Disconnecting(T),
}

impl<T> Connection<T> {
    /// Whether the connection is up. A connection that is not up need not be
    /// down: it may be on its way up or down.
    pub fn is_exactly_connected(&self) -> (r: bool)
        ensures
            r == (self is Connected),
    {
        match self {
            Connection::Connected(_) => true,
            _ => false,
        }
    }

    /// Whether the connection is down. A connection that is not down need not
    /// be up.
    pub fn is_exactly_disconnected(&self) -> (r: bool)
        ensures
            r == (self is Disconnected),
    {
        match self {
            Connection::Disconnected => true,
            _ => false,
        }
    }

    /// What the connection holds while it is up.
    pub fn as_connected(&self) -> (r: Option<&T>)
        ensures
            r is Some <==> self is Connected,
            r matches Some(connected) ==> *connected == self->Connected_0,
    {
        match self {
            Connection::Connected(connected) => Some(connected),
            _ => None,
        }
    }
}

/// Which of the two models of a front end is meant.
#[derive(Clone, Copy, Debug, PartialEq, Eq, Structural)]
pub enum ModelSelection {
    Tokenizer,
    Mamba,
}

/// A source of model data other than the model hub.
#[derive(Clone, Copy, Debug, PartialEq, Eq, Structural)]
pub struct CustomConfig {}

/// How far the loading of a model's data has come, and the data once loaded.
#[derive(Clone, Debug, PartialEq)]
pub struct Load {
    pub is_checking: bool,
    pub is_done: bool,
    pub is_busy: bool,
    pub data: Vec<u8>,
}

impl Default for Load {
    /// Nothing is loaded, and whether anything can be is still being checked.
    fn default() -> (r: Self)
        ensures
            r.is_checking,
            !r.is_done,
            !r.is_busy,
            r.data@.len() == 0,
    {
        Load { is_checking: true, is_busy: false, is_done: false, data: Vec::new() }
    }
}

/// Collects the parts of a model wrapper as their data arrives: a tokenizer
/// of type `T`, a model of type `M` and the model's configuration of type `C`.
#[derive(Debug)]
pub struct MambaWrapperBuilder<T, M, C> {
    pub tokenizer: Option<T>,
    pub mamba: Option<M>,
    pub mamba_config: Option<C>,
}

impl<T, M, C> MambaWrapperBuilder<T, M, C> {
    /// Whether the tokenizer and the model are there.
    pub fn is_ready(&self) -> (r: bool)
        ensures
            r == (self.tokenizer is Some && self.mamba is Some),
    {
        self.tokenizer.is_some() && self.mamba.is_some()
    }

    /// The parts of both builders: of each part the one that this builder
    /// holds, else the one that the other holds.
    pub fn merge(self, other: Self) -> (r: Self)
        ensures
            r.tokenizer == (if self.tokenizer is Some {
                self.tokenizer
            } else {
                other.tokenizer
            }),
            r.mamba == (if self.mamba is Some {
                self.mamba
            } else {
                other.mamba
            }),
            r.mamba_config == (if self.mamba_config is Some {
                self.mamba_config
            } else {
                other.mamba_config
            }),
    {
        MambaWrapperBuilder {
            tokenizer: match self.tokenizer {
                Some(tokenizer) => Some(tokenizer),
                None => other.tokenizer,
            },
            mamba: match self.mamba {
                Some(mamba) => Some(mamba),
                None => other.mamba,
            },
            mamba_config: match self.mamba_config {
                Some(mamba_config) => Some(mamba_config),
                None => other.mamba_config,
            },
        }
    }

    /// The three parts, once all of them are there.
    pub fn build(self) -> (r: (T, M, C))
        requires
            self.tokenizer is Some,
            self.mamba is Some,
            self.mamba_config is Some,
        ensures
            Some(r.0) == self.tokenizer,
            Some(r.1) == self.mamba,
            Some(r.2) == self.mamba_config,
    {
        (self.tokenizer.unwrap(), self.mamba.unwrap(), self.mamba_config.unwrap())
    }
}

} // verus!
