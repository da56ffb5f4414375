//! The failures that the sync and strategy engines tell apart.

use vstd::prelude::*;

verus! {

/// What went wrong, as far as the engines need to know.
#[derive(Clone, Copy, Debug, PartialEq, Eq, Structural, Hash)]
pub enum ErrorKind {
    /// A fetch failed on the network or on a rate limit; trying again may help.
    TransientFetch,
    /// A fetch returned something that cannot be decoded; trying again will not help.
    FatalFetch,
    /// The store refused a query or an insert.
    Store,
    /// The receiving end of the channel is gone.
    ChannelClosed,
    /// A parameter or destination specifier is malformed.
    Configuration,
    /// A strategy module could not be loaded.
    PluginLoad,
    /// A strategy failed while testing a symbol.
    Strategy,
}

impl ErrorKind {
    /// Only a transient fetch failure is worth another attempt.
    pub open spec fn spec_is_retryable(self) -> bool {
        self == ErrorKind::TransientFetch
    }

    pub fn is_retryable(&self) -> (b: bool)
        ensures
            b == self.spec_is_retryable(),
    {
        match self {
            ErrorKind::TransientFetch => true,
            _ => false,
        }
    }
}

/// A failure with its kind and a text for the operator.
#[derive(Debug)]
pub struct Error {
    pub kind: ErrorKind,
    pub message: String,
}

impl Error {
    pub fn new(kind: ErrorKind, message: String) -> (e: Error)
        ensures
            e.kind == kind,
            e.message == message,
    {
        Error { kind, message }
    }

    pub fn kind(&self) -> (k: ErrorKind)
        ensures
            k == self.kind,
    {
        self.kind
    }

    pub open spec fn spec_is_retryable(&self) -> bool {
        self.kind.spec_is_retryable()
    }

    pub fn is_retryable(&self) -> (b: bool)
        ensures
            b == self.spec_is_retryable(),
    {
        self.kind.is_retryable()
    }

    /// A copy of the failure, equal to it in kind and text.
    pub fn duplicate(&self) -> (e: Error)
        ensures
            e == *self,
    {
        Error { kind: self.kind, message: self.message.clone() }
    }
}

} // verus!
