use vstd::prelude::*;

verus! {

/// Why a cache or publisher operation failed.
#[derive(Clone, Copy, Debug, PartialEq, Eq, Structural)]
pub enum CacheError {
    /// The log cluster could not be reached or the destination could not
    /// be resolved; fatal at construction time, never retried internally.
    Connection,
    /// A key or value could not be encoded for the log; the local map is
    /// left unmodified.
    Serialization,
    /// The record could not even be enqueued for asynchronous delivery
    /// (the local send queue is saturated); the local map is left
    /// unmodified.
    Transport,
    /// The local map was left inconsistent by a holder that failed
    /// mid-operation; non-recoverable for this instance.
    CorruptedState,
}

impl CacheError {
    /// The description `message` returns for each variant.
    pub open spec fn spec_message(self) -> Seq<char> {
        match self {
            CacheError::Connection => "cannot reach the log cluster or resolve the destination"@,
            CacheError::Serialization => "cannot encode the key or the value"@,
            CacheError::Transport => "cannot enqueue the record for delivery"@,
            CacheError::CorruptedState => "the local map is no longer trustworthy"@,
        }
    }

    /// A short human-readable description of the failure.
    pub fn message(&self) -> (r: &'static str)
        ensures
            r@ == self.spec_message(),
    {
        match self {
            CacheError::Connection => "cannot reach the log cluster or resolve the destination",
            CacheError::Serialization => "cannot encode the key or the value",
            CacheError::Transport => "cannot enqueue the record for delivery",
            CacheError::CorruptedState => "the local map is no longer trustworthy",
        }
    }
}

} // verus!
