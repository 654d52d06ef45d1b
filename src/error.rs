use vstd::prelude::*;

verus! {

/// Failure kinds of the naming layer; each is distinguishable by callers.
#[derive(Debug, Clone, Copy, PartialEq, Eq, Structural)]
pub enum DnsError {
    /// The public name was never registered.
    RecordNotFound,
    /// The name is registered but holds no service of that label.
    ServiceNotFound,
    /// Registration collided with an existing record, or a create-only
    /// addition found the service already present.
    AlreadyExists,
    /// A compare-and-swap found another version than the one expected.
    Conflict,
    /// Every commit attempt of a read-modify-write lost to another writer.
    ConcurrentModification,
    /// The record's version counter cannot be advanced any further.
    VersionExhausted,
    /// The response could not be serialized.
    SerializationFailure,
}

} // verus!
