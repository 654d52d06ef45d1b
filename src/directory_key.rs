use vstd::prelude::*;

verus! {

/// Opaque, content-addressed reference to a directory in the backing store.
/// The naming layer only carries it.
#[derive(Debug, Clone, Copy, PartialEq, Eq, Structural)]
pub struct DirectoryKey {
    /// Identifier of the directory in the backing store.
    pub id: u64,
    /// Type tag of the stored directory object.
    pub type_tag: u64,
    /// Whether the directory is versioned.
    pub versioned: bool,
    /// Whether the directory is shared across owners rather than private.
    pub shared: bool,
}

impl DirectoryKey {
    pub fn new(id: u64, type_tag: u64, versioned: bool, shared: bool) -> (r: DirectoryKey)
        ensures
            r.id == id,
            r.type_tag == type_tag,
            r.versioned == versioned,
            r.shared == shared,
    {
        DirectoryKey { id, type_tag, versioned, shared }
    }
}

} // verus!
