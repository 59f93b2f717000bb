use vstd::prelude::*;
use crate::dsl::MemoryEntry;

verus! {

/// What one registered function hands back: the freshly produced
/// elements and the hints it requested.
pub struct FunctionOutput {
    pub new_elements: Vec<MemoryEntry>,
    pub new_hints: Vec<MemoryEntry>,
}

} // verus!
