use vstd::prelude::*;
use crate::dsl::ElementType;

verus! {

/// What the registry records about one declared data type.
pub struct DataTypeMetadata {
    pub element_type: ElementType,
}

/// The catalogue of declared data types, by name.
pub struct DataTypeRegistry {
    pub map: Vec<(String, DataTypeMetadata)>,
}

impl DataTypeRegistry {
    /// An empty catalogue.
    pub fn new() -> (r: DataTypeRegistry)
        ensures
            r.map@.len() == 0,
    {
        DataTypeRegistry { map: Vec::new() }
    }
}

} // verus!
