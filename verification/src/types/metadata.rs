//! The META block of a definition.

use vstd::prelude::*;
use crate::string_map::StringMap;

verus! {

/// Metadata fields of a definition, by name.
#[derive(Debug)]
pub struct MetaDataBlock {
    pub fields: StringMap<String>,
}

} // verus!
