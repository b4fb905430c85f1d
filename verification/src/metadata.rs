//! The library's view of the metadata fetched for one index: its
//! configured sources and its checkpoint. The metastore client hands these
//! over as plain values; nothing here is persisted or mutated.

use vstd::prelude::*;
use crate::json::JsonValue;

verus! {

/// One configured data source of an index: its identifier, its type, and
/// its nested configuration parameters.
#[derive(Debug, PartialEq, Eq)]
pub struct SourceDescriptor {
    pub source_id: String,
    pub source_type: String,
    pub params: JsonValue,
}

/// The fetched metadata of one index: the sources in the order the
/// metastore returned them, and the checkpoint as (partition identifier,
/// position) pairs in no particular order.
#[derive(Debug, PartialEq, Eq)]
pub struct IndexMetadata {
    pub sources: Vec<SourceDescriptor>,
    pub checkpoint: Vec<(String, String)>,
}

} // verus!
