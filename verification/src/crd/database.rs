use crate::crd::LocalObjectReference;
use vstd::prelude::*;

verus! {

/// A SurrealDB database inside a namespace, with the schema applied to it.
#[derive(Clone, Debug, PartialEq)]
pub struct DatabaseSpec {
    /// Reference to the logical Namespace resource.
    pub namespace_ref: LocalObjectReference,
    /// Reference to the Schema resource to apply.
    pub schema_ref: LocalObjectReference,
}

#[derive(Clone, Debug, PartialEq)]
pub struct DatabaseStatus {
    pub created: bool,
    pub applied_schema_hash: Option<String>,
    pub applied_schema_generation: Option<i64>,
    pub error: Option<String>,
    pub observed_generation: Option<i64>,
}

impl Default for DatabaseStatus {
    fn default() -> (r: DatabaseStatus)
        ensures
            !r.created,
            r.applied_schema_hash is None,
            r.applied_schema_generation is None,
            r.error is None,
            r.observed_generation is None,
    {
        DatabaseStatus {
            created: false,
            applied_schema_hash: None,
            applied_schema_generation: None,
            error: None,
            observed_generation: None,
        }
    }
}

} // verus!
