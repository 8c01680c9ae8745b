use crate::crd::ValueOrRefSource;
use vstd::prelude::*;

verus! {

/// How to reach a SurrealDB server and log in to it.
#[derive(Clone, Debug, PartialEq)]
pub struct InstanceSpec {
    /// The database connection string (e.g. ws://surrealdb.reliquo:8000).
    pub connection_string: ValueOrRefSource,
    /// Administrative username.
    pub username: ValueOrRefSource,
    /// Administrative password.
    pub password: ValueOrRefSource,
}

#[derive(Clone, Debug, PartialEq)]
pub struct InstanceStatus {
    pub connected: bool,
    pub error: Option<String>,
    pub observed_generation: Option<i64>,
}

} // verus!
