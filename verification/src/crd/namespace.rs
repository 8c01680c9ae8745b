use crate::crd::{LocalObjectReference, ValueOrRefSource};
use vstd::prelude::*;

verus! {

/// A SurrealDB namespace on an instance, with the users to provision in it.
#[derive(Clone, Debug, PartialEq)]
pub struct NamespaceSpec {
    /// Name of the SurrealDB namespace; the resource's own name when absent.
    pub name: Option<String>,
    /// Reference to the Instance hosting this namespace.
    pub instance_ref: LocalObjectReference,
    /// User credentials to provision for this namespace.
    pub user_credentials: Option<Vec<UserCredentials>>,
}

#[derive(Clone, Debug, PartialEq)]
pub struct UserCredentials {
    pub username: ValueOrRefSource,
    pub password: ValueOrRefSource,
    pub roles: Option<Vec<String>>,
    pub duration: Option<UserDuration>,
}

#[derive(Clone, Debug, PartialEq)]
pub struct UserDuration {
    pub token: Option<String>,
    pub session: Option<String>,
}

#[derive(Clone, Debug, PartialEq)]
pub struct NamespaceStatus {
    pub created: bool,
    pub error: Option<String>,
    pub observed_generation: Option<i64>,
}

} // verus!
