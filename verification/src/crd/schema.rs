use crate::crd::ValueOrRefSource;
use vstd::prelude::*;

verus! {

/// A schema template with its variables and rollout policies.
#[derive(Clone, Debug, PartialEq)]
pub struct SchemaSpec {
    /// Number of completed or failed rollouts to keep.
    pub revision_history_limit: Option<usize>,
    /// How many databases a rollout migrates at once; 50 when absent.
    pub concurrency_limit: Option<usize>,
    /// Which rollouts need approval; destructive ones when absent.
    pub require_approval: Option<ApprovalPolicy>,
    /// The SurrealQL schema source.
    pub schema: ValueOrRefSource,
    /// Variables to interpolate into the schema text, in order of their names.
    pub variables: Option<Vec<(String, ValueOrRefSource)>>,
}

/// Which rollouts need manual approval: destructive ones, all of them, or
/// none (`NoneRequired`, the policy users write as `none`).
#[derive(Clone, Copy, Debug, PartialEq, Eq, Structural)]
pub enum ApprovalPolicy {
    Destructive,
    All,
    NoneRequired,
}

impl Default for ApprovalPolicy {
    fn default() -> (r: ApprovalPolicy)
        ensures
            r == ApprovalPolicy::Destructive,
    {
        ApprovalPolicy::Destructive
    }
}

#[derive(Clone, Debug, PartialEq)]
pub struct SchemaStatus {
    pub current_version_hash: Option<String>,
    pub active_rollout_name: Option<String>,
    pub observed_generation: Option<i64>,
}

} // verus!
