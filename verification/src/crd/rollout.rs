use crate::crd::{clone_opt_string, Condition, ConditionView, LocalObjectReference};
use vstd::prelude::*;

verus! {

/// A schema migration for one generation of a Schema.
#[derive(Clone, Debug, PartialEq)]
pub struct RolloutSpec {
    /// Reference to the Schema being rolled out.
    pub schema_ref: LocalObjectReference,
    /// Generation of the Schema that this rollout corresponds to.
    pub generation: i64,
    /// The interpolated schema text of that generation, taken when the
    /// Rollout was created; empty or absent when none was taken.
    pub desired_schema: Option<String>,
}

#[derive(Clone, Debug, PartialEq)]
pub struct RolloutStatus {
    /// Blocked, Progressing, Completed or Failed.
    pub phase: Option<String>,
    /// The generated SurrealQL statements, one per line.
    pub diff: Option<String>,
    /// Whether the statements remove something.
    pub destructive: bool,
    pub affected_databases: usize,
    pub applied_databases: usize,
    pub failed_databases: usize,
    pub approved: bool,
    pub approved_by: Option<String>,
    pub approved_at: Option<String>,
    pub completed_at: Option<String>,
    pub conditions: Vec<Condition>,
    pub observed_generation: Option<i64>,
}

/// A Rollout's status as plain values.
#[verifier::ext_equal]
pub struct RolloutStatusView {
    pub phase: Option<Seq<char>>,
    pub diff: Option<Seq<char>>,
    pub destructive: bool,
    pub affected_databases: nat,
    pub applied_databases: nat,
    pub failed_databases: nat,
    pub approved: bool,
    pub approved_by: Option<Seq<char>>,
    pub approved_at: Option<Seq<char>>,
    pub completed_at: Option<Seq<char>>,
    pub conditions: Seq<ConditionView>,
    pub observed_generation: Option<i64>,
}

/// The text of an optional string.
pub open spec fn opt_text(o: Option<String>) -> Option<Seq<char>> {
    match o {
        Some(s) => Some(s@),
        None => None,
    }
}

impl View for RolloutStatus {
    type V = RolloutStatusView;

    open spec fn view(&self) -> RolloutStatusView {
        RolloutStatusView {
            phase: opt_text(self.phase),
            diff: opt_text(self.diff),
            destructive: self.destructive,
            affected_databases: self.affected_databases as nat,
            applied_databases: self.applied_databases as nat,
            failed_databases: self.failed_databases as nat,
            approved: self.approved,
            approved_by: opt_text(self.approved_by),
            approved_at: opt_text(self.approved_at),
            completed_at: opt_text(self.completed_at),
            conditions: self.conditions@.map_values(|c: Condition| c@),
            observed_generation: self.observed_generation,
        }
    }
}

/// The status a Rollout starts from when it has none.
pub open spec fn empty_status() -> RolloutStatusView {
    RolloutStatusView {
        phase: None,
        diff: None,
        destructive: false,
        affected_databases: 0,
        applied_databases: 0,
        failed_databases: 0,
        approved: false,
        approved_by: None,
        approved_at: None,
        completed_at: None,
        conditions: Seq::empty(),
        observed_generation: None,
    }
}

impl RolloutStatus {
    /// A copy equal to this status.
    pub fn duplicate(&self) -> (r: RolloutStatus)
        ensures
            r@ == self@,
    {
        let mut conditions: Vec<Condition> = Vec::new();
        for i in 0..self.conditions.len()
            invariant
                conditions@ == self.conditions@.take(i as int),
        {
            conditions.push(self.conditions[i].duplicate());
            assert(self.conditions@.take(i + 1) =~= self.conditions@.take(i as int).push(self.conditions@[i as int]));
        }
        assert(self.conditions@.take(self.conditions@.len() as int) =~= self.conditions@);
        assert(conditions@.map_values(|c: Condition| c@) =~= self.conditions@.map_values(|c: Condition| c@));
        RolloutStatus {
            phase: clone_opt_string(&self.phase),
            diff: clone_opt_string(&self.diff),
            destructive: self.destructive,
            affected_databases: self.affected_databases,
            applied_databases: self.applied_databases,
            failed_databases: self.failed_databases,
            approved: self.approved,
            approved_by: clone_opt_string(&self.approved_by),
            approved_at: clone_opt_string(&self.approved_at),
            completed_at: clone_opt_string(&self.completed_at),
            conditions,
            observed_generation: self.observed_generation,
        }
    }
}

impl Default for RolloutStatus {
    fn default() -> (r: RolloutStatus)
        ensures
            r@ == empty_status(),
            r.phase is None,
            r.diff is None,
            !r.destructive,
            r.affected_databases == 0,
            r.applied_databases == 0,
            r.failed_databases == 0,
            !r.approved,
            r.approved_by is None,
            r.approved_at is None,
            r.completed_at is None,
            r.conditions@.len() == 0,
            r.observed_generation is None,
    {
        RolloutStatus {
            phase: None,
            diff: None,
            destructive: false,
            affected_databases: 0,
            applied_databases: 0,
            failed_databases: 0,
            approved: false,
            approved_by: None,
            approved_at: None,
            completed_at: None,
            conditions: Vec::new(),
            observed_generation: None,
        }
    }
}

} // verus!
