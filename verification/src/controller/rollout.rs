//! Reconciliation of Rollout resources: render the Schema, find the
//! Databases that use it, compute the change against the first of them,
//! wait for approval where the policy asks for it, and apply the change to
//! every Database that does not have this generation yet.
use crate::controller::schema::{count_string, digits_of};
use crate::controller::utils::{
    lookup, lookup_exec, resolve_namespace, spec_variables, start_schema_text, SchemaTextResolver,
    TextStep,
};
use crate::controller::{concat3_strs, Error, ReconcileAction};
use crate::crd::{
    clone_opt_string, empty_status, ApprovalPolicy, Condition, ConditionView, DatabaseSpec,
    DatabaseStatus, RolloutSpec, RolloutStatus, RolloutStatusView,
    SchemaSpec, SchemaStatus, ValueOrRefSource,
};
use crate::surreal::diff::{compute_diff, diff_is_destructive, diff_statements, LiveSchema};
use crate::text::{chars_of, join, join_chars, seqs_of, string_of};
use vstd::prelude::*;

verus! {

// ---------------------------------------------------------------------------
// Conditions
// ---------------------------------------------------------------------------

/// `p` is the first position of a condition of type `ty`.
pub open spec fn first_of_type(cs: Seq<ConditionView>, ty: Seq<char>, p: int) -> bool {
    &&& 0 <= p < cs.len()
    &&& cs[p].type_ == ty
    &&& forall|j: int| 0 <= j < p ==> #[trigger] cs[j].type_ != ty
}

/// Some condition has type `ty`.
pub open spec fn has_type(cs: Seq<ConditionView>, ty: Seq<char>) -> bool {
    exists|i: int| 0 <= i < cs.len() && #[trigger] cs[i].type_ == ty
}

/// The conditions with `c` put in place of the first one of its type, or
/// added at the end when there is none of its type.
pub open spec fn upsert(cs: Seq<ConditionView>, c: ConditionView) -> Seq<ConditionView> {
    if has_type(cs, c.type_) {
        cs.update(choose|p: int| first_of_type(cs, c.type_, p), c)
    } else {
        cs.push(c)
    }
}

/// No two conditions have the same type.
pub open spec fn types_unique(cs: Seq<ConditionView>) -> bool {
    forall|i: int, j: int| 0 <= i < j < cs.len() ==> #[trigger] cs[i].type_ != #[trigger] cs[j].type_
}

proof fn lemma_first_of_type_unique(cs: Seq<ConditionView>, ty: Seq<char>, p: int, q: int)
    requires
        first_of_type(cs, ty, p),
        first_of_type(cs, ty, q),
    ensures
        p == q,
{
    if p < q {
        assert(cs[p].type_ != ty);
    } else if q < p {
        assert(cs[q].type_ != ty);
    }
}

proof fn lemma_upsert_at(cs: Seq<ConditionView>, c: ConditionView, p: int)
    requires
        first_of_type(cs, c.type_, p),
    ensures
        upsert(cs, c) == cs.update(p, c),
{
    assert(has_type(cs, c.type_));
    let q = choose|q: int| first_of_type(cs, c.type_, q);
    lemma_first_of_type_unique(cs, c.type_, p, q);
}

/// Puts `new_cond` in place of the first condition of its type, or adds it
/// at the end.
pub fn update_condition(conditions: &mut Vec<Condition>, new_cond: Condition)
    ensures
        final(conditions)@.map_values(|c: Condition| c@) == upsert(
            old(conditions)@.map_values(|c: Condition| c@),
            new_cond@,
        ),
{
    let ghost cs = old(conditions)@.map_values(|c: Condition| c@);
    let mut i: usize = 0;
    while i < conditions.len()
        invariant
            i <= conditions@.len(),
            *conditions == *old(conditions),
            cs == conditions@.map_values(|c: Condition| c@),
            forall|j: int| 0 <= j < i ==> #[trigger] cs[j].type_ != new_cond.type_@,
        decreases conditions@.len() - i,
    {
        if conditions[i].type_ == new_cond.type_ {
            proof {
                assert(first_of_type(cs, new_cond@.type_, i as int));
                lemma_upsert_at(cs, new_cond@, i as int);
            }
            conditions.set(i, new_cond);
            assert(conditions@.map_values(|c: Condition| c@) =~= cs.update(i as int, new_cond@));
            return;
        }
        i = i + 1;
    }
    assert(!has_type(cs, new_cond@.type_));
    conditions.push(new_cond);
    assert(conditions@.map_values(|c: Condition| c@) =~= cs.push(new_cond@));
}

/// Putting a condition in keeps one condition per type, and the condition
/// put in is then the one of its type.
pub proof fn law_upsert_keeps_types_unique(cs: Seq<ConditionView>, c: ConditionView)
    requires
        types_unique(cs),
    ensures
        types_unique(upsert(cs, c)),
        exists|i: int| 0 <= i < upsert(cs, c).len() && #[trigger] upsert(cs, c)[i] == c,
        forall|i: int|
            0 <= i < upsert(cs, c).len() && #[trigger] upsert(cs, c)[i].type_ == c.type_ ==> upsert(
                cs,
                c,
            )[i] == c,
{
    let r = upsert(cs, c);
    if has_type(cs, c.type_) {
        let p = choose|p: int| first_of_type(cs, c.type_, p);
        let w = choose|i: int| 0 <= i < cs.len() && #[trigger] cs[i].type_ == c.type_;
        assert(first_of_type(cs, c.type_, w)) by {
            assert forall|j: int| 0 <= j < w implies #[trigger] cs[j].type_ != c.type_ by {
                assert(cs[j].type_ != cs[w].type_);
            }
        }
        assert(first_of_type(cs, c.type_, p));
        assert(r[p] == c);
        assert forall|i: int, j: int| 0 <= i < j < r.len() implies #[trigger] r[i].type_
            != #[trigger] r[j].type_ by {
            if i != p && j != p {
                assert(r[i] == cs[i] && r[j] == cs[j]);
            } else if i == p {
                assert(cs[j].type_ != cs[p].type_);
            } else {
                assert(cs[i].type_ != cs[p].type_);
            }
        }
        assert forall|i: int| 0 <= i < r.len() && #[trigger] r[i].type_ == c.type_ implies r[i]
            == c by {
            if i != p {
                assert(cs[i].type_ == cs[p].type_);
                if i < p {
                    assert(cs[i].type_ != cs[p].type_);
                } else {
                    assert(cs[p].type_ != cs[i].type_);
                }
            }
        }
    } else {
        assert(r[cs.len() as int] == c);
        assert forall|i: int, j: int| 0 <= i < j < r.len() implies #[trigger] r[i].type_
            != #[trigger] r[j].type_ by {
            if j == cs.len() {
                assert(cs[i].type_ != c.type_);
            } else {
                assert(r[i] == cs[i] && r[j] == cs[j]);
            }
        }
        assert forall|i: int| 0 <= i < r.len() && #[trigger] r[i].type_ == c.type_ implies r[i]
            == c by {
            if i < cs.len() {
                assert(cs[i].type_ == c.type_);
            }
        }
    }
}

/// Putting the same condition in twice is putting it in once.
pub proof fn law_upsert_idempotent(cs: Seq<ConditionView>, c: ConditionView)
    ensures
        upsert(upsert(cs, c), c) == upsert(cs, c),
{
    let r = upsert(cs, c);
    if has_type(cs, c.type_) {
        let p = choose|p: int| first_of_type(cs, c.type_, p);
        let w = choose|i: int| 0 <= i < cs.len() && #[trigger] cs[i].type_ == c.type_;
        lemma_first_exists(cs, c.type_, w);
        assert(first_of_type(cs, c.type_, p));
        assert(first_of_type(r, c.type_, p));
        lemma_upsert_at(r, c, p);
        assert(r.update(p, c) =~= r);
    } else {
        let n = cs.len() as int;
        assert forall|j: int| 0 <= j < n implies #[trigger] r[j].type_ != c.type_ by {
            assert(r[j] == cs[j]);
        }
        assert(first_of_type(r, c.type_, n));
        lemma_upsert_at(r, c, n);
        assert(r.update(n, c) =~= r);
    }
}

/// Conditions of other types stay where they are.
pub proof fn law_upsert_keeps_others(cs: Seq<ConditionView>, c: ConditionView, i: int)
    requires
        0 <= i < cs.len(),
        cs[i].type_ != c.type_,
    ensures
        upsert(cs, c)[i] == cs[i],
        upsert(cs, c).len() >= cs.len(),
{
    if has_type(cs, c.type_) {
        let w = choose|k: int| 0 <= k < cs.len() && #[trigger] cs[k].type_ == c.type_;
        lemma_first_exists(cs, c.type_, w);
        let p = choose|p: int| first_of_type(cs, c.type_, p);
        assert(p != i);
    }
}

proof fn lemma_first_exists(cs: Seq<ConditionView>, ty: Seq<char>, w: int)
    requires
        0 <= w < cs.len(),
        cs[w].type_ == ty,
    ensures
        exists|p: int| first_of_type(cs, ty, p),
    decreases w,
{
    if exists|j: int| 0 <= j < w && #[trigger] cs[j].type_ == ty {
        let j = choose|j: int| 0 <= j < w && #[trigger] cs[j].type_ == ty;
        lemma_first_exists(cs, ty, j);
    } else {
        assert(first_of_type(cs, ty, w));
    }
}

// ---------------------------------------------------------------------------
// The objects a Rollout reads
// ---------------------------------------------------------------------------

/// A Rollout resource as the reconciler reads it.
#[derive(Debug)]
pub struct RolloutResource {
    pub name: String,
    pub namespace: Option<String>,
    pub spec: RolloutSpec,
    pub status: Option<RolloutStatus>,
    /// Its annotations, by key.
    pub annotations: Option<Vec<(String, String)>>,
}

/// The Schema a Rollout rolls out, as read from the cluster.
#[derive(Debug)]
pub struct TargetSchema {
    pub name: String,
    pub spec: SchemaSpec,
    pub status: Option<SchemaStatus>,
}

/// A Database resource as read from the cluster.
#[derive(Clone, Debug)]
pub struct DatabaseObject {
    pub name: String,
    pub namespace: Option<String>,
    pub spec: DatabaseSpec,
    pub status: Option<DatabaseStatus>,
}

impl DatabaseObject {
    /// A copy equal to this one.
    pub fn duplicate(&self) -> (r: DatabaseObject)
        ensures
            r == *self,
    {
        DatabaseObject {
            name: self.name.clone(),
            namespace: clone_opt_string(&self.namespace),
            spec: DatabaseSpec {
                namespace_ref: self.spec.namespace_ref.duplicate(),
                schema_ref: self.spec.schema_ref.duplicate(),
            },
            status: match &self.status {
                Some(st) => Some(
                    DatabaseStatus {
                        created: st.created,
                        applied_schema_hash: clone_opt_string(&st.applied_schema_hash),
                        applied_schema_generation: st.applied_schema_generation,
                        error: clone_opt_string(&st.error),
                        observed_generation: st.observed_generation,
                    },
                ),
                None => None,
            },
        }
    }
}

/// The namespace of a Database, empty when it has none.
pub open spec fn namespace_or_empty(db: DatabaseObject) -> Seq<char> {
    match db.namespace {
        Some(n) => n@,
        None => Seq::empty(),
    }
}

/// The Database refers to the Schema `name` in namespace `ns`.
pub open spec fn uses_schema(db: DatabaseObject, name: Seq<char>, ns: Seq<char>) -> bool {
    &&& db.spec.schema_ref.name@ == name
    &&& match db.spec.schema_ref.namespace {
        Some(n) => n@,
        None => namespace_or_empty(db),
    } == ns
}

/// The Databases that refer to the Schema `name` in namespace `ns`, in the
/// order listed.
pub fn databases_using(dbs: &Vec<DatabaseObject>, name: &str, ns: &str) -> (r: Vec<DatabaseObject>)
    ensures
        r@ == dbs@.filter(|d: DatabaseObject| uses_schema(d, name@, ns@)),
{
    let ghost pred = |d: DatabaseObject| uses_schema(d, name@, ns@);
    let name_s = name.to_owned();
    let ns_s = ns.to_owned();
    let mut r: Vec<DatabaseObject> = Vec::new();
    for i in 0..dbs.len()
        invariant
            pred == (|d: DatabaseObject| uses_schema(d, name@, ns@)),
            name_s@ == name@,
            ns_s@ == ns@,
            r@ == dbs@.take(i as int).filter(pred),
    {
        let db = &dbs[i];
        let db_ns = match &db.namespace {
            Some(n) => n.clone(),
            None => String::new(),
        };
        let ref_ns = resolve_namespace(&db.spec.schema_ref, db_ns.as_str());
        proof {
            reveal(Seq::filter);
            assert(dbs@.take(i + 1).drop_last() =~= dbs@.take(i as int));
            assert(dbs@.take(i + 1).last() == dbs@[i as int]);
        }
        if db.spec.schema_ref.name == name_s && ref_ns == ns_s {
            r.push(db.duplicate());
        }
    }
    assert(dbs@.take(dbs@.len() as int) =~= dbs@);
    r
}

/// The Database's status records that generation `g` of its schema, or a
/// later one, is applied.
pub open spec fn has_generation(db: DatabaseObject, g: i64) -> bool {
    db.status matches Some(st) && st.applied_schema_generation matches Some(x) && x >= g
}

/// The Databases that have neither generation `g` nor a later one applied.
pub fn databases_without(dbs: &Vec<DatabaseObject>, g: i64) -> (r: Vec<DatabaseObject>)
    ensures
        r@ == dbs@.filter(|d: DatabaseObject| !has_generation(d, g)),
        r@.len() <= dbs@.len(),
{
    let ghost pred = |d: DatabaseObject| !has_generation(d, g);
    let mut r: Vec<DatabaseObject> = Vec::new();
    for i in 0..dbs.len()
        invariant
            pred == (|d: DatabaseObject| !has_generation(d, g)),
            r@ == dbs@.take(i as int).filter(pred),
    {
        let db = &dbs[i];
        let done = match &db.status {
            Some(st) => match st.applied_schema_generation {
                Some(x) => x >= g,
                None => false,
            },
            None => false,
        };
        proof {
            reveal(Seq::filter);
            assert(dbs@.take(i + 1).drop_last() =~= dbs@.take(i as int));
            assert(dbs@.take(i + 1).last() == dbs@[i as int]);
        }
        if !done {
            r.push(db.duplicate());
        }
    }
    assert(dbs@.take(dbs@.len() as int) =~= dbs@);
    proof {
        dbs@.lemma_filter_len(pred);
    }
    r
}

/// The value of an annotation.
pub open spec fn annotation(annotations: Option<Vec<(String, String)>>, key: Seq<char>) -> Option<String> {
    match annotations {
        Some(a) => lookup(a@, key),
        None => None,
    }
}

fn annotation_value(annotations: &Option<Vec<(String, String)>>, key: &str) -> (r: Option<String>)
    ensures
        r == annotation(*annotations, key@),
{
    match annotations {
        Some(a) => {
            let k = key.to_owned();
            match lookup_exec(a, &k) {
                Some(i) => Some(a[i].1.clone()),
                None => None,
            }
        },
        None => None,
    }
}

/// Whether a rollout needs approval under a policy (destructive ones when
/// the Schema names none).
pub open spec fn approval_required(policy: Option<ApprovalPolicy>, destructive: bool) -> bool {
    match policy {
        Some(ApprovalPolicy::NoneRequired) => false,
        Some(ApprovalPolicy::All) => true,
        _ => destructive,
    }
}

/// Whether a rollout needs approval under a policy.
pub fn needs_approval(policy: Option<ApprovalPolicy>, destructive: bool) -> (r: bool)
    ensures
        r == approval_required(policy, destructive),
{
    match policy {
        Some(ApprovalPolicy::NoneRequired) => false,
        Some(ApprovalPolicy::All) => true,
        _ => destructive,
    }
}

/// Approval follows the Schema's policy: `destructive`, the default,
/// asks for it exactly when the change is destructive; `all` always asks
/// for it; `none` never does.
pub proof fn law_approval_follows_policy(destructive: bool)
    ensures
        approval_required(Some(ApprovalPolicy::Destructive), destructive) == destructive,
        approval_required(None, destructive) == destructive,
        approval_required(Some(ApprovalPolicy::All), destructive),
        !approval_required(Some(ApprovalPolicy::NoneRequired), destructive),
{
}

/// The statements wrapped in one transaction.
pub open spec fn transaction(query: Seq<char>) -> Seq<char> {
    "BEGIN TRANSACTION;\n"@ + query + "\nCOMMIT TRANSACTION;"@
}

/// The statements wrapped in one transaction.
pub fn transaction_query(query: &str) -> (r: String)
    ensures
        r@ == transaction(query@),
{
    concat3_strs("BEGIN TRANSACTION;\n", query, "\nCOMMIT TRANSACTION;")
}

/// The statements, one per line.
pub fn join_lines(statements: &Vec<String>) -> (r: String)
    ensures
        r@ == join(statements@.map_values(|s: String| s@), "\n"@),
{
    let mut lines: Vec<Vec<char>> = Vec::new();
    for i in 0..statements.len()
        invariant
            seqs_of(lines@) == statements@.take(i as int).map_values(|s: String| s@),
    {
        let ghost before = lines@;
        let line = chars_of(statements[i].as_str());
        lines.push(line);
        assert(seqs_of(lines@) =~= seqs_of(before).push(statements@[i as int]@));
        assert(statements@.take(i + 1) =~= statements@.take(i as int).push(statements@[i as int]));
        assert(seqs_of(lines@) =~= statements@.take(i + 1).map_values(|s: String| s@));
    }
    assert(statements@.take(statements@.len() as int) =~= statements@);
    let sep = chars_of("\n");
    string_of(join_chars(&lines, sep.as_slice()).as_slice())
}

// ---------------------------------------------------------------------------
// The status of a Rollout
// ---------------------------------------------------------------------------

/// The status a reconciliation starts from: the Rollout's own, or an empty
/// one.
pub open spec fn base_status(r: RolloutResource) -> RolloutStatusView {
    match r.status {
        Some(st) => st@,
        None => empty_status(),
    }
}

/// The annotation `surreal-dbops.reliquo.io/approved`, which the admission
/// webhook watches, is `true`.
pub open spec fn annotated_approved(r: RolloutResource) -> bool {
    annotation(r.annotations, "surreal-dbops.reliquo.io/approved"@) matches Some(v) && v@ == "true"@
}

/// An approval field: the annotation's value when the Rollout is approved
/// by annotation and the annotation is there, else the old value.
pub open spec fn approval_field(r: RolloutResource, key: Seq<char>, old: Option<Seq<char>>) -> Option<Seq<char>> {
    if annotated_approved(r) && annotation(r.annotations, key) is Some {
        Some(annotation(r.annotations, key)->0@)
    } else {
        old
    }
}

/// The status with the count of affected Databases, the computed change
/// and the approval from the annotations.
pub open spec fn prepared_status(r: RolloutResource, affected: nat, diff: Seq<char>, destructive: bool) -> RolloutStatusView {
    let b = base_status(r);
    RolloutStatusView {
        phase: if b.phase is None {
            Some("Progressing"@)
        } else {
            b.phase
        },
        diff: Some(diff),
        destructive,
        affected_databases: affected,
        approved: b.approved || annotated_approved(r),
        approved_by: approval_field(r, "surreal-dbops.reliquo.io/approved-by"@, b.approved_by),
        approved_at: approval_field(r, "surreal-dbops.reliquo.io/approved-at"@, b.approved_at),
        ..b
    }
}

pub open spec fn condition(
    ty: Seq<char>,
    status: Seq<char>,
    now: Seq<char>,
    reason: Seq<char>,
    message: Seq<char>,
) -> ConditionView {
    ConditionView { type_: ty, status, last_transition_time: now, reason, message }
}

/// Blocked, waiting for approval.
pub open spec fn blocked_status(p: RolloutStatusView, now: Seq<char>) -> RolloutStatusView {
    RolloutStatusView {
        phase: Some("Blocked"@),
        conditions: upsert(
            upsert(
                p.conditions,
                condition(
                    "Approved"@,
                    "False"@,
                    now,
                    "PendingApproval"@,
                    "Destructive changes require manual approval."@,
                ),
            ),
            condition(
                "Progressing"@,
                "False"@,
                now,
                "Blocked"@,
                "Rollout blocked waiting for approval annotation."@,
            ),
        ),
        ..p
    }
}

/// Approved, or safe: the change is being applied.
pub open spec fn progressing_status(p: RolloutStatusView, now: Seq<char>) -> RolloutStatusView {
    RolloutStatusView {
        phase: Some("Progressing"@),
        conditions: upsert(
            upsert(
                p.conditions,
                condition("Approved"@, "True"@, now, "ApprovedOrSafe"@, "Approval resolved."@),
            ),
            condition(
                "Progressing"@,
                "True"@,
                now,
                "ApplyingSchema"@,
                "Applying schema to "@ + digits_of(p.affected_databases) + " databases."@,
            ),
        ),
        ..p
    }
}

/// Every affected Database has been tried: failed when one failed, else
/// completed.
pub open spec fn finished_status(p: RolloutStatusView, now: Seq<char>) -> RolloutStatusView {
    let q = if p.failed_databases > 0 {
        RolloutStatusView {
            phase: Some("Failed"@),
            conditions: upsert(
                p.conditions,
                condition(
                    "Ready"@,
                    "False"@,
                    now,
                    "MigrationFailed"@,
                    "Rollout completed with "@ + digits_of(p.failed_databases) + " failures."@,
                ),
            ),
            ..p
        }
    } else {
        RolloutStatusView {
            phase: Some("Completed"@),
            completed_at: Some(now),
            conditions: upsert(
                p.conditions,
                condition(
                    "Ready"@,
                    "True"@,
                    now,
                    "RolloutCompleted"@,
                    "All databases successfully migrated."@,
                ),
            ),
            ..p
        }
    };
    RolloutStatusView {
        conditions: upsert(
            q.conditions,
            condition("Progressing"@, "False"@, now, "Finished"@, "Migration completed."@),
        ),
        ..q
    }
}

/// The change against a live schema; none when there is no Database to
/// compare with.
pub open spec fn change_of(text: Seq<char>, live: Option<LiveSchema>) -> (Seq<Seq<char>>, bool) {
    match live {
        Some(l) => (diff_statements(text, l@), diff_is_destructive(text, l@)),
        None => (Seq::empty(), false),
    }
}

/// The change as recorded: when the live schema of an affected Database
/// could not be read, nothing is known of it and it counts as destructive.
pub open spec fn change_for(text: Seq<char>, live: Option<LiveSchema>, unavailable: bool) -> (Seq<Seq<char>>, bool) {
    if unavailable {
        (Seq::empty(), true)
    } else {
        change_of(text, live)
    }
}

/// Blocked because the change could not be computed.
pub open spec fn unavailable_status(p: RolloutStatusView, now: Seq<char>) -> RolloutStatusView {
    RolloutStatusView {
        phase: Some("Blocked"@),
        conditions: upsert(
            upsert(
                p.conditions,
                condition(
                    "Approved"@,
                    "False"@,
                    now,
                    "DiffUnavailable"@,
                    "The schema diff could not be computed against the live database."@,
                ),
            ),
            condition(
                "Progressing"@,
                "False"@,
                now,
                "Blocked"@,
                "Rollout blocked until the schema diff can be computed."@,
            ),
        ),
        ..p
    }
}

/// The schema text the Rollout took when it was created, if it took one.
pub open spec fn snapshot(r: RolloutResource) -> Option<String> {
    match r.spec.desired_schema {
        Some(d) => if d@.len() > 0 {
            Some(d)
        } else {
            None
        },
        None => None,
    }
}

/// The Rollout has completed already.
pub open spec fn completed(r: RolloutResource) -> bool {
    r.status matches Some(st) && st.phase matches Some(p) && p@ == "Completed"@
}

// ---------------------------------------------------------------------------
// The reconciler
// ---------------------------------------------------------------------------

#[derive(Debug)]
pub enum RolloutAction {
    GetSchema { namespace: String, name: String },
    ResolveValue { source: ValueOrRefSource, namespace: String },
    /// List the Databases of every namespace.
    ListDatabases,
    /// Connect to this Database and read its live schema.
    FetchLiveSchema { database: DatabaseObject },
    PatchStatus { namespace: String, name: String, status: RolloutStatus },
    /// Run `query` on each Database, at most `concurrency` at a time; record
    /// `hash` and `generation` in the status of each that succeeds, and
    /// report each outcome as it comes.
    ApplySchema {
        databases: Vec<DatabaseObject>,
        query: String,
        generation: i64,
        hash: String,
        concurrency: usize,
    },
    /// Patch the status; a failure is ignored.
    PatchProgress { namespace: String, name: String, status: RolloutStatus },
    /// Report the outcome of the next Database.
    AwaitResult,
    Finish(Result<ReconcileAction, Error>),
}

#[derive(Debug)]
pub enum RolloutEvent {
    SchemaFetched(Result<TargetSchema, Error>),
    TextResolved(Result<String, Error>),
    DatabasesListed(Result<Vec<DatabaseObject>, Error>),
    /// The live schema, or `None` when it could not be read.
    LiveSchemaFetched(Option<LiveSchema>),
    StatusPatched(Result<(), Error>),
    DatabaseApplied(Result<(), Error>),
    ProgressPatched,
}

#[derive(Clone, Copy, Debug, PartialEq, Eq, Structural)]
pub enum RolloutPhase {
    FetchingSchema,
    ResolvingText,
    ListingDatabases,
    FetchingLiveSchema,
    ReportingBlocked,
    MarkingProgress,
    RecordingApplied,
    Applying,
    PatchingProgress,
    Finishing,
    Done,
}

#[derive(Debug)]
pub struct RolloutReconciler {
    pub resource: RolloutResource,
    /// The namespace of the resource.
    pub namespace: String,
    /// The namespace of the Schema.
    pub schema_ns: String,
    pub schema: Option<TargetSchema>,
    pub resolver: SchemaTextResolver,
    /// The rendered schema text.
    pub text: String,
    pub affected: Vec<DatabaseObject>,
    /// The affected Databases that do not have this generation yet.
    pub pending: Vec<DatabaseObject>,
    /// The change, one statement per line.
    pub query: String,
    pub status: RolloutStatus,
    /// How many outcomes are still to be reported.
    pub results_left: usize,
    pub phase: RolloutPhase,
}

/// The stage of a phase; each step goes to a lower stage, or stays in the
/// same stage with less work left.
pub open spec fn stage(p: RolloutPhase) -> nat {
    match p {
        RolloutPhase::FetchingSchema => 9,
        RolloutPhase::ResolvingText => 8,
        RolloutPhase::ListingDatabases => 7,
        RolloutPhase::FetchingLiveSchema => 6,
        RolloutPhase::MarkingProgress => 5,
        RolloutPhase::RecordingApplied => 4,
        RolloutPhase::Applying | RolloutPhase::PatchingProgress => 3,
        RolloutPhase::ReportingBlocked | RolloutPhase::Finishing => 1,
        RolloutPhase::Done => 0,
    }
}

impl RolloutReconciler {
    pub open spec fn accepts(&self, event: RolloutEvent) -> bool {
        match self.phase {
            RolloutPhase::FetchingSchema => event is SchemaFetched,
            RolloutPhase::ResolvingText => event is TextResolved && self.schema is Some
                && self.resolver.well_formed() && self.resolver.waiting(),
            RolloutPhase::ListingDatabases => event is DatabasesListed && self.schema is Some,
            RolloutPhase::FetchingLiveSchema => event is LiveSchemaFetched && self.schema is Some,
            RolloutPhase::ReportingBlocked | RolloutPhase::Finishing => event is StatusPatched,
            RolloutPhase::MarkingProgress | RolloutPhase::RecordingApplied => event is StatusPatched
                && self.schema is Some,
            RolloutPhase::Applying => {
                &&& event is DatabaseApplied
                &&& self.results_left > 0
                &&& event matches RolloutEvent::DatabaseApplied(Ok(_))
                    ==> self.status.applied_databases < usize::MAX
                &&& event matches RolloutEvent::DatabaseApplied(Err(_))
                    ==> self.status.failed_databases < usize::MAX
            },
            RolloutPhase::PatchingProgress => event is ProgressPatched,
            RolloutPhase::Done => false,
        }
    }

    /// The work left within the stage.
    pub open spec fn work(&self) -> nat {
        match self.phase {
            RolloutPhase::ResolvingText => self.resolver.pending(),
            RolloutPhase::Applying => (2 * self.results_left + 1) as nat,
            RolloutPhase::PatchingProgress => (2 * self.results_left + 2) as nat,
            _ => 0,
        }
    }
}

/// `t` comes after `s`.
pub open spec fn progresses(s: RolloutReconciler, t: RolloutReconciler) -> bool {
    stage(t.phase) < stage(s.phase) || (stage(t.phase) == stage(s.phase) && t.work() < s.work())
}

/// `a` patches the Rollout's status to `t`'s.
pub open spec fn patches(s: RolloutReconciler, t: RolloutReconciler, a: RolloutAction) -> bool {
    a matches RolloutAction::PatchStatus { namespace, name, status } && namespace == s.namespace
        && name == s.resource.name && status@ == t.status@
}

/// `t` and `a` take the change against `live` and either block, for
/// approval or because the live schema of an affected Database could not be
/// read, or go on to apply it.
pub open spec fn evaluates(
    s: RolloutReconciler,
    t: RolloutReconciler,
    a: RolloutAction,
    live: Option<LiveSchema>,
    now: Seq<char>,
) -> bool {
    let unavailable = t.affected@.len() > 0 && live is None;
    let change = change_for(s.text@, live, unavailable);
    let p = prepared_status(s.resource, t.affected@.len(), join(change.0, "\n"@), change.1);
    let blocked = approval_required(s.schema->0.spec.require_approval, change.1) && !p.approved;
    &&& t.query@ == join(change.0, "\n"@)
    &&& if unavailable {
        &&& t.phase == RolloutPhase::ReportingBlocked
        &&& t.status@ == unavailable_status(p, now)
    } else if blocked {
        &&& t.phase == RolloutPhase::ReportingBlocked
        &&& t.status@ == blocked_status(p, now)
    } else {
        &&& t.phase == RolloutPhase::MarkingProgress
        &&& t.status@ == progressing_status(p, now)
    }
    &&& patches(s, t, a)
}

/// `a` ends the reconciliation with `r` and `t` is done.
pub open spec fn finishes(t: RolloutReconciler, a: RolloutAction, r: Result<ReconcileAction, Error>) -> bool {
    t.phase == RolloutPhase::Done && a == RolloutAction::Finish(r)
}

/// `t` and `a` record the end of the rollout once every affected Database
/// has been counted, and finish otherwise.
pub open spec fn completes(s: RolloutReconciler, t: RolloutReconciler, a: RolloutAction, now: Seq<char>) -> bool {
    let st = s.status@;
    if st.applied_databases + st.failed_databases == st.affected_databases {
        &&& t.phase == RolloutPhase::Finishing
        &&& t.status@ == finished_status(st, now)
        &&& patches(s, t, a)
    } else {
        finishes(t, a, Ok(ReconcileAction::AwaitChange))
    }
}

/// The version hash the Schema records, empty when it has none.
pub open spec fn schema_hash_or_empty(schema: TargetSchema) -> Seq<char> {
    match schema.status {
        Some(st) => match st.current_version_hash {
            Some(h) => h@,
            None => Seq::empty(),
        },
        None => Seq::empty(),
    }
}

/// How many Databases are migrated at once: the Schema's limit, or 50.
pub open spec fn concurrency_of(spec: SchemaSpec) -> usize {
    match spec.concurrency_limit {
        Some(c) => c,
        None => 50,
    }
}

/// The step from `s` on `e`, at time `now`, to `t` with action `a`.
pub open spec fn rollout_next(
    s: RolloutReconciler,
    e: RolloutEvent,
    now: Seq<char>,
    t: RolloutReconciler,
    a: RolloutAction,
) -> bool {
    let schema = s.schema->0;
    &&& t.resource == s.resource
    &&& t.namespace == s.namespace
    &&& t.schema_ns == s.schema_ns
    &&& match (s.phase, e) {
        (RolloutPhase::FetchingSchema, RolloutEvent::SchemaFetched(Err(_))) => finishes(t, a, Ok(ReconcileAction::Requeue(30))),
        (RolloutPhase::FetchingSchema, RolloutEvent::SchemaFetched(Ok(sc))) => if snapshot(
            s.resource,
        ) is Some {
            &&& t.phase == RolloutPhase::ListingDatabases
            &&& t.text == snapshot(s.resource)->0
            &&& t.schema == Some(sc)
            &&& a == RolloutAction::ListDatabases
        } else {
            &&& t.phase == RolloutPhase::ResolvingText
            &&& t.resolver.well_formed()
            &&& t.resolver.waiting()
            &&& t.resolver.raw is None
            &&& t.resolver.namespace == s.schema_ns
            &&& t.resolver.variables@ == spec_variables(sc.spec)
            &&& a == RolloutAction::ResolveValue { source: sc.spec.schema, namespace: s.schema_ns }
            &&& t.schema == Some(sc)
        },
        (RolloutPhase::ResolvingText, RolloutEvent::TextResolved(Err(_))) => finishes(t, a, Ok(ReconcileAction::Requeue(30))),
        (RolloutPhase::ResolvingText, RolloutEvent::TextResolved(Ok(v))) => {
            &&& t.schema == s.schema
            &&& s.resolver.advanced(t.resolver, v)
            &&& if t.resolver.waiting() {
                &&& t.phase == RolloutPhase::ResolvingText
                &&& a matches RolloutAction::ResolveValue { source, namespace }
                &&& t.resolver.requests(TextStep::Resolve { source, namespace })
            } else {
                &&& t.phase == RolloutPhase::ListingDatabases
                &&& t.text@ == t.resolver.text()
                &&& a == RolloutAction::ListDatabases
            }
        },
        (RolloutPhase::ListingDatabases, RolloutEvent::DatabasesListed(Err(err))) => finishes(t, a, Err(err)),
        (RolloutPhase::ListingDatabases, RolloutEvent::DatabasesListed(Ok(dbs))) => {
            &&& t.schema == s.schema
            &&& t.text == s.text
            &&& t.affected@ == dbs@.filter(|d: DatabaseObject| uses_schema(d, schema.name@, s.schema_ns@))
            &&& if t.affected@.len() > 0 {
                &&& t.phase == RolloutPhase::FetchingLiveSchema
                &&& a == RolloutAction::FetchLiveSchema { database: t.affected@[0] }
            } else {
                evaluates(s, t, a, None, now)
            }
        },
        (RolloutPhase::FetchingLiveSchema, RolloutEvent::LiveSchemaFetched(live)) => {
            &&& t.schema == s.schema
            &&& t.affected == s.affected
            &&& evaluates(s, t, a, live, now)
        },
        (RolloutPhase::ReportingBlocked, RolloutEvent::StatusPatched(Ok(()))) => finishes(t, a, Ok(ReconcileAction::Requeue(15))),
        (RolloutPhase::MarkingProgress, RolloutEvent::StatusPatched(Ok(()))) => {
            &&& t.phase == RolloutPhase::RecordingApplied
            &&& t.schema == s.schema
            &&& t.query == s.query
            &&& t.pending@ == s.affected@.filter(|d: DatabaseObject| !has_generation(d, s.resource.spec.generation))
            &&& t.status@ == RolloutStatusView {
                applied_databases: (s.affected@.len() - t.pending@.len()) as nat,
                ..s.status@
            }
            &&& patches(s, t, a)
        },
        (RolloutPhase::RecordingApplied, RolloutEvent::StatusPatched(Ok(()))) => if s.pending@.len() > 0 {
            &&& t.phase == RolloutPhase::Applying
            &&& t.status == s.status
            &&& t.results_left == s.pending@.len()
            &&& a matches RolloutAction::ApplySchema { databases, query, generation, hash, concurrency }
            &&& databases@ == s.pending@
            &&& query@ == transaction(s.query@)
            &&& generation == s.resource.spec.generation
            &&& hash@ == schema_hash_or_empty(schema)
            &&& concurrency == concurrency_of(schema.spec)
        } else {
            completes(s, t, a, now)
        },
        (RolloutPhase::Applying, RolloutEvent::DatabaseApplied(outcome)) => {
            &&& t.phase == RolloutPhase::PatchingProgress
            &&& t.results_left == s.results_left - 1
            &&& t.status@ == match outcome {
                Ok(_) => RolloutStatusView {
                    applied_databases: s.status@.applied_databases + 1,
                    ..s.status@
                },
                Err(_) => RolloutStatusView {
                    failed_databases: s.status@.failed_databases + 1,
                    ..s.status@
                },
            }
            &&& a matches RolloutAction::PatchProgress { namespace, name, status }
            &&& namespace == s.namespace
            &&& name == s.resource.name
            &&& status@ == t.status@
        },
        (RolloutPhase::PatchingProgress, RolloutEvent::ProgressPatched) => if s.results_left > 0 {
            &&& t.phase == RolloutPhase::Applying
            &&& t.status == s.status
            &&& t.results_left == s.results_left
            &&& a == RolloutAction::AwaitResult
        } else {
            completes(s, t, a, now)
        },
        (RolloutPhase::Finishing, RolloutEvent::StatusPatched(Ok(()))) => finishes(
            t,
            a,
            Ok(ReconcileAction::AwaitChange),
        ),
        (_, RolloutEvent::StatusPatched(Err(err))) => finishes(t, a, Err(err)),
        _ => false,
    }
}

fn make_condition(ty: &str, status: &str, now: &str, reason: &str, message: &str) -> (c: Condition)
    ensures
        c@ == condition(ty@, status@, now@, reason@, message@),
{
    Condition {
        type_: ty.to_owned(),
        status: status.to_owned(),
        last_transition_time: now.to_owned(),
        reason: reason.to_owned(),
        message: message.to_owned(),
    }
}

fn copy_databases(v: &Vec<DatabaseObject>) -> (r: Vec<DatabaseObject>)
    ensures
        r@ == v@,
{
    let mut r: Vec<DatabaseObject> = Vec::new();
    for i in 0..v.len()
        invariant
            r@ == v@.take(i as int),
    {
        r.push(v[i].duplicate());
        assert(v@.take(i + 1) =~= v@.take(i as int).push(v@[i as int]));
    }
    assert(v@.take(v@.len() as int) =~= v@);
    r
}

fn empty_resolver() -> (r: SchemaTextResolver)
    ensures
        r.namespace@ == Seq::<char>::empty(),
        r.schema == (ValueOrRefSource { value: None, value_from: None }),
        r.variables@.len() == 0,
        r.raw is None,
        r.values@.len() == 0,
        r.well_formed(),
{
    SchemaTextResolver {
        namespace: String::new(),
        schema: ValueOrRefSource { value: None, value_from: None },
        variables: Vec::new(),
        raw: None,
        values: Vec::new(),
    }
}

/// Starts the reconciliation of a Rollout: a cluster-scoped resource is an
/// internal error, a completed Rollout is left as it is until it changes;
/// otherwise its Schema is read.
pub fn start(resource: RolloutResource) -> (r: (RolloutReconciler, RolloutAction))
    ensures
        r.0.resource == resource,
        match resource.namespace {
            None => {
                &&& r.0.phase == RolloutPhase::Done
                &&& r.1 matches RolloutAction::Finish(Err(Error::InternalError(m)))
                &&& m@ == "Rollout is cluster-scoped"@
            },
            Some(ns) => if completed(resource) {
                &&& r.0.phase == RolloutPhase::Done
                &&& r.1 == RolloutAction::Finish(Ok(ReconcileAction::AwaitChange))
            } else {
                &&& r.0.phase == RolloutPhase::FetchingSchema
                &&& r.0.namespace == ns
                &&& r.0.schema_ns@ == match resource.spec.schema_ref.namespace {
                    Some(n) => n@,
                    None => ns@,
                }
                &&& r.0.schema is None
                &&& r.1 == RolloutAction::GetSchema {
                    namespace: r.0.schema_ns,
                    name: resource.spec.schema_ref.name,
                }
            },
        },
{
    let scoped = resource.namespace.is_some();
    let (namespace, phase) = match clone_opt_string(&resource.namespace) {
        None => (String::new(), RolloutPhase::Done),
        Some(ns) => (ns, RolloutPhase::FetchingSchema),
    };
    let done = match &resource.status {
        Some(st) => match &st.phase {
            Some(p) => *p == "Completed".to_owned(),
            None => false,
        },
        None => false,
    };
    let phase = if done {
        RolloutPhase::Done
    } else {
        phase
    };
    let schema_ns = resolve_namespace(&resource.spec.schema_ref, namespace.as_str());
    let action = if !scoped {
        RolloutAction::Finish(Err(Error::InternalError("Rollout is cluster-scoped".to_owned())))
    } else if done {
        RolloutAction::Finish(Ok(ReconcileAction::AwaitChange))
    } else {
        RolloutAction::GetSchema { namespace: schema_ns.clone(), name: resource.spec.schema_ref.name.clone() }
    };
    (
        RolloutReconciler {
            resource,
            namespace,
            schema_ns,
            schema: None,
            resolver: empty_resolver(),
            text: String::new(),
            affected: Vec::new(),
            pending: Vec::new(),
            query: String::new(),
            status: RolloutStatus::default(),
            results_left: 0,
            phase,
        },
        action,
    )
}

impl RolloutReconciler {
    fn patch(&self) -> (a: RolloutAction)
        ensures
            patches(*self, *self, a),
    {
        RolloutAction::PatchStatus {
            namespace: self.namespace.clone(),
            name: self.resource.name.clone(),
            status: self.status.duplicate(),
        }
    }

    fn prepare(&self, statements: &Vec<String>, destructive: bool) -> (st: RolloutStatus)
        ensures
            st@ == prepared_status(
                self.resource,
                self.affected@.len(),
                join(statements@.map_values(|s: String| s@), "\n"@),
                destructive,
            ),
    {
        let ghost r = self.resource;
        let ghost b = base_status(r);
        let mut status = match &self.resource.status {
            Some(st) => st.duplicate(),
            None => RolloutStatus::default(),
        };
        status.affected_databases = self.affected.len();
        if status.phase.is_none() {
            status.phase = Some("Progressing".to_owned());
        }
        status.diff = Some(join_lines(statements));
        status.destructive = destructive;
        let approved = match annotation_value(&self.resource.annotations, "surreal-dbops.reliquo.io/approved") {
            Some(v) => v == "true".to_owned(),
            None => false,
        };
        if approved {
            status.approved = true;
            match annotation_value(&self.resource.annotations, "surreal-dbops.reliquo.io/approved-by") {
                Some(by) => {
                    status.approved_by = Some(by);
                },
                None => {},
            }
            match annotation_value(&self.resource.annotations, "surreal-dbops.reliquo.io/approved-at") {
                Some(at) => {
                    status.approved_at = Some(at);
                },
                None => {},
            }
        }
        assert(status@ =~= prepared_status(
            r,
            self.affected@.len(),
            join(statements@.map_values(|s: String| s@), "\n"@),
            destructive,
        ));
        status
    }

    /// Takes the change against `live` and blocks for approval or goes on.
    fn evaluate(&mut self, live: Option<LiveSchema>, now: &str) -> (a: RolloutAction)
        requires
            old(self).schema is Some,
        ensures
            final(self).resource == old(self).resource,
            final(self).namespace == old(self).namespace,
            final(self).schema_ns == old(self).schema_ns,
            final(self).schema == old(self).schema,
            final(self).text == old(self).text,
            final(self).affected == old(self).affected,
            evaluates(*old(self), *final(self), a, live, now@),
    {
        let unavailable = self.affected.len() > 0 && live.is_none();
        let (statements, destructive) = match &live {
            Some(l) => compute_diff(self.text.as_str(), l),
            None => (Vec::new(), unavailable),
        };
        proof {
            if live is None {
                assert(statements@.map_values(|s: String| s@) =~= Seq::<Seq<char>>::empty());
            }
        }
        let mut status = self.prepare(&statements, destructive);
        let ghost p = status@;
        let policy = self.schema.as_ref().unwrap().spec.require_approval;
        if unavailable {
            status.phase = Some("Blocked".to_owned());
            update_condition(
                &mut status.conditions,
                make_condition("Approved", "False", now, "DiffUnavailable", "The schema diff could not be computed against the live database."),
            );
            update_condition(
                &mut status.conditions,
                make_condition("Progressing", "False", now, "Blocked", "Rollout blocked until the schema diff can be computed."),
            );
            assert(status@ =~= unavailable_status(p, now@));
            self.phase = RolloutPhase::ReportingBlocked;
        } else if needs_approval(policy, destructive) && !status.approved {
            status.phase = Some("Blocked".to_owned());
            update_condition(
                &mut status.conditions,
                make_condition("Approved", "False", now, "PendingApproval", "Destructive changes require manual approval."),
            );
            update_condition(
                &mut status.conditions,
                make_condition("Progressing", "False", now, "Blocked", "Rollout blocked waiting for approval annotation."),
            );
            assert(status@ =~= blocked_status(p, now@));
            self.phase = RolloutPhase::ReportingBlocked;
        } else {
            update_condition(
                &mut status.conditions,
                make_condition("Approved", "True", now, "ApprovedOrSafe", "Approval resolved."),
            );
            let message = concat3_strs("Applying schema to ", count_string(status.affected_databases).as_str(), " databases.");
            update_condition(
                &mut status.conditions,
                make_condition("Progressing", "True", now, "ApplyingSchema", message.as_str()),
            );
            status.phase = Some("Progressing".to_owned());
            assert(status@ =~= progressing_status(p, now@));
            self.phase = RolloutPhase::MarkingProgress;
        }
        self.query = join_lines(&statements);
        self.status = status;
        self.patch()
    }

    /// Records the end of the rollout, or finishes when some Databases are
    /// not counted.
    fn complete(&mut self, now: &str) -> (a: RolloutAction)
        ensures
            final(self).resource == old(self).resource,
            final(self).namespace == old(self).namespace,
            final(self).schema_ns == old(self).schema_ns,
            completes(*old(self), *final(self), a, now@),
            a is Finish <==> final(self).phase == RolloutPhase::Done,
            !(a is Finish) ==> final(self).phase == RolloutPhase::Finishing,
    {
        let ghost st = self.status@;
        let failed = self.status.failed_databases;
        let all = failed <= self.status.affected_databases && self.status.applied_databases
            == self.status.affected_databases - failed;
        if all {
            if failed > 0 {
                self.status.phase = Some("Failed".to_owned());
                let message = concat3_strs("Rollout completed with ", count_string(failed).as_str(), " failures.");
                update_condition(
                    &mut self.status.conditions,
                    make_condition("Ready", "False", now, "MigrationFailed", message.as_str()),
                );
            } else {
                self.status.phase = Some("Completed".to_owned());
                self.status.completed_at = Some(now.to_owned());
                update_condition(
                    &mut self.status.conditions,
                    make_condition("Ready", "True", now, "RolloutCompleted", "All databases successfully migrated."),
                );
            }
            update_condition(
                &mut self.status.conditions,
                make_condition("Progressing", "False", now, "Finished", "Migration completed."),
            );
            assert(self.status@ =~= finished_status(st, now@));
            self.phase = RolloutPhase::Finishing;
            self.patch()
        } else {
            self.phase = RolloutPhase::Done;
            RolloutAction::Finish(Ok(ReconcileAction::AwaitChange))
        }
    }

    fn on_text(&mut self, v: String) -> (a: RolloutAction)
        requires
            old(self).phase == RolloutPhase::ResolvingText,
            old(self).resolver.well_formed(),
            old(self).resolver.waiting(),
            old(self).schema is Some,
        ensures
            final(self).phase == RolloutPhase::ResolvingText ==> final(self).resolver.pending()
                < old(self).resolver.pending(),
            final(self).phase == RolloutPhase::ResolvingText || final(self).phase
                == RolloutPhase::ListingDatabases,
            final(self).phase == RolloutPhase::ResolvingText ==> final(self).resolver.well_formed(),
            rollout_next(*old(self), RolloutEvent::TextResolved(Ok(v)), Seq::empty(), *final(self), a),
    {
        let step = self.resolver.resolved(Ok(v));
        match step {
            TextStep::Resolve { source, namespace } => RolloutAction::ResolveValue { source, namespace },
            TextStep::Done(Ok(text)) => {
                self.text = text;
                self.phase = RolloutPhase::ListingDatabases;
                RolloutAction::ListDatabases
            },
            TextStep::Done(Err(e)) => {
                // not reached: a value was given
                self.phase = RolloutPhase::Done;
                RolloutAction::Finish(Err(e))
            },
        }
    }
}

impl RolloutReconciler {
    /// Takes the outcome of the last action, at time `now` (RFC 3339), and
    /// gives the next action.
    ///
    /// The Schema is read; the Rollout's own schema snapshot is used when it
    /// has one, else the Schema's text is rendered; failures there are
    /// retried after 30 seconds. The Databases that use the Schema are
    /// listed, and the change is computed against the live schema of the
    /// first of them (no change when there is none). When that live schema
    /// cannot be read, the Rollout is blocked as destructive with the diff
    /// reported unavailable. When the Schema's policy asks for approval and
    /// the Rollout is not approved (annotation
    /// `surreal-dbops.reliquo.io/approved` = `true`), the status says so.
    /// Blocked Rollouts are retried after 15 seconds. Otherwise the change
    /// is applied, in one transaction, to each Database that has neither
    /// this generation nor a later one; the counts are
    /// recorded as the outcomes come, and once every affected Database is
    /// counted the Rollout is marked completed or failed. A failed status
    /// patch or listing ends the reconciliation with its error.
    pub fn step(&mut self, event: RolloutEvent, now: &str) -> (action: RolloutAction)
        requires
            old(self).accepts(event),
        ensures
            action is Finish <==> final(self).phase == RolloutPhase::Done,
            !(action is Finish) ==> progresses(*old(self), *final(self)),
            final(self).phase == RolloutPhase::ResolvingText ==> final(self).resolver.well_formed()
                && final(self).schema is Some,
            final(self).phase == RolloutPhase::ListingDatabases || final(self).phase
                == RolloutPhase::FetchingLiveSchema || final(self).phase
                == RolloutPhase::MarkingProgress || final(self).phase
                == RolloutPhase::RecordingApplied ==> final(self).schema is Some,
            rollout_next(*old(self), event, now@, *final(self), action),
    {
        match (self.phase, event) {
            (RolloutPhase::FetchingSchema, RolloutEvent::SchemaFetched(Err(_))) => {
                self.phase = RolloutPhase::Done;
                RolloutAction::Finish(Ok(ReconcileAction::Requeue(30)))
            },
            (RolloutPhase::FetchingSchema, RolloutEvent::SchemaFetched(Ok(sc))) => {
                let taken = match &self.resource.spec.desired_schema {
                    Some(d) => if chars_of(d.as_str()).len() > 0 {
                        Some(d.clone())
                    } else {
                        None
                    },
                    None => None,
                };
                if let Some(text) = taken {
                    self.text = text;
                    self.schema = Some(sc);
                    self.phase = RolloutPhase::ListingDatabases;
                    return RolloutAction::ListDatabases;
                }
                let (resolver, step) = start_schema_text(&sc.spec, &self.schema_ns);
                self.resolver = resolver;
                self.schema = Some(sc);
                self.phase = RolloutPhase::ResolvingText;
                match step {
                    TextStep::Resolve { source, namespace } => RolloutAction::ResolveValue { source, namespace },
                    TextStep::Done(_) => RolloutAction::AwaitResult,
                }
            },
            (RolloutPhase::ResolvingText, RolloutEvent::TextResolved(Err(_))) => {
                self.phase = RolloutPhase::Done;
                RolloutAction::Finish(Ok(ReconcileAction::Requeue(30)))
            },
            (RolloutPhase::ResolvingText, RolloutEvent::TextResolved(Ok(v))) => self.on_text(v),
            (RolloutPhase::ListingDatabases, RolloutEvent::DatabasesListed(Err(err))) => {
                self.phase = RolloutPhase::Done;
                RolloutAction::Finish(Err(err))
            },
            (RolloutPhase::ListingDatabases, RolloutEvent::DatabasesListed(Ok(dbs))) => {
                let name = self.schema.as_ref().unwrap().name.clone();
                self.affected = databases_using(&dbs, name.as_str(), self.schema_ns.as_str());
                if self.affected.len() > 0 {
                    self.phase = RolloutPhase::FetchingLiveSchema;
                    RolloutAction::FetchLiveSchema { database: self.affected[0].duplicate() }
                } else {
                    self.evaluate(None, now)
                }
            },
            (RolloutPhase::FetchingLiveSchema, RolloutEvent::LiveSchemaFetched(live)) => self.evaluate(live, now),
            (RolloutPhase::ReportingBlocked, RolloutEvent::StatusPatched(Ok(()))) => {
                self.phase = RolloutPhase::Done;
                RolloutAction::Finish(Ok(ReconcileAction::Requeue(15)))
            },
            (RolloutPhase::MarkingProgress, RolloutEvent::StatusPatched(Ok(()))) => {
                let pending = databases_without(&self.affected, self.resource.spec.generation);
                self.status.applied_databases = self.affected.len() - pending.len();
                self.pending = pending;
                self.phase = RolloutPhase::RecordingApplied;
                self.patch()
            },
            (RolloutPhase::RecordingApplied, RolloutEvent::StatusPatched(Ok(()))) => {
                if self.pending.len() > 0 {
                    let schema = self.schema.as_ref().unwrap();
                    let hash = match &schema.status {
                        Some(st) => match &st.current_version_hash {
                            Some(h) => h.clone(),
                            None => String::new(),
                        },
                        None => String::new(),
                    };
                    let concurrency = match schema.spec.concurrency_limit {
                        Some(c) => c,
                        None => 50,
                    };
                    self.results_left = self.pending.len();
                    self.phase = RolloutPhase::Applying;
                    RolloutAction::ApplySchema {
                        databases: copy_databases(&self.pending),
                        query: transaction_query(self.query.as_str()),
                        generation: self.resource.spec.generation,
                        hash,
                        concurrency,
                    }
                } else {
                    self.complete(now)
                }
            },
            (RolloutPhase::Applying, RolloutEvent::DatabaseApplied(outcome)) => {
                match outcome {
                    Ok(_) => {
                        self.status.applied_databases = self.status.applied_databases + 1;
                    },
                    Err(_) => {
                        self.status.failed_databases = self.status.failed_databases + 1;
                    },
                }
                self.results_left = self.results_left - 1;
                self.phase = RolloutPhase::PatchingProgress;
                RolloutAction::PatchProgress {
                    namespace: self.namespace.clone(),
                    name: self.resource.name.clone(),
                    status: self.status.duplicate(),
                }
            },
            (RolloutPhase::PatchingProgress, RolloutEvent::ProgressPatched) => {
                if self.results_left > 0 {
                    self.phase = RolloutPhase::Applying;
                    RolloutAction::AwaitResult
                } else {
                    self.complete(now)
                }
            },
            (RolloutPhase::Finishing, RolloutEvent::StatusPatched(Ok(()))) => {
                self.phase = RolloutPhase::Done;
                RolloutAction::Finish(Ok(ReconcileAction::AwaitChange))
            },
            (_, RolloutEvent::StatusPatched(Err(err))) => {
                self.phase = RolloutPhase::Done;
                RolloutAction::Finish(Err(err))
            },
            _ => {
                // not reached: `accepts` rules every other pair out
                self.phase = RolloutPhase::Done;
                RolloutAction::Finish(Ok(ReconcileAction::AwaitChange))
            },
        }
    }
}

/// The live schema of the affected Databases was to be read and could not
/// be.
pub open spec fn unreadable(s: RolloutReconciler, live: Option<LiveSchema>) -> bool {
    s.affected@.len() > 0 && live is None
}

/// A Rollout whose live schema could not be read is blocked as destructive,
/// with the diff reported unavailable, and its next step ends the
/// reconciliation: nothing is applied.
pub proof fn law_unreadable_change_applies_nothing(
    s: RolloutReconciler,
    now: Seq<char>,
    t: RolloutReconciler,
    a: RolloutAction,
    e2: RolloutEvent,
    now2: Seq<char>,
    t2: RolloutReconciler,
    a2: RolloutAction,
)
    requires
        s.phase == RolloutPhase::FetchingLiveSchema,
        s.affected@.len() > 0,
        rollout_next(s, RolloutEvent::LiveSchemaFetched(None), now, t, a),
        rollout_next(t, e2, now2, t2, a2),
    ensures
        t.phase == RolloutPhase::ReportingBlocked,
        t.status@.phase == Some("Blocked"@),
        t.status@.destructive,
        exists|i: int|
            0 <= i < t.status@.conditions.len() && #[trigger] t.status@.conditions[i] == condition(
                "Approved"@,
                "False"@,
                now,
                "DiffUnavailable"@,
                "The schema diff could not be computed against the live database."@,
            ),
        a matches RolloutAction::PatchStatus { status, .. } && status@ == t.status@,
        a2 is Finish,
{
    let p = prepared_status(s.resource, s.affected@.len(), join(Seq::<Seq<char>>::empty(), "\n"@), true);
    let c = condition(
        "Approved"@,
        "False"@,
        now,
        "DiffUnavailable"@,
        "The schema diff could not be computed against the live database."@,
    );
    let d = condition(
        "Progressing"@,
        "False"@,
        now,
        "Blocked"@,
        "Rollout blocked until the schema diff can be computed."@,
    );
    let u = upsert(p.conditions, c);
    let r = upsert(u, d);
    assert(r == t.status@.conditions);
    lemma_upsert_contains(p.conditions, c);
    let i = choose|i: int| 0 <= i < u.len() && u[i] == c;
    reveal_strlit("Approved");
    reveal_strlit("Progressing");
    assert(u[i].type_ == "Approved"@);
    assert(d.type_ == "Progressing"@);
    assert("Approved"@.len() != "Progressing"@.len());
    assert(u[i].type_ != d.type_);
    law_upsert_keeps_others(u, d, i);
}

/// An upsert holds the condition put in.
proof fn lemma_upsert_contains(cs: Seq<ConditionView>, c: ConditionView)
    ensures
        exists|i: int| 0 <= i < upsert(cs, c).len() && #[trigger] upsert(cs, c)[i] == c,
{
    if has_type(cs, c.type_) {
        let w = choose|k: int| 0 <= k < cs.len() && #[trigger] cs[k].type_ == c.type_;
        lemma_first_exists(cs, c.type_, w);
        let p = choose|p: int| first_of_type(cs, c.type_, p);
        assert(upsert(cs, c)[p] == c);
    } else {
        assert(upsert(cs, c)[cs.len() as int] == c);
    }
}

/// A Rollout whose Schema asks for approval of its change and that is not
/// approved is marked blocked, with the approval pending, and its next step
/// ends the reconciliation: nothing is applied.
pub proof fn law_unapproved_rollout_applies_nothing(
    s: RolloutReconciler,
    live: Option<LiveSchema>,
    now: Seq<char>,
    t: RolloutReconciler,
    a: RolloutAction,
    e2: RolloutEvent,
    now2: Seq<char>,
    t2: RolloutReconciler,
    a2: RolloutAction,
)
    requires
        s.phase == RolloutPhase::FetchingLiveSchema,
        rollout_next(s, RolloutEvent::LiveSchemaFetched(live), now, t, a),
        approval_required(s.schema->0.spec.require_approval, change_for(s.text@, live, unreadable(s, live)).1),
        !prepared_status(
            s.resource,
            s.affected@.len(),
            join(change_for(s.text@, live, unreadable(s, live)).0, "\n"@),
            change_for(s.text@, live, unreadable(s, live)).1,
        ).approved,
        rollout_next(t, e2, now2, t2, a2),
    ensures
        t.phase == RolloutPhase::ReportingBlocked,
        t.status@.phase == Some("Blocked"@),
        a matches RolloutAction::PatchStatus { status, .. } && status@ == t.status@,
        a2 is Finish,
{
}

/// The change recorded in the status, which approval is given for, is the
/// change that is later applied: the status's diff is the query, and it is
/// destructive exactly when the change removes something.
pub proof fn law_recorded_diff_is_the_applied_change(
    s: RolloutReconciler,
    live: Option<LiveSchema>,
    now: Seq<char>,
    t: RolloutReconciler,
    a: RolloutAction,
)
    requires
        s.phase == RolloutPhase::FetchingLiveSchema,
        rollout_next(s, RolloutEvent::LiveSchemaFetched(live), now, t, a),
    ensures
        t.status@.diff == Some(t.query@),
        t.status@.destructive == change_for(s.text@, live, unreadable(s, live)).1,
        t.query@ == join(change_for(s.text@, live, unreadable(s, live)).0, "\n"@),
{
}

/// The evaluation of the change against `live` let the rollout go on: the
/// change is known, and the Schema's policy asks for no approval of it or
/// the Rollout is approved.
pub open spec fn cleared_for(s: RolloutReconciler, t: RolloutReconciler, live: Option<LiveSchema>) -> bool {
    let unavailable = t.affected@.len() > 0 && live is None;
    let change = change_for(s.text@, live, unavailable);
    !unavailable && !(approval_required(s.schema->0.spec.require_approval, change.1) && !prepared_status(
        s.resource,
        t.affected@.len(),
        join(change.0, "\n"@),
        change.1,
    ).approved)
}

/// A change is applied only two steps after an evaluation that cleared it:
/// the evaluation marked the Rollout progressing with the approval
/// resolved, and the applied counts were recorded in between.
pub proof fn law_change_applied_only_when_cleared(
    s0: RolloutReconciler,
    e0: RolloutEvent,
    now0: Seq<char>,
    s1: RolloutReconciler,
    a0: RolloutAction,
    e1: RolloutEvent,
    now1: Seq<char>,
    s2: RolloutReconciler,
    a1: RolloutAction,
    e2: RolloutEvent,
    now2: Seq<char>,
    s3: RolloutReconciler,
    a2: RolloutAction,
)
    requires
        rollout_next(s0, e0, now0, s1, a0),
        rollout_next(s1, e1, now1, s2, a1),
        rollout_next(s2, e2, now2, s3, a2),
        a2 is ApplySchema,
    ensures
        s2.phase == RolloutPhase::RecordingApplied,
        s1.phase == RolloutPhase::MarkingProgress,
        s0.phase == RolloutPhase::FetchingLiveSchema || s0.phase == RolloutPhase::ListingDatabases,
        exists|live: Option<LiveSchema>|
            #![trigger cleared_for(s0, s1, live)]
            evaluates(s0, s1, a0, live, now0) && cleared_for(s0, s1, live),
        s1.status@.phase == Some("Progressing"@),
{
    match (s0.phase, e0) {
        (RolloutPhase::FetchingLiveSchema, RolloutEvent::LiveSchemaFetched(live)) => {
            assert(evaluates(s0, s1, a0, live, now0) && cleared_for(s0, s1, live));
        },
        (RolloutPhase::ListingDatabases, RolloutEvent::DatabasesListed(Ok(dbs))) => {
            assert(evaluates(s0, s1, a0, None, now0) && cleared_for(s0, s1, None));
        },
        _ => {},
    }
}

/// The affected Databases are exactly the listed ones that use the Schema,
/// and the live schema is read from the first of them.
pub proof fn law_affected_databases_use_the_schema(
    s: RolloutReconciler,
    dbs: Vec<DatabaseObject>,
    now: Seq<char>,
    t: RolloutReconciler,
    a: RolloutAction,
)
    requires
        s.phase == RolloutPhase::ListingDatabases,
        rollout_next(s, RolloutEvent::DatabasesListed(Ok(dbs)), now, t, a),
    ensures
        forall|k: int|
            0 <= k < t.affected@.len() ==> {
                &&& uses_schema(#[trigger] t.affected@[k], s.schema->0.name@, s.schema_ns@)
                &&& dbs@.contains(t.affected@[k])
            },
        forall|k: int| 0 <= k < dbs@.len() && uses_schema(#[trigger] dbs@[k], s.schema->0.name@, s.schema_ns@)
            ==> t.affected@.contains(dbs@[k]),
        a is FetchLiveSchema ==> a == (RolloutAction::FetchLiveSchema { database: t.affected@[0] }),
{
    let pred = |d: DatabaseObject| uses_schema(d, s.schema->0.name@, s.schema_ns@);
    dbs@.filter_lemma(pred);
    assert forall|k: int| 0 <= k < t.affected@.len() implies {
        &&& uses_schema(#[trigger] t.affected@[k], s.schema->0.name@, s.schema_ns@)
        &&& dbs@.contains(t.affected@[k])
    } by {
        assert(pred(t.affected@[k]));
        lemma_filter_member(dbs@, pred, t.affected@[k]);
    }
    assert forall|k: int| 0 <= k < dbs@.len() && uses_schema(#[trigger] dbs@[k], s.schema->0.name@, s.schema_ns@)
        implies t.affected@.contains(dbs@[k]) by {
        assert(pred(dbs@[k]));
    }
}

/// Once the progress is recorded, the change is applied only to affected
/// Databases that record neither this generation nor a later one, and the
/// applied count is the number of affected Databases that already do.
pub proof fn law_apply_skips_databases_already_migrated(
    s: RolloutReconciler,
    now: Seq<char>,
    t: RolloutReconciler,
    a: RolloutAction,
    now2: Seq<char>,
    t2: RolloutReconciler,
    a2: RolloutAction,
)
    requires
        s.phase == RolloutPhase::MarkingProgress,
        rollout_next(s, RolloutEvent::StatusPatched(Ok(())), now, t, a),
        rollout_next(t, RolloutEvent::StatusPatched(Ok(())), now2, t2, a2),
    ensures
        t.status@.applied_databases + t.pending@.len() == s.affected@.len(),
        a2 matches RolloutAction::ApplySchema { databases, generation, .. } ==> {
            &&& generation == s.resource.spec.generation
            &&& forall|k: int|
                0 <= k < databases@.len() ==> {
                    &&& !has_generation(#[trigger] databases@[k], generation)
                    &&& s.affected@.contains(databases@[k])
                }
        },
{
    let g = s.resource.spec.generation;
    let pred = |d: DatabaseObject| !has_generation(d, g);
    s.affected@.lemma_filter_len(pred);
    s.affected@.filter_lemma(pred);
    assert(t.pending@ == s.affected@.filter(pred));
    if a2 is ApplySchema {
        assert forall|k: int| 0 <= k < t.pending@.len() implies {
            &&& !has_generation(#[trigger] t.pending@[k], g)
            &&& s.affected@.contains(t.pending@[k])
        } by {
            assert(pred(t.pending@[k]));
            lemma_filter_member(s.affected@, pred, t.pending@[k]);
        }
    }
}

/// What a filter keeps comes from the sequence filtered.
proof fn lemma_filter_member(q: Seq<DatabaseObject>, pred: spec_fn(DatabaseObject) -> bool, d: DatabaseObject)
    requires
        q.filter(pred).contains(d),
    ensures
        q.contains(d),
    decreases q.len(),
{
    reveal(Seq::filter);
    if q.len() > 0 {
        let sub = q.drop_last().filter(pred);
        if pred(q.last()) && d == q.last() {
            assert(q[q.len() - 1] == d);
        } else {
            if pred(q.last()) {
                let k = choose|k: int| 0 <= k < q.filter(pred).len() && q.filter(pred)[k] == d;
                assert(q.filter(pred) == sub.push(q.last()));
                assert(k < sub.len());
                assert(sub[k] == d);
            }
            assert(sub.contains(d));
            lemma_filter_member(q.drop_last(), pred, d);
            let j = choose|j: int| 0 <= j < q.drop_last().len() && q.drop_last()[j] == d;
            assert(q[j] == d);
        }
    }
}

/// A Rollout that took a schema snapshot diffs that snapshot, not the
/// Schema's current text: the text kept after reading the Schema is the
/// snapshot, and listing the Databases keeps it.
pub proof fn law_snapshot_is_what_is_diffed(
    s0: RolloutReconciler,
    sc: TargetSchema,
    now0: Seq<char>,
    s1: RolloutReconciler,
    a0: RolloutAction,
    dbs: Vec<DatabaseObject>,
    now1: Seq<char>,
    s2: RolloutReconciler,
    a1: RolloutAction,
)
    requires
        s0.phase == RolloutPhase::FetchingSchema,
        snapshot(s0.resource) is Some,
        rollout_next(s0, RolloutEvent::SchemaFetched(Ok(sc)), now0, s1, a0),
        rollout_next(s1, RolloutEvent::DatabasesListed(Ok(dbs)), now1, s2, a1),
    ensures
        a0 == RolloutAction::ListDatabases,
        s1.text == snapshot(s0.resource)->0,
        s2.text == snapshot(s0.resource)->0,
{
}

/// What the runtime does after a failed Rollout reconciliation: retry after
/// 15 seconds.
pub fn error_policy(_error: &Error) -> (r: ReconcileAction)
    ensures
        r == ReconcileAction::Requeue(15),
{
    ReconcileAction::Requeue(15)
}

} // verus!
