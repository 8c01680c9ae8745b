use surreal_dbops::controller::database::{
    self as database_ctl, DatabaseAction, DatabaseEvent, DatabaseResource, NamespaceObject,
};
use surreal_dbops::controller::instance::{
    self as instance_ctl, InstanceAction, InstanceEvent, InstanceResource,
};
use surreal_dbops::controller::namespace::{
    self as namespace_ctl, define_user_query, InstanceObject, NamespaceAction, NamespaceEvent,
    NamespaceResource,
};
use surreal_dbops::controller::rollout::{
    self as rollout_ctl, databases_using, databases_without, join_lines, needs_approval,
    transaction_query, update_condition, DatabaseObject, RolloutAction, RolloutEvent,
    RolloutResource, TargetSchema,
};
use surreal_dbops::controller::schema::{
    self as schema_ctl, count_string, decimal_string, schema_hash, select_rollouts_to_prune,
    RolloutLookup, RolloutRecord, SchemaAction, SchemaEvent, SchemaResource,
};
use surreal_dbops::controller::{Error, ReconcileAction};
use surreal_dbops::crd::{
    ApprovalPolicy, Condition, DatabaseSpec, DatabaseStatus, InstanceSpec, InstanceStatus,
    LocalObjectReference, NamespaceSpec, NamespaceStatus, RolloutSpec, RolloutStatus, SchemaSpec,
    SchemaStatus, UserCredentials, UserDuration, ValueOrRefSource,
};
use surreal_dbops::surreal::client::{connection_mode, ConnectionMode};
use surreal_dbops::surreal::diff::{LiveSchema, LiveTable, NamedDefinition};

fn raw(v: &str) -> ValueOrRefSource {
    ValueOrRefSource { value: Some(v.to_string()), value_from: None }
}

fn reference(name: &str, namespace: Option<&str>) -> LocalObjectReference {
    LocalObjectReference { name: name.to_string(), namespace: namespace.map(|n| n.to_string()) }
}

fn condition(ty: &str, status: &str) -> Condition {
    Condition {
        type_: ty.to_string(),
        status: status.to_string(),
        last_transition_time: "earlier".to_string(),
        reason: "r".to_string(),
        message: "m".to_string(),
    }
}

// ---------------------------------------------------------------------------
// Instance
// ---------------------------------------------------------------------------

fn instance_resource(namespace: Option<&str>) -> InstanceResource {
    InstanceResource {
        name: "instinstance".to_string(),
        namespace: namespace.map(|n| n.to_string()),
        generation: Some(2),
        spec: InstanceSpec {
            connection_string: raw("mem://"),
            username: raw("root"),
            password: raw("rootpassword"),
        },
    }
}

#[test]
fn instance_reconciliation_connects_and_reports() {
    let (mut r, a) = instance_ctl::start(instance_resource(Some("test-ns")));
    assert!(matches!(a, InstanceAction::ResolveValue { ref namespace, .. } if namespace == "test-ns"));
    assert!(matches!(r.step(InstanceEvent::Resolved(Ok("mem://".to_string()))), InstanceAction::ResolveValue { .. }));
    assert!(matches!(r.step(InstanceEvent::Resolved(Ok("root".to_string()))), InstanceAction::ResolveValue { .. }));
    match r.step(InstanceEvent::Resolved(Ok("rootpassword".to_string()))) {
        InstanceAction::Connect { endpoint, username, password } => {
            assert_eq!((endpoint.as_str(), username.as_str(), password.as_str()), ("mem://", "root", "rootpassword"));
        }
        other => panic!("unexpected {:?}", other),
    }
    match r.step(InstanceEvent::Connected(Ok(()))) {
        InstanceAction::PatchStatus { namespace, name, status } => {
            assert_eq!(namespace, "test-ns");
            assert_eq!(name, "instinstance");
            assert_eq!(status, InstanceStatus { connected: true, error: None, observed_generation: Some(2) });
        }
        other => panic!("unexpected {:?}", other),
    }
    assert!(matches!(r.step(InstanceEvent::StatusPatched(Ok(()))), InstanceAction::Finish(Ok(ReconcileAction::Requeue(300)))));
}

#[test]
fn instance_connection_failure_is_reported() {
    let (mut r, _) = instance_ctl::start(instance_resource(Some("ns")));
    r.step(InstanceEvent::Resolved(Ok("ws://x".to_string())));
    r.step(InstanceEvent::Resolved(Ok("u".to_string())));
    r.step(InstanceEvent::Resolved(Ok("p".to_string())));
    match r.step(InstanceEvent::Connected(Err("refused".to_string()))) {
        InstanceAction::PatchStatus { status, .. } => {
            assert!(!status.connected);
            assert_eq!(status.error.as_deref(), Some("Failed to connect to SurrealDB: refused"));
        }
        other => panic!("unexpected {:?}", other),
    }
    assert!(matches!(r.step(InstanceEvent::StatusPatched(Ok(()))), InstanceAction::Finish(Ok(ReconcileAction::Requeue(30)))));
}

#[test]
fn instance_resolution_failure_is_reported() {
    let (mut r, _) = instance_ctl::start(instance_resource(Some("ns")));
    match r.step(InstanceEvent::Resolved(Err(Error::ConfigError("bad".to_string())))) {
        InstanceAction::PatchStatus { status, .. } => assert_eq!(
            status.error.as_deref(),
            Some("Failed to resolve connectionString: Configuration error: bad")
        ),
        other => panic!("unexpected {:?}", other),
    }
    assert!(matches!(
        r.step(InstanceEvent::StatusPatched(Err(Error::KubeError("gone".to_string())))),
        InstanceAction::Finish(Err(Error::KubeError(_)))
    ));
}

#[test]
fn cluster_scoped_instance_is_an_internal_error() {
    let (_, a) = instance_ctl::start(instance_resource(None));
    match a {
        InstanceAction::Finish(Err(Error::InternalError(m))) => assert_eq!(m, "Instance is cluster-scoped"),
        other => panic!("unexpected {:?}", other),
    }
    assert_eq!(instance_ctl::error_policy(&Error::NotFound("x".to_string())), ReconcileAction::Requeue(15));
}

// ---------------------------------------------------------------------------
// Namespace
// ---------------------------------------------------------------------------

#[test]
fn namespace_user_query() {
    let q = define_user_query(
        "ns_admin",
        "nspassword",
        &Some(vec!["OWNER".to_string(), "EDITOR".to_string()]),
        &Some(UserDuration { token: Some("1h".to_string()), session: Some("12h".to_string()) }),
    );
    assert_eq!(
        q,
        "DEFINE USER OVERWRITE `ns_admin` ON NAMESPACE PASSWORD 'nspassword' ROLES OWNER, EDITOR DURATION FOR token 1h, FOR session 12h;"
    );
    assert_eq!(
        define_user_query("u", "p", &None, &None),
        "DEFINE USER OVERWRITE `u` ON NAMESPACE PASSWORD 'p' ROLES OWNER;"
    );
}

fn instance_object(connected: bool) -> InstanceObject {
    InstanceObject {
        name: "instns".to_string(),
        uid: Some("uid-1".to_string()),
        spec: InstanceSpec { connection_string: raw("mem://"), username: raw("root"), password: raw("pw") },
        status: Some(InstanceStatus { connected, error: None, observed_generation: None }),
    }
}

#[test]
fn namespace_reconciliation_defines_namespace_and_users() {
    let resource = NamespaceResource {
        name: "nsns".to_string(),
        namespace: Some("test-ns".to_string()),
        generation: Some(1),
        spec: NamespaceSpec {
            name: None,
            instance_ref: reference("instns", None),
            user_credentials: Some(vec![UserCredentials {
                username: raw("ns_admin"),
                password: raw("nspassword"),
                roles: None,
                duration: None,
            }]),
        },
        owner_uids: Some(vec!["uid-1".to_string()]),
    };
    let (mut r, a) = namespace_ctl::start(resource);
    assert!(matches!(a, NamespaceAction::GetInstance { ref namespace, ref name } if namespace == "test-ns" && name == "instns"));
    let mut action = r.step(NamespaceEvent::InstanceFetched(Ok(instance_object(true))));
    let mut queries: Vec<String> = Vec::new();
    let mut steps = 0;
    let result = loop {
        steps += 1;
        assert!(steps < 30);
        let event = match action {
            NamespaceAction::ResolveValue { source, .. } => NamespaceEvent::Resolved(Ok(source.value.unwrap())),
            NamespaceAction::Connect { .. } => NamespaceEvent::Connected(Ok(())),
            NamespaceAction::Query(q) => {
                queries.push(q);
                NamespaceEvent::Queried(Ok(()))
            }
            NamespaceAction::UseNamespace(n) => {
                assert_eq!(n, "nsns");
                NamespaceEvent::NamespaceUsed(Ok(()))
            }
            NamespaceAction::PatchStatus { status, .. } => {
                assert!(status.created);
                assert_eq!(status.error, None);
                NamespaceEvent::StatusPatched(Ok(()))
            }
            NamespaceAction::Finish(r) => break r,
            other => panic!("unexpected {:?}", other),
        };
        action = r.step(event);
    };
    assert_eq!(result.unwrap(), ReconcileAction::Requeue(300));
    assert_eq!(queries[0], "DEFINE NS `nsns`;");
    assert_eq!(
        queries[1],
        "DEFINE USER OVERWRITE `ns_admin` ON NAMESPACE PASSWORD 'nspassword' ROLES OWNER;"
    );
}

// ---------------------------------------------------------------------------
// Database
// ---------------------------------------------------------------------------

fn database_resource() -> DatabaseResource {
    DatabaseResource {
        name: "dbdb".to_string(),
        namespace: Some("test-ns".to_string()),
        generation: Some(3),
        spec: DatabaseSpec {
            namespace_ref: reference("nsdb", None),
            schema_ref: reference("schemadb", None),
        },
        status: Some(DatabaseStatus {
            created: false,
            applied_schema_hash: Some("sha256:old".to_string()),
            applied_schema_generation: Some(1),
            error: None,
            observed_generation: None,
        }),
        owner_uids: Some(vec!["ns-uid".to_string()]),
    }
}

fn namespace_object(created: bool) -> NamespaceObject {
    NamespaceObject {
        name: "nsdb".to_string(),
        uid: Some("ns-uid".to_string()),
        spec: NamespaceSpec { name: None, instance_ref: reference("instdb", None), user_credentials: None },
        status: Some(NamespaceStatus { created, error: None, observed_generation: None }),
    }
}

#[test]
fn database_reconciliation_defines_database() {
    let (mut r, a) = database_ctl::start(database_resource());
    assert!(matches!(a, DatabaseAction::GetNamespace { ref namespace, ref name } if namespace == "test-ns" && name == "nsdb"));
    let a = r.step(DatabaseEvent::NamespaceFetched(Ok(namespace_object(true))));
    assert!(matches!(a, DatabaseAction::GetInstance { ref name, .. } if name == "instdb"));
    r.step(DatabaseEvent::InstanceFetched(Ok(instance_object(true))));
    r.step(DatabaseEvent::Resolved(Ok("mem://".to_string())));
    r.step(DatabaseEvent::Resolved(Ok("root".to_string())));
    assert!(matches!(r.step(DatabaseEvent::Resolved(Ok("pw".to_string()))), DatabaseAction::Connect { .. }));
    match r.step(DatabaseEvent::Connected(Ok(()))) {
        DatabaseAction::Query(q) => assert_eq!(q, "USE NS `nsdb`; DEFINE DB `dbdb`;"),
        other => panic!("unexpected {:?}", other),
    }
    match r.step(DatabaseEvent::Queried(Ok(()))) {
        DatabaseAction::GetSchema { namespace, name } => {
            assert_eq!(namespace, "test-ns");
            assert_eq!(name, "schemadb");
        }
        other => panic!("unexpected {:?}", other),
    }
    match r.step(DatabaseEvent::SchemaFetched(Err(Error::KubeError("not found".to_string())))) {
        DatabaseAction::PatchStatus { status, .. } => {
            assert!(status.created);
            assert_eq!(status.applied_schema_hash.as_deref(), Some("sha256:old"));
            assert_eq!(status.applied_schema_generation, Some(1));
            assert_eq!(status.observed_generation, Some(3));
        }
        other => panic!("unexpected {:?}", other),
    }
    assert!(matches!(r.step(DatabaseEvent::StatusPatched(Ok(()))), DatabaseAction::Finish(Ok(ReconcileAction::Requeue(300)))));
}

#[test]
fn database_waits_for_its_namespace() {
    let (mut r, _) = database_ctl::start(database_resource());
    match r.step(DatabaseEvent::NamespaceFetched(Ok(namespace_object(false)))) {
        DatabaseAction::PatchStatus { status, .. } => {
            assert!(!status.created);
            assert_eq!(status.error.as_deref(), Some("Referenced Namespace nsdb is not ready yet"));
            assert_eq!(status.applied_schema_generation, Some(1));
        }
        other => panic!("unexpected {:?}", other),
    }
    assert!(matches!(r.step(DatabaseEvent::StatusPatched(Ok(()))), DatabaseAction::Finish(Ok(ReconcileAction::Requeue(10)))));
}

#[test]
fn database_takes_ownership_when_missing() {
    let mut resource = database_resource();
    resource.owner_uids = None;
    let (mut r, _) = database_ctl::start(resource);
    let a = r.step(DatabaseEvent::NamespaceFetched(Ok(namespace_object(true))));
    assert!(matches!(a, DatabaseAction::SetOwner { ref name, .. } if name == "dbdb"));
    assert!(matches!(r.step(DatabaseEvent::OwnerSet(Ok(()))), DatabaseAction::GetInstance { .. }));
}

// ---------------------------------------------------------------------------
// Schema
// ---------------------------------------------------------------------------

#[test]
fn schema_hash_is_sha256_hex() {
    assert_eq!(
        schema_hash("abc"),
        "sha256:ba7816bf8f01cfea414140de5dae2223b00361a396177a9cb410ff61f20015ad"
    );
    assert_eq!(
        schema_hash(""),
        "sha256:e3b0c44298fc1c149afbf4c8996fb92427ae41e4649b934ca495991b7852b855"
    );
}

#[test]
fn decimal_numbers() {
    assert_eq!(decimal_string(0), "0");
    assert_eq!(decimal_string(1), "1");
    assert_eq!(decimal_string(-42), "-42");
    assert_eq!(decimal_string(i64::MIN), "-9223372036854775808");
    assert_eq!(decimal_string(i64::MAX), "9223372036854775807");
    assert_eq!(count_string(0), "0");
    assert_eq!(count_string(1207), "1207");
}

fn record(name: &str, phase: Option<&str>, created: Option<(i64, u32)>) -> RolloutRecord {
    RolloutRecord { name: name.to_string(), phase: phase.map(|p| p.to_string()), created }
}

#[test]
fn pruning_deletes_the_oldest_finished_rollouts() {
    let rs = vec![
        record("s-rollout-4", Some("Completed"), Some((400, 0))),
        record("s-rollout-1", Some("Completed"), Some((100, 0))),
        record("s-rollout-5", Some("Progressing"), Some((50, 0))),
        record("s-rollout-3", Some("Failed"), Some((300, 0))),
        record("s-rollout-2", Some("Completed"), Some((100, 5))),
        record("s-rollout-0", Some("Failed"), None),
    ];
    assert_eq!(select_rollouts_to_prune(&rs, 2), vec!["s-rollout-0", "s-rollout-1", "s-rollout-2"]);
    assert_eq!(select_rollouts_to_prune(&rs, 5), Vec::<String>::new());
    assert_eq!(select_rollouts_to_prune(&rs, 0).len(), 5);
    assert_eq!(select_rollouts_to_prune(&vec![], 0), Vec::<String>::new());
}

#[test]
fn pruning_keeps_listing_order_for_equal_times() {
    let rs = vec![
        record("b", Some("Completed"), Some((7, 7))),
        record("a", Some("Completed"), Some((7, 7))),
        record("c", Some("Failed"), Some((7, 7))),
    ];
    assert_eq!(select_rollouts_to_prune(&rs, 1), vec!["b", "a"]);
}

fn schema_resource(generation: Option<i64>, limit: Option<usize>) -> SchemaResource {
    SchemaResource {
        name: "schematest".to_string(),
        namespace: Some("test-ns".to_string()),
        generation,
        spec: SchemaSpec {
            revision_history_limit: limit,
            concurrency_limit: None,
            require_approval: None,
            schema: raw("DEFINE TABLE user SCHEMAFULL;"),
            variables: None,
        },
    }
}

#[test]
fn schema_reconciliation_creates_rollout_and_records_hash() {
    let (mut r, a) = schema_ctl::start(schema_resource(None, Some(1)));
    match a {
        SchemaAction::ResolveValue { source, namespace } => {
            assert_eq!(namespace, "test-ns");
            assert_eq!(source.value.as_deref(), Some("DEFINE TABLE user SCHEMAFULL;"));
        }
        other => panic!("unexpected {:?}", other),
    }
    match r.step(SchemaEvent::TextResolved(Ok("DEFINE TABLE user SCHEMAFULL;".to_string()))) {
        SchemaAction::GetRollout { namespace, name } => {
            assert_eq!(namespace, "test-ns");
            assert_eq!(name, "schematest-rollout-1");
        }
        other => panic!("unexpected {:?}", other),
    }
    match r.step(SchemaEvent::RolloutFetched(RolloutLookup::Missing)) {
        SchemaAction::CreateRollout { namespace, name, spec, schema_label } => {
            assert_eq!(namespace, "test-ns");
            assert_eq!(name, "schematest-rollout-1");
            assert_eq!(
                spec,
                RolloutSpec {
                    schema_ref: reference("schematest", Some("test-ns")),
                    generation: 1,
                    desired_schema: Some("DEFINE TABLE user SCHEMAFULL;".to_string()),
                }
            );
            assert_eq!(schema_label, "schematest");
        }
        other => panic!("unexpected {:?}", other),
    }
    match r.step(SchemaEvent::RolloutCreated(Ok(()))) {
        SchemaAction::ListRollouts { label_selector, .. } => assert_eq!(label_selector, "schema=schematest"),
        other => panic!("unexpected {:?}", other),
    }
    let listed = vec![
        record("schematest-rollout-0", Some("Completed"), Some((1, 0))),
        record("schematest-rollout-1", None, Some((2, 0))),
        record("old", Some("Failed"), Some((0, 0))),
    ];
    match r.step(SchemaEvent::RolloutsListed(Ok(listed))) {
        SchemaAction::DeleteRollouts { names, .. } => assert_eq!(names, vec!["old"]),
        other => panic!("unexpected {:?}", other),
    }
    match r.step(SchemaEvent::RolloutsDeleted) {
        SchemaAction::PatchStatus { status, name, .. } => {
            assert_eq!(name, "schematest");
            assert_eq!(
                status,
                SchemaStatus {
                    current_version_hash: Some(schema_hash("DEFINE TABLE user SCHEMAFULL;")),
                    active_rollout_name: Some("schematest-rollout-1".to_string()),
                    observed_generation: None,
                }
            );
        }
        other => panic!("unexpected {:?}", other),
    }
    assert!(matches!(r.step(SchemaEvent::StatusPatched(Ok(()))), SchemaAction::Finish(Ok(ReconcileAction::Requeue(300)))));
}

#[test]
fn schema_with_existing_rollout_skips_creation() {
    let (mut r, _) = schema_ctl::start(schema_resource(Some(7), None));
    match r.step(SchemaEvent::TextResolved(Ok("x".to_string()))) {
        SchemaAction::GetRollout { name, .. } => assert_eq!(name, "schematest-rollout-7"),
        other => panic!("unexpected {:?}", other),
    }
    assert!(matches!(r.step(SchemaEvent::RolloutFetched(RolloutLookup::Found)), SchemaAction::ListRollouts { .. }));
    assert!(matches!(r.step(SchemaEvent::RolloutsListed(Ok(vec![]))), SchemaAction::PatchStatus { .. }));
}

#[test]
fn schema_failures() {
    let (mut r, _) = schema_ctl::start(schema_resource(None, None));
    assert!(matches!(
        r.step(SchemaEvent::TextResolved(Err(Error::ConfigError("x".to_string())))),
        SchemaAction::Finish(Ok(ReconcileAction::Requeue(30)))
    ));
    let (mut r, _) = schema_ctl::start(schema_resource(None, None));
    r.step(SchemaEvent::TextResolved(Ok("x".to_string())));
    assert!(matches!(
        r.step(SchemaEvent::RolloutFetched(RolloutLookup::Failed(Error::KubeError("503".to_string())))),
        SchemaAction::Finish(Err(Error::KubeError(_)))
    ));
    let mut cluster_scoped = schema_resource(None, None);
    cluster_scoped.namespace = None;
    let (_, a) = schema_ctl::start(cluster_scoped);
    assert!(matches!(a, SchemaAction::Finish(Err(Error::InternalError(ref m))) if m == "Schema is cluster-scoped"));
}

// ---------------------------------------------------------------------------
// Rollout helpers
// ---------------------------------------------------------------------------

#[test]
fn update_condition_replaces_first_of_its_type_or_appends() {
    let mut cs = vec![condition("Approved", "False"), condition("Ready", "False")];
    update_condition(&mut cs, condition("Ready", "True"));
    assert_eq!(cs, vec![condition("Approved", "False"), condition("Ready", "True")]);
    update_condition(&mut cs, condition("Progressing", "True"));
    assert_eq!(cs.len(), 3);
    assert_eq!(cs[2], condition("Progressing", "True"));
    let once = cs.clone();
    update_condition(&mut cs, condition("Progressing", "True"));
    assert_eq!(cs, once);
}

#[test]
fn approval_policies() {
    assert!(needs_approval(None, true));
    assert!(!needs_approval(None, false));
    assert!(needs_approval(Some(ApprovalPolicy::All), false));
    assert!(!needs_approval(Some(ApprovalPolicy::NoneRequired), true));
    assert!(needs_approval(Some(ApprovalPolicy::Destructive), true));
    assert_eq!(ApprovalPolicy::default(), ApprovalPolicy::Destructive);
}

#[test]
fn transaction_and_lines() {
    assert_eq!(transaction_query("A;\nB;"), "BEGIN TRANSACTION;\nA;\nB;\nCOMMIT TRANSACTION;");
    assert_eq!(join_lines(&vec!["A;".to_string(), "B;".to_string()]), "A;\nB;");
    assert_eq!(join_lines(&vec![]), "");
}

fn db(name: &str, ns: Option<&str>, schema: LocalObjectReference, applied: Option<i64>) -> DatabaseObject {
    DatabaseObject {
        name: name.to_string(),
        namespace: ns.map(|n| n.to_string()),
        spec: DatabaseSpec { namespace_ref: reference("nsdb", None), schema_ref: schema },
        status: Some(DatabaseStatus {
            created: true,
            applied_schema_hash: None,
            applied_schema_generation: applied,
            error: None,
            observed_generation: None,
        }),
    }
}

#[test]
fn affected_and_pending_databases() {
    let dbs = vec![
        db("a", Some("app"), reference("s", None), Some(1)),
        db("b", Some("other"), reference("s", None), None),
        db("c", Some("other"), reference("s", Some("app")), Some(2)),
        db("d", Some("app"), reference("t", None), None),
    ];
    let affected = databases_using(&dbs, "s", "app");
    let names: Vec<&str> = affected.iter().map(|d| d.name.as_str()).collect();
    assert_eq!(names, vec!["a", "c"]);
    let pending = databases_without(&affected, 2);
    assert_eq!(pending.len(), 1);
    assert_eq!(pending[0].name, "a");
}

// ---------------------------------------------------------------------------
// Rollout
// ---------------------------------------------------------------------------

fn rollout_resource(annotations: Option<Vec<(String, String)>>) -> RolloutResource {
    RolloutResource {
        name: "s-rollout-2".to_string(),
        namespace: Some("app".to_string()),
        spec: RolloutSpec { schema_ref: reference("s", None), generation: 2, desired_schema: None },
        status: None,
        annotations,
    }
}

fn target_schema(policy: Option<ApprovalPolicy>) -> TargetSchema {
    TargetSchema {
        name: "s".to_string(),
        spec: SchemaSpec {
            revision_history_limit: None,
            concurrency_limit: Some(4),
            require_approval: policy,
            schema: raw("DEFINE TABLE person SCHEMAFULL;"),
            variables: None,
        },
        status: Some(SchemaStatus {
            current_version_hash: Some("sha256:abc".to_string()),
            active_rollout_name: None,
            observed_generation: None,
        }),
    }
}

fn live_with_extra_field() -> LiveSchema {
    LiveSchema {
        tables: vec![LiveTable {
            name: "person".to_string(),
            definition: "DEFINE TABLE person TYPE NORMAL SCHEMAFULL PERMISSIONS NONE".to_string(),
            fields: vec![NamedDefinition {
                name: "name".to_string(),
                definition: "DEFINE FIELD name ON person TYPE string PERMISSIONS FULL".to_string(),
            }],
            indexes: vec![],
            events: vec![],
        }],
        scopes: vec![],
        accesses: vec![],
    }
}

/// Runs a rollout up to the point where the change has been evaluated.
fn evaluated(annotations: Option<Vec<(String, String)>>, policy: Option<ApprovalPolicy>) -> (rollout_ctl::RolloutReconciler, RolloutAction) {
    let (mut r, a) = rollout_ctl::start(rollout_resource(annotations));
    assert!(matches!(a, RolloutAction::GetSchema { ref namespace, ref name } if namespace == "app" && name == "s"));
    let a = r.step(RolloutEvent::SchemaFetched(Ok(target_schema(policy))), "t0");
    assert!(matches!(a, RolloutAction::ResolveValue { .. }));
    let a = r.step(RolloutEvent::TextResolved(Ok("DEFINE TABLE person SCHEMAFULL;".to_string())), "t0");
    assert!(matches!(a, RolloutAction::ListDatabases));
    let dbs = vec![
        db("a", Some("app"), reference("s", None), Some(1)),
        db("b", Some("app"), reference("s", None), Some(2)),
        db("x", Some("app"), reference("other", None), None),
    ];
    match r.step(RolloutEvent::DatabasesListed(Ok(dbs)), "t0") {
        RolloutAction::FetchLiveSchema { database } => assert_eq!(database.name, "a"),
        other => panic!("unexpected {:?}", other),
    }
    let a = r.step(RolloutEvent::LiveSchemaFetched(Some(live_with_extra_field())), "t1");
    (r, a)
}

#[test]
fn destructive_rollout_is_blocked_without_approval() {
    let (mut r, a) = evaluated(None, None);
    match a {
        RolloutAction::PatchStatus { status, name, .. } => {
            assert_eq!(name, "s-rollout-2");
            assert_eq!(status.phase.as_deref(), Some("Blocked"));
            assert!(status.destructive);
            assert_eq!(status.diff.as_deref(), Some("REMOVE FIELD name ON TABLE person;"));
            assert_eq!(status.affected_databases, 2);
            assert!(!status.approved);
            assert_eq!(status.conditions.len(), 2);
            assert_eq!(status.conditions[0].type_, "Approved");
            assert_eq!(status.conditions[0].status, "False");
            assert_eq!(status.conditions[0].reason, "PendingApproval");
            assert_eq!(status.conditions[0].last_transition_time, "t1");
            assert_eq!(status.conditions[1].type_, "Progressing");
            assert_eq!(status.conditions[1].message, "Rollout blocked waiting for approval annotation.");
        }
        other => panic!("unexpected {:?}", other),
    }
    assert!(matches!(r.step(RolloutEvent::StatusPatched(Ok(())), "t2"), RolloutAction::Finish(Ok(ReconcileAction::Requeue(15)))));
}

#[test]
fn approved_rollout_applies_to_pending_databases() {
    let annotations = Some(vec![
        ("surreal-dbops.reliquo.io/approved".to_string(), "true".to_string()),
        ("surreal-dbops.reliquo.io/approved-at".to_string(), "noon".to_string()),
        ("surreal-dbops.reliquo.io/approved-by".to_string(), "alice".to_string()),
    ]);
    let (mut r, a) = evaluated(annotations, None);
    match a {
        RolloutAction::PatchStatus { status, .. } => {
            assert_eq!(status.phase.as_deref(), Some("Progressing"));
            assert!(status.approved);
            assert_eq!(status.approved_by.as_deref(), Some("alice"));
            assert_eq!(status.approved_at.as_deref(), Some("noon"));
            assert_eq!(status.conditions[0].reason, "ApprovedOrSafe");
            assert_eq!(status.conditions[1].message, "Applying schema to 2 databases.");
        }
        other => panic!("unexpected {:?}", other),
    }
    match r.step(RolloutEvent::StatusPatched(Ok(())), "t2") {
        RolloutAction::PatchStatus { status, .. } => assert_eq!(status.applied_databases, 1),
        other => panic!("unexpected {:?}", other),
    }
    match r.step(RolloutEvent::StatusPatched(Ok(())), "t3") {
        RolloutAction::ApplySchema { databases, query, generation, hash, concurrency } => {
            assert_eq!(databases.len(), 1);
            assert_eq!(databases[0].name, "a");
            assert_eq!(query, "BEGIN TRANSACTION;\nREMOVE FIELD name ON TABLE person;\nCOMMIT TRANSACTION;");
            assert_eq!(generation, 2);
            assert_eq!(hash, "sha256:abc");
            assert_eq!(concurrency, 4);
        }
        other => panic!("unexpected {:?}", other),
    }
    match r.step(RolloutEvent::DatabaseApplied(Ok(())), "t4") {
        RolloutAction::PatchProgress { status, .. } => assert_eq!(status.applied_databases, 2),
        other => panic!("unexpected {:?}", other),
    }
    match r.step(RolloutEvent::ProgressPatched, "t5") {
        RolloutAction::PatchStatus { status, .. } => {
            assert_eq!(status.phase.as_deref(), Some("Completed"));
            assert_eq!(status.completed_at.as_deref(), Some("t5"));
            let ready = status.conditions.iter().find(|c| c.type_ == "Ready").unwrap();
            assert_eq!(ready.status, "True");
            assert_eq!(ready.message, "All databases successfully migrated.");
            let progressing = status.conditions.iter().find(|c| c.type_ == "Progressing").unwrap();
            assert_eq!(progressing.reason, "Finished");
            assert_eq!(status.conditions.len(), 3);
        }
        other => panic!("unexpected {:?}", other),
    }
    assert!(matches!(r.step(RolloutEvent::StatusPatched(Ok(())), "t6"), RolloutAction::Finish(Ok(ReconcileAction::AwaitChange))));
}

#[test]
fn failed_database_marks_rollout_failed() {
    let (mut r, _) = evaluated(None, Some(ApprovalPolicy::NoneRequired));
    r.step(RolloutEvent::StatusPatched(Ok(())), "t");
    assert!(matches!(r.step(RolloutEvent::StatusPatched(Ok(())), "t"), RolloutAction::ApplySchema { .. }));
    r.step(RolloutEvent::DatabaseApplied(Err(Error::SurrealError("boom".to_string()))), "t");
    match r.step(RolloutEvent::ProgressPatched, "t9") {
        RolloutAction::PatchStatus { status, .. } => {
            assert_eq!(status.phase.as_deref(), Some("Failed"));
            assert_eq!(status.failed_databases, 1);
            assert_eq!(status.completed_at, None);
            let ready = status.conditions.iter().find(|c| c.type_ == "Ready").unwrap();
            assert_eq!(ready.message, "Rollout completed with 1 failures.");
        }
        other => panic!("unexpected {:?}", other),
    }
}

#[test]
fn rollout_without_databases_completes_with_empty_diff() {
    let (mut r, _) = rollout_ctl::start(rollout_resource(None));
    r.step(RolloutEvent::SchemaFetched(Ok(target_schema(Some(ApprovalPolicy::All)))), "t");
    r.step(RolloutEvent::TextResolved(Ok("DEFINE TABLE a;".to_string())), "t");
    match r.step(RolloutEvent::DatabasesListed(Ok(vec![])), "t") {
        RolloutAction::PatchStatus { status, .. } => {
            assert_eq!(status.phase.as_deref(), Some("Blocked"));
            assert_eq!(status.diff.as_deref(), Some(""));
            assert_eq!(status.affected_databases, 0);
        }
        other => panic!("unexpected {:?}", other),
    }
    let (mut r, _) = rollout_ctl::start(rollout_resource(None));
    r.step(RolloutEvent::SchemaFetched(Ok(target_schema(None))), "t");
    r.step(RolloutEvent::TextResolved(Ok("DEFINE TABLE a;".to_string())), "t");
    assert!(matches!(r.step(RolloutEvent::DatabasesListed(Ok(vec![])), "t"), RolloutAction::PatchStatus { .. }));
    r.step(RolloutEvent::StatusPatched(Ok(())), "t");
    match r.step(RolloutEvent::StatusPatched(Ok(())), "done") {
        RolloutAction::PatchStatus { status, .. } => {
            assert_eq!(status.phase.as_deref(), Some("Completed"));
            assert_eq!(status.completed_at.as_deref(), Some("done"));
        }
        other => panic!("unexpected {:?}", other),
    }
}

#[test]
fn rollout_failures() {
    let (mut r, _) = rollout_ctl::start(rollout_resource(None));
    assert!(matches!(
        r.step(RolloutEvent::SchemaFetched(Err(Error::KubeError("404".to_string()))), "t"),
        RolloutAction::Finish(Ok(ReconcileAction::Requeue(30)))
    ));
    let (mut r, _) = rollout_ctl::start(rollout_resource(None));
    r.step(RolloutEvent::SchemaFetched(Ok(target_schema(None))), "t");
    r.step(RolloutEvent::TextResolved(Ok("x".to_string())), "t");
    assert!(matches!(
        r.step(RolloutEvent::DatabasesListed(Err(Error::KubeError("forbidden".to_string()))), "t"),
        RolloutAction::Finish(Err(Error::KubeError(_)))
    ));
    let mut scoped = rollout_resource(None);
    scoped.namespace = None;
    let (_, a) = rollout_ctl::start(scoped);
    assert!(matches!(a, RolloutAction::Finish(Err(Error::InternalError(ref m))) if m == "Rollout is cluster-scoped"));
    let _ = RolloutStatus::default();
}

#[test]
fn memory_endpoints_use_the_shared_engine() {
    assert_eq!(connection_mode("mem://"), ConnectionMode::SharedMemory);
    assert_eq!(connection_mode("mem://x"), ConnectionMode::SharedMemory);
    assert_eq!(connection_mode("ws://surrealdb:8000"), ConnectionMode::SignIn);
    assert_eq!(connection_mode("mem:/"), ConnectionMode::SignIn);
}

#[test]
fn existing_surreal_namespace_counts_as_success() {
    let resource = NamespaceResource {
        name: "nsns".to_string(),
        namespace: Some("test-ns".to_string()),
        generation: None,
        spec: NamespaceSpec { name: Some("shared".to_string()), instance_ref: reference("instns", None), user_credentials: None },
        owner_uids: Some(vec!["uid-1".to_string()]),
    };
    let (mut r, _) = namespace_ctl::start(resource);
    r.step(NamespaceEvent::InstanceFetched(Ok(instance_object(true))));
    r.step(NamespaceEvent::Resolved(Ok("ws://db".to_string())));
    r.step(NamespaceEvent::Resolved(Ok("root".to_string())));
    r.step(NamespaceEvent::Resolved(Ok("pw".to_string())));
    match r.step(NamespaceEvent::Connected(Ok(()))) {
        NamespaceAction::Query(q) => assert_eq!(q, "DEFINE NS `shared`;"),
        other => panic!("unexpected {:?}", other),
    }
    match r.step(NamespaceEvent::Queried(Err("The namespace 'shared' ALREADY EXISTS".to_string()))) {
        NamespaceAction::PatchStatus { status, .. } => {
            assert!(status.created);
            assert_eq!(status.error, None);
        }
        other => panic!("unexpected {:?}", other),
    }
}

#[test]
fn other_namespace_errors_are_reported() {
    let resource = NamespaceResource {
        name: "nsns".to_string(),
        namespace: Some("test-ns".to_string()),
        generation: None,
        spec: NamespaceSpec { name: None, instance_ref: reference("instns", None), user_credentials: None },
        owner_uids: Some(vec!["uid-1".to_string()]),
    };
    let (mut r, _) = namespace_ctl::start(resource);
    r.step(NamespaceEvent::InstanceFetched(Ok(instance_object(true))));
    r.step(NamespaceEvent::Resolved(Ok("ws://db".to_string())));
    r.step(NamespaceEvent::Resolved(Ok("root".to_string())));
    r.step(NamespaceEvent::Resolved(Ok("pw".to_string())));
    r.step(NamespaceEvent::Connected(Ok(())));
    match r.step(NamespaceEvent::Queried(Err("permission denied".to_string()))) {
        NamespaceAction::PatchStatus { status, .. } => {
            assert!(!status.created);
            assert_eq!(status.error.as_deref(), Some("Failed to define namespace in SurrealDB: permission denied"));
        }
        other => panic!("unexpected {:?}", other),
    }
    let (mut r, _) = namespace_ctl::start(NamespaceResource {
        name: "n".to_string(),
        namespace: Some("test-ns".to_string()),
        generation: None,
        spec: NamespaceSpec { name: None, instance_ref: reference("instns", None), user_credentials: None },
        owner_uids: None,
    });
    match r.step(NamespaceEvent::InstanceFetched(Ok(instance_object(false)))) {
        NamespaceAction::PatchStatus { status, .. } => {
            assert_eq!(status.error.as_deref(), Some("Referenced Instance instns is not connected yet"));
        }
        other => panic!("unexpected {:?}", other),
    }
}

// ---------------------------------------------------------------------------
// Behaviour the operator's suite asks for
// ---------------------------------------------------------------------------

fn defined_database() -> database_ctl::DatabaseReconciler {
    let (mut r, _) = database_ctl::start(database_resource());
    r.step(DatabaseEvent::NamespaceFetched(Ok(namespace_object(true))));
    r.step(DatabaseEvent::InstanceFetched(Ok(instance_object(true))));
    r.step(DatabaseEvent::Resolved(Ok("mem://".to_string())));
    r.step(DatabaseEvent::Resolved(Ok("root".to_string())));
    r.step(DatabaseEvent::Resolved(Ok("pw".to_string())));
    r.step(DatabaseEvent::Connected(Ok(())));
    r
}

#[test]
fn database_marks_the_active_rollout_once() {
    let mut r = defined_database();
    assert!(matches!(r.step(DatabaseEvent::Queried(Ok(()))), DatabaseAction::GetSchema { .. }));
    match r.step(DatabaseEvent::SchemaFetched(Ok(Some("schemadb-rollout-2".to_string())))) {
        DatabaseAction::GetRollout { namespace, name } => {
            assert_eq!(namespace, "test-ns");
            assert_eq!(name, "schemadb-rollout-2");
        }
        other => panic!("unexpected {:?}", other),
    }
    match r.step(DatabaseEvent::RolloutFetched(Ok(None))) {
        DatabaseAction::AnnotateRollout { namespace, name, key, value } => {
            assert_eq!(namespace, "test-ns");
            assert_eq!(name, "schemadb-rollout-2");
            assert_eq!(key, "surreal-dbops.reliquo.io/triggered-by-database");
            assert_eq!(value, "test-ns/dbdb");
        }
        other => panic!("unexpected {:?}", other),
    }
    match r.step(DatabaseEvent::RolloutAnnotated(Ok(()))) {
        DatabaseAction::PatchStatus { status, .. } => assert!(status.created),
        other => panic!("unexpected {:?}", other),
    }
    assert!(matches!(r.step(DatabaseEvent::StatusPatched(Ok(()))), DatabaseAction::Finish(Ok(ReconcileAction::Requeue(300)))));

    // Once marked, the Rollout is left as it is.
    let mut r = defined_database();
    r.step(DatabaseEvent::Queried(Ok(())));
    r.step(DatabaseEvent::SchemaFetched(Ok(Some("schemadb-rollout-2".to_string()))));
    let marked = Some(vec![(
        "surreal-dbops.reliquo.io/triggered-by-database".to_string(),
        "test-ns/other".to_string(),
    )]);
    assert!(matches!(r.step(DatabaseEvent::RolloutFetched(Ok(marked))), DatabaseAction::PatchStatus { .. }));

    // A Schema without an active Rollout marks nothing.
    let mut r = defined_database();
    r.step(DatabaseEvent::Queried(Ok(())));
    assert!(matches!(r.step(DatabaseEvent::SchemaFetched(Ok(None))), DatabaseAction::PatchStatus { .. }));
}

#[test]
fn rollout_uses_its_schema_snapshot() {
    let mut resource = rollout_resource(None);
    resource.spec.desired_schema = Some("DEFINE TABLE person SCHEMAFULL; DEFINE FIELD name ON person TYPE string;".to_string());
    let (mut r, _) = rollout_ctl::start(resource);
    assert!(matches!(
        r.step(RolloutEvent::SchemaFetched(Ok(target_schema(None))), "t0"),
        RolloutAction::ListDatabases
    ));
    let dbs = vec![db("a", Some("app"), reference("s", None), Some(1))];
    r.step(RolloutEvent::DatabasesListed(Ok(dbs)), "t0");
    match r.step(RolloutEvent::LiveSchemaFetched(Some(live_with_extra_field())), "t1") {
        RolloutAction::PatchStatus { status, .. } => {
            assert_eq!(status.phase.as_deref(), Some("Progressing"));
            assert!(!status.destructive);
            assert_eq!(status.diff.as_deref(), Some(""));
        }
        other => panic!("unexpected {:?}", other),
    }
    // An empty snapshot means none was taken: the Schema's text is rendered.
    let mut resource = rollout_resource(None);
    resource.spec.desired_schema = Some(String::new());
    let (mut r, _) = rollout_ctl::start(resource);
    assert!(matches!(
        r.step(RolloutEvent::SchemaFetched(Ok(target_schema(None))), "t0"),
        RolloutAction::ResolveValue { .. }
    ));
}

#[test]
fn unreadable_live_schema_blocks_as_destructive() {
    let (mut r, _) = rollout_ctl::start(rollout_resource(None));
    r.step(RolloutEvent::SchemaFetched(Ok(target_schema(Some(ApprovalPolicy::NoneRequired)))), "t0");
    r.step(RolloutEvent::TextResolved(Ok("DEFINE TABLE user SCHEMAFULL;".to_string())), "t0");
    let dbs = vec![db("a", Some("app"), reference("s", None), None)];
    assert!(matches!(r.step(RolloutEvent::DatabasesListed(Ok(dbs)), "t0"), RolloutAction::FetchLiveSchema { .. }));
    match r.step(RolloutEvent::LiveSchemaFetched(None), "t1") {
        RolloutAction::PatchStatus { status, .. } => {
            assert_eq!(status.phase.as_deref(), Some("Blocked"));
            assert!(status.destructive);
            assert_eq!(status.conditions[0].type_, "Approved");
            assert_eq!(status.conditions[0].reason, "DiffUnavailable");
        }
        other => panic!("unexpected {:?}", other),
    }
    assert!(matches!(r.step(RolloutEvent::StatusPatched(Ok(())), "t2"), RolloutAction::Finish(Ok(ReconcileAction::Requeue(15)))));
}

#[test]
fn completed_rollout_is_left_alone() {
    let mut resource = rollout_resource(None);
    let mut status = RolloutStatus::default();
    status.phase = Some("Completed".to_string());
    status.affected_databases = 1;
    status.applied_databases = 1;
    resource.status = Some(status);
    let (_, a) = rollout_ctl::start(resource);
    assert!(matches!(a, RolloutAction::Finish(Ok(ReconcileAction::AwaitChange))));
}

#[test]
fn databases_at_a_later_generation_are_not_migrated_again() {
    let dbs = vec![
        db("old", Some("app"), reference("s", None), Some(1)),
        db("same", Some("app"), reference("s", None), Some(2)),
        db("newer", Some("app"), reference("s", None), Some(3)),
        db("never", Some("app"), reference("s", None), None),
    ];
    let pending = databases_without(&dbs, 2);
    let names: Vec<&str> = pending.iter().map(|d| d.name.as_str()).collect();
    assert_eq!(names, vec!["old", "never"]);
}
