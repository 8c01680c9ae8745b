//! Reconciliation of Database resources: check the referenced Namespace,
//! make it the owner, find its Instance and create the SurrealDB database.
use crate::controller::namespace::InstanceObject;
use crate::controller::utils::{lookup, lookup_exec, resolve_namespace};
use crate::controller::{
    concat3_strs, concat4_strs, concat5_strs, error_text, has_owner, owned_by, Error,
    ReconcileAction,
};
use crate::crd::{
    clone_opt_string, DatabaseSpec, DatabaseStatus, NamespaceSpec, NamespaceStatus,
    ValueOrRefSource,
};
use crate::text::{append_chars, chars_of, string_of};
use vstd::prelude::*;

verus! {

/// A Database resource as the reconciler reads it.
#[derive(Clone, Debug)]
pub struct DatabaseResource {
    pub name: String,
    pub namespace: Option<String>,
    pub generation: Option<i64>,
    pub spec: DatabaseSpec,
    pub status: Option<DatabaseStatus>,
    /// The uids of its owner references, if it has any.
    pub owner_uids: Option<Vec<String>>,
}

/// A Namespace as a reconciler reads it from the cluster.
#[derive(Clone, Debug)]
pub struct NamespaceObject {
    pub name: String,
    pub uid: Option<String>,
    pub spec: NamespaceSpec,
    pub status: Option<NamespaceStatus>,
}

#[derive(Debug)]
pub enum DatabaseAction {
    GetNamespace { namespace: String, name: String },
    /// Make the Namespace just read the controller owner of the Database
    /// resource `name` in `namespace`.
    SetOwner { namespace: String, name: String },
    GetInstance { namespace: String, name: String },
    ResolveValue { source: ValueOrRefSource, namespace: String },
    Connect { endpoint: String, username: String, password: String },
    /// Run a SurrealQL query.
    Query(String),
    /// Read the Schema `name` in `namespace`.
    GetSchema { namespace: String, name: String },
    /// Read the Rollout `name` in `namespace`.
    GetRollout { namespace: String, name: String },
    /// Add the annotation `key` with `value` to the Rollout `name`.
    AnnotateRollout { namespace: String, name: String, key: String, value: String },
    PatchStatus { namespace: String, name: String, status: DatabaseStatus },
    Finish(Result<ReconcileAction, Error>),
}

#[derive(Debug)]
pub enum DatabaseEvent {
    NamespaceFetched(Result<NamespaceObject, String>),
    OwnerSet(Result<(), Error>),
    InstanceFetched(Result<InstanceObject, String>),
    Resolved(Result<String, Error>),
    Connected(Result<(), String>),
    Queried(Result<(), String>),
    /// The name of the Schema's active Rollout, as its status records it.
    SchemaFetched(Result<Option<String>, Error>),
    /// The annotations of the Rollout.
    RolloutFetched(Result<Option<Vec<(String, String)>>, Error>),
    RolloutAnnotated(Result<(), Error>),
    StatusPatched(Result<(), Error>),
}

#[derive(Clone, Copy, Debug, PartialEq, Eq, Structural)]
pub enum DatabasePhase {
    FetchingNamespace,
    SettingOwner,
    FetchingInstance,
    ResolvingEndpoint,
    ResolvingUsername,
    ResolvingPassword,
    Connecting,
    DefiningDatabase,
    FetchingSchema,
    FetchingRollout,
    AnnotatingRollout,
    Reporting(ReconcileAction),
    Done,
}

#[derive(Debug)]
pub struct DatabaseReconciler {
    pub resource: DatabaseResource,
    /// The namespace of the resource.
    pub namespace: String,
    /// The namespace of the referenced Namespace resource.
    pub ns_namespace: String,
    /// The namespace of the Instance.
    pub instance_namespace: String,
    pub ns_object: Option<NamespaceObject>,
    pub instance: Option<InstanceObject>,
    pub phase: DatabasePhase,
    pub endpoint: String,
    pub username: String,
    /// The namespace of the referenced Schema.
    pub schema_namespace: String,
    /// The Schema's active Rollout.
    pub rollout_name: String,
}

impl DatabaseReconciler {
    pub open spec fn accepts(&self, event: DatabaseEvent) -> bool {
        match self.phase {
            DatabasePhase::FetchingNamespace => event is NamespaceFetched,
            DatabasePhase::SettingOwner => event is OwnerSet && self.ns_object is Some,
            DatabasePhase::FetchingInstance => event is InstanceFetched && self.ns_object is Some,
            DatabasePhase::ResolvingEndpoint | DatabasePhase::ResolvingUsername
            | DatabasePhase::ResolvingPassword => event is Resolved && self.instance is Some,
            DatabasePhase::Connecting => event is Connected && self.ns_object is Some,
            DatabasePhase::DefiningDatabase => event is Queried && self.ns_object is Some,
            DatabasePhase::FetchingSchema => event is SchemaFetched,
            DatabasePhase::FetchingRollout => event is RolloutFetched,
            DatabasePhase::AnnotatingRollout => event is RolloutAnnotated,
            DatabasePhase::Reporting(_) => event is StatusPatched,
            DatabasePhase::Done => false,
        }
    }

    /// How many actions are left at most.
    pub open spec fn remaining(&self) -> nat {
        match self.phase {
            DatabasePhase::FetchingNamespace => 12,
            DatabasePhase::SettingOwner => 11,
            DatabasePhase::FetchingInstance => 10,
            DatabasePhase::ResolvingEndpoint => 9,
            DatabasePhase::ResolvingUsername => 8,
            DatabasePhase::ResolvingPassword => 7,
            DatabasePhase::Connecting => 6,
            DatabasePhase::DefiningDatabase => 5,
            DatabasePhase::FetchingSchema => 4,
            DatabasePhase::FetchingRollout => 3,
            DatabasePhase::AnnotatingRollout => 2,
            DatabasePhase::Reporting(_) => 1,
            DatabasePhase::Done => 0,
        }
    }
}

/// The schema hash the Database's status already records.
pub open spec fn kept_hash(r: DatabaseResource) -> Option<String> {
    match r.status {
        Some(st) => st.applied_schema_hash,
        None => None,
    }
}

/// The schema generation the Database's status already records.
pub open spec fn kept_generation(r: DatabaseResource) -> Option<i64> {
    match r.status {
        Some(st) => st.applied_schema_generation,
        None => None,
    }
}

/// `t` and `a` report this status of the Database and then end with `then`.
pub open spec fn reports(
    s: DatabaseReconciler,
    t: DatabaseReconciler,
    a: DatabaseAction,
    created: bool,
    hash: Option<String>,
    generation: Option<i64>,
    error: Option<Seq<char>>,
    then: ReconcileAction,
) -> bool {
    &&& t.phase == DatabasePhase::Reporting(then)
    &&& a matches DatabaseAction::PatchStatus { namespace, name, status }
    &&& namespace == s.namespace
    &&& name == s.resource.name
    &&& status.created == created
    &&& status.applied_schema_hash == hash
    &&& status.applied_schema_generation == generation
    &&& match error {
        Some(e) => status.error matches Some(m) && m@ == e,
        None => status.error is None,
    }
    &&& status.observed_generation == s.resource.generation
}

/// A failure that clears the applied schema fields, requeued after 30 seconds.
pub open spec fn fails(s: DatabaseReconciler, t: DatabaseReconciler, a: DatabaseAction, m: Seq<char>) -> bool {
    reports(s, t, a, false, None, None, Some(m), ReconcileAction::Requeue(30))
}

/// A failure that keeps the applied schema fields, requeued after `secs`.
pub open spec fn fails_keeping(
    s: DatabaseReconciler,
    t: DatabaseReconciler,
    a: DatabaseAction,
    m: Seq<char>,
    secs: u64,
) -> bool {
    reports(
        s,
        t,
        a,
        false,
        kept_hash(s.resource),
        kept_generation(s.resource),
        Some(m),
        ReconcileAction::Requeue(secs),
    )
}

/// Success, keeping the applied schema fields, requeued after 300 seconds.
pub open spec fn succeeds(s: DatabaseReconciler, t: DatabaseReconciler, a: DatabaseAction) -> bool {
    reports(
        s,
        t,
        a,
        true,
        kept_hash(s.resource),
        kept_generation(s.resource),
        None,
        ReconcileAction::Requeue(300),
    )
}

/// The annotation that marks a Rollout as triggered by a Database.
pub open spec fn trigger_key() -> Seq<char> {
    "surreal-dbops.reliquo.io/triggered-by-database"@
}

/// A Rollout's annotations already hold the trigger annotation.
pub open spec fn trigger_recorded(annotations: Option<Vec<(String, String)>>) -> bool {
    match annotations {
        Some(v) => lookup(v@, trigger_key()) is Some,
        None => false,
    }
}

/// `USE NS `<ns>`; DEFINE DB `<db>`;`
pub open spec fn define_db_query(ns: Seq<char>, db: Seq<char>) -> Seq<char> {
    "USE NS `"@ + ns + "`; DEFINE DB `"@ + db + "`;"@
}

/// The step from `s` on `e` to `t` with action `a`.
pub open spec fn database_next(
    s: DatabaseReconciler,
    e: DatabaseEvent,
    t: DatabaseReconciler,
    a: DatabaseAction,
) -> bool {
    let nso = s.ns_object->0;
    let inst = s.instance->0;
    match (s.phase, e) {
        (DatabasePhase::FetchingNamespace, DatabaseEvent::NamespaceFetched(Err(m))) => fails(
            s,
            t,
            a,
            "Failed to get Namespace "@ + s.resource.spec.namespace_ref.name@ + ": "@ + m@,
        ),
        (DatabasePhase::FetchingNamespace, DatabaseEvent::NamespaceFetched(Ok(n))) => {
            &&& t.ns_object == Some(n)
            &&& match n.status {
                None => fails_keeping(s, t, a, "Namespace "@ + n.name@ + " has no status yet"@, 10),
                Some(st) => if !st.created {
                    fails_keeping(
                        s,
                        t,
                        a,
                        match st.error {
                            Some(err) => "Referenced Namespace "@ + n.name@ + " is unhealthy: "@
                                + err@,
                            None => "Referenced Namespace "@ + n.name@ + " is not ready yet"@,
                        },
                        10,
                    )
                } else if !owned_by(s.resource.owner_uids, n.uid) {
                    t.phase == DatabasePhase::SettingOwner && a == DatabaseAction::SetOwner {
                        namespace: s.namespace,
                        name: s.resource.name,
                    }
                } else {
                    &&& t.phase == DatabasePhase::FetchingInstance
                    &&& t.instance_namespace@ == match n.spec.instance_ref.namespace {
                        Some(x) => x@,
                        None => s.ns_namespace@,
                    }
                    &&& a == DatabaseAction::GetInstance {
                        namespace: t.instance_namespace,
                        name: n.spec.instance_ref.name,
                    }
                },
            }
        },
        (DatabasePhase::SettingOwner, DatabaseEvent::OwnerSet(Err(err))) => a
            == DatabaseAction::Finish(Err(err)),
        (DatabasePhase::SettingOwner, DatabaseEvent::OwnerSet(Ok(()))) => {
            &&& t.phase == DatabasePhase::FetchingInstance
            &&& t.ns_object == s.ns_object
            &&& t.instance_namespace@ == match nso.spec.instance_ref.namespace {
                Some(x) => x@,
                None => s.ns_namespace@,
            }
            &&& a == DatabaseAction::GetInstance {
                namespace: t.instance_namespace,
                name: nso.spec.instance_ref.name,
            }
        },
        (DatabasePhase::FetchingInstance, DatabaseEvent::InstanceFetched(Err(m))) => fails(
            s,
            t,
            a,
            "Failed to get Instance "@ + nso.spec.instance_ref.name@ + " from Namespace "@
                + nso.name@ + ": "@ + m@,
        ),
        (DatabasePhase::FetchingInstance, DatabaseEvent::InstanceFetched(Ok(i))) => {
            &&& t.phase == DatabasePhase::ResolvingEndpoint
            &&& t.ns_object == s.ns_object
            &&& t.instance == Some(i)
            &&& t.instance_namespace == s.instance_namespace
            &&& a == DatabaseAction::ResolveValue {
                source: i.spec.connection_string,
                namespace: s.instance_namespace,
            }
        },
        (DatabasePhase::ResolvingEndpoint, DatabaseEvent::Resolved(Ok(v))) => {
            &&& t.phase == DatabasePhase::ResolvingUsername
            &&& t.ns_object == s.ns_object
            &&& t.instance == s.instance
            &&& t.instance_namespace == s.instance_namespace
            &&& t.endpoint == v
            &&& a == DatabaseAction::ResolveValue {
                source: inst.spec.username,
                namespace: s.instance_namespace,
            }
        },
        (DatabasePhase::ResolvingEndpoint, DatabaseEvent::Resolved(Err(err))) => fails(
            s,
            t,
            a,
            "Failed to resolve connectionString for Instance "@ + inst.name@ + ": "@ + error_text(
                err,
            ),
        ),
        (DatabasePhase::ResolvingUsername, DatabaseEvent::Resolved(Ok(v))) => {
            &&& t.phase == DatabasePhase::ResolvingPassword
            &&& t.ns_object == s.ns_object
            &&& t.instance == s.instance
            &&& t.instance_namespace == s.instance_namespace
            &&& t.endpoint == s.endpoint
            &&& t.username == v
            &&& a == DatabaseAction::ResolveValue {
                source: inst.spec.password,
                namespace: s.instance_namespace,
            }
        },
        (DatabasePhase::ResolvingUsername, DatabaseEvent::Resolved(Err(err))) => fails(
            s,
            t,
            a,
            "Failed to resolve username for Instance "@ + inst.name@ + ": "@ + error_text(err),
        ),
        (DatabasePhase::ResolvingPassword, DatabaseEvent::Resolved(Ok(v))) => {
            &&& t.phase == DatabasePhase::Connecting
            &&& t.ns_object == s.ns_object
            &&& t.endpoint == s.endpoint
            &&& a == DatabaseAction::Connect { endpoint: s.endpoint, username: s.username, password: v }
        },
        (DatabasePhase::ResolvingPassword, DatabaseEvent::Resolved(Err(err))) => fails(
            s,
            t,
            a,
            "Failed to resolve password for Instance "@ + inst.name@ + ": "@ + error_text(err),
        ),
        (DatabasePhase::Connecting, DatabaseEvent::Connected(Ok(()))) => {
            &&& t.phase == DatabasePhase::DefiningDatabase
            &&& t.ns_object == s.ns_object
            &&& a matches DatabaseAction::Query(q)
            &&& q@ == define_db_query(nso.name@, s.resource.name@)
        },
        (DatabasePhase::Connecting, DatabaseEvent::Connected(Err(m))) => fails_keeping(
            s,
            t,
            a,
            "Failed to connect to SurrealDB endpoint "@ + s.endpoint@ + ": "@ + m@,
            30,
        ),
        (DatabasePhase::DefiningDatabase, DatabaseEvent::Queried(Err(m))) => fails(
            s,
            t,
            a,
            "Failed to define database in SurrealDB: "@ + m@,
        ),
        (DatabasePhase::DefiningDatabase, DatabaseEvent::Queried(Ok(()))) => {
            &&& t.phase == DatabasePhase::FetchingSchema
            &&& t.schema_namespace@ == match s.resource.spec.schema_ref.namespace {
                Some(x) => x@,
                None => s.namespace@,
            }
            &&& a == DatabaseAction::GetSchema {
                namespace: t.schema_namespace,
                name: s.resource.spec.schema_ref.name,
            }
        },
        (DatabasePhase::FetchingSchema, DatabaseEvent::SchemaFetched(Ok(Some(rollout)))) => {
            &&& t.phase == DatabasePhase::FetchingRollout
            &&& t.schema_namespace == s.schema_namespace
            &&& t.rollout_name == rollout
            &&& a == DatabaseAction::GetRollout { namespace: s.schema_namespace, name: rollout }
        },
        (DatabasePhase::FetchingSchema, DatabaseEvent::SchemaFetched(_)) => succeeds(s, t, a),
        (DatabasePhase::FetchingRollout, DatabaseEvent::RolloutFetched(Ok(annotations))) => if trigger_recorded(
            annotations,
        ) {
            succeeds(s, t, a)
        } else {
            &&& t.phase == DatabasePhase::AnnotatingRollout
            &&& a matches DatabaseAction::AnnotateRollout { namespace, name, key, value }
            &&& namespace == s.schema_namespace
            &&& name == s.rollout_name
            &&& key@ == trigger_key()
            &&& value@ == s.namespace@ + "/"@ + s.resource.name@
        },
        (DatabasePhase::FetchingRollout, DatabaseEvent::RolloutFetched(Err(_))) => succeeds(s, t, a),
        (DatabasePhase::AnnotatingRollout, DatabaseEvent::RolloutAnnotated(_)) => succeeds(s, t, a),
        (DatabasePhase::Reporting(then), DatabaseEvent::StatusPatched(Ok(()))) => a
            == DatabaseAction::Finish(Ok(then)),
        (DatabasePhase::Reporting(_), DatabaseEvent::StatusPatched(Err(err))) => a
            == DatabaseAction::Finish(Err(err)),
        _ => false,
    }
}

/// Starts the reconciliation of a Database: a cluster-scoped resource is an
/// internal error; otherwise the referenced Namespace is read.
pub fn start(resource: DatabaseResource) -> (r: (DatabaseReconciler, DatabaseAction))
    ensures
        match resource.namespace {
            None => {
                &&& r.0.phase == DatabasePhase::Done
                &&& r.1 matches DatabaseAction::Finish(Err(Error::InternalError(m)))
                &&& m@ == "Database is cluster-scoped"@
            },
            Some(ns) => {
                &&& r.0.phase == DatabasePhase::FetchingNamespace
                &&& r.0.resource == resource
                &&& r.0.namespace == ns
                &&& r.0.ns_namespace@ == match resource.spec.namespace_ref.namespace {
                    Some(n) => n@,
                    None => ns@,
                }
                &&& r.0.ns_object is None
                &&& r.0.instance is None
                &&& r.1 == DatabaseAction::GetNamespace {
                    namespace: r.0.ns_namespace,
                    name: resource.spec.namespace_ref.name,
                }
            },
        },
{
    match clone_opt_string(&resource.namespace) {
        None => (
            DatabaseReconciler {
                resource,
                namespace: String::new(),
                ns_namespace: String::new(),
                instance_namespace: String::new(),
                ns_object: None,
                instance: None,
                phase: DatabasePhase::Done,
                endpoint: String::new(),
                username: String::new(),
                schema_namespace: String::new(),
                rollout_name: String::new(),
            },
            DatabaseAction::Finish(Err(Error::InternalError("Database is cluster-scoped".to_owned()))),
        ),
        Some(ns) => {
            let ns_namespace = resolve_namespace(&resource.spec.namespace_ref, ns.as_str());
            let action = DatabaseAction::GetNamespace {
                namespace: ns_namespace.clone(),
                name: resource.spec.namespace_ref.name.clone(),
            };
            (
                DatabaseReconciler {
                    resource,
                    namespace: ns,
                    ns_namespace,
                    instance_namespace: String::new(),
                    ns_object: None,
                    instance: None,
                    phase: DatabasePhase::FetchingNamespace,
                    endpoint: String::new(),
                    username: String::new(),
                    schema_namespace: String::new(),
                    rollout_name: String::new(),
                },
                action,
            )
        },
    }
}

impl DatabaseReconciler {
    fn report(
        &mut self,
        created: bool,
        hash: Option<String>,
        generation: Option<i64>,
        error: Option<String>,
        then: ReconcileAction,
    ) -> (a: DatabaseAction)
        ensures
            final(self).resource == old(self).resource,
            final(self).namespace == old(self).namespace,
            final(self).ns_namespace == old(self).ns_namespace,
            final(self).ns_object == old(self).ns_object,
            final(self).instance == old(self).instance,
            reports(
                *old(self),
                *final(self),
                a,
                created,
                hash,
                generation,
                match error {
                    Some(e) => Some(e@),
                    None => None,
                },
                then,
            ),
    {
        self.phase = DatabasePhase::Reporting(then);
        DatabaseAction::PatchStatus {
            namespace: self.namespace.clone(),
            name: self.resource.name.clone(),
            status: DatabaseStatus {
                created,
                applied_schema_hash: hash,
                applied_schema_generation: generation,
                error,
                observed_generation: self.resource.generation,
            },
        }
    }

    fn kept(&self) -> (r: (Option<String>, Option<i64>))
        ensures
            r.0 == kept_hash(self.resource),
            r.1 == kept_generation(self.resource),
    {
        match &self.resource.status {
            Some(st) => (clone_opt_string(&st.applied_schema_hash), st.applied_schema_generation),
            None => (None, None),
        }
    }

    fn fail(&mut self, m: String) -> (a: DatabaseAction)
        ensures
            final(self).resource == old(self).resource,
            final(self).namespace == old(self).namespace,
            final(self).ns_namespace == old(self).ns_namespace,
            final(self).ns_object == old(self).ns_object,
            final(self).instance == old(self).instance,
            fails(*old(self), *final(self), a, m@),
    {
        self.report(false, None, None, Some(m), ReconcileAction::Requeue(30))
    }

    fn fail_keeping(&mut self, m: String, secs: u64) -> (a: DatabaseAction)
        ensures
            final(self).resource == old(self).resource,
            final(self).namespace == old(self).namespace,
            final(self).ns_namespace == old(self).ns_namespace,
            final(self).ns_object == old(self).ns_object,
            final(self).instance == old(self).instance,
            fails_keeping(*old(self), *final(self), a, m@, secs),
    {
        let (hash, generation) = self.kept();
        self.report(false, hash, generation, Some(m), ReconcileAction::Requeue(secs))
    }

    fn succeed(&mut self) -> (a: DatabaseAction)
        ensures
            final(self).resource == old(self).resource,
            final(self).namespace == old(self).namespace,
            final(self).ns_namespace == old(self).ns_namespace,
            final(self).ns_object == old(self).ns_object,
            final(self).instance == old(self).instance,
            succeeds(*old(self), *final(self), a),
    {
        let (hash, generation) = self.kept();
        self.report(true, hash, generation, None, ReconcileAction::Requeue(300))
    }

    fn ns_ref(&self) -> (n: &NamespaceObject)
        requires
            self.ns_object is Some,
        ensures
            *n == self.ns_object->0,
    {
        self.ns_object.as_ref().unwrap()
    }

    fn instance_ref(&self) -> (i: &InstanceObject)
        requires
            self.instance is Some,
        ensures
            *i == self.instance->0,
    {
        self.instance.as_ref().unwrap()
    }

    fn get_instance(&mut self) -> (a: DatabaseAction)
        requires
            old(self).ns_object is Some,
        ensures
            final(self).resource == old(self).resource,
            final(self).namespace == old(self).namespace,
            final(self).ns_namespace == old(self).ns_namespace,
            final(self).ns_object == old(self).ns_object,
            final(self).instance == old(self).instance,
            final(self).phase == DatabasePhase::FetchingInstance,
            final(self).instance_namespace@ == match old(self).ns_object->0.spec.instance_ref.namespace {
                Some(x) => x@,
                None => old(self).ns_namespace@,
            },
            a == (DatabaseAction::GetInstance {
                namespace: final(self).instance_namespace,
                name: old(self).ns_object->0.spec.instance_ref.name,
            }),
    {
        let instance_namespace = resolve_namespace(&self.ns_ref().spec.instance_ref, self.ns_namespace.as_str());
        let name = self.ns_ref().spec.instance_ref.name.clone();
        self.instance_namespace = instance_namespace;
        self.phase = DatabasePhase::FetchingInstance;
        DatabaseAction::GetInstance { namespace: self.instance_namespace.clone(), name }
    }

    fn on_namespace(&mut self, n: NamespaceObject) -> (a: DatabaseAction)
        requires
            old(self).phase == DatabasePhase::FetchingNamespace,
        ensures
            final(self).resource == old(self).resource,
            final(self).namespace == old(self).namespace,
            final(self).ns_namespace == old(self).ns_namespace,
            database_next(*old(self), DatabaseEvent::NamespaceFetched(Ok(n)), *final(self), a),
    {
        let owned = has_owner(&self.resource.owner_uids, &n.uid);
        let ready = match &n.status {
            Some(st) => st.created,
            None => false,
        };
        if !ready {
            let msg = match &n.status {
                None => concat3_strs("Namespace ", n.name.as_str(), " has no status yet"),
                Some(st) => match &st.error {
                    Some(err) => concat4_strs("Referenced Namespace ", n.name.as_str(), " is unhealthy: ", err.as_str()),
                    None => concat3_strs("Referenced Namespace ", n.name.as_str(), " is not ready yet"),
                },
            };
            self.ns_object = Some(n);
            self.fail_keeping(msg, 10)
        } else if !owned {
            self.ns_object = Some(n);
            self.phase = DatabasePhase::SettingOwner;
            DatabaseAction::SetOwner { namespace: self.namespace.clone(), name: self.resource.name.clone() }
        } else {
            self.ns_object = Some(n);
            self.get_instance()
        }
    }

    /// Takes the outcome of the last action and gives the next action.
    ///
    /// The referenced Namespace must report `created`; it is made the owner
    /// of the Database when it is not already. Its Instance is read and its
    /// credentials resolved, the reconciler connects and defines the
    /// database inside the namespace named like the Namespace resource.
    /// Failures are recorded in the status with their message: a Namespace
    /// that is not ready is requeued after 10 seconds, other failures after
    /// 30; the applied schema fields are kept when the Namespace is not
    /// ready, when the connection fails and on success, and cleared
    /// otherwise. After the database is defined, the Schema's active Rollout
    /// (as the Schema's status names it) is marked with the annotation
    /// `surreal-dbops.reliquo.io/triggered-by-database` = `<namespace>/<name>`
    /// of this Database, unless it carries that annotation already; a
    /// missing Schema or Rollout and a failed mark are passed over. Success
    /// is requeued after 300 seconds. A failed owner or status patch ends
    /// the reconciliation with its error.
    pub fn step(&mut self, event: DatabaseEvent) -> (action: DatabaseAction)
        requires
            old(self).accepts(event),
        ensures
            final(self).resource == old(self).resource,
            final(self).namespace == old(self).namespace,
            final(self).ns_namespace == old(self).ns_namespace,
            action is Finish <==> final(self).phase == DatabasePhase::Done,
            !(action is Finish) ==> final(self).remaining() < old(self).remaining(),
            database_next(*old(self), event, *final(self), action),
    {
        match (self.phase, event) {
            (DatabasePhase::FetchingNamespace, DatabaseEvent::NamespaceFetched(Err(m))) => {
                let msg = concat4_strs("Failed to get Namespace ", self.resource.spec.namespace_ref.name.as_str(), ": ", m.as_str());
                self.fail(msg)
            },
            (DatabasePhase::FetchingNamespace, DatabaseEvent::NamespaceFetched(Ok(n))) => self.on_namespace(n),
            (DatabasePhase::SettingOwner, DatabaseEvent::OwnerSet(Err(err))) => {
                self.phase = DatabasePhase::Done;
                DatabaseAction::Finish(Err(err))
            },
            (DatabasePhase::SettingOwner, DatabaseEvent::OwnerSet(Ok(()))) => self.get_instance(),
            (DatabasePhase::FetchingInstance, DatabaseEvent::InstanceFetched(Err(m))) => {
                let n = self.ns_ref();
                let mut t = chars_of(concat4_strs("Failed to get Instance ", n.spec.instance_ref.name.as_str(), " from Namespace ", n.name.as_str()).as_str());
                append_chars(&mut t, chars_of(": ").as_slice());
                append_chars(&mut t, chars_of(m.as_str()).as_slice());
                let msg = string_of(t.as_slice());
                self.fail(msg)
            },
            (DatabasePhase::FetchingInstance, DatabaseEvent::InstanceFetched(Ok(i))) => {
                let source = i.spec.connection_string.duplicate();
                self.instance = Some(i);
                self.phase = DatabasePhase::ResolvingEndpoint;
                DatabaseAction::ResolveValue { source, namespace: self.instance_namespace.clone() }
            },
            (DatabasePhase::ResolvingEndpoint, DatabaseEvent::Resolved(Ok(v))) => {
                self.phase = DatabasePhase::ResolvingUsername;
                self.endpoint = v;
                DatabaseAction::ResolveValue {
                    source: self.instance_ref().spec.username.duplicate(),
                    namespace: self.instance_namespace.clone(),
                }
            },
            (DatabasePhase::ResolvingEndpoint, DatabaseEvent::Resolved(Err(err))) => {
                let msg = concat4_strs("Failed to resolve connectionString for Instance ", self.instance_ref().name.as_str(), ": ", err.message().as_str());
                self.fail(msg)
            },
            (DatabasePhase::ResolvingUsername, DatabaseEvent::Resolved(Ok(v))) => {
                self.phase = DatabasePhase::ResolvingPassword;
                self.username = v;
                DatabaseAction::ResolveValue {
                    source: self.instance_ref().spec.password.duplicate(),
                    namespace: self.instance_namespace.clone(),
                }
            },
            (DatabasePhase::ResolvingUsername, DatabaseEvent::Resolved(Err(err))) => {
                let msg = concat4_strs("Failed to resolve username for Instance ", self.instance_ref().name.as_str(), ": ", err.message().as_str());
                self.fail(msg)
            },
            (DatabasePhase::ResolvingPassword, DatabaseEvent::Resolved(Ok(v))) => {
                self.phase = DatabasePhase::Connecting;
                DatabaseAction::Connect { endpoint: self.endpoint.clone(), username: self.username.clone(), password: v }
            },
            (DatabasePhase::ResolvingPassword, DatabaseEvent::Resolved(Err(err))) => {
                let msg = concat4_strs("Failed to resolve password for Instance ", self.instance_ref().name.as_str(), ": ", err.message().as_str());
                self.fail(msg)
            },
            (DatabasePhase::Connecting, DatabaseEvent::Connected(Ok(()))) => {
                self.phase = DatabasePhase::DefiningDatabase;
                let q = concat5_strs("USE NS `", self.ns_ref().name.as_str(), "`; DEFINE DB `", self.resource.name.as_str(), "`;");
                DatabaseAction::Query(q)
            },
            (DatabasePhase::Connecting, DatabaseEvent::Connected(Err(m))) => {
                let msg = concat4_strs("Failed to connect to SurrealDB endpoint ", self.endpoint.as_str(), ": ", m.as_str());
                self.fail_keeping(msg, 30)
            },
            (DatabasePhase::DefiningDatabase, DatabaseEvent::Queried(Err(m))) => {
                let msg = crate::controller::concat_strs("Failed to define database in SurrealDB: ", m.as_str());
                self.fail(msg)
            },
            (DatabasePhase::DefiningDatabase, DatabaseEvent::Queried(Ok(()))) => {
                self.schema_namespace = resolve_namespace(&self.resource.spec.schema_ref, self.namespace.as_str());
                self.phase = DatabasePhase::FetchingSchema;
                DatabaseAction::GetSchema {
                    namespace: self.schema_namespace.clone(),
                    name: self.resource.spec.schema_ref.name.clone(),
                }
            },
            (DatabasePhase::FetchingSchema, DatabaseEvent::SchemaFetched(Ok(Some(rollout)))) => {
                self.rollout_name = rollout;
                self.phase = DatabasePhase::FetchingRollout;
                DatabaseAction::GetRollout { namespace: self.schema_namespace.clone(), name: self.rollout_name.clone() }
            },
            (DatabasePhase::FetchingSchema, DatabaseEvent::SchemaFetched(_)) => self.succeed(),
            (DatabasePhase::FetchingRollout, DatabaseEvent::RolloutFetched(Ok(annotations))) => {
                let key = "surreal-dbops.reliquo.io/triggered-by-database".to_owned();
                let recorded = match &annotations {
                    Some(v) => lookup_exec(v, &key).is_some(),
                    None => false,
                };
                if recorded {
                    self.succeed()
                } else {
                    self.phase = DatabasePhase::AnnotatingRollout;
                    DatabaseAction::AnnotateRollout {
                        namespace: self.schema_namespace.clone(),
                        name: self.rollout_name.clone(),
                        key,
                        value: concat3_strs(self.namespace.as_str(), "/", self.resource.name.as_str()),
                    }
                }
            },
            (DatabasePhase::FetchingRollout, DatabaseEvent::RolloutFetched(Err(_))) => self.succeed(),
            (DatabasePhase::AnnotatingRollout, DatabaseEvent::RolloutAnnotated(_)) => self.succeed(),
            (DatabasePhase::Reporting(then), DatabaseEvent::StatusPatched(Ok(()))) => {
                self.phase = DatabasePhase::Done;
                DatabaseAction::Finish(Ok(then))
            },
            (DatabasePhase::Reporting(_), DatabaseEvent::StatusPatched(Err(err))) => {
                self.phase = DatabasePhase::Done;
                DatabaseAction::Finish(Err(err))
            },
            _ => {
                // not reached: `accepts` rules every other pair out
                self.phase = DatabasePhase::Done;
                DatabaseAction::Finish(Ok(ReconcileAction::AwaitChange))
            },
        }
    }
}

/// Reconciling a Database again does not mark the Schema's active Rollout
/// again: a Rollout that carries the trigger annotation is left as it is,
/// and one that does not is marked with this Database.
pub proof fn law_rollout_marked_once(
    s: DatabaseReconciler,
    annotations: Option<Vec<(String, String)>>,
    t: DatabaseReconciler,
    a: DatabaseAction,
)
    requires
        s.phase == DatabasePhase::FetchingRollout,
        database_next(s, DatabaseEvent::RolloutFetched(Ok(annotations)), t, a),
    ensures
        trigger_recorded(annotations) ==> !(a is AnnotateRollout) && a is PatchStatus,
        !trigger_recorded(annotations) ==> (a matches DatabaseAction::AnnotateRollout { key, value, .. }
            && key@ == trigger_key() && value@ == s.namespace@ + "/"@ + s.resource.name@),
{
}

/// What the runtime does after a failed Database reconciliation: retry
/// after 15 seconds.
pub fn error_policy(_error: &Error) -> (r: ReconcileAction)
    ensures
        r == ReconcileAction::Requeue(15),
{
    ReconcileAction::Requeue(15)
}

} // verus!
