//! Reconciliation of Namespace resources: check the referenced Instance,
//! make it the owner, create the SurrealDB namespace and provision its users.
use crate::controller::utils::resolve_namespace;
use crate::controller::{
    concat3_strs, concat4_strs, contains_chars, contains_seq, error_text, has_owner,
    owned_by, Error, ReconcileAction,
};
use crate::crd::{
    clone_opt_string, InstanceSpec, InstanceStatus, NamespaceSpec, NamespaceStatus,
    UserCredentials, UserDuration, ValueOrRefSource,
};
use crate::text::{append_chars, chars_of, join, join_chars, lower_chars, lower_of, seqs_of, string_of};
use vstd::prelude::*;

verus! {

/// A Namespace resource as the reconciler reads it.
#[derive(Clone, Debug)]
pub struct NamespaceResource {
    pub name: String,
    pub namespace: Option<String>,
    pub generation: Option<i64>,
    pub spec: NamespaceSpec,
    /// The uids of its owner references, if it has any.
    pub owner_uids: Option<Vec<String>>,
}

/// An Instance as a reconciler reads it from the cluster.
#[derive(Clone, Debug)]
pub struct InstanceObject {
    pub name: String,
    pub uid: Option<String>,
    pub spec: InstanceSpec,
    pub status: Option<InstanceStatus>,
}

#[derive(Debug)]
pub enum NamespaceAction {
    /// Read the Instance `name` in `namespace`.
    GetInstance { namespace: String, name: String },
    /// Make the Instance just read the controller owner of the Namespace
    /// resource `name` in `namespace`.
    SetOwner { namespace: String, name: String },
    ResolveValue { source: ValueOrRefSource, namespace: String },
    Connect { endpoint: String, username: String, password: String },
    /// Run a SurrealQL query and check its results.
    Query(String),
    /// Switch the connection to a SurrealDB namespace.
    UseNamespace(String),
    PatchStatus { namespace: String, name: String, status: NamespaceStatus },
    Finish(Result<ReconcileAction, Error>),
}

#[derive(Debug)]
pub enum NamespaceEvent {
    /// The Instance read, or the message of the failed read.
    InstanceFetched(Result<InstanceObject, String>),
    OwnerSet(Result<(), Error>),
    Resolved(Result<String, Error>),
    Connected(Result<(), String>),
    Queried(Result<(), String>),
    NamespaceUsed(Result<(), String>),
    StatusPatched(Result<(), Error>),
}

#[derive(Clone, Copy, Debug, PartialEq, Eq, Structural)]
pub enum NamespacePhase {
    FetchingInstance,
    SettingOwner,
    ResolvingEndpoint,
    ResolvingUsername,
    ResolvingPassword,
    Connecting,
    DefiningNamespace,
    UsingNamespace,
    /// Resolving the username of the credential with this index.
    ResolvingUser(usize),
    ResolvingUserPassword(usize),
    DefiningUser(usize),
    Reporting(ReconcileAction),
    Done,
}

#[derive(Debug)]
pub struct NamespaceReconciler {
    pub resource: NamespaceResource,
    /// The namespace of the resource.
    pub namespace: String,
    /// The namespace of the referenced Instance.
    pub instance_namespace: String,
    /// The name of the SurrealDB namespace.
    pub surreal_name: String,
    pub instance: Option<InstanceObject>,
    pub phase: NamespacePhase,
    pub endpoint: String,
    pub username: String,
    /// The username of the credential being provisioned.
    pub user: String,
}

/// The credentials to provision.
pub open spec fn credentials(r: NamespaceResource) -> Seq<UserCredentials> {
    match r.spec.user_credentials {
        Some(v) => v@,
        None => Seq::empty(),
    }
}

/// `DEFINE NS `<name>`;`
pub open spec fn define_ns_query(name: Seq<char>) -> Seq<char> {
    "DEFINE NS `"@ + name + "`;"@
}

/// The roles of a credential, `OWNER` when it names none.
pub open spec fn roles_of(roles: Option<Vec<String>>) -> Seq<Seq<char>> {
    match roles {
        Some(v) => v@.map_values(|r: String| r@),
        None => seq!["OWNER"@],
    }
}

/// The `DURATION` clause of a credential, empty when it sets no duration.
pub open spec fn duration_parts(duration: Option<UserDuration>) -> Seq<Seq<char>> {
    match duration {
        Some(d) => {
            let token: Seq<Seq<char>> = match d.token {
                Some(t) => seq!["FOR token "@ + t@],
                None => Seq::empty(),
            };
            let session: Seq<Seq<char>> = match d.session {
                Some(s) => seq!["FOR session "@ + s@],
                None => Seq::empty(),
            };
            token + session
        },
        None => Seq::empty(),
    }
}

pub open spec fn duration_clause(duration: Option<UserDuration>) -> Seq<char> {
    let parts = duration_parts(duration);
    if parts.len() == 0 {
        Seq::empty()
    } else {
        " DURATION "@ + join(parts, ", "@)
    }
}

/// The query that creates or replaces a namespace user.
pub open spec fn user_query(
    user: Seq<char>,
    password: Seq<char>,
    roles: Option<Vec<String>>,
    duration: Option<UserDuration>,
) -> Seq<char> {
    "DEFINE USER OVERWRITE `"@ + user + "` ON NAMESPACE PASSWORD '"@ + password + "' ROLES "@
        + join(roles_of(roles), ", "@) + duration_clause(duration) + ";"@
}

/// Builds the query that creates or replaces a namespace user.
pub fn define_user_query(
    user: &str,
    password: &str,
    roles: &Option<Vec<String>>,
    duration: &Option<UserDuration>,
) -> (r: String)
    ensures
        r@ == user_query(user@, password@, *roles, *duration),
{
    let mut role_words: Vec<Vec<char>> = Vec::new();
    match roles {
        Some(v) => {
            for i in 0..v.len()
                invariant
                    seqs_of(role_words@) == v@.take(i as int).map_values(|r: String| r@),
            {
                let ghost before = role_words@;
                let w = chars_of(v[i].as_str());
                role_words.push(w);
                assert(seqs_of(role_words@) =~= seqs_of(before).push(w@));
                assert(v@.take(i + 1).map_values(|r: String| r@) =~= v@.take(i as int).map_values(
                    |r: String| r@,
                ).push(v@[i as int]@));
            }
            assert(v@.take(v@.len() as int) =~= v@);
        },
        None => {
            role_words.push(chars_of("OWNER"));
            assert(seqs_of(role_words@) =~= seq!["OWNER"@]);
        },
    }
    let mut parts: Vec<Vec<char>> = Vec::new();
    if let Some(d) = duration {
        if let Some(t) = &d.token {
            let mut p = chars_of("FOR token ");
            append_chars(&mut p, chars_of(t.as_str()).as_slice());
            parts.push(p);
        }
        if let Some(s) = &d.session {
            let mut p = chars_of("FOR session ");
            append_chars(&mut p, chars_of(s.as_str()).as_slice());
            parts.push(p);
        }
    }
    assert(seqs_of(parts@) =~= duration_parts(*duration));
    let mut q = chars_of("DEFINE USER OVERWRITE `");
    append_chars(&mut q, chars_of(user).as_slice());
    append_chars(&mut q, chars_of("` ON NAMESPACE PASSWORD '").as_slice());
    append_chars(&mut q, chars_of(password).as_slice());
    append_chars(&mut q, chars_of("' ROLES ").as_slice());
    append_chars(&mut q, join_chars(&role_words, chars_of(", ").as_slice()).as_slice());
    if parts.len() > 0 {
        append_chars(&mut q, chars_of(" DURATION ").as_slice());
        append_chars(&mut q, join_chars(&parts, chars_of(", ").as_slice()).as_slice());
    }
    append_chars(&mut q, chars_of(";").as_slice());
    string_of(q.as_slice())
}

impl NamespaceReconciler {
    pub open spec fn accepts(&self, event: NamespaceEvent) -> bool {
        let n = credentials(self.resource).len();
        match self.phase {
            NamespacePhase::FetchingInstance => event is InstanceFetched,
            NamespacePhase::SettingOwner => event is OwnerSet && self.instance is Some,
            NamespacePhase::ResolvingEndpoint | NamespacePhase::ResolvingUsername
            | NamespacePhase::ResolvingPassword => event is Resolved && self.instance is Some,
            NamespacePhase::Connecting => event is Connected,
            NamespacePhase::DefiningNamespace => event is Queried,
            NamespacePhase::UsingNamespace => event is NamespaceUsed,
            NamespacePhase::ResolvingUser(i) | NamespacePhase::ResolvingUserPassword(i) => event
                is Resolved && i < n,
            NamespacePhase::DefiningUser(i) => event is Queried && i < n,
            NamespacePhase::Reporting(_) => event is StatusPatched,
            NamespacePhase::Done => false,
        }
    }

    /// How many actions are left at most.
    pub open spec fn remaining(&self) -> nat {
        let c = credentials(self.resource).len();
        match self.phase {
            NamespacePhase::FetchingInstance => 3 * c + 10,
            NamespacePhase::SettingOwner => 3 * c + 9,
            NamespacePhase::ResolvingEndpoint => 3 * c + 8,
            NamespacePhase::ResolvingUsername => 3 * c + 7,
            NamespacePhase::ResolvingPassword => 3 * c + 6,
            NamespacePhase::Connecting => 3 * c + 5,
            NamespacePhase::DefiningNamespace => 3 * c + 4,
            NamespacePhase::UsingNamespace => 3 * c + 3,
            NamespacePhase::ResolvingUser(i) => (3 * (c - i) + 2) as nat,
            NamespacePhase::ResolvingUserPassword(i) => (3 * (c - i) + 1) as nat,
            NamespacePhase::DefiningUser(i) => (3 * (c - i)) as nat,
            NamespacePhase::Reporting(_) => 1,
            NamespacePhase::Done => 0,
        }
    }
}

/// `t` and `a` report a status of the Namespace and then end with `then`.
pub open spec fn reports(
    s: NamespaceReconciler,
    t: NamespaceReconciler,
    a: NamespaceAction,
    created: bool,
    error: Option<Seq<char>>,
    then: ReconcileAction,
) -> bool {
    &&& t.phase == NamespacePhase::Reporting(then)
    &&& a matches NamespaceAction::PatchStatus { namespace, name, status }
    &&& namespace == s.namespace
    &&& name == s.resource.name
    &&& status.created == created
    &&& match error {
        Some(e) => status.error matches Some(m) && m@ == e,
        None => status.error is None,
    }
    &&& status.observed_generation == s.resource.generation
}

/// The failure of a step, reported in the status, then requeued after 30
/// seconds.
pub open spec fn fails(
    s: NamespaceReconciler,
    t: NamespaceReconciler,
    a: NamespaceAction,
    message: Seq<char>,
) -> bool {
    reports(s, t, a, false, Some(message), ReconcileAction::Requeue(30))
}

/// Success, reported in the status, then requeued after 300 seconds.
pub open spec fn succeeds(s: NamespaceReconciler, t: NamespaceReconciler, a: NamespaceAction) -> bool {
    reports(s, t, a, true, None, ReconcileAction::Requeue(300))
}

/// The step from `s` on `e` to `t` with action `a`.
pub open spec fn namespace_next(
    s: NamespaceReconciler,
    e: NamespaceEvent,
    t: NamespaceReconciler,
    a: NamespaceAction,
) -> bool {
    let creds = credentials(s.resource);
    let inst = s.instance->0;
    match (s.phase, e) {
        (NamespacePhase::FetchingInstance, NamespaceEvent::InstanceFetched(Err(m))) => fails(
            s,
            t,
            a,
            "Failed to get Instance "@ + s.resource.spec.instance_ref.name@ + ": "@ + m@,
        ),
        (NamespacePhase::FetchingInstance, NamespaceEvent::InstanceFetched(Ok(i))) => {
            &&& t.instance == Some(i)
            &&& if !(i.status matches Some(st) && st.connected) {
                fails(
                    s,
                    t,
                    a,
                    match i.status {
                        Some(st) => match st.error {
                            Some(err) => "Referenced Instance "@ + i.name@ + " is unhealthy: "@
                                + err@,
                            None => "Referenced Instance "@ + i.name@ + " is not connected yet"@,
                        },
                        None => "Referenced Instance "@ + i.name@ + " is not connected yet"@,
                    },
                )
            } else if !owned_by(s.resource.owner_uids, i.uid) {
                t.phase == NamespacePhase::SettingOwner && a == NamespaceAction::SetOwner {
                    namespace: s.namespace,
                    name: s.resource.name,
                }
            } else {
                t.phase == NamespacePhase::ResolvingEndpoint && a == NamespaceAction::ResolveValue {
                    source: i.spec.connection_string,
                    namespace: s.instance_namespace,
                }
            }
        },
        (NamespacePhase::SettingOwner, NamespaceEvent::OwnerSet(Ok(()))) => {
            &&& t.phase == NamespacePhase::ResolvingEndpoint
            &&& t.instance == s.instance
            &&& a == NamespaceAction::ResolveValue {
                source: inst.spec.connection_string,
                namespace: s.instance_namespace,
            }
        },
        (NamespacePhase::SettingOwner, NamespaceEvent::OwnerSet(Err(err))) => a
            == NamespaceAction::Finish(Err(err)),
        (NamespacePhase::ResolvingEndpoint, NamespaceEvent::Resolved(Ok(v))) => {
            &&& t.phase == NamespacePhase::ResolvingUsername
            &&& t.instance == s.instance
            &&& t.endpoint == v
            &&& a == NamespaceAction::ResolveValue {
                source: inst.spec.username,
                namespace: s.instance_namespace,
            }
        },
        (NamespacePhase::ResolvingEndpoint, NamespaceEvent::Resolved(Err(err))) => fails(
            s,
            t,
            a,
            "Failed to resolve connectionString for Instance "@ + inst.name@ + ": "@ + error_text(
                err,
            ),
        ),
        (NamespacePhase::ResolvingUsername, NamespaceEvent::Resolved(Ok(v))) => {
            &&& t.phase == NamespacePhase::ResolvingPassword
            &&& t.instance == s.instance
            &&& t.endpoint == s.endpoint
            &&& t.username == v
            &&& a == NamespaceAction::ResolveValue {
                source: inst.spec.password,
                namespace: s.instance_namespace,
            }
        },
        (NamespacePhase::ResolvingUsername, NamespaceEvent::Resolved(Err(err))) => fails(
            s,
            t,
            a,
            "Failed to resolve username for Instance "@ + inst.name@ + ": "@ + error_text(err),
        ),
        (NamespacePhase::ResolvingPassword, NamespaceEvent::Resolved(Ok(v))) => {
            &&& t.phase == NamespacePhase::Connecting
            &&& t.endpoint == s.endpoint
            &&& a == NamespaceAction::Connect {
                endpoint: s.endpoint,
                username: s.username,
                password: v,
            }
        },
        (NamespacePhase::ResolvingPassword, NamespaceEvent::Resolved(Err(err))) => fails(
            s,
            t,
            a,
            "Failed to resolve password for Instance "@ + inst.name@ + ": "@ + error_text(err),
        ),
        (NamespacePhase::Connecting, NamespaceEvent::Connected(Ok(()))) => {
            &&& t.phase == NamespacePhase::DefiningNamespace
            &&& a matches NamespaceAction::Query(q)
            &&& q@ == define_ns_query(s.surreal_name@)
        },
        (NamespacePhase::Connecting, NamespaceEvent::Connected(Err(m))) => fails(
            s,
            t,
            a,
            "Failed to connect to SurrealDB endpoint "@ + s.endpoint@ + ": "@ + m@,
        ),
        (NamespacePhase::DefiningNamespace, NamespaceEvent::Queried(r)) => {
            if r matches Err(m) && !contains_seq(lower_of(m@), "already exists"@) {
                fails(s, t, a, "Failed to define namespace in SurrealDB: "@ + r->Err_0@)
            } else if s.resource.spec.user_credentials is Some {
                t.phase == NamespacePhase::UsingNamespace && a == NamespaceAction::UseNamespace(
                    s.surreal_name,
                )
            } else {
                succeeds(s, t, a)
            }
        },
        (NamespacePhase::UsingNamespace, NamespaceEvent::NamespaceUsed(Err(m))) => fails(
            s,
            t,
            a,
            "Failed to switch namespace context in SurrealDB: "@ + m@,
        ),
        (NamespacePhase::UsingNamespace, NamespaceEvent::NamespaceUsed(Ok(()))) => {
            if creds.len() > 0 {
                t.phase == NamespacePhase::ResolvingUser(0) && a == NamespaceAction::ResolveValue {
                    source: creds[0].username,
                    namespace: s.namespace,
                }
            } else {
                succeeds(s, t, a)
            }
        },
        (NamespacePhase::ResolvingUser(i), NamespaceEvent::Resolved(Ok(v))) => {
            &&& t.phase == NamespacePhase::ResolvingUserPassword(i)
            &&& t.user == v
            &&& a == NamespaceAction::ResolveValue {
                source: creds[i as int].password,
                namespace: s.namespace,
            }
        },
        (NamespacePhase::ResolvingUser(_), NamespaceEvent::Resolved(Err(err))) => fails(
            s,
            t,
            a,
            "Failed to resolve username: "@ + error_text(err),
        ),
        (NamespacePhase::ResolvingUserPassword(i), NamespaceEvent::Resolved(Ok(v))) => {
            &&& t.phase == NamespacePhase::DefiningUser(i)
            &&& t.user == s.user
            &&& a matches NamespaceAction::Query(q)
            &&& q@ == user_query(s.user@, v@, creds[i as int].roles, creds[i as int].duration)
        },
        (NamespacePhase::ResolvingUserPassword(_), NamespaceEvent::Resolved(Err(err))) => fails(
            s,
            t,
            a,
            "Failed to resolve password: "@ + error_text(err),
        ),
        (NamespacePhase::DefiningUser(i), NamespaceEvent::Queried(Ok(()))) => {
            if i + 1 < creds.len() {
                t.phase == NamespacePhase::ResolvingUser((i + 1) as usize) && a
                    == NamespaceAction::ResolveValue {
                    source: creds[i + 1].username,
                    namespace: s.namespace,
                }
            } else {
                succeeds(s, t, a)
            }
        },
        (NamespacePhase::DefiningUser(_), NamespaceEvent::Queried(Err(m))) => fails(
            s,
            t,
            a,
            "Failed to define user `"@ + s.user@ + "` in SurrealDB: "@ + m@,
        ),
        (NamespacePhase::Reporting(then), NamespaceEvent::StatusPatched(Ok(()))) => a
            == NamespaceAction::Finish(Ok(then)),
        (NamespacePhase::Reporting(_), NamespaceEvent::StatusPatched(Err(err))) => a
            == NamespaceAction::Finish(Err(err)),
        _ => false,
    }
}

/// Starts the reconciliation of a Namespace: a cluster-scoped resource is an
/// internal error; otherwise the referenced Instance is read from its
/// namespace (the reference's own, or the resource's).
pub fn start(resource: NamespaceResource) -> (r: (NamespaceReconciler, NamespaceAction))
    ensures
        match resource.namespace {
            None => {
                &&& r.0.phase == NamespacePhase::Done
                &&& r.1 matches NamespaceAction::Finish(Err(Error::InternalError(m)))
                &&& m@ == "Namespace is cluster-scoped"@
            },
            Some(ns) => {
                &&& r.0.phase == NamespacePhase::FetchingInstance
                &&& r.0.resource == resource
                &&& r.0.namespace == ns
                &&& r.0.instance_namespace@ == match resource.spec.instance_ref.namespace {
                    Some(n) => n@,
                    None => ns@,
                }
                &&& r.0.surreal_name == match resource.spec.name {
                    Some(n) => n,
                    None => resource.name,
                }
                &&& r.0.instance is None
                &&& r.1 == NamespaceAction::GetInstance {
                    namespace: r.0.instance_namespace,
                    name: resource.spec.instance_ref.name,
                }
            },
        },
{
    let surreal_name = match &resource.spec.name {
        Some(n) => n.clone(),
        None => resource.name.clone(),
    };
    match clone_opt_string(&resource.namespace) {
        None => (
            NamespaceReconciler {
                resource,
                namespace: String::new(),
                instance_namespace: String::new(),
                surreal_name,
                instance: None,
                phase: NamespacePhase::Done,
                endpoint: String::new(),
                username: String::new(),
                user: String::new(),
            },
            NamespaceAction::Finish(Err(Error::InternalError("Namespace is cluster-scoped".to_owned()))),
        ),
        Some(ns) => {
            let instance_namespace = resolve_namespace(&resource.spec.instance_ref, ns.as_str());
            let action = NamespaceAction::GetInstance {
                namespace: instance_namespace.clone(),
                name: resource.spec.instance_ref.name.clone(),
            };
            (
                NamespaceReconciler {
                    resource,
                    namespace: ns,
                    instance_namespace,
                    surreal_name,
                    instance: None,
                    phase: NamespacePhase::FetchingInstance,
                    endpoint: String::new(),
                    username: String::new(),
                    user: String::new(),
                },
                action,
            )
        },
    }
}

impl NamespaceReconciler {
    fn fail(&mut self, message: String) -> (a: NamespaceAction)
        ensures
            final(self).resource == old(self).resource,
            final(self).namespace == old(self).namespace,
            final(self).instance_namespace == old(self).instance_namespace,
            final(self).surreal_name == old(self).surreal_name,
            final(self).instance == old(self).instance,
            fails(*old(self), *final(self), a, message@),
    {
        self.phase = NamespacePhase::Reporting(ReconcileAction::Requeue(30));
        NamespaceAction::PatchStatus {
            namespace: self.namespace.clone(),
            name: self.resource.name.clone(),
            status: NamespaceStatus {
                created: false,
                error: Some(message),
                observed_generation: self.resource.generation,
            },
        }
    }

    fn succeed(&mut self) -> (a: NamespaceAction)
        ensures
            final(self).resource == old(self).resource,
            final(self).namespace == old(self).namespace,
            final(self).instance_namespace == old(self).instance_namespace,
            final(self).surreal_name == old(self).surreal_name,
            final(self).instance == old(self).instance,
            succeeds(*old(self), *final(self), a),
    {
        self.phase = NamespacePhase::Reporting(ReconcileAction::Requeue(300));
        NamespaceAction::PatchStatus {
            namespace: self.namespace.clone(),
            name: self.resource.name.clone(),
            status: NamespaceStatus {
                created: true,
                error: None,
                observed_generation: self.resource.generation,
            },
        }
    }

    fn credential(&self, i: usize) -> (c: &UserCredentials)
        requires
            i < credentials(self.resource).len(),
        ensures
            *c == credentials(self.resource)[i as int],
    {
        match &self.resource.spec.user_credentials {
            Some(v) => &v[i],
            None => {
                assert(false);
                &self.resource.spec.user_credentials.as_ref().unwrap()[i]
            },
        }
    }

    fn credential_count(&self) -> (n: usize)
        ensures
            n == credentials(self.resource).len(),
    {
        match &self.resource.spec.user_credentials {
            Some(v) => v.len(),
            None => 0,
        }
    }

    fn on_instance(&mut self, i: InstanceObject) -> (a: NamespaceAction)
        requires
            old(self).phase == NamespacePhase::FetchingInstance,
        ensures
            final(self).resource == old(self).resource,
            final(self).namespace == old(self).namespace,
            final(self).instance_namespace == old(self).instance_namespace,
            final(self).surreal_name == old(self).surreal_name,
            namespace_next(*old(self), NamespaceEvent::InstanceFetched(Ok(i)), *final(self), a),
    {
        let connected = match &i.status {
            Some(st) => st.connected,
            None => false,
        };
        let owned = has_owner(&self.resource.owner_uids, &i.uid);
        let ghost s = *self;
        if !connected {
            let msg = match &i.status {
                Some(st) => match &st.error {
                    Some(err) => concat4_strs("Referenced Instance ", i.name.as_str(), " is unhealthy: ", err.as_str()),
                    None => concat3_strs("Referenced Instance ", i.name.as_str(), " is not connected yet"),
                },
                None => concat3_strs("Referenced Instance ", i.name.as_str(), " is not connected yet"),
            };
            self.instance = Some(i);
            let a = self.fail(msg);
            a
        } else if !owned {
            self.instance = Some(i);
            self.phase = NamespacePhase::SettingOwner;
            NamespaceAction::SetOwner { namespace: self.namespace.clone(), name: self.resource.name.clone() }
        } else {
            let source = i.spec.connection_string.duplicate();
            self.instance = Some(i);
            self.phase = NamespacePhase::ResolvingEndpoint;
            NamespaceAction::ResolveValue { source, namespace: self.instance_namespace.clone() }
        }
    }

    fn instance_ref(&self) -> (i: &InstanceObject)
        requires
            self.instance is Some,
        ensures
            *i == self.instance->0,
    {
        self.instance.as_ref().unwrap()
    }

    /// Takes the outcome of the last action and gives the next action.
    ///
    /// The referenced Instance must be connected; it is made the owner of
    /// the Namespace when it is not already. Its credentials are resolved,
    /// the reconciler connects, defines the SurrealDB namespace (one that
    /// already exists counts as defined), and, when the Namespace lists
    /// credentials, switches to the namespace and defines each user in
    /// turn. Every failure is recorded in the status with its message and
    /// requeued after 30 seconds; success is recorded and requeued after
    /// 300 seconds. A failed owner or status patch ends the reconciliation
    /// with its error.
    pub fn step(&mut self, event: NamespaceEvent) -> (action: NamespaceAction)
        requires
            old(self).accepts(event),
        ensures
            final(self).resource == old(self).resource,
            final(self).namespace == old(self).namespace,
            final(self).instance_namespace == old(self).instance_namespace,
            final(self).surreal_name == old(self).surreal_name,
            action is Finish <==> final(self).phase == NamespacePhase::Done,
            !(action is Finish) ==> final(self).remaining() < old(self).remaining(),
            namespace_next(*old(self), event, *final(self), action),
    {
        let n = self.credential_count();
        match (self.phase, event) {
            (NamespacePhase::FetchingInstance, NamespaceEvent::InstanceFetched(Err(m))) => {
                let msg = concat4_strs("Failed to get Instance ", self.resource.spec.instance_ref.name.as_str(), ": ", m.as_str());
                self.fail(msg)
            },
            (NamespacePhase::FetchingInstance, NamespaceEvent::InstanceFetched(Ok(i))) => self.on_instance(i),
            (NamespacePhase::SettingOwner, NamespaceEvent::OwnerSet(Ok(()))) => {
                self.phase = NamespacePhase::ResolvingEndpoint;
                NamespaceAction::ResolveValue {
                    source: self.instance_ref().spec.connection_string.duplicate(),
                    namespace: self.instance_namespace.clone(),
                }
            },
            (NamespacePhase::SettingOwner, NamespaceEvent::OwnerSet(Err(err))) => {
                self.phase = NamespacePhase::Done;
                NamespaceAction::Finish(Err(err))
            },
            (NamespacePhase::ResolvingEndpoint, NamespaceEvent::Resolved(Ok(v))) => {
                self.phase = NamespacePhase::ResolvingUsername;
                self.endpoint = v;
                NamespaceAction::ResolveValue {
                    source: self.instance_ref().spec.username.duplicate(),
                    namespace: self.instance_namespace.clone(),
                }
            },
            (NamespacePhase::ResolvingEndpoint, NamespaceEvent::Resolved(Err(err))) => {
                let msg = concat4_strs("Failed to resolve connectionString for Instance ", self.instance_ref().name.as_str(), ": ", err.message().as_str());
                self.fail(msg)
            },
            (NamespacePhase::ResolvingUsername, NamespaceEvent::Resolved(Ok(v))) => {
                self.phase = NamespacePhase::ResolvingPassword;
                self.username = v;
                NamespaceAction::ResolveValue {
                    source: self.instance_ref().spec.password.duplicate(),
                    namespace: self.instance_namespace.clone(),
                }
            },
            (NamespacePhase::ResolvingUsername, NamespaceEvent::Resolved(Err(err))) => {
                let msg = concat4_strs("Failed to resolve username for Instance ", self.instance_ref().name.as_str(), ": ", err.message().as_str());
                self.fail(msg)
            },
            (NamespacePhase::ResolvingPassword, NamespaceEvent::Resolved(Ok(v))) => {
                self.phase = NamespacePhase::Connecting;
                NamespaceAction::Connect {
                    endpoint: self.endpoint.clone(),
                    username: self.username.clone(),
                    password: v,
                }
            },
            (NamespacePhase::ResolvingPassword, NamespaceEvent::Resolved(Err(err))) => {
                let msg = concat4_strs("Failed to resolve password for Instance ", self.instance_ref().name.as_str(), ": ", err.message().as_str());
                self.fail(msg)
            },
            (NamespacePhase::Connecting, NamespaceEvent::Connected(Ok(()))) => {
                self.phase = NamespacePhase::DefiningNamespace;
                NamespaceAction::Query(concat3_strs("DEFINE NS `", self.surreal_name.as_str(), "`;"))
            },
            (NamespacePhase::Connecting, NamespaceEvent::Connected(Err(m))) => {
                let msg = concat4_strs("Failed to connect to SurrealDB endpoint ", self.endpoint.as_str(), ": ", m.as_str());
                self.fail(msg)
            },
            (NamespacePhase::DefiningNamespace, NamespaceEvent::Queried(r)) => {
                let proceed = match &r {
                    Ok(()) => true,
                    Err(m) => contains_chars(
                        lower_chars(chars_of(m.as_str()).as_slice()).as_slice(),
                        chars_of("already exists").as_slice(),
                    ),
                };
                if !proceed {
                    let m = match r {
                        Err(m) => m,
                        Ok(()) => String::new(),
                    };
                    let msg = concat_with("Failed to define namespace in SurrealDB: ", m);
                    self.fail(msg)
                } else if self.resource.spec.user_credentials.is_some() {
                    self.phase = NamespacePhase::UsingNamespace;
                    NamespaceAction::UseNamespace(self.surreal_name.clone())
                } else {
                    self.succeed()
                }
            },
            (NamespacePhase::UsingNamespace, NamespaceEvent::NamespaceUsed(Err(m))) => {
                let msg = concat_with("Failed to switch namespace context in SurrealDB: ", m);
                self.fail(msg)
            },
            (NamespacePhase::UsingNamespace, NamespaceEvent::NamespaceUsed(Ok(()))) => {
                if n > 0 {
                    self.phase = NamespacePhase::ResolvingUser(0);
                    NamespaceAction::ResolveValue {
                        source: self.credential(0).username.duplicate(),
                        namespace: self.namespace.clone(),
                    }
                } else {
                    self.succeed()
                }
            },
            (NamespacePhase::ResolvingUser(i), NamespaceEvent::Resolved(Ok(v))) => {
                self.phase = NamespacePhase::ResolvingUserPassword(i);
                self.user = v;
                NamespaceAction::ResolveValue {
                    source: self.credential(i).password.duplicate(),
                    namespace: self.namespace.clone(),
                }
            },
            (NamespacePhase::ResolvingUser(_), NamespaceEvent::Resolved(Err(err))) => {
                let msg = concat_with("Failed to resolve username: ", err.message());
                self.fail(msg)
            },
            (NamespacePhase::ResolvingUserPassword(i), NamespaceEvent::Resolved(Ok(v))) => {
                self.phase = NamespacePhase::DefiningUser(i);
                let c = self.credential(i);
                let q = define_user_query(self.user.as_str(), v.as_str(), &c.roles, &c.duration);
                NamespaceAction::Query(q)
            },
            (NamespacePhase::ResolvingUserPassword(_), NamespaceEvent::Resolved(Err(err))) => {
                let msg = concat_with("Failed to resolve password: ", err.message());
                self.fail(msg)
            },
            (NamespacePhase::DefiningUser(i), NamespaceEvent::Queried(Ok(()))) => {
                if i + 1 < n {
                    self.phase = NamespacePhase::ResolvingUser(i + 1);
                    NamespaceAction::ResolveValue {
                        source: self.credential(i + 1).username.duplicate(),
                        namespace: self.namespace.clone(),
                    }
                } else {
                    self.succeed()
                }
            },
            (NamespacePhase::DefiningUser(_), NamespaceEvent::Queried(Err(m))) => {
                let msg = concat4_strs("Failed to define user `", self.user.as_str(), "` in SurrealDB: ", m.as_str());
                self.fail(msg)
            },
            (NamespacePhase::Reporting(then), NamespaceEvent::StatusPatched(Ok(()))) => {
                self.phase = NamespacePhase::Done;
                NamespaceAction::Finish(Ok(then))
            },
            (NamespacePhase::Reporting(_), NamespaceEvent::StatusPatched(Err(err))) => {
                self.phase = NamespacePhase::Done;
                NamespaceAction::Finish(Err(err))
            },
            _ => {
                // not reached: `accepts` rules every other pair out
                self.phase = NamespacePhase::Done;
                NamespaceAction::Finish(Ok(ReconcileAction::AwaitChange))
            },
        }
    }
}

fn concat_with(prefix: &str, m: String) -> (r: String)
    ensures
        r@ == prefix@ + m@,
{
    crate::controller::concat_strs(prefix, m.as_str())
}

/// What the runtime does after a failed Namespace reconciliation: retry
/// after 15 seconds.
pub fn error_policy(_error: &Error) -> (r: ReconcileAction)
    ensures
        r == ReconcileAction::Requeue(15),
{
    ReconcileAction::Requeue(15)
}

} // verus!
