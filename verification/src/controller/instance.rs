//! Reconciliation of Instance resources: resolve the credentials, check
//! that the server accepts them, and record the outcome in the status.
use crate::controller::{concat_strs, error_text, Error, ReconcileAction};
use crate::crd::{clone_opt_string, InstanceSpec, InstanceStatus, ValueOrRefSource};
use vstd::prelude::*;

verus! {

/// An Instance resource as the reconciler reads it.
#[derive(Clone, Debug)]
pub struct InstanceResource {
    pub name: String,
    pub namespace: Option<String>,
    pub generation: Option<i64>,
    pub spec: InstanceSpec,
}

/// What the reconciler asks its caller to do next.
#[derive(Debug)]
pub enum InstanceAction {
    /// Resolve a value source in a namespace.
    ResolveValue { source: ValueOrRefSource, namespace: String },
    /// Connect to the SurrealDB server and sign in.
    Connect { endpoint: String, username: String, password: String },
    /// Patch the status of the Instance.
    PatchStatus { namespace: String, name: String, status: InstanceStatus },
    /// The reconciliation is over, with this result.
    Finish(Result<ReconcileAction, Error>),
}

/// The outcome of the last action.
#[derive(Debug)]
pub enum InstanceEvent {
    Resolved(Result<String, Error>),
    /// The connection outcome; an error carries its message.
    Connected(Result<(), String>),
    StatusPatched(Result<(), Error>),
}

#[derive(Clone, Copy, Debug, PartialEq, Eq, Structural)]
pub enum InstancePhase {
    ResolvingEndpoint,
    ResolvingUsername,
    ResolvingPassword,
    Connecting,
    /// The status is being patched; then the reconciliation ends with this action.
    Reporting(ReconcileAction),
    Done,
}

/// The state of one reconciliation of an Instance.
#[derive(Debug)]
pub struct InstanceReconciler {
    pub resource: InstanceResource,
    pub namespace: String,
    pub phase: InstancePhase,
    pub endpoint: String,
    pub username: String,
}

impl InstanceReconciler {
    /// Whether `event` answers the action the reconciler asked for last.
    pub open spec fn accepts(&self, event: InstanceEvent) -> bool {
        match self.phase {
            InstancePhase::ResolvingEndpoint | InstancePhase::ResolvingUsername
            | InstancePhase::ResolvingPassword => event is Resolved,
            InstancePhase::Connecting => event is Connected,
            InstancePhase::Reporting(_) => event is StatusPatched,
            InstancePhase::Done => false,
        }
    }

    /// How many actions are left at most.
    pub open spec fn remaining(&self) -> nat {
        match self.phase {
            InstancePhase::ResolvingEndpoint => 5,
            InstancePhase::ResolvingUsername => 4,
            InstancePhase::ResolvingPassword => 3,
            InstancePhase::Connecting => 2,
            InstancePhase::Reporting(_) => 1,
            InstancePhase::Done => 0,
        }
    }
}

/// The status reported for an Instance.
pub open spec fn instance_status_is(
    status: InstanceStatus,
    connected: bool,
    error: Option<Seq<char>>,
    generation: Option<i64>,
) -> bool {
    &&& status.connected == connected
    &&& match error {
        Some(e) => status.error matches Some(m) && m@ == e,
        None => status.error is None,
    }
    &&& status.observed_generation == generation
}

/// The action that reports a status and the phase that waits for it.
pub open spec fn reports(
    r: (InstancePhase, InstanceAction),
    ns: String,
    name: String,
    connected: bool,
    error: Option<Seq<char>>,
    generation: Option<i64>,
    then: ReconcileAction,
) -> bool {
    &&& r.0 == InstancePhase::Reporting(then)
    &&& r.1 matches InstanceAction::PatchStatus { namespace, name: n, status }
    &&& namespace == ns
    &&& n == name
    &&& instance_status_is(status, connected, error, generation)
}

fn report(
    ns: &String,
    name: &String,
    connected: bool,
    error: Option<String>,
    generation: Option<i64>,
    then: ReconcileAction,
) -> (r: (InstancePhase, InstanceAction))
    ensures
        reports(
            r,
            *ns,
            *name,
            connected,
            match error {
                Some(e) => Some(e@),
                None => None,
            },
            generation,
            then,
        ),
{
    (
        InstancePhase::Reporting(then),
        InstanceAction::PatchStatus {
            namespace: ns.clone(),
            name: name.clone(),
            status: InstanceStatus { connected, error, observed_generation: generation },
        },
    )
}

/// Starts the reconciliation of an Instance: a cluster-scoped Instance is an
/// internal error; otherwise its connection string is resolved first.
pub fn start(resource: InstanceResource) -> (r: (InstanceReconciler, InstanceAction))
    ensures
        match resource.namespace {
            None => {
                &&& r.0.phase == InstancePhase::Done
                &&& r.1 matches InstanceAction::Finish(Err(Error::InternalError(m)))
                &&& m@ == "Instance is cluster-scoped"@
            },
            Some(ns) => {
                &&& r.0.phase == InstancePhase::ResolvingEndpoint
                &&& r.0.namespace == ns
                &&& r.0.resource == resource
                &&& r.1 == InstanceAction::ResolveValue {
                    source: resource.spec.connection_string,
                    namespace: ns,
                }
            },
        },
{
    let ns = clone_opt_string(&resource.namespace);
    match ns {
        None => (
            InstanceReconciler {
                resource,
                namespace: String::new(),
                phase: InstancePhase::Done,
                endpoint: String::new(),
                username: String::new(),
            },
            InstanceAction::Finish(Err(Error::InternalError("Instance is cluster-scoped".to_owned()))),
        ),
        Some(ns) => {
            let source = resource.spec.connection_string.duplicate();
            let action = InstanceAction::ResolveValue { source, namespace: ns.clone() };
            (
                InstanceReconciler {
                    resource,
                    namespace: ns,
                    phase: InstancePhase::ResolvingEndpoint,
                    endpoint: String::new(),
                    username: String::new(),
                },
                action,
            )
        },
    }
}

impl InstanceReconciler {
    /// Takes the outcome of the last action and gives the next action.
    ///
    /// The connection string, username and password are resolved in turn;
    /// a failure is recorded in the status (`connected: false` with the
    /// message) and the Instance is requeued after 30 seconds. With all
    /// three, the reconciler connects: success is recorded (`connected:
    /// true`) and the Instance is requeued after 300 seconds; failure is
    /// recorded and requeued after 30. A failed status patch ends the
    /// reconciliation with its error.
    pub fn step(&mut self, event: InstanceEvent) -> (action: InstanceAction)
        requires
            old(self).accepts(event),
        ensures
            final(self).resource == old(self).resource,
            final(self).namespace == old(self).namespace,
            action is Finish <==> final(self).phase == InstancePhase::Done,
            !(action is Finish) ==> final(self).remaining() < old(self).remaining(),
            ({
                let s = *old(self);
                let t = *final(self);
                let gen = s.resource.generation;
                match (s.phase, event) {
                    (InstancePhase::ResolvingEndpoint, InstanceEvent::Resolved(Ok(v))) => {
                        &&& t.phase == InstancePhase::ResolvingUsername
                        &&& t.endpoint == v
                        &&& action == InstanceAction::ResolveValue {
                            source: s.resource.spec.username,
                            namespace: s.namespace,
                        }
                    },
                    (InstancePhase::ResolvingEndpoint, InstanceEvent::Resolved(Err(e))) => reports(
                        (t.phase, action),
                        s.namespace,
                        s.resource.name,
                        false,
                        Some("Failed to resolve connectionString: "@ + error_text(e)),
                        gen,
                        ReconcileAction::Requeue(30),
                    ),
                    (InstancePhase::ResolvingUsername, InstanceEvent::Resolved(Ok(v))) => {
                        &&& t.phase == InstancePhase::ResolvingPassword
                        &&& t.endpoint == s.endpoint
                        &&& t.username == v
                        &&& action == InstanceAction::ResolveValue {
                            source: s.resource.spec.password,
                            namespace: s.namespace,
                        }
                    },
                    (InstancePhase::ResolvingUsername, InstanceEvent::Resolved(Err(e))) => reports(
                        (t.phase, action),
                        s.namespace,
                        s.resource.name,
                        false,
                        Some("Failed to resolve username: "@ + error_text(e)),
                        gen,
                        ReconcileAction::Requeue(30),
                    ),
                    (InstancePhase::ResolvingPassword, InstanceEvent::Resolved(Ok(v))) => {
                        &&& t.phase == InstancePhase::Connecting
                        &&& action == InstanceAction::Connect {
                            endpoint: s.endpoint,
                            username: s.username,
                            password: v,
                        }
                    },
                    (InstancePhase::ResolvingPassword, InstanceEvent::Resolved(Err(e))) => reports(
                        (t.phase, action),
                        s.namespace,
                        s.resource.name,
                        false,
                        Some("Failed to resolve password: "@ + error_text(e)),
                        gen,
                        ReconcileAction::Requeue(30),
                    ),
                    (InstancePhase::Connecting, InstanceEvent::Connected(Ok(()))) => reports(
                        (t.phase, action),
                        s.namespace,
                        s.resource.name,
                        true,
                        None,
                        gen,
                        ReconcileAction::Requeue(300),
                    ),
                    (InstancePhase::Connecting, InstanceEvent::Connected(Err(m))) => reports(
                        (t.phase, action),
                        s.namespace,
                        s.resource.name,
                        false,
                        Some("Failed to connect to SurrealDB: "@ + m@),
                        gen,
                        ReconcileAction::Requeue(30),
                    ),
                    (InstancePhase::Reporting(then), InstanceEvent::StatusPatched(Ok(()))) => action
                        == InstanceAction::Finish(Ok(then)),
                    (InstancePhase::Reporting(_), InstanceEvent::StatusPatched(Err(e))) => action
                        == InstanceAction::Finish(Err(e)),
                    _ => false,
                }
            }),
    {
        let gen = self.resource.generation;
        match (self.phase, event) {
            (InstancePhase::ResolvingEndpoint, InstanceEvent::Resolved(Ok(v))) => {
                self.phase = InstancePhase::ResolvingUsername;
                self.endpoint = v;
                InstanceAction::ResolveValue {
                    source: self.resource.spec.username.duplicate(),
                    namespace: self.namespace.clone(),
                }
            },
            (InstancePhase::ResolvingUsername, InstanceEvent::Resolved(Ok(v))) => {
                self.phase = InstancePhase::ResolvingPassword;
                self.username = v;
                InstanceAction::ResolveValue {
                    source: self.resource.spec.password.duplicate(),
                    namespace: self.namespace.clone(),
                }
            },
            (InstancePhase::ResolvingPassword, InstanceEvent::Resolved(Ok(v))) => {
                self.phase = InstancePhase::Connecting;
                InstanceAction::Connect {
                    endpoint: self.endpoint.clone(),
                    username: self.username.clone(),
                    password: v,
                }
            },
            (InstancePhase::ResolvingEndpoint, InstanceEvent::Resolved(Err(e))) => {
                let msg = concat_strs("Failed to resolve connectionString: ", e.message().as_str());
                let (phase, action) = report(&self.namespace, &self.resource.name, false, Some(msg), gen, ReconcileAction::Requeue(30));
                self.phase = phase;
                action
            },
            (InstancePhase::ResolvingUsername, InstanceEvent::Resolved(Err(e))) => {
                let msg = concat_strs("Failed to resolve username: ", e.message().as_str());
                let (phase, action) = report(&self.namespace, &self.resource.name, false, Some(msg), gen, ReconcileAction::Requeue(30));
                self.phase = phase;
                action
            },
            (InstancePhase::ResolvingPassword, InstanceEvent::Resolved(Err(e))) => {
                let msg = concat_strs("Failed to resolve password: ", e.message().as_str());
                let (phase, action) = report(&self.namespace, &self.resource.name, false, Some(msg), gen, ReconcileAction::Requeue(30));
                self.phase = phase;
                action
            },
            (InstancePhase::Connecting, InstanceEvent::Connected(Ok(()))) => {
                let (phase, action) = report(&self.namespace, &self.resource.name, true, None, gen, ReconcileAction::Requeue(300));
                self.phase = phase;
                action
            },
            (InstancePhase::Connecting, InstanceEvent::Connected(Err(m))) => {
                let msg = concat_strs("Failed to connect to SurrealDB: ", m.as_str());
                let (phase, action) = report(&self.namespace, &self.resource.name, false, Some(msg), gen, ReconcileAction::Requeue(30));
                self.phase = phase;
                action
            },
            (InstancePhase::Reporting(then), InstanceEvent::StatusPatched(Ok(()))) => {
                self.phase = InstancePhase::Done;
                InstanceAction::Finish(Ok(then))
            },
            (InstancePhase::Reporting(_), InstanceEvent::StatusPatched(Err(e))) => {
                self.phase = InstancePhase::Done;
                InstanceAction::Finish(Err(e))
            },
            _ => {
                // not reached: `accepts` rules every other pair out
                self.phase = InstancePhase::Done;
                InstanceAction::Finish(Ok(ReconcileAction::AwaitChange))
            },
        }
    }
}

/// What the runtime does after a failed Instance reconciliation: retry
/// after 15 seconds.
pub fn error_policy(_error: &Error) -> (r: ReconcileAction)
    ensures
        r == ReconcileAction::Requeue(15),
{
    ReconcileAction::Requeue(15)
}

} // verus!
