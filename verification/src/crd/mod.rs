//! The custom resources the operator manages, as plain data.
pub mod database;
pub mod instance;
pub mod namespace;
pub mod rollout;
pub mod schema;

pub use database::{DatabaseSpec, DatabaseStatus};
pub use instance::{InstanceSpec, InstanceStatus};
pub use namespace::{NamespaceSpec, NamespaceStatus, UserCredentials, UserDuration};
pub use rollout::{empty_status, opt_text, RolloutSpec, RolloutStatus, RolloutStatusView};
pub use schema::{ApprovalPolicy, SchemaSpec, SchemaStatus};

use vstd::prelude::*;

verus! {

/// Reference to another resource, with optional cross-namespace selection.
#[derive(Clone, Debug, PartialEq)]
pub struct LocalObjectReference {
    pub name: String,
    pub namespace: Option<String>,
}

/// Holds either a raw value or a reference to a Secret or ConfigMap key.
#[derive(Clone, Debug, PartialEq)]
pub struct ValueOrRefSource {
    pub value: Option<String>,
    pub value_from: Option<ValueFromSource>,
}

#[derive(Clone, Debug, PartialEq)]
pub struct ValueFromSource {
    pub secret_key_ref: Option<SecretKeySelector>,
    pub config_map_ref: Option<ConfigMapKeySelector>,
}

#[derive(Clone, Debug, PartialEq)]
pub struct SecretKeySelector {
    pub name: String,
    pub key: String,
}

#[derive(Clone, Debug, PartialEq)]
pub struct ConfigMapKeySelector {
    pub name: String,
    pub key: String,
}

/// A standard Kubernetes condition.
#[derive(Clone, Debug, PartialEq)]
pub struct Condition {
    pub type_: String,
    pub status: String,
    pub last_transition_time: String,
    pub reason: String,
    pub message: String,
}

/// A condition as plain text.
#[verifier::ext_equal]
pub struct ConditionView {
    pub type_: Seq<char>,
    pub status: Seq<char>,
    pub last_transition_time: Seq<char>,
    pub reason: Seq<char>,
    pub message: Seq<char>,
}

impl View for Condition {
    type V = ConditionView;

    open spec fn view(&self) -> ConditionView {
        ConditionView {
            type_: self.type_@,
            status: self.status@,
            last_transition_time: self.last_transition_time@,
            reason: self.reason@,
            message: self.message@,
        }
    }
}

impl Condition {
    /// A copy equal to this condition.
    pub fn duplicate(&self) -> (r: Condition)
        ensures
            r == *self,
    {
        Condition {
            type_: self.type_.clone(),
            status: self.status.clone(),
            last_transition_time: self.last_transition_time.clone(),
            reason: self.reason.clone(),
            message: self.message.clone(),
        }
    }
}

impl LocalObjectReference {
    /// A copy equal to this reference.
    pub fn duplicate(&self) -> (r: LocalObjectReference)
        ensures
            r == *self,
    {
        LocalObjectReference { name: self.name.clone(), namespace: clone_opt_string(&self.namespace) }
    }
}

/// A copy of an optional string.
pub fn clone_opt_string(o: &Option<String>) -> (r: Option<String>)
    ensures
        r == *o,
{
    match o {
        Some(s) => Some(s.clone()),
        None => None,
    }
}

impl ValueOrRefSource {
    /// A copy equal to this source.
    pub fn duplicate(&self) -> (r: ValueOrRefSource)
        ensures
            r == *self,
    {
        ValueOrRefSource {
            value: clone_opt_string(&self.value),
            value_from: match &self.value_from {
                Some(f) => Some(
                    ValueFromSource {
                        secret_key_ref: match &f.secret_key_ref {
                            Some(s) => Some(SecretKeySelector { name: s.name.clone(), key: s.key.clone() }),
                            None => None,
                        },
                        config_map_ref: match &f.config_map_ref {
                            Some(c) => Some(ConfigMapKeySelector { name: c.name.clone(), key: c.key.clone() }),
                            None => None,
                        },
                    },
                ),
                None => None,
            },
        }
    }
}

} // verus!
