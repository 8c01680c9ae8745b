//! The reconcilers of the operator's resources.
//!
//! Each reconciler is a state machine: `start` gives the first state and
//! action, and `step` takes the outcome of the last action and gives the next
//! state and action, until an action finishes the reconciliation. The caller
//! performs the actions (Kubernetes and SurrealDB calls) and reports their
//! outcomes.
pub mod database;
pub mod instance;
pub mod namespace;
pub mod rollout;
pub mod schema;
pub mod utils;

use crate::text::{append_chars, chars_of, copy_range, eq_chars, string_of};
use vstd::prelude::*;

verus! {

/// An error of a reconciler; each variant carries its message.
#[derive(Clone, Debug, PartialEq)]
pub enum Error {
    KubeError(String),
    SurrealError(String),
    NotFound(String),
    ConfigError(String),
    InternalError(String),
}

/// The text an error displays as.
pub open spec fn error_text(e: Error) -> Seq<char> {
    match e {
        Error::KubeError(m) => "Kubernetes API error: "@ + m@,
        Error::SurrealError(m) => "SurrealDB error: "@ + m@,
        Error::NotFound(m) => "Resource not found: "@ + m@,
        Error::ConfigError(m) => "Configuration error: "@ + m@,
        Error::InternalError(m) => "Internal controller error: "@ + m@,
    }
}

impl Error {
    /// The text the error displays as.
    pub fn message(&self) -> (r: String)
        ensures
            r@ == error_text(*self),
    {
        let (prefix, m) = match self {
            Error::KubeError(m) => (chars_of("Kubernetes API error: "), m),
            Error::SurrealError(m) => (chars_of("SurrealDB error: "), m),
            Error::NotFound(m) => (chars_of("Resource not found: "), m),
            Error::ConfigError(m) => (chars_of("Configuration error: "), m),
            Error::InternalError(m) => (chars_of("Internal controller error: "), m),
        };
        let mut t = prefix;
        append_chars(&mut t, chars_of(m.as_str()).as_slice());
        string_of(t.as_slice())
    }

    /// A copy with the same message.
    pub fn duplicate(&self) -> (r: Error)
        ensures
            r == *self,
    {
        match self {
            Error::KubeError(m) => Error::KubeError(m.clone()),
            Error::SurrealError(m) => Error::SurrealError(m.clone()),
            Error::NotFound(m) => Error::NotFound(m.clone()),
            Error::ConfigError(m) => Error::ConfigError(m.clone()),
            Error::InternalError(m) => Error::InternalError(m.clone()),
        }
    }
}

/// What the controller runtime does after a reconciliation.
#[derive(Clone, Copy, Debug, PartialEq, Eq, Structural)]
pub enum ReconcileAction {
    /// Reconcile again after this many seconds.
    Requeue(u64),
    /// Reconcile again when the resource changes.
    AwaitChange,
}

/// `a + b` as a `String`.
pub fn concat_strs(a: &str, b: &str) -> (r: String)
    ensures
        r@ == a@ + b@,
{
    let mut t = chars_of(a);
    append_chars(&mut t, chars_of(b).as_slice());
    string_of(t.as_slice())
}

/// `a + b + c` as a `String`.
pub fn concat3_strs(a: &str, b: &str, c: &str) -> (r: String)
    ensures
        r@ == a@ + b@ + c@,
{
    let mut t = chars_of(a);
    append_chars(&mut t, chars_of(b).as_slice());
    append_chars(&mut t, chars_of(c).as_slice());
    string_of(t.as_slice())
}

/// `a + b + c + d` as a `String`.
pub fn concat4_strs(a: &str, b: &str, c: &str, d: &str) -> (r: String)
    ensures
        r@ == a@ + b@ + c@ + d@,
{
    let mut t = chars_of(a);
    append_chars(&mut t, chars_of(b).as_slice());
    append_chars(&mut t, chars_of(c).as_slice());
    append_chars(&mut t, chars_of(d).as_slice());
    string_of(t.as_slice())
}

pub open spec fn uid_or_empty(uid: Option<String>) -> Seq<char> {
    match uid {
        Some(u) => u@,
        None => Seq::empty(),
    }
}

/// Whether `uid` is among the owner uids of a resource (`false` when it
/// has no owner references); a missing uid counts as the empty one.
pub open spec fn owned_by(owner_uids: Option<Vec<String>>, uid: Option<String>) -> bool {
    match owner_uids {
        Some(v) => exists|i: int| 0 <= i < v@.len() && #[trigger] v@[i]@ == uid_or_empty(uid),
        None => false,
    }
}

/// Whether `uid` is among the owner uids of a resource.
pub fn has_owner(owner_uids: &Option<Vec<String>>, uid: &Option<String>) -> (r: bool)
    ensures
        r == owned_by(*owner_uids, *uid),
{
    let u = match uid {
        Some(u) => u.clone(),
        None => String::new(),
    };
    match owner_uids {
        Some(v) => {
            for i in 0..v.len()
                invariant
                    u@ == uid_or_empty(*uid),
                    *owner_uids == Some(*v),
                    forall|j: int| 0 <= j < i ==> #[trigger] v@[j]@ != u@,
            {
                if v[i] == u {
                    assert(v@[i as int]@ == uid_or_empty(*uid));
                    let ghost ov = *owner_uids;
                    assert(ov matches Some(w) && w@[i as int]@ == uid_or_empty(*uid));
                    assert(owned_by(*owner_uids, *uid));
                    return true;
                }
            }
            false
        },
        None => false,
    }
}

/// `a + b + c + d + e` as a `String`.
pub fn concat5_strs(a: &str, b: &str, c: &str, d: &str, e: &str) -> (r: String)
    ensures
        r@ == a@ + b@ + c@ + d@ + e@,
{
    let mut t = chars_of(a);
    append_chars(&mut t, chars_of(b).as_slice());
    append_chars(&mut t, chars_of(c).as_slice());
    append_chars(&mut t, chars_of(d).as_slice());
    append_chars(&mut t, chars_of(e).as_slice());
    string_of(t.as_slice())
}

/// Whether `p` occurs in `s`.
pub open spec fn contains_seq(s: Seq<char>, p: Seq<char>) -> bool {
    exists|i: int| 0 <= i && i + p.len() <= s.len() && #[trigger] s.subrange(i, i + p.len()) == p
}

/// Whether `p` occurs in `s`.
pub fn contains_chars(s: &[char], p: &[char]) -> (r: bool)
    ensures
        r == contains_seq(s@, p@),
{
    if p.len() > s.len() {
        return false;
    }
    let last = s.len() - p.len();
    let mut i: usize = 0;
    loop
        invariant
            last + p.len() == s.len(),
            i <= last,
            forall|j: int| 0 <= j < i ==> #[trigger] s@.subrange(j, j + p@.len()) != p@,
        decreases last - i,
    {
        let w = copy_range(s, i, i + p.len());
        if eq_chars(w.as_slice(), p) {
            return true;
        }
        if i == last {
            assert forall|j: int| 0 <= j && j + p@.len() <= s@.len() implies #[trigger] s@.subrange(
                j,
                j + p@.len(),
            ) != p@ by {
                if j == i {
                } else {
                    assert(j < i);
                }
            }
            return false;
        }
        i = i + 1;
    }
}

} // verus!
