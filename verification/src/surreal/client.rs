//! How the operator reaches a SurrealDB server.
use crate::text::{chars_of, starts_with_chars};
use vstd::prelude::*;

verus! {

/// How to connect to an endpoint.
#[derive(Clone, Copy, Debug, PartialEq, Eq, Structural)]
pub enum ConnectionMode {
    /// `mem://` endpoints share one in-memory engine per process, without
    /// signing in.
    SharedMemory,
    /// Any other endpoint is connected to and signed in to as root.
    SignIn,
}

/// The way to connect to `endpoint`: the shared in-memory engine for a
/// `mem://` endpoint, a root sign-in otherwise.
pub fn connection_mode(endpoint: &str) -> (m: ConnectionMode)
    ensures
        m == if "mem://"@.is_prefix_of(endpoint@) {
            ConnectionMode::SharedMemory
        } else {
            ConnectionMode::SignIn
        },
{
    let e = chars_of(endpoint);
    let p = chars_of("mem://");
    if starts_with_chars(e.as_slice(), p.as_slice()) {
        ConnectionMode::SharedMemory
    } else {
        ConnectionMode::SignIn
    }
}

} // verus!
