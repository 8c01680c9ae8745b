//! The admission webhook that records who approved a Rollout.
pub mod server;
