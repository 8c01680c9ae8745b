pub mod client;
pub mod diff;
