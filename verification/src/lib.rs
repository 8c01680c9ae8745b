pub mod text;
pub mod crd;
pub mod surreal;
pub mod controller;
pub mod webhook;
