//! The driver that takes a cluster backend through the life of a sandbox.
pub mod label;
pub mod run;
