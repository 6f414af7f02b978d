//! Sandboxes as pods of a Kubernetes cluster.
pub mod backend;
pub mod pod;
