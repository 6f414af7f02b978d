//! Sandboxes for untrusted work: what backends decide about them.
//!
//! [`types`] is what a sandbox is asked for by. [`k8s`] decides for a backend that runs sandboxes
//! as pods of a cluster, and [`e2e`] drives such a backend through a whole run. [`lifecycle`] is
//! the vocabulary of a sandbox's life, [`local`] decides for a backend that runs sandboxes as
//! child processes, and [`handle`] keeps count for the owner of a sandbox. What talks to the
//! cluster, to processes and to the clock is left to callers: they hand in what they saw and are
//! told what to do. [`outside`] is what is taken on trust.
pub mod e2e;
pub mod error;
pub mod handle;
pub mod k8s;
pub mod lifecycle;
pub mod local;
pub mod outside;
pub mod pairs;
pub mod string_map;
pub mod text;
pub mod types;
