//! Sandboxes as child processes of this one, for development and tests.
pub mod backend;
pub mod pipes;
pub mod record;
pub mod resources;
pub mod usage;
pub mod watch;
