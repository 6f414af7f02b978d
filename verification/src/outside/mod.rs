//! What the library takes on trust: the calls into outside crates, each with what their
//! sources show of it.
pub mod buffer;
pub mod channel;
pub mod ident;
pub mod io;
