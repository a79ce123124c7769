//! A filesystem-visibility sandbox for running one command over a
//! whitelisted set of files.
//!
//! Given a working-directory root, a list of absolute file paths that must
//! resolve below that root, and a non-empty command, the library validates
//! containment, plans the staging of each file at its root-relative path
//! inside a fresh isolated directory, and classifies the outcome of the
//! launched command. The filesystem and process work itself is carried out
//! by the host around these decisions.

pub mod executor;
pub mod laws;
pub mod paths;
