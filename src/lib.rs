//! Filesystem primitives offered across a C call boundary: line reading,
//! directory creation, seeking, parent lookup and suffix trimming.
//!
//! This crate holds the decisions of each operation. The operating-system
//! calls and the raw-pointer handoff live in the boundary layer that uses it.

pub mod error;
pub mod text;
pub mod lines;
pub mod request;
pub mod parent;
