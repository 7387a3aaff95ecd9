//! Fans one structured values document out over a set of named targets:
//! each target names a template, an output path and an optional hook.
//!
//! The crate holds the decisions of that pipeline: which format a values
//! document is read in, how a parsed document becomes the tree a template is
//! rendered against, how path-like strings are expanded, in which order the
//! targets are taken, and when a run stops. Reading files, writing files and
//! spawning processes are left to the caller, which is told what to do next
//! by [`run::advance`].

pub mod format;
pub mod text;
pub mod values;
pub mod expand;
pub mod config;
pub mod run;
