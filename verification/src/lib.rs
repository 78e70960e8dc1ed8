//! Decision logic of a synchronizer that keeps a local mirror of a package
//! registry and of version-controlled dependencies.
//!
//! Nothing here touches the disk or the network. The caller tells what it
//! found on disk and what became of each step; the library decides what
//! is missing, what is to be done next, and what the run has come to.

pub mod dispatch;
pub mod git;
pub mod index;
pub mod layout;
pub mod model;
pub mod order;
pub mod package;
pub mod probe;
pub mod rerun;
pub mod run;
pub mod summary;
