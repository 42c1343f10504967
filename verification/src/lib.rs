//! Verified core of an autogit daemon: a filesystem-watching service that
//! records working-tree changes as commits on a private shadow branch of the
//! enclosing git repository, without ever touching the user's index or
//! branches.
//!
//! The library holds the logic: the path classifier, the config codec, the
//! plumbing-command state machines, the retry policy, and the daemon loop's
//! decision functions. Process spawning, filesystem access and threads live
//! outside, in the thin application layer that drives these machines.
pub mod classify;
pub mod config;
pub mod daemon;
pub mod events;
pub mod frontmatter;
pub mod graph;
pub mod log_reader;
pub mod repo;
pub mod retry;
pub mod text;
pub mod vcs;
