//! Commit-graph layout and per-file history tracing for a repository viewer.
//!
//! The crate turns an ordered stream of commits into lane positions, colors
//! and path segments (`lanes`), and traces which commits changed the content
//! of one path (`history`). Around these stand the records of a repository
//! viewer and the decisions of its commands. The object store itself is not
//! here: a caller reads it and hands over plain values.
//!
//! The contracts are proved by Verus. What is taken on trust of other
//! crates and of the clock is marked `external_body`, each with a comment
//! that says what is claimed.

pub mod commit;
pub mod delta;
pub mod diff;
pub mod errors;
pub mod git;
pub mod history;
pub mod lanes;
pub mod oid;
pub mod oid_set;
pub mod refs;
pub mod server;
pub mod settings;
pub mod stage;
pub mod store;
pub mod text;
pub mod timer;
pub mod watch;
