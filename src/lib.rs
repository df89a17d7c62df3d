//! Derives a semantic version from the shape and annotations of a commit
//! history: a walk of the commits from the head is read commit by commit into
//! version commands, which are replayed oldest first under a counting policy.

pub mod text;
pub mod version;
pub mod version_text;
pub mod command;
pub mod annotation;
pub mod fold;
pub mod engine;
