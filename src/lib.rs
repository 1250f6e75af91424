//! Reconciles a tree of managed dotfiles against a destination tree by
//! planning symbolic links or transformed copies, with per-file policy
//! descriptors written in Lua.

pub mod color;
pub mod decision;
pub mod script;
pub mod paths;
pub mod classify;
pub mod plan;
pub mod walk;
pub mod laws;
pub mod report;
