//! Worktree manager core: consistency checking, refresh merging, the
//! layout-conversion transaction and the interactive application engine.

pub mod cache;
pub mod cli;
pub mod convert;
pub mod engine;
pub mod gh_ops;
pub mod git_ops;
pub mod health;
pub mod hooks;
pub mod models;
pub mod services;
pub mod text;
pub mod view;
