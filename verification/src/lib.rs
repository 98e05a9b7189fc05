//! Core of a project scaffolding engine: an action interpreter that drives
//! variable collection and rendering, a source resolver with a git cache, and
//! a path/file renderer governed by file-disposition rules.

pub mod actions;
pub mod context;
pub mod engine;
pub mod error;
pub mod strings;
pub mod render;
pub mod rules;
pub mod source;
pub mod template;
