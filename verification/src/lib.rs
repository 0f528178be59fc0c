//! Scaffolding of a source project from a description and a list of
//! starters: the dependency sets of the starters are merged into one, the
//! manifest is rendered, an identity is chosen that no existing project
//! directory bears, and the file tree of the project is assembled.

pub mod dependency;
pub mod dependency_set;
pub mod description;
pub mod error;
pub mod generation;
pub mod identity;
pub mod laws;
pub mod manifest;
pub mod merge;
pub mod project;
pub mod starter;
pub mod text;

pub use crate::error::ProjectGeneratingServiceError;
pub use crate::generation::generate;
