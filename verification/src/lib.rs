//! Storage rules for the sources that a package recipe builds from.

pub mod build;
pub mod cache;
pub mod command;
pub mod digest;
pub mod effect;
pub mod git2wrap;
pub mod path;
pub mod recipe;
pub mod removal;
pub mod text;
pub mod upstream;
pub mod uri;
