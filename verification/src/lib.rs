//! The state of the git repositories in a directory, and a board that shows it.

pub mod app;
pub mod cli;
pub mod filters;
pub mod forge;
pub mod git;
pub mod json;
pub mod keys;
pub mod messages;
pub mod model;
pub mod nav;
pub mod number;
pub mod order;
pub mod path;
pub mod scan;
pub mod text;
pub mod ui;
