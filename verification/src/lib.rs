//! Rebuilds and reinstalls the `qtile-git` package from a chosen upstream
//! reference: the source locator, the recipe patcher, and the decisions of the
//! cache and of the build and install pipeline.

pub mod source;
pub mod lines;
pub mod pattern;
pub mod recipe;
pub mod install;
pub mod cache;
