//! A verified core for a TypeScript project scaffolder.
//!
//! The library models the generated configuration files as JSON documents,
//! applies the user's choices to them, and plans the sequence of filesystem
//! actions that materializes a new project directory.

pub mod json;
pub mod scaffold;
pub mod templates;
