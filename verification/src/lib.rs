//! A personal task tracker: the task collection, its identifiers, the rules by
//! which a command is resolved and carried out on it.

pub mod cli;
pub mod model;
pub mod prompt;
pub mod store;
pub mod task;
pub mod text;
