//! A multicall command dispatcher: many named commands behind one root,
//! each with its own grammar, its own execution and its own completion.

pub mod cli;
pub mod complete;
pub mod grammar;
pub mod session;
pub mod task;
pub mod text;
pub mod tokens;

pub use cli::Cli;
pub use complete::complete;
pub use task::{Task, TaskAction};
