//! The unit of dispatch: a command with a grammar, an execution and a completion.

use clap::{ArgMatches, Command};
use vstd::prelude::*;

verus! {

/// What a command tells the loop that drives it.
#[derive(Debug, PartialEq, Eq, Structural, Clone, Copy)]
pub enum TaskAction {
    /// Stay in the loop.
    Continue,
    /// Leave this loop.
    Break,
    /// Leave this loop and ask the caller to leave too.
    Exit,
}

/// A command that can be registered under a dispatcher.
///
/// Nothing is promised of an implementation: a dispatcher states what it does
/// with whatever these methods return.
pub trait Task {
    /// The grammar of the command: its name, its arguments, its help.
    fn command(&self) -> Command;

    /// Executes the command on the arguments parsed against its grammar.
    fn action(&self, matches: &ArgMatches) -> TaskAction;

    /// Completes the tokens that follow the command's name, if it can.
    fn suggests(&self, args: &[&str]) -> Option<String>;
}

} // verus!
