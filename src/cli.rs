use vstd::prelude::*;

verus! {

/// The command line: one subcommand.
#[derive(Debug)]
pub struct Cli {
    pub command: Commands,
}

/// What the program is asked to do.
#[derive(Debug)]
pub enum Commands {
    /// Pick a stored program and run it.
    Start,
    /// Store a program file with the others.
    Add(AddCommand),
}

/// The program file to store.
#[derive(Debug)]
pub struct AddCommand {
    pub game: String,
}

} // verus!
