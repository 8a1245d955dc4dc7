//! The options of the command line, as plain data.
use std::path::PathBuf;
use vstd::prelude::*;

verus! {

/// What one run was asked to do.
#[derive(Debug)]
pub struct Options {
    /// Path to the manifest.
    pub path: PathBuf,
    /// Do not overwrite the file.
    pub dryrun: bool,
    /// Keep a backup of the manifest beside the new one.
    pub keep: bool,
    /// On a dry run, write the formatted manifest beside the manifest.
    pub create: bool,
}

/// The subcommands.
#[derive(Debug)]
pub enum Command {
    /// The alias under which cargo calls the program.
    Tomlfmt(Options),
}

/// The command line as a whole.
#[derive(Debug)]
pub struct Client {
    /// The options given without a subcommand.
    pub options: Options,
    /// The subcommand, if one was given.
    pub command: Option<Command>,
}

impl Client {
    /// The options that count: those of the subcommand where one was given,
    /// else those given directly.
    pub open spec fn chosen(self) -> Options {
        match self.command {
            Some(Command::Tomlfmt(options)) => options,
            None => self.options,
        }
    }

    /// The options that count: those of the subcommand where one was given,
    /// else those given directly.
    pub fn into_options(self) -> (options: Options)
        ensures
            options == self.chosen(),
    {
        match self.command {
            Some(Command::Tomlfmt(options)) => options,
            None => self.options,
        }
    }
}

} // verus!
