//! The command to launch: an executable, its ordered arguments and its
//! environment mapping, immutable once built. Spawning the real process
//! with piped stdio is the surrounding binary's work; it reads the command
//! through the getters.

use std::collections::HashMap;

use vstd::prelude::*;

verus! {

/// A command specification.
#[derive(Debug)]
pub struct Command {
    executable: String,
    args: Vec<String>,
    env: HashMap<String, String>,
}

impl Command {
    pub closed spec fn spec_executable(&self) -> Seq<char> {
        self.executable@
    }

    pub closed spec fn spec_args(&self) -> Seq<String> {
        self.args@
    }

    pub closed spec fn spec_env(&self) -> Map<String, String> {
        self.env@
    }

    /// A new command for launching the given program, with no arguments
    /// and an empty environment.
    pub fn new(executable: &str) -> (command: Command)
        ensures
            command.spec_executable() == executable@,
            command.spec_args() == Seq::<String>::empty(),
            command.spec_env() == Map::<String, String>::empty(),
    {
        Command { executable: executable.to_owned(), args: Vec::new(), env: HashMap::new() }
    }

    /// Appends arguments to the command, keeping their order.
    pub fn args(self, args: Vec<String>) -> (command: Command)
        ensures
            command.spec_executable() == self.spec_executable(),
            command.spec_args() == self.spec_args() + args@,
            command.spec_env() == self.spec_env(),
    {
        let mut command = self;
        let mut args = args;
        command.args.append(&mut args);
        command
    }

    /// Replaces the environment mapping. Keys are unique by construction.
    pub fn envs(self, env: HashMap<String, String>) -> (command: Command)
        ensures
            command.spec_executable() == self.spec_executable(),
            command.spec_args() == self.spec_args(),
            command.spec_env() == env@,
    {
        let mut command = self;
        command.env = env;
        command
    }

    pub fn executable(&self) -> (executable: &str)
        ensures
            executable@ == self.spec_executable(),
    {
        self.executable.as_str()
    }

    pub fn arguments(&self) -> (args: &Vec<String>)
        ensures
            args@ == self.spec_args(),
    {
        &self.args
    }

    pub fn environment(&self) -> (env: &HashMap<String, String>)
        ensures
            env@ == self.spec_env(),
    {
        &self.env
    }
}

} // verus!
