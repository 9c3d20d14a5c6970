//! A sink that hands messages to a shell command as arguments.  Running
//! the command is I/O and lives with the caller; the configured command
//! is held here.

use vstd::prelude::*;

verus! {

/// Shell-command sink, identified by the command it runs.
#[derive(Clone)]
pub struct ShellCaller {
    pub cmd: String,
}

impl ShellCaller {
    pub fn new(cmd: String) -> (c: ShellCaller)
        ensures
            c.cmd@ == cmd@,
    {
        ShellCaller { cmd }
    }
}

} // verus!
