//! A sink that writes messages into the named pipes a glob pattern
//! matches.  The writing itself is I/O and lives with the caller; the
//! configured pattern is held here.

use vstd::prelude::*;

verus! {

/// Status-bar pipe sink, identified by the glob pattern of its pipes.
#[derive(Clone)]
pub struct PipeSender {
    pub bar_pipe_glob: String,
}

impl PipeSender {
    pub fn new(glob_str: String) -> (p: PipeSender)
        ensures
            p.bar_pipe_glob@ == glob_str@,
    {
        PipeSender { bar_pipe_glob: glob_str }
    }
}

} // verus!
