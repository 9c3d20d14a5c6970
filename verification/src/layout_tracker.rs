//! Configuration of the layout indicator.  The indicator itself walks
//! the window tree and formats a status string — work that stays with
//! the surrounding process; its configured shape is held here.

use vstd::prelude::*;

verus! {

/// Config input for the layout indicator: the format of the string it
/// pushes (a brace pair marks where the layout code goes) and the name
/// of the configured pipe to push it down.
pub struct LayoutTrackerConfig {
    pub pipe_echo_fmt: String,
    pub pipe_name: String,
}

} // verus!
