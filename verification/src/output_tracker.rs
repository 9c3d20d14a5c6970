//! Periodic output refresher: forwards a fixed IPC string down a pipe
//! whenever a workspace event arrives (and, outside this crate, on a
//! timer).  The decision of when and what to send lives here; delivery
//! is the caller's concern.

use vstd::prelude::*;
use crate::events::Event;
use crate::parsable_duration::ParsableDuration;
use vstd::string::StringExecFns;

verus! {

/// Status-bar refresher: the IPC string it pushes and the name of the
/// configured pipe to push it down.
pub struct OutputTracker {
    pub ipc_str: String,
    pub pipe_name: String,
}

/// Config input for `OutputTracker`.
pub struct OutputTrackerConfig {
    pub ipc_str: String,
    pub pipe_name: String,
    pub update_interval: Option<ParsableDuration>,
}

impl OutputTracker {
    /// The subscription this handler needs: workspace events.
    pub fn subscription() -> (s: u32)
        ensures
            s == crate::conn_loop::SUB_WORKSPACE,
    {
        crate::conn_loop::SUB_WORKSPACE
    }

    /// The message to push for one inbound event: the configured IPC
    /// string on every workspace event, nothing otherwise.
    pub fn message_for(&self, e: &Event) -> (r: Option<String>)
        ensures
            match e {
                Event::Workspace(_) => r matches Option::Some(m) && m@ == self.ipc_str@,
                _ => r is None,
            },
    {
        match e {
            Event::Workspace(_) => Option::Some(self.ipc_str.clone()),
            _ => Option::None,
        }
    }

    /// Build a tracker from its resolved configuration.
    pub fn from_config(config: OutputTrackerConfig) -> (t: OutputTracker)
        ensures
            t.ipc_str@ == config.ipc_str@,
            t.pipe_name@ == config.pipe_name@,
    {
        OutputTracker { ipc_str: config.ipc_str, pipe_name: config.pipe_name }
    }
}

impl Default for OutputTracker {
    /// The stock target: the date module hook pushed down the standard
    /// status-bar pipe glob.
    fn default() -> (t: OutputTracker)
        ensures
            t.ipc_str@ == "hook:module/date1"@,
            t.pipe_name@ == "/tmp/polybar_mqueue.*"@,
    {
        OutputTracker {
            ipc_str: String::from_str("hook:module/date1"),
            pipe_name: String::from_str("/tmp/polybar_mqueue.*"),
        }
    }
}

} // verus!
