//! The event vocabulary the engine consumes, as plain values.
//!
//! The surrounding process receives window-manager events over IPC and
//! hands them to the library in this form, together with the snapshot of
//! currently known workspaces when one could be fetched.

use vstd::prelude::*;

verus! {

/// Kind of a workspace event.
#[derive(PartialEq, Eq, Structural, Clone, Copy, Debug)]
pub enum WorkspaceChange {
    Focus,
    Init,
    Empty,
    Urgent,
    Rename,
    Reload,
    Restored,
    Move,
}

/// The slice of a workspace tree node that the engine reads.
pub struct WsNode {
    pub num: Option<i32>,
    pub output: Option<String>,
}

/// Input class of a key chord.
#[derive(PartialEq, Eq, Structural, Clone, Copy, Debug)]
pub enum BindType {
    Keyboard,
    Mouse,
}

/// The chord carried by a binding event.
pub struct BindingObject {
    pub event_state_mask: Vec<String>,
    pub symbol: Option<String>,
    pub input_type: BindType,
}

/// A binding event.
pub struct BindingData {
    pub binding: BindingObject,
}

/// Why the server is shutting down.
#[derive(PartialEq, Eq, Structural, Clone, Copy, Debug)]
pub enum ShutdownChange {
    Restart,
    Exit,
}

/// A shutdown event.
pub struct ShutdownData {
    pub change: ShutdownChange,
}

/// A workspace event: the kind of change and the two workspaces involved.
pub struct WorkspaceData {
    pub change: WorkspaceChange,
    pub current: Option<WsNode>,
    pub old: Option<WsNode>,
}

/// One inbound event, reduced to what the library decides on; event
/// classes the engine never reads carry no payload.
pub enum Event {
    Workspace(WorkspaceData),
    Binding(BindingData),
    Shutdown(ShutdownData),
    Output,
    Mode,
    Window,
    BarConfig,
    Tick,
}

/// One row of the "current workspaces" query: workspace number, the output
/// showing it, and whether it is visible there.
pub struct WorkspaceInfo {
    pub num: i32,
    pub output: String,
    pub visible: bool,
}

} // verus!
