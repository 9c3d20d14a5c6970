//! The handler-dispatch protocol and sender capability contracts.

use vstd::prelude::*;
use crate::events::Event;
use crate::events::WorkspaceInfo;

verus! {

/// The environment snapshot the dispatch loop hands each handler: the
/// clock reading in milliseconds and, when a handler asked for it, the
/// result of the "current workspaces" query (`None` when it failed).
pub struct EventCtx {
    pub now_ms: u64,
    pub workspaces: Option<Vec<WorkspaceInfo>>,
}

/// What consuming one event produced: at most one outgoing command for
/// the loop to send, and at most one user-visible notification for it
/// to surface.
pub struct EventResponse {
    pub command: Option<String>,
    pub notification: Option<crate::ws_history::StackNote>,
}

/// The capability every feature module implements: declare the event
/// classes it needs, and consume one event, optionally yielding one
/// outgoing command for the loop to send.  `inv` is the module's own
/// well-formedness condition, which dispatch preserves.
pub trait OnEvent {
    spec fn inv(&self) -> bool;

    fn add_subscriptions(&self, subs: &mut std::collections::HashSet<u32>);

    fn handle_event(&mut self, e: &Event, ctx: &EventCtx) -> (r: EventResponse)
        requires
            old(self).inv(),
        ensures
            final(self).inv(),
    ;
}

/// How a feature module obtains its configuration.
pub trait Configurable {
    fn default() -> Self where Self: Sized;

    fn from_config(config: &str) -> Self where Self: Sized;

    fn from_cli() -> Self where Self: Sized;
}

/// Delivery mechanism for a textual status message.
pub trait MsgSender {
    fn send(&self, msg: &str);
}

/// Which delivery mechanism a configured sink uses.
pub enum SenderType {
    SHELL,
    PIPE,
}

} // verus!
