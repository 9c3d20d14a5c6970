//! The connection/event-loop state machine.
//!
//! The surrounding process owns the sockets, the retries and the await
//! points; every decision — what a state and an observation lead to, and
//! when a server shutdown means "reconnect" rather than "exit" — is made
//! here.

use vstd::prelude::*;
use crate::events::Event;
use crate::events::ShutdownChange;

verus! {

/// Subscription class codes, as the IPC protocol numbers them.
pub const SUB_WORKSPACE: u32 = 0;

pub const SUB_OUTPUT: u32 = 1;

pub const SUB_MODE: u32 = 2;

pub const SUB_WINDOW: u32 = 3;

pub const SUB_BARCONFIG_UPDATE: u32 = 4;

pub const SUB_BINDING: u32 = 5;

pub const SUB_SHUTDOWN: u32 = 6;

pub const SUB_TICK: u32 = 7;

/// Where the listener loop stands.
#[derive(PartialEq, Eq, Structural, Clone, Copy, Debug)]
pub enum ConnState {
    /// Trying to reach the IPC endpoint, with bounded retry.
    Connecting,
    /// Connected; the subscription request is in flight.
    Subscribed,
    /// Pulling events; `restart` records that the server announced a
    /// restart, so the next stream end means "reconnect".
    Listening { restart: bool },
    /// The loop is over; the process exits.
    Terminated,
}

/// What the surrounding process observed.
#[derive(PartialEq, Eq, Structural, Clone, Copy, Debug)]
pub enum LoopObservation {
    ConnectOk,
    ConnectTimedOut,
    SubscribeOk,
    SubscribeFailed,
    /// One event arrived; the flag says whether it was a shutdown
    /// announcing a server restart.
    StreamEvent { restart_shutdown: bool },
    StreamEnded,
    StreamFailed,
}

/// The transition table of the loop: connect, subscribe, listen; a
/// restart shutdown arms the reconnect path, any other end of the
/// stream terminates the loop.
pub open spec fn spec_loop_step(s: ConnState, ob: LoopObservation) -> ConnState {
    match (s, ob) {
        (ConnState::Connecting, LoopObservation::ConnectOk) => ConnState::Subscribed,
        (ConnState::Connecting, LoopObservation::ConnectTimedOut) => ConnState::Terminated,
        (ConnState::Subscribed, LoopObservation::SubscribeOk) => ConnState::Listening {
            restart: false,
        },
        (ConnState::Subscribed, LoopObservation::SubscribeFailed) => ConnState::Terminated,
        (
            ConnState::Listening { restart },
            LoopObservation::StreamEvent { restart_shutdown },
        ) => ConnState::Listening { restart: restart || restart_shutdown },
        (ConnState::Listening { restart }, LoopObservation::StreamEnded) => if restart {
            ConnState::Connecting
        } else {
            ConnState::Terminated
        },
        (ConnState::Listening { .. }, LoopObservation::StreamFailed) => ConnState::Terminated,
        _ => s,
    }
}

/// Advance the loop by one observation, per `spec_loop_step`.
pub fn loop_step(s: ConnState, ob: LoopObservation) -> (s2: ConnState)
    ensures
        s2 == spec_loop_step(s, ob),
{
    match (s, ob) {
        (ConnState::Connecting, LoopObservation::ConnectOk) => ConnState::Subscribed,
        (ConnState::Connecting, LoopObservation::ConnectTimedOut) => ConnState::Terminated,
        (ConnState::Subscribed, LoopObservation::SubscribeOk) => ConnState::Listening {
            restart: false,
        },
        (ConnState::Subscribed, LoopObservation::SubscribeFailed) => ConnState::Terminated,
        (
            ConnState::Listening { restart },
            LoopObservation::StreamEvent { restart_shutdown },
        ) => ConnState::Listening { restart: restart || restart_shutdown },
        (ConnState::Listening { restart }, LoopObservation::StreamEnded) => if restart {
            ConnState::Connecting
        } else {
            ConnState::Terminated
        },
        (ConnState::Listening { .. }, LoopObservation::StreamFailed) => ConnState::Terminated,
        _ => s,
    }
}

/// A server shutdown means "the server is coming back" exactly when its
/// cause is a restart.
pub fn is_restart_shutdown(e: &Event) -> (r: bool)
    ensures
        r == (e matches Event::Shutdown(sd) && sd.change is Restart),
{
    match e {
        Event::Shutdown(sd) => match sd.change {
            ShutdownChange::Restart => true,
            ShutdownChange::Exit => false,
        },
        _ => false,
    }
}

/// Law: once a restart has been seen, further events never disarm it —
/// the stream's end then always leads back to `Connecting`.
pub proof fn lemma_restart_flag_monotone(restart: bool, restart_shutdown: bool)
    ensures
        restart ==> spec_loop_step(
            ConnState::Listening { restart },
            LoopObservation::StreamEvent { restart_shutdown },
        ) == (ConnState::Listening { restart: true }),
        spec_loop_step(
            ConnState::Listening { restart: true },
            LoopObservation::StreamEnded,
        ) == ConnState::Connecting,
{
}

} // verus!
