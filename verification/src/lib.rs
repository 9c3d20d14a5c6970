//! Workspace-history companion for a tiling window manager.
//!
//! The crate keeps per-output navigation history for workspaces and turns
//! bound key chords into outgoing window-manager commands.  Everything that
//! decides — the bounded history stack with its deduplication rules, the
//! per-output manager, the navigation engine, the key-chord matcher, the
//! command renderer and the reconnect state machine — lives here, verified.
//! The surrounding process (IPC transport, clock, notifications, config
//! files) hands plain values in and carries plain values out.

pub mod commands;
pub mod config;
pub mod conn_loop;
pub mod events;
pub mod history;
pub mod keybinding;
pub mod layout_tracker;
pub mod manager;
pub mod output_tracker;
pub mod parsable_duration;
pub mod pipe_sender;
pub mod shell_caller;
pub mod traits;
pub mod ws_history;
