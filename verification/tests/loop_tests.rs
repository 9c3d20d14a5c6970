use i3_companion::config::{I3Interval, I3Timeout};
use i3_companion::conn_loop::{
    is_restart_shutdown, loop_step, ConnState, LoopObservation, SUB_BINDING, SUB_WORKSPACE,
};
use i3_companion::events::{Event, ShutdownChange, ShutdownData, WorkspaceChange, WorkspaceData};
use i3_companion::output_tracker::OutputTracker;
use i3_companion::parsable_duration::ParsableDuration;

#[test]
fn loop_reaches_listening_through_connect_and_subscribe() {
    let s = ConnState::Connecting;
    let s = loop_step(s, LoopObservation::ConnectOk);
    assert_eq!(s, ConnState::Subscribed);
    let s = loop_step(s, LoopObservation::SubscribeOk);
    assert_eq!(s, ConnState::Listening { restart: false });
}

#[test]
fn connect_timeout_terminates() {
    let s = loop_step(ConnState::Connecting, LoopObservation::ConnectTimedOut);
    assert_eq!(s, ConnState::Terminated);
}

#[test]
fn restart_shutdown_arms_reconnect() {
    let s = ConnState::Listening { restart: false };
    let s = loop_step(s, LoopObservation::StreamEvent { restart_shutdown: true });
    assert_eq!(s, ConnState::Listening { restart: true });
    // later events do not disarm it
    let s = loop_step(s, LoopObservation::StreamEvent { restart_shutdown: false });
    assert_eq!(s, ConnState::Listening { restart: true });
    let s = loop_step(s, LoopObservation::StreamEnded);
    assert_eq!(s, ConnState::Connecting);
}

#[test]
fn plain_stream_end_terminates() {
    let s = ConnState::Listening { restart: false };
    assert_eq!(loop_step(s, LoopObservation::StreamEnded), ConnState::Terminated);
    assert_eq!(loop_step(s, LoopObservation::StreamFailed), ConnState::Terminated);
}

#[test]
fn only_restart_shutdowns_count() {
    let restart = Event::Shutdown(ShutdownData { change: ShutdownChange::Restart });
    let exit = Event::Shutdown(ShutdownData { change: ShutdownChange::Exit });
    assert!(is_restart_shutdown(&restart));
    assert!(!is_restart_shutdown(&exit));
    assert!(!is_restart_shutdown(&Event::Tick));
}

#[test]
fn subscription_codes_are_distinct() {
    assert_ne!(SUB_WORKSPACE, SUB_BINDING);
    assert_eq!(OutputTracker::subscription(), SUB_WORKSPACE);
}

#[test]
fn default_connection_durations() {
    assert_eq!(I3Timeout::default().0.millis, 3000);
    assert_eq!(I3Interval::default().0.millis, 3);
}

#[test]
fn output_tracker_fires_on_workspace_events_only() {
    let t = OutputTracker::default();
    assert_eq!(t.ipc_str, "hook:module/date1");
    let ws = Event::Workspace(WorkspaceData {
        change: WorkspaceChange::Focus,
        current: None,
        old: None,
    });
    assert_eq!(t.message_for(&ws), Some("hook:module/date1".to_string()));
    assert_eq!(t.message_for(&Event::Tick), None);
}

#[test]
fn duration_millis_round_trip() {
    let d = ParsableDuration::from_secs(10);
    assert_eq!(d.as_millis(), 10000);
    assert_eq!(ParsableDuration::from_millis(250).millis, 250);
}
