use std::collections::HashSet;

use i3_companion::conn_loop::{SUB_BINDING, SUB_TICK, SUB_WORKSPACE};
use i3_companion::events::BindType;
use i3_companion::events::BindingData;
use i3_companion::events::BindingObject;
use i3_companion::events::Event;
use i3_companion::events::WorkspaceChange;
use i3_companion::events::WorkspaceData;
use i3_companion::events::WorkspaceInfo;
use i3_companion::events::WsNode;
use i3_companion::history::WSDirection;
use i3_companion::keybinding::KeyBinding;
use i3_companion::manager::HistType;
use i3_companion::manager::HistTypeConfig;
use i3_companion::parsable_duration::ParsableDuration;
use i3_companion::traits::{EventCtx, OnEvent};
use i3_companion::ws_history::WSHistory;
use i3_companion::ws_history::WSHistoryConfig;

fn chord(mods: &[&str], symbol: &str) -> KeyBinding {
    KeyBinding {
        event_state_mask: mods.iter().map(|m| m.to_string()).collect(),
        symbol: Some(symbol.to_string()),
        input_type: BindType::Keyboard,
    }
}

fn binding_event(mods: &[&str], symbol: &str) -> Event {
    Event::Binding(BindingData {
        binding: BindingObject {
            event_state_mask: mods.iter().map(|m| m.to_string()).collect(),
            symbol: Some(symbol.to_string()),
            input_type: BindType::Keyboard,
        },
    })
}

fn ws_change(old: (i32, &str), cur: (i32, &str)) -> Event {
    Event::Workspace(WorkspaceData {
        change: WorkspaceChange::Focus,
        old: Some(WsNode { num: Some(old.0), output: Some(old.1.to_string()) }),
        current: Some(WsNode { num: Some(cur.0), output: Some(cur.1.to_string()) }),
    })
}

fn winfo(num: i32, output: &str, visible: bool) -> WorkspaceInfo {
    WorkspaceInfo { num, output: output.to_string(), visible }
}

fn base_config() -> WSHistoryConfig {
    WSHistoryConfig {
        hist_sz: 20,
        hist_type: HistTypeConfig::Single,
        skip_visible: false,
        activity_timeout: None,
        binding_prev: Some(chord(&["Mod4"], "o")),
        binding_move_prev: Some(chord(&["Mod4", "shift"], "o")),
        binding_next: Some(chord(&["Mod4"], "i")),
        binding_move_next: Some(chord(&["Mod4", "shift"], "i")),
        binding_swap_prev: Some(chord(&["Mod4", "ctrl"], "o")),
        binding_swap_next: Some(chord(&["Mod4", "ctrl"], "i")),
        binding_reset: Some(chord(&["Mod4", "ctrl", "shift"], "o")),
        binding_to_head: Some(chord(&["Mod4", "ctrl", "shift"], "i")),
        binding_move_to_head: Some(chord(&["Mod4", "Mod1", "shift"], "i")),
        binding_rem_and_prev: Some(chord(&["Mod4", "Mod1"], "o")),
        binding_rem_and_next: Some(chord(&["Mod4", "Mod1"], "i")),
        binding_show_stack: Some(chord(&["Mod4", "ctrl"], "s")),
    }
}

fn stack_of<'a>(e: &'a WSHistory, output: &str) -> (&'a Vec<i32>, usize) {
    match &e.hist.hist {
        HistType::Single(h) => (&h.hist, h.hist_ptr),
        HistType::PerOutput(v) => {
            let oh = v.iter().find(|oh| oh.output == output).unwrap();
            (&oh.hist.hist, oh.hist.hist_ptr)
        },
    }
}

#[test]
fn per_output_scenario_records_and_navigates() {
    let mut cfg = base_config();
    cfg.hist_type = HistTypeConfig::PerOutput;
    cfg.skip_visible = true;
    cfg.activity_timeout = Some(ParsableDuration { millis: 10000 });
    let mut e = WSHistory::from_config(cfg);

    e.process_event(&ws_change((1, "eDP-1"), (2, "eDP-1")), None, 0);
    e.process_event(&ws_change((2, "eDP-1"), (3, "eDP-1")), None, 1);
    e.process_event(&ws_change((3, "eDP-1"), (1, "eDP-1")), None, 2);

    let (entries, cursor) = stack_of(&e, "eDP-1");
    assert_eq!(entries, &vec![1, 3, 2, 1]);
    assert_eq!(cursor, 0);
    assert_eq!(e.ignore_ctr, 0);

    // workspace 1 is the visible one; navigating back lands on 3
    let wss = vec![
        winfo(1, "eDP-1", true),
        winfo(2, "eDP-1", false),
        winfo(3, "eDP-1", false),
    ];
    let (cmd, note) = e.process_event(&binding_event(&["Mod4"], "o"), Some(&wss), 3);
    assert_eq!(cmd, Some("workspace number 3".to_string()));
    assert!(note.is_none());
    assert_eq!(e.ignore_ctr, 1);

    // the change this command causes is absorbed without recording
    e.process_event(&ws_change((1, "eDP-1"), (3, "eDP-1")), Some(&wss), 4);
    assert_eq!(e.ignore_ctr, 0);
    let (entries, cursor) = stack_of(&e, "eDP-1");
    assert_eq!(entries, &vec![1, 3, 2, 1]);
    assert_eq!(cursor, 1);
}

#[test]
fn prev_then_next_returns_to_start() {
    let mut e = WSHistory::from_config(base_config());
    e.process_event(&ws_change((1, "out"), (2, "out")), None, 0);
    e.process_event(&ws_change((2, "out"), (3, "out")), None, 0);
    let (entries, cursor) = stack_of(&e, "out");
    assert_eq!(entries, &vec![3, 2, 1]);
    assert_eq!(cursor, 0);

    let start_ws = entries[cursor];
    assert_eq!(e.goto_ws(WSDirection::PREV, None, 0), Some(2));
    assert_eq!(e.goto_ws(WSDirection::NEXT, None, 0), Some(start_ws));
    let (entries, cursor) = stack_of(&e, "out");
    assert_eq!(cursor, 0);
    assert_eq!(entries[cursor], start_ws);
}

#[test]
fn remove_and_prev_scenario() {
    let mut e = WSHistory::from_config(base_config());
    e.process_event(&ws_change((3, "out"), (4, "out")), None, 0);
    e.process_event(&ws_change((4, "out"), (5, "out")), None, 0);
    let (entries, cursor) = stack_of(&e, "out");
    assert_eq!(entries, &vec![5, 4, 3]);
    assert_eq!(cursor, 0);

    let (cmd, _) = e.process_event(&binding_event(&["Mod4", "Mod1"], "o"), None, 0);
    assert_eq!(cmd, Some("workspace number 4".to_string()));
    assert_eq!(e.ignore_ctr, 1);
    let (entries, cursor) = stack_of(&e, "out");
    assert_eq!(entries, &vec![4, 3]);
    assert_eq!(cursor, 0);
}

#[test]
fn idle_timeout_restarts_navigation_from_head() {
    let mut cfg = base_config();
    cfg.activity_timeout = Some(ParsableDuration { millis: 100 });
    let mut e = WSHistory::from_config(cfg);
    e.process_event(&ws_change((1, "out"), (2, "out")), None, 0);
    e.process_event(&ws_change((2, "out"), (3, "out")), None, 0);

    // navigate back one step well before the deadline
    let (cmd, _) = e.process_event(&binding_event(&["Mod4"], "o"), None, 50);
    assert_eq!(cmd, Some("workspace number 2".to_string()));
    let (_, cursor) = stack_of(&e, "out");
    assert_eq!(cursor, 1);

    // long silence: the next navigation begins from cursor 0 again
    let (cmd, _) = e.process_event(&binding_event(&["Mod4"], "o"), None, 500);
    assert_eq!(cmd, Some("workspace number 3".to_string()));
    let (entries, cursor) = stack_of(&e, "out");
    assert_eq!(entries, &vec![2, 3, 1]);
    assert_eq!(cursor, 1);
}

#[test]
fn move_binding_emits_compound_command_and_ignores_two() {
    let mut e = WSHistory::from_config(base_config());
    e.process_event(&ws_change((1, "out"), (2, "out")), None, 0);
    e.process_event(&ws_change((2, "out"), (3, "out")), None, 0);
    let (cmd, _) = e.process_event(&binding_event(&["Mod4", "shift"], "o"), None, 0);
    assert_eq!(
        cmd,
        Some("move container to workspace number 2; workspace number 2".to_string())
    );
    assert_eq!(e.ignore_ctr, 2);
}

#[test]
fn swap_exchanges_next_two_entries() {
    let mut e = WSHistory::from_config(base_config());
    e.process_event(&ws_change((1, "out"), (2, "out")), None, 0);
    e.process_event(&ws_change((2, "out"), (3, "out")), None, 0);
    // stack [3, 2, 1], cursor 0: swapping toward older entries swaps
    // positions 1 and 2 without moving the cursor or emitting a command
    let (cmd, note) = e.process_event(&binding_event(&["Mod4", "ctrl"], "o"), None, 0);
    assert!(cmd.is_none());
    assert!(note.is_none());
    let (entries, cursor) = stack_of(&e, "out");
    assert_eq!(entries, &vec![3, 1, 2]);
    assert_eq!(cursor, 0);
}

#[test]
fn to_head_jumps_back_to_newest() {
    let mut e = WSHistory::from_config(base_config());
    for t in [(1, 2), (2, 3), (3, 4)] {
        e.process_event(&ws_change((t.0, "out"), (t.1, "out")), None, 0);
    }
    // walk back twice, then jump home
    e.process_event(&binding_event(&["Mod4"], "o"), None, 0);
    e.process_event(&binding_event(&["Mod4"], "o"), None, 0);
    let (_, cursor) = stack_of(&e, "out");
    assert_eq!(cursor, 2);
    let before = e.ignore_ctr;
    let (cmd, _) = e.process_event(&binding_event(&["Mod4", "ctrl", "shift"], "i"), None, 0);
    assert_eq!(cmd, Some("workspace number 4".to_string()));
    assert_eq!(e.ignore_ctr, before + 1);
    let (_, cursor) = stack_of(&e, "out");
    assert_eq!(cursor, 0);
}

#[test]
fn show_stack_renders_notification() {
    let mut e = WSHistory::from_config(base_config());
    e.process_event(&ws_change((1, "out"), (2, "out")), None, 0);
    e.process_event(&ws_change((2, "out"), (5, "out")), None, 0);
    let (cmd, note) = e.process_event(&binding_event(&["Mod4", "ctrl"], "s"), None, 0);
    assert!(cmd.is_none());
    let note = note.unwrap();
    assert_eq!(note.summary, "i3 Workspace History");
    assert_eq!(note.body, "5\t<-\n2\n1\n");
}

#[test]
fn show_stack_names_output_in_per_output_mode() {
    let mut cfg = base_config();
    cfg.hist_type = HistTypeConfig::PerOutput;
    let mut e = WSHistory::from_config(cfg);
    e.process_event(&ws_change((1, "eDP-1"), (2, "eDP-1")), None, 0);
    let (_, note) = e.process_event(&binding_event(&["Mod4", "ctrl"], "s"), None, 0);
    assert_eq!(note.unwrap().summary, "i3 Workspace History (eDP-1)");
}

#[test]
fn empty_history_ignores_bindings() {
    let mut e = WSHistory::from_config(base_config());
    let (cmd, note) = e.process_event(&binding_event(&["Mod4"], "o"), None, 0);
    assert!(cmd.is_none());
    assert!(note.is_none());
    assert_eq!(e.ignore_ctr, 0);
}

#[test]
fn init_changes_are_not_recorded() {
    let mut e = WSHistory::from_config(base_config());
    let ev = Event::Workspace(WorkspaceData {
        change: WorkspaceChange::Init,
        old: Some(WsNode { num: Some(1), output: Some("out".to_string()) }),
        current: Some(WsNode { num: Some(2), output: Some("out".to_string()) }),
    });
    e.process_event(&ev, None, 0);
    match &e.hist.hist {
        HistType::Single(h) => assert!(h.hist.is_empty()),
        HistType::PerOutput(_) => panic!("expected a single shared stack"),
    }
}

#[test]
fn skip_visible_walks_past_visible_workspaces() {
    let mut cfg = base_config();
    cfg.skip_visible = true;
    let mut e = WSHistory::from_config(cfg);
    for t in [(1, 2), (2, 3), (3, 4)] {
        e.process_event(&ws_change((t.0, "out"), (t.1, "out")), None, 0);
    }
    // stack [4, 3, 2, 1]; 3 is visible, so walking back skips it
    let wss = vec![
        winfo(4, "out", true),
        winfo(3, "out", true),
        winfo(2, "out", false),
        winfo(1, "out", false),
    ];
    let (cmd, _) = e.process_event(&binding_event(&["Mod4"], "o"), Some(&wss), 0);
    assert_eq!(cmd, Some("workspace number 2".to_string()));
    let (_, cursor) = stack_of(&e, "out");
    assert_eq!(cursor, 2);
}

#[test]
fn failed_query_degrades_to_first_candidate() {
    let mut cfg = base_config();
    cfg.skip_visible = true;
    let mut e = WSHistory::from_config(cfg);
    e.process_event(&ws_change((1, "out"), (2, "out")), None, 0);
    e.process_event(&ws_change((2, "out"), (3, "out")), None, 0);
    // no query result at hand: the first candidate is accepted
    let (cmd, _) = e.process_event(&binding_event(&["Mod4"], "o"), None, 0);
    assert_eq!(cmd, Some("workspace number 2".to_string()));
}

#[test]
fn default_engine_uses_documented_chords() {
    let e = WSHistory::default();
    let prev = e.binding_prev.as_ref().unwrap();
    assert!(prev.matches(match &binding_event(&["Mod4"], "o") {
        Event::Binding(bd) => bd,
        _ => unreachable!(),
    }));
    assert_eq!(e.hist.hist_sz, 20);
    assert!(e.skip_visible);
    assert_eq!(e.activity_timeout, Some(10000));
    assert!(e.binding_show_stack.is_some());
}

#[test]
fn engine_declares_workspace_and_binding_subscriptions() {
    let e = WSHistory::default();
    let mut subs: HashSet<u32> = HashSet::new();
    subs.insert(SUB_TICK);
    e.add_subscriptions(&mut subs);
    assert!(subs.contains(&SUB_WORKSPACE));
    assert!(subs.contains(&SUB_BINDING));
    // what other handlers asked for stays in the set
    assert!(subs.contains(&SUB_TICK));
    assert_eq!(subs.len(), 3);
}

#[test]
fn dispatch_through_handler_protocol() {
    let mut e = WSHistory::from_config(base_config());
    e.process_event(&ws_change((1, "out"), (2, "out")), None, 0);
    e.process_event(&ws_change((2, "out"), (3, "out")), None, 0);
    let ctx = EventCtx { now_ms: 0, workspaces: None };
    let r = e.handle_event(&binding_event(&["Mod4"], "o"), &ctx);
    assert_eq!(r.command, Some("workspace number 2".to_string()));
    assert!(r.notification.is_none());
    assert_eq!(e.ignore_ctr, 1);
}
