use i3_companion::commands::format_i32;
use i3_companion::commands::move_cmd;
use i3_companion::commands::switch_cmd;
use i3_companion::manager::HistTypeConfig;
use i3_companion::manager::HistoryManager;

#[test]
fn single_mode_shares_one_stack() {
    let mut m = HistoryManager::new(HistTypeConfig::Single, 20);
    m.push_for(&"a".to_string(), 1);
    m.push_for(&"b".to_string(), 2);
    let h = m.get(&"anything".to_string()).unwrap();
    assert_eq!(h.hist, vec![2, 1]);
}

#[test]
fn per_output_mode_creates_stacks_lazily() {
    let mut m = HistoryManager::new(HistTypeConfig::PerOutput, 20);
    assert!(m.get(&"a".to_string()).is_none());
    m.push_for(&"a".to_string(), 1);
    m.push_for(&"b".to_string(), 7);
    m.push_for(&"a".to_string(), 2);
    assert_eq!(m.get(&"a".to_string()).unwrap().hist, vec![2, 1]);
    assert_eq!(m.get(&"b".to_string()).unwrap().hist, vec![7]);
}

#[test]
fn display_marks_cursor_entry() {
    let mut m = HistoryManager::new(HistTypeConfig::Single, 20);
    m.push_for(&"".to_string(), 1);
    m.push_for(&"".to_string(), 2);
    m.push_for(&"".to_string(), 5);
    m.set_cursor_for(&"".to_string(), 1);
    let out = m.display(&"".to_string()).unwrap();
    assert_eq!(out, "5\n2\t<-\n1\n");
}

#[test]
fn display_fails_for_unknown_output() {
    let m = HistoryManager::new(HistTypeConfig::PerOutput, 20);
    assert!(m.display(&"nope".to_string()).is_err());
}

#[test]
fn reset_all_rewinds_every_cursor() {
    let mut m = HistoryManager::new(HistTypeConfig::PerOutput, 20);
    for ws in [1, 2, 3] {
        m.push_for(&"a".to_string(), ws);
        m.push_for(&"b".to_string(), ws + 10);
    }
    m.set_cursor_for(&"a".to_string(), 2);
    m.set_cursor_for(&"b".to_string(), 1);
    m.reset_all();
    assert_eq!(m.get(&"a".to_string()).unwrap().hist_ptr, 0);
    assert_eq!(m.get(&"b".to_string()).unwrap().hist_ptr, 0);
    // the prefix cycled back through comes back in reverse order
    assert_eq!(m.get(&"a".to_string()).unwrap().hist, vec![1, 2, 3]);
    assert_eq!(m.get(&"b".to_string()).unwrap().hist, vec![12, 13, 11]);
}

#[test]
fn switch_command_renders_number() {
    assert_eq!(switch_cmd(3), "workspace number 3");
    assert_eq!(switch_cmd(42), "workspace number 42");
    assert_eq!(switch_cmd(-7), "workspace number -7");
}

#[test]
fn move_command_renders_number_twice() {
    assert_eq!(
        move_cmd(12),
        "move container to workspace number 12; workspace number 12"
    );
}

#[test]
fn decimal_rendering_exact() {
    assert_eq!(format_i32(0), "0");
    assert_eq!(format_i32(105), "105");
    assert_eq!(format_i32(-2147483648), "-2147483648");
    assert_eq!(format_i32(2147483647), "2147483647");
}
