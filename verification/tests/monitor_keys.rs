use ecopower::monitor::{Action, Key, KillOutcome, Monitor, Tab};
use ecopower::process::{ProcessSample, SortBy};

fn sample(pid: u32, name: &str, cpu: f32, memory_bytes: u64) -> ProcessSample {
    ProcessSample {
        pid,
        name: name.to_string(),
        user: Some("1000".to_string()),
        cpu_bits: cpu.to_bits(),
        memory_bytes,
        state: "Sleeping".to_string(),
        stat: None,
    }
}

fn monitor_with(samples: Vec<ProcessSample>) -> Monitor {
    let mut m = Monitor::new();
    m.record_sample(10, 20, samples);
    m
}

fn press(m: &mut Monitor, key: Key) -> Action {
    m.handle_key(key, true)
}

fn type_text(m: &mut Monitor, text: &str) {
    for c in text.chars() {
        press(m, Key::Char(c));
    }
}

#[test]
fn new_monitor_starts_ready() {
    let m = Monitor::new();
    assert_eq!(m.tab, Tab::Overview);
    assert_eq!(m.tick, 0);
    assert_eq!(m.selected, Some(0));
    assert_eq!(m.status, "Ecopower Final Boss - Ready");
    assert_eq!(m.sort_by, SortBy::Cpu);
    assert!(!m.show_help && !m.input_mode && !m.renice_mode);
    assert_eq!(m.cpu_history.len(), 0);
    assert_eq!(m.status_line(), "Ecopower Final Boss - Ready");
}

#[test]
fn q_and_escape_quit() {
    let mut m = Monitor::new();
    assert!(matches!(press(&mut m, Key::Char('q')), Action::Quit));
    assert!(matches!(press(&mut m, Key::Esc), Action::Quit));
}

#[test]
fn key_release_is_ignored() {
    let mut m = Monitor::new();
    assert!(matches!(m.handle_key(Key::Char('q'), false), Action::Continue));
    m.handle_key(Key::Char('h'), false);
    assert!(!m.show_help);
}

#[test]
fn h_toggles_help() {
    let mut m = Monitor::new();
    press(&mut m, Key::Char('h'));
    assert!(m.show_help);
    press(&mut m, Key::Char('h'));
    assert!(!m.show_help);
}

#[test]
fn tab_key_cycles_through_tabs() {
    let mut m = Monitor::new();
    let mut seen = Vec::new();
    for _ in 0..4 {
        press(&mut m, Key::Tab);
        seen.push(m.tab);
    }
    assert_eq!(seen, vec![Tab::Processes, Tab::Disks, Tab::History, Tab::Overview]);
}

#[test]
fn digit_keys_pick_tabs() {
    let mut m = Monitor::new();
    press(&mut m, Key::Char('3'));
    assert_eq!(m.tab, Tab::Disks);
    assert_eq!(m.tab.index(), 2);
    press(&mut m, Key::Char('4'));
    assert_eq!(m.tab, Tab::History);
    press(&mut m, Key::Char('2'));
    assert_eq!(m.tab, Tab::Processes);
    press(&mut m, Key::Char('1'));
    assert_eq!(m.tab, Tab::Overview);
    assert_eq!(Tab::History.index(), 3);
    assert_eq!(Tab::default(), Tab::Overview);
}

#[test]
fn c_and_m_choose_the_sort_column() {
    let mut m = Monitor::new();
    press(&mut m, Key::Char('m'));
    assert_eq!(m.sort_by, SortBy::Memory);
    press(&mut m, Key::Char('c'));
    assert_eq!(m.sort_by, SortBy::Cpu);
    assert_eq!(SortBy::default(), SortBy::Cpu);
}

#[test]
fn filter_prompt_types_and_keeps_filter() {
    let mut m = Monitor::new();
    press(&mut m, Key::Char('f'));
    assert!(m.input_mode);
    type_text(&mut m, "fiq");
    assert_eq!(m.filter, "fiq");
    assert_eq!(m.status_line(), "Filter mode: fiq");
    press(&mut m, Key::Backspace);
    assert_eq!(m.filter, "fi");
    // Non-ASCII characters are not typed into the filter.
    press(&mut m, Key::Char('é'));
    assert_eq!(m.filter, "fi");
    press(&mut m, Key::Enter);
    assert!(!m.input_mode);
    assert_eq!(m.filter, "fi");
}

#[test]
fn escape_in_filter_prompt_clears_filter() {
    let mut m = Monitor::new();
    press(&mut m, Key::Char('f'));
    type_text(&mut m, "abc");
    assert!(matches!(press(&mut m, Key::Esc), Action::Continue));
    assert!(!m.input_mode);
    assert_eq!(m.filter, "");
}

#[test]
fn backspace_on_empty_filter_does_nothing() {
    let mut m = Monitor::new();
    press(&mut m, Key::Char('f'));
    press(&mut m, Key::Backspace);
    assert_eq!(m.filter, "");
    assert!(m.input_mode);
}

#[test]
fn down_and_up_stay_inside_the_table() {
    let mut m = monitor_with(vec![
        sample(1, "a", 3.0, 0),
        sample(2, "b", 2.0, 0),
        sample(3, "c", 1.0, 0),
    ]);
    assert_eq!(m.selected, Some(0));
    press(&mut m, Key::Down);
    assert_eq!(m.selected, Some(1));
    press(&mut m, Key::Char('j'));
    assert_eq!(m.selected, Some(2));
    press(&mut m, Key::Down);
    assert_eq!(m.selected, Some(2));
    press(&mut m, Key::Up);
    press(&mut m, Key::Up);
    press(&mut m, Key::Up);
    assert_eq!(m.selected, Some(0));
}

#[test]
fn down_in_empty_table_selects_row_zero() {
    let mut m = Monitor::new();
    m.selected = None;
    press(&mut m, Key::Down);
    assert_eq!(m.selected, Some(0));
}

#[test]
fn down_is_bounded_by_filtered_rows() {
    let mut m = monitor_with(vec![
        sample(1, "firefox", 3.0, 0),
        sample(2, "bash", 2.0, 0),
        sample(3, "Firewall", 1.0, 0),
    ]);
    press(&mut m, Key::Char('f'));
    type_text(&mut m, "FIRE");
    press(&mut m, Key::Enter);
    assert_eq!(m.visible_processes().len(), 2);
    press(&mut m, Key::Down);
    press(&mut m, Key::Down);
    assert_eq!(m.selected, Some(1));
}

#[test]
fn k_asks_to_kill_the_selected_visible_process() {
    let mut m = monitor_with(vec![
        sample(10, "editor", 9.0, 0),
        sample(20, "shell", 5.0, 0),
    ]);
    press(&mut m, Key::Down);
    match press(&mut m, Key::Char('k')) {
        Action::Kill { pid, name } => {
            assert_eq!(pid, 20);
            assert_eq!(name, "shell");
        }
        other => panic!("unexpected action {:?}", other),
    }
}

#[test]
fn k_without_a_selected_row_does_nothing() {
    let mut m = Monitor::new();
    assert!(matches!(press(&mut m, Key::Char('k')), Action::Continue));
}

#[test]
fn kill_outcomes_set_the_status() {
    let mut m = Monitor::new();
    m.finish_kill(42, "sleep", KillOutcome::Tried(Some(true)));
    assert_eq!(m.status, "✓ Killed PID 42 - sleep");
    m.finish_kill(7, "init", KillOutcome::Tried(Some(false)));
    assert_eq!(m.status, "✗ Cannot kill PID 7");
    m.finish_kill(8, "x", KillOutcome::Tried(None));
    assert_eq!(m.status, "✗ Cannot kill PID 8");
    m.finish_kill(9, "gone", KillOutcome::Gone);
    assert_eq!(m.status, "✗ Cannot kill PID 8");
}

#[test]
fn renice_prompt_applies_value_to_selected_process() {
    let mut m = monitor_with(vec![sample(42, "worker", 1.0, 0)]);
    press(&mut m, Key::Char('n'));
    assert!(m.renice_mode);
    type_text(&mut m, "-x5");
    assert_eq!(m.renice_input, "-5");
    assert_eq!(m.status_line(), "Renice mode → Nhập nice (-20..19): -5");
    match press(&mut m, Key::Enter) {
        Action::Renice { pid, nice } => {
            assert_eq!(pid, 42);
            assert_eq!(nice, -5);
        }
        other => panic!("unexpected action {:?}", other),
    }
    assert_eq!(m.status, "Reniced PID 42 → -5");
    assert!(!m.renice_mode);
    assert_eq!(m.renice_input, "");
}

#[test]
fn renice_value_out_of_range_is_dropped() {
    let mut m = monitor_with(vec![sample(42, "worker", 1.0, 0)]);
    press(&mut m, Key::Char('n'));
    type_text(&mut m, "25");
    assert!(matches!(press(&mut m, Key::Enter), Action::Continue));
    assert!(!m.renice_mode);
    assert_eq!(m.renice_input, "");
    assert_eq!(m.status, "Tick 1 | 1 processes");
}

#[test]
fn renice_escape_and_backspace() {
    let mut m = monitor_with(vec![sample(42, "worker", 1.0, 0)]);
    press(&mut m, Key::Char('n'));
    type_text(&mut m, "19");
    press(&mut m, Key::Backspace);
    assert_eq!(m.renice_input, "1");
    assert!(matches!(press(&mut m, Key::Esc), Action::Continue));
    assert!(!m.renice_mode);
    assert_eq!(m.renice_input, "");
    // Esc in the prompt does not quit.
    assert_eq!(m.status, "Tick 1 | 1 processes");
}

#[test]
fn renice_bound_values_are_accepted() {
    let mut m = monitor_with(vec![sample(5, "p", 1.0, 0)]);
    press(&mut m, Key::Char('n'));
    type_text(&mut m, "-20");
    assert!(matches!(press(&mut m, Key::Enter), Action::Renice { pid: 5, nice: -20 }));
    press(&mut m, Key::Char('n'));
    type_text(&mut m, "19");
    assert!(matches!(press(&mut m, Key::Enter), Action::Renice { pid: 5, nice: 19 }));
    assert_eq!(m.status, "Reniced PID 5 → 19");
}

#[test]
fn filter_prompt_takes_command_letters_as_text() {
    let mut m = monitor_with(vec![sample(1, "nano", 1.0, 0)]);
    press(&mut m, Key::Char('f'));
    type_text(&mut m, "nq");
    assert!(m.input_mode);
    assert!(!m.renice_mode);
    assert_eq!(m.filter, "nq");
    assert_eq!(m.tab, Tab::Overview);
}
