use ecopower::history::{History, HISTORY_CAPACITY};
use ecopower::monitor::{total_traffic, Key, Monitor};
use ecopower::process::{
    filter_processes, nice_from_stat, process_row, sort_processes, ProcessInfo, ProcessSample,
    SortBy,
};

fn row(pid: u32, name: &str, cpu: f32, memory_kb: u64) -> ProcessInfo {
    ProcessInfo {
        pid,
        name: name.to_string(),
        user: "0".to_string(),
        cpu_bits: cpu.to_bits(),
        memory_kb,
        state: "Run".to_string(),
        nice: 0,
    }
}

fn pids(rows: &[ProcessInfo]) -> Vec<u32> {
    rows.iter().map(|p| p.pid).collect()
}

#[test]
fn history_keeps_the_last_150_samples() {
    let mut h: History<u64> = History::new();
    assert_eq!(h.latest(), 0);
    for v in 0..200u64 {
        h.push(v);
    }
    assert_eq!(HISTORY_CAPACITY, 150);
    assert_eq!(h.len(), 150);
    assert_eq!(h.values()[0], 50);
    assert_eq!(h.latest(), 199);
    let expected: Vec<u64> = (50..200).collect();
    assert_eq!(h.values(), &expected[..]);
}

#[test]
fn history_below_capacity_keeps_everything() {
    let mut h: History<u64> = History::new();
    h.push(7);
    h.push(9);
    assert_eq!(h.values(), &[7, 9]);
    assert_eq!(h.latest(), 9);
}

#[test]
fn sort_by_cpu_is_descending_and_stable() {
    let rows = vec![
        row(1, "a", 1.5, 10),
        row(2, "b", 30.0, 10),
        row(3, "c", 1.5, 10),
        row(4, "d", 0.0, 10),
        row(5, "e", 30.0, 10),
    ];
    let sorted = sort_processes(rows, SortBy::Cpu);
    assert_eq!(pids(&sorted), vec![2, 5, 1, 3, 4]);
}

#[test]
fn sort_by_memory_is_descending_and_stable() {
    let rows = vec![row(1, "a", 0.0, 5), row(2, "b", 0.0, 900), row(3, "c", 0.0, 5), row(4, "d", 0.0, 40)];
    let sorted = sort_processes(rows, SortBy::Memory);
    assert_eq!(pids(&sorted), vec![2, 4, 1, 3]);
}

#[test]
fn filter_is_case_insensitive_substring() {
    let rows = vec![row(1, "Firefox", 0.0, 0), row(2, "bash", 0.0, 0), row(3, "xfire", 0.0, 0)];
    let shown = filter_processes(&rows, "FiRe");
    let ids: Vec<u32> = shown.iter().map(|p| p.pid).collect();
    assert_eq!(ids, vec![1, 3]);
    assert_eq!(filter_processes(&rows, "").len(), 3);
    assert_eq!(filter_processes(&rows, "zsh").len(), 0);
}

#[test]
fn nice_is_word_18_of_stat() {
    let stat = "1234 (bash) S 1 1234 1234 34816 1234 4194560 1000 0 0 0 5 3 0 0 20 -5 1 0 100 1000 200";
    assert_eq!(nice_from_stat(stat), -5);
    assert_eq!(nice_from_stat("1 (x) S 1 2 3"), 0);
    let bad = "1 (x) S 1 2 3 4 5 6 7 8 9 10 11 12 13 14 15 abc 17";
    assert_eq!(nice_from_stat(bad), 0);
    let spaced = "  1\t(x)\nS 1 2 3 4 5 6 7 8 9 10 11 12 13 14 15  19  ";
    assert_eq!(nice_from_stat(spaced), 19);
}

#[test]
fn sample_becomes_row() {
    let s = ProcessSample {
        pid: 99,
        name: "daemon".to_string(),
        user: None,
        cpu_bits: 2.5f32.to_bits(),
        memory_bytes: 10 * 1024 + 1023,
        state: "Idle".to_string(),
        stat: Some("99 (daemon) S 1 1 1 0 -1 0 0 0 0 0 0 0 0 0 20 10 1".to_string()),
    };
    let p = process_row(s);
    assert_eq!(p.user, "?");
    assert_eq!(p.memory_kb, 10);
    assert_eq!(p.nice, 10);
    assert_eq!(p.name, "daemon");
    assert_eq!(f32::from_bits(p.cpu_bits), 2.5);
    assert_eq!(row(1, "x", 0.0, 3 * 1024 + 5).memory_mb(), 3);
}

#[test]
fn record_sample_updates_everything() {
    let mut m = Monitor::new();
    let samples = vec![
        ProcessSample {
            pid: 1,
            name: "init".to_string(),
            user: Some("0".to_string()),
            cpu_bits: 0.5f32.to_bits(),
            memory_bytes: 4096,
            state: "Sleeping".to_string(),
            stat: None,
        },
        ProcessSample {
            pid: 2,
            name: "busy".to_string(),
            user: Some("1000".to_string()),
            cpu_bits: 75.0f32.to_bits(),
            memory_bytes: 2048,
            state: "Run".to_string(),
            stat: None,
        },
    ];
    m.record_sample(42, 63, samples);
    assert_eq!(m.tick, 1);
    assert_eq!(m.cpu_history.latest(), 42);
    assert_eq!(m.mem_history.latest(), 63);
    assert_eq!(pids(&m.processes), vec![2, 1]);
    assert_eq!(m.status, "Tick 1 | 2 processes");
}

#[test]
fn status_names_filter_when_one_is_set() {
    let mut m = Monitor::new();
    m.handle_key(Key::Char('f'), true);
    m.handle_key(Key::Char('s'), true);
    m.handle_key(Key::Enter, true);
    m.record_sample(1, 2, vec![]);
    assert_eq!(m.status, "Filter: s | 0 processes");
}

#[test]
fn sort_column_applies_at_next_sample() {
    let mut m = Monitor::new();
    let make = || {
        vec![
            ProcessSample {
                pid: 1,
                name: "small".to_string(),
                user: None,
                cpu_bits: 90.0f32.to_bits(),
                memory_bytes: 1024,
                state: "R".to_string(),
                stat: None,
            },
            ProcessSample {
                pid: 2,
                name: "big".to_string(),
                user: None,
                cpu_bits: 1.0f32.to_bits(),
                memory_bytes: 1024 * 1024,
                state: "R".to_string(),
                stat: None,
            },
        ]
    };
    m.record_sample(0, 0, make());
    assert_eq!(pids(&m.processes), vec![1, 2]);
    m.handle_key(Key::Char('m'), true);
    assert_eq!(pids(&m.processes), vec![1, 2]);
    m.record_sample(0, 0, make());
    assert_eq!(pids(&m.processes), vec![2, 1]);
    assert_eq!(m.status, "Tick 2 | 2 processes");
}

#[test]
fn traffic_total_and_overflow() {
    assert_eq!(total_traffic(&vec![1, 2, 3]), Some(6));
    assert_eq!(total_traffic(&vec![]), Some(0));
    assert_eq!(total_traffic(&vec![u64::MAX, 0]), Some(u64::MAX));
    assert_eq!(total_traffic(&vec![u64::MAX, 1]), None);
    assert_eq!(total_traffic(&vec![u64::MAX, u64::MAX, u64::MAX]), None);
}

#[test]
fn table_cell_texts() {
    for (kb, nice, pid) in [(5 * 1024u64, -5i32, 7u32), (1234567 * 1024, 19, 4294967295), (0, 0, 0), (999999 * 1024 + 1023, -20, 1)] {
        let mut p = row(pid, "x", 0.0, kb);
        p.nice = nice;
        assert_eq!(p.memory_text(), format!("{:>6} MB", kb / 1024));
        assert_eq!(p.pid_text(), pid.to_string());
        assert_eq!(p.nice_text(), nice.to_string());
    }
    assert_eq!(row(1, "x", 0.0, 5 * 1024).memory_text(), "     5 MB");
}

#[test]
fn narrower_filter_shows_fewer_rows_in_order() {
    let rows = vec![row(1, "Firefox", 0.0, 0), row(2, "fire", 0.0, 0), row(3, "bash", 0.0, 0), row(4, "FIREFOXY", 0.0, 0)];
    let wide: Vec<u32> = filter_processes(&rows, "fi").iter().map(|p| p.pid).collect();
    let narrow: Vec<u32> = filter_processes(&rows, "fiRefox").iter().map(|p| p.pid).collect();
    assert_eq!(wide, vec![1, 2, 4]);
    assert_eq!(narrow, vec![1, 4]);
}

#[test]
fn sorting_twice_changes_nothing() {
    let rows = vec![row(1, "a", 1.0, 3), row(2, "b", 5.0, 3), row(3, "c", 1.0, 9), row(4, "d", 5.0, 1)];
    let once = sort_processes(rows, SortBy::Cpu);
    let once_ids = pids(&once);
    let twice = sort_processes(once, SortBy::Cpu);
    assert_eq!(pids(&twice), once_ids);
    assert_eq!(once_ids, vec![2, 4, 1, 3]);
}
