use vstd::prelude::*;

use crate::history::{keep_recent, History};
use crate::process::{
    filter_processes, is_stable_sort, process_rows, rows_of, sort_processes, views, visible,
    ProcessInfo, ProcessSample, ProcessView, SortBy,
};
use crate::text::{
    chars_of, decimal, is_digit, parse_i32, parse_i32_spec, pop_char, push_char, push_decimal,
    push_signed_decimal, signed_decimal,
};

verus! {

/// The screens of the monitor.
#[derive(Clone, Copy, Debug, PartialEq, Eq, Structural)]
pub enum Tab {
    Overview,
    Processes,
    Disks,
    History,
}

impl Default for Tab {
    fn default() -> (t: Self)
        ensures
            t == Tab::Overview,
    {
        Tab::Overview
    }
}

impl Tab {
    /// The tab that the Tab key moves to: the tabs form a cycle.
    pub open spec fn following(self) -> Tab {
        match self {
            Tab::Overview => Tab::Processes,
            Tab::Processes => Tab::Disks,
            Tab::Disks => Tab::History,
            Tab::History => Tab::Overview,
        }
    }

    /// The place of the tab in the tab bar, from 0.
    pub open spec fn position(self) -> usize {
        match self {
            Tab::Overview => 0,
            Tab::Processes => 1,
            Tab::Disks => 2,
            Tab::History => 3,
        }
    }

    /// The next tab in the cycle.
    pub fn next(self) -> (t: Tab)
        ensures
            t == self.following(),
    {
        match self {
            Tab::Overview => Tab::Processes,
            Tab::Processes => Tab::Disks,
            Tab::Disks => Tab::History,
            Tab::History => Tab::Overview,
        }
    }

    /// The place of the tab in the tab bar, from 0.
    pub fn index(self) -> (i: usize)
        ensures
            i == self.position(),
    {
        match self {
            Tab::Overview => 0,
            Tab::Processes => 1,
            Tab::Disks => 2,
            Tab::History => 3,
        }
    }
}


/// A key press, as the monitor tells keys apart.
#[derive(Clone, Copy, Debug, PartialEq, Eq, Structural)]
pub enum Key {
    Enter,
    Esc,
    Backspace,
    Tab,
    Up,
    Down,
    Char(char),
    Other,
}

/// What the surrounding program is asked to do after a key.
#[derive(Debug)]
pub enum Action {
    /// Nothing beyond redrawing.
    Continue,
    /// Leave the program.
    Quit,
    /// Send the kill signal to the process `pid` and report the outcome with
    /// `Monitor::finish_kill`.
    Kill { pid: u32, name: String },
    /// Give the process `pid` the nice value `nice`.
    Renice { pid: u32, nice: i32 },
}

/// The mathematical value of an `Action`.
pub enum ActionView {
    Continue,
    Quit,
    Kill { pid: u32, name: Seq<char> },
    Renice { pid: u32, nice: i32 },
}

impl View for Action {
    type V = ActionView;

    open spec fn view(&self) -> ActionView {
        match self {
            Action::Continue => ActionView::Continue,
            Action::Quit => ActionView::Quit,
            Action::Kill { pid, name } => ActionView::Kill { pid: *pid, name: name@ },
            Action::Renice { pid, nice } => ActionView::Renice { pid: *pid, nice: *nice },
        }
    }
}

/// What became of a kill request.
#[derive(Clone, Copy, Debug, PartialEq, Eq, Structural)]
pub enum KillOutcome {
    /// The process was no longer there.
    Gone,
    /// The signal was tried: `Some(true)` when it was delivered,
    /// `Some(false)` when it failed, `None` when the platform does not
    /// know the signal.
    Tried(Option<bool>),
}

/// The whole state of the monitor that its logic reads and writes.
pub struct Monitor {
    pub tab: Tab,
    /// Samples taken so far.
    pub tick: u64,
    /// Global CPU usage, in percent, one value per sample.
    pub cpu_history: History<u64>,
    /// Memory usage, in percent, one value per sample.
    pub mem_history: History<u64>,
    /// The process table, ordered by the sort column that was in effect
    /// when the last sample was recorded.
    pub processes: Vec<ProcessInfo>,
    /// The selected row of the filtered table.
    pub selected: Option<usize>,
    /// The process name filter.
    pub filter: String,
    /// Keys edit the filter.
    pub input_mode: bool,
    pub status: String,
    pub sort_by: SortBy,
    pub show_help: bool,
    /// Keys edit the nice value to apply to the selected process.
    pub renice_mode: bool,
    pub renice_input: String,
}

/// The mathematical value of a `Monitor`.
#[verifier::ext_equal]
pub struct MonitorView {
    pub tab: Tab,
    pub tick: u64,
    pub cpu_history: Seq<u64>,
    pub mem_history: Seq<u64>,
    pub processes: Seq<ProcessView>,
    pub selected: Option<usize>,
    pub filter: Seq<char>,
    pub input_mode: bool,
    pub status: Seq<char>,
    pub sort_by: SortBy,
    pub show_help: bool,
    pub renice_mode: bool,
    pub renice_input: Seq<char>,
}

impl View for Monitor {
    type V = MonitorView;

    open spec fn view(&self) -> MonitorView {
        MonitorView {
            tab: self.tab,
            tick: self.tick,
            cpu_history: self.cpu_history@,
            mem_history: self.mem_history@,
            processes: views(self.processes@),
            selected: self.selected,
            filter: self.filter@,
            input_mode: self.input_mode,
            status: self.status@,
            sort_by: self.sort_by,
            show_help: self.show_help,
            renice_mode: self.renice_mode,
            renice_input: self.renice_input@,
        }
    }
}

/// The status shown when the monitor starts.
pub open spec fn ready_status() -> Seq<char> {
    "Ecopower Final Boss - Ready"@
}

/// The status after a kill: what happened to process `pid` named `name`.
pub open spec fn kill_status(pid: u32, name: Seq<char>, killed: bool) -> Seq<char> {
    if killed {
        "✓ Killed PID "@ + decimal(pid as nat) + " - "@ + name
    } else {
        "✗ Cannot kill PID "@ + decimal(pid as nat)
    }
}

/// The status after process `pid` was given the nice value `nice`.
pub open spec fn renice_status(pid: u32, nice: i32) -> Seq<char> {
    "Reniced PID "@ + decimal(pid as nat) + " → "@ + signed_decimal(nice as int)
}

/// The status after a sample: the sample count, or the filter in effect,
/// and the number of processes.
pub open spec fn sample_status(tick: u64, filter: Seq<char>, count: nat) -> Seq<char> {
    if filter.len() == 0 {
        "Tick "@ + decimal(tick as nat) + " | "@ + decimal(count) + " processes"@
    } else {
        "Filter: "@ + filter + " | "@ + decimal(count) + " processes"@
    }
}

/// The line at the foot of the screen: what is being typed, or the status.
pub open spec fn status_line_of(m: MonitorView) -> Seq<char> {
    if m.renice_mode {
        "Renice mode → Nhập nice (-20..19): "@ + m.renice_input
    } else if m.input_mode {
        "Filter mode: "@ + m.filter
    } else {
        m.status
    }
}

/// The row the selection points at in the filtered table, if any.
pub open spec fn selected_row(m: MonitorView) -> Option<ProcessView> {
    match m.selected {
        Some(i) => {
            let shown = visible(m.processes, m.filter);
            if i < shown.len() {
                Some(shown[i as int])
            } else {
                None
            }
        },
        None => None,
    }
}

/// The selection after moving down: one row further, but not past the last
/// row of the filtered table (row 0 when the table is empty).
pub open spec fn row_below(m: MonitorView) -> usize {
    let count = visible(m.processes, m.filter).len();
    let i: int = match m.selected {
        Some(i) => i as int,
        None => 0,
    };
    let last: int = if count == 0 {
        0
    } else {
        count - 1
    };
    (if i + 1 <= last {
        i + 1
    } else {
        last
    }) as usize
}

/// The selection after moving up: one row back, but not before row 0.
pub open spec fn row_above(m: MonitorView) -> usize {
    let i: int = match m.selected {
        Some(i) => i as int,
        None => 0,
    };
    (if i == 0 {
        0
    } else {
        i - 1
    }) as usize
}

/// `s` without its last character, if it has one.
pub open spec fn without_last(s: Seq<char>) -> Seq<char> {
    if s.len() == 0 {
        s
    } else {
        s.drop_last()
    }
}

/// An ASCII character.
pub open spec fn is_ascii_char(c: char) -> bool {
    (c as u32) < 128
}

/// A key while the nice value is being typed: Enter applies a value between
/// -20 and 19 to the selected process, Esc gives up, Backspace deletes, and
/// digits and `-` are typed; both Enter and Esc leave the mode.
pub open spec fn after_renice_key(m: MonitorView, key: Key) -> (MonitorView, ActionView) {
    let closed = MonitorView { renice_mode: false, renice_input: Seq::empty(), ..m };
    match key {
        Key::Enter => match parse_i32_spec(m.renice_input) {
            Some(v) => if -20 <= v && v <= 19 {
                match selected_row(m) {
                    Some(p) => (
                        MonitorView { status: renice_status(p.pid, v), ..closed },
                        ActionView::Renice { pid: p.pid, nice: v },
                    ),
                    None => (closed, ActionView::Continue),
                }
            } else {
                (closed, ActionView::Continue)
            },
            None => (closed, ActionView::Continue),
        },
        Key::Esc => (closed, ActionView::Continue),
        Key::Backspace => (
            MonitorView { renice_input: without_last(m.renice_input), ..m },
            ActionView::Continue,
        ),
        Key::Char(c) => if is_digit(c) || c == '-' {
            (MonitorView { renice_input: m.renice_input.push(c), ..m }, ActionView::Continue)
        } else {
            (m, ActionView::Continue)
        },
        _ => (m, ActionView::Continue),
    }
}

/// A key while the filter is being typed: Enter keeps the filter, Esc
/// clears it (both leave the mode), Backspace deletes, and ASCII characters
/// are typed.
pub open spec fn after_filter_key(m: MonitorView, key: Key) -> MonitorView {
    match key {
        Key::Enter => MonitorView { input_mode: false, ..m },
        Key::Esc => MonitorView { filter: Seq::empty(), input_mode: false, ..m },
        Key::Backspace => MonitorView { filter: without_last(m.filter), ..m },
        Key::Char(c) => if is_ascii_char(c) {
            MonitorView { filter: m.filter.push(c), ..m }
        } else {
            m
        },
        _ => m,
    }
}

/// A key outside the typing modes.
pub open spec fn after_command_key(m: MonitorView, key: Key) -> (MonitorView, ActionView) {
    match key {
        Key::Esc => (m, ActionView::Quit),
        Key::Tab => (MonitorView { tab: m.tab.following(), ..m }, ActionView::Continue),
        Key::Down => (MonitorView { selected: Some(row_below(m)), ..m }, ActionView::Continue),
        Key::Up => (MonitorView { selected: Some(row_above(m)), ..m }, ActionView::Continue),
        Key::Char(c) => if c == 'q' {
            (m, ActionView::Quit)
        } else if c == 'h' {
            (MonitorView { show_help: !m.show_help, ..m }, ActionView::Continue)
        } else if c == '1' {
            (MonitorView { tab: Tab::Overview, ..m }, ActionView::Continue)
        } else if c == '2' {
            (MonitorView { tab: Tab::Processes, ..m }, ActionView::Continue)
        } else if c == '3' {
            (MonitorView { tab: Tab::Disks, ..m }, ActionView::Continue)
        } else if c == '4' {
            (MonitorView { tab: Tab::History, ..m }, ActionView::Continue)
        } else if c == 'f' {
            (MonitorView { input_mode: true, ..m }, ActionView::Continue)
        } else if c == 'k' {
            match selected_row(m) {
                Some(p) => (m, ActionView::Kill { pid: p.pid, name: p.name }),
                None => (m, ActionView::Continue),
            }
        } else if c == 'n' {
            (MonitorView { renice_mode: true, ..m }, ActionView::Continue)
        } else if c == 'c' {
            (MonitorView { sort_by: SortBy::Cpu, ..m }, ActionView::Continue)
        } else if c == 'm' {
            (MonitorView { sort_by: SortBy::Memory, ..m }, ActionView::Continue)
        } else if c == 'j' {
            (MonitorView { selected: Some(row_below(m)), ..m }, ActionView::Continue)
        } else {
            (m, ActionView::Continue)
        },
        _ => (m, ActionView::Continue),
    }
}

/// The effect of a key event: only presses count; the nice value prompt
/// takes keys first, then the filter prompt, then the commands.
pub open spec fn after_key(m: MonitorView, key: Key, pressed: bool) -> (MonitorView, ActionView) {
    if !pressed {
        (m, ActionView::Continue)
    } else if m.renice_mode {
        after_renice_key(m, key)
    } else if m.input_mode {
        (after_filter_key(m, key), ActionView::Continue)
    } else {
        after_command_key(m, key)
    }
}


fn kill_status_text(pid: u32, name: &str, killed: bool) -> (s: String)
    ensures
        s@ == kill_status(pid, name@, killed),
{
    if killed {
        let mut s: String = "✓ Killed PID ".to_string();
        push_decimal(&mut s, pid as u64);
        s.append(" - ");
        s.append(name);
        s
    } else {
        let mut s: String = "✗ Cannot kill PID ".to_string();
        push_decimal(&mut s, pid as u64);
        s
    }
}

fn renice_status_text(pid: u32, nice: i32) -> (s: String)
    ensures
        s@ == renice_status(pid, nice),
{
    let mut s: String = "Reniced PID ".to_string();
    push_decimal(&mut s, pid as u64);
    s.append(" → ");
    push_signed_decimal(&mut s, nice);
    s
}

fn sample_status_text(tick: u64, filter: &str, count: usize) -> (s: String)
    ensures
        s@ == sample_status(tick, filter@, count as nat),
{
    let mut s: String = if filter.is_empty() {
        let mut s: String = "Tick ".to_string();
        push_decimal(&mut s, tick);
        s
    } else {
        let mut s: String = "Filter: ".to_string();
        s.append(filter);
        s
    };
    s.append(" | ");
    push_decimal(&mut s, count as u64);
    s.append(" processes");
    s
}

impl Monitor {
    /// The monitor as it starts: overview tab, no samples, first row
    /// selected, no filter, sorted by CPU, ready status.
    pub fn new() -> (m: Monitor)
        ensures
            m@ == (MonitorView {
                tab: Tab::Overview,
                tick: 0,
                cpu_history: Seq::empty(),
                mem_history: Seq::empty(),
                processes: Seq::empty(),
                selected: Some(0),
                filter: Seq::empty(),
                input_mode: false,
                status: ready_status(),
                sort_by: SortBy::Cpu,
                show_help: false,
                renice_mode: false,
                renice_input: Seq::empty(),
            }),
    {
        let m = Monitor {
            tab: Tab::Overview,
            tick: 0,
            cpu_history: History::new(),
            mem_history: History::new(),
            processes: Vec::new(),
            selected: Some(0),
            filter: String::new(),
            input_mode: false,
            status: "Ecopower Final Boss - Ready".to_string(),
            sort_by: SortBy::Cpu,
            show_help: false,
            renice_mode: false,
            renice_input: String::new(),
        };
        assert(views(m.processes@) =~= Seq::<ProcessView>::empty());
        m
    }

    /// The rows that the filter lets through, in table order.
    pub fn visible_processes(&self) -> (out: Vec<&ProcessInfo>)
        ensures
            out@.map_values(|r: &ProcessInfo| r@) == visible(self@.processes, self@.filter),
    {
        filter_processes(&self.processes, self.filter.as_str())
    }

    /// Process id and name of the selected row, if the selection points at one.
    fn selected_target(&self) -> (r: Option<(u32, String)>)
        ensures
            match selected_row(self@) {
                Some(p) => r matches Some(t) && t.0 == p.pid && t.1@ == p.name,
                None => r is None,
            },
    {
        match self.selected {
            Some(i) => {
                let shown: Vec<&ProcessInfo> = self.visible_processes();
                if i < shown.len() {
                    let p: &ProcessInfo = shown[i];
                    assert(shown@.map_values(|r: &ProcessInfo| r@)[i as int] == p@);
                    Some((p.pid, p.name.clone()))
                } else {
                    None
                }
            },
            None => None,
        }
    }

    /// The text for the line at the foot of the screen.
    pub fn status_line(&self) -> (s: String)
        ensures
            s@ == status_line_of(self@),
    {
        if self.renice_mode {
            let mut s: String = "Renice mode → Nhập nice (-20..19): ".to_string();
            s.append(self.renice_input.as_str());
            s
        } else if self.input_mode {
            let mut s: String = "Filter mode: ".to_string();
            s.append(self.filter.as_str());
            s
        } else {
            self.status.clone()
        }
    }

    fn renice_key(&mut self, key: Key) -> (action: Action)
        requires
            old(self).renice_mode,
        ensures
            final(self)@ == after_renice_key(old(self)@, key).0,
            action@ == after_renice_key(old(self)@, key).1,
    {
        match key {
            Key::Enter => {
                let parsed: Option<i32> = parse_i32(&chars_of(self.renice_input.as_str()));
                let mut action: Action = Action::Continue;
                match parsed {
                    Some(v) => {
                        if -20 <= v && v <= 19 {
                            match self.selected_target() {
                                Some((pid, _name)) => {
                                    self.status = renice_status_text(pid, v);
                                    action = Action::Renice { pid, nice: v };
                                },
                                None => {},
                            }
                        }
                    },
                    None => {},
                }
                self.renice_mode = false;
                self.renice_input = String::new();
                action
            },
            Key::Esc => {
                self.renice_mode = false;
                self.renice_input = String::new();
                Action::Continue
            },
            Key::Backspace => {
                let _ = pop_char(&mut self.renice_input);
                Action::Continue
            },
            Key::Char(c) => {
                if ('0' <= c && c <= '9') || c == '-' {
                    push_char(&mut self.renice_input, c);
                }
                Action::Continue
            },
            _ => Action::Continue,
        }
    }

    fn filter_key(&mut self, key: Key)
        requires
            !old(self).renice_mode,
            old(self).input_mode,
        ensures
            final(self)@ == after_filter_key(old(self)@, key),
    {
        match key {
            Key::Enter => {
                self.input_mode = false;
            },
            Key::Esc => {
                self.filter = String::new();
                self.input_mode = false;
            },
            Key::Backspace => {
                let _ = pop_char(&mut self.filter);
            },
            Key::Char(c) => {
                if c <= '\u{7f}' {
                    push_char(&mut self.filter, c);
                }
            },
            _ => {},
        }
    }

    fn move_down(&mut self)
        ensures
            final(self)@ == (MonitorView { selected: Some(row_below(old(self)@)), ..old(self)@ }),
    {
        let count: usize = self.visible_processes().len();
        let i: usize = match self.selected {
            Some(i) => i,
            None => 0,
        };
        let last: usize = if count == 0 {
            0
        } else {
            count - 1
        };
        self.selected = Some(if i < last { i + 1 } else { last });
    }

    fn move_up(&mut self)
        ensures
            final(self)@ == (MonitorView { selected: Some(row_above(old(self)@)), ..old(self)@ }),
    {
        let i: usize = match self.selected {
            Some(i) => i,
            None => 0,
        };
        self.selected = Some(if i == 0 { 0 } else { i - 1 });
    }

    fn command_key(&mut self, key: Key) -> (action: Action)
        requires
            !old(self).renice_mode,
            !old(self).input_mode,
        ensures
            final(self)@ == after_command_key(old(self)@, key).0,
            action@ == after_command_key(old(self)@, key).1,
    {
        match key {
            Key::Esc => Action::Quit,
            Key::Tab => {
                self.tab = self.tab.next();
                Action::Continue
            },
            Key::Down => {
                self.move_down();
                Action::Continue
            },
            Key::Up => {
                self.move_up();
                Action::Continue
            },
            Key::Char(c) => {
                if c == 'q' {
                    Action::Quit
                } else if c == 'h' {
                    self.show_help = !self.show_help;
                    Action::Continue
                } else if c == '1' {
                    self.tab = Tab::Overview;
                    Action::Continue
                } else if c == '2' {
                    self.tab = Tab::Processes;
                    Action::Continue
                } else if c == '3' {
                    self.tab = Tab::Disks;
                    Action::Continue
                } else if c == '4' {
                    self.tab = Tab::History;
                    Action::Continue
                } else if c == 'f' {
                    self.input_mode = true;
                    Action::Continue
                } else if c == 'k' {
                    match self.selected_target() {
                        Some((pid, name)) => Action::Kill { pid, name },
                        None => Action::Continue,
                    }
                } else if c == 'n' {
                    self.renice_mode = true;
                    Action::Continue
                } else if c == 'c' {
                    self.sort_by = SortBy::Cpu;
                    Action::Continue
                } else if c == 'm' {
                    self.sort_by = SortBy::Memory;
                    Action::Continue
                } else if c == 'j' {
                    self.move_down();
                    Action::Continue
                } else {
                    Action::Continue
                }
            },
            _ => Action::Continue,
        }
    }

    /// Applies one key event and says what the surrounding program must do.
    pub fn handle_key(&mut self, key: Key, pressed: bool) -> (action: Action)
        ensures
            final(self)@ == after_key(old(self)@, key, pressed).0,
            action@ == after_key(old(self)@, key, pressed).1,
    {
        if !pressed {
            Action::Continue
        } else if self.renice_mode {
            self.renice_key(key)
        } else if self.input_mode {
            self.filter_key(key);
            Action::Continue
        } else {
            self.command_key(key)
        }
    }

    /// Reports the outcome of a kill request for process `pid` named `name`:
    /// a process that was gone leaves everything as it was; otherwise the
    /// status says whether the signal was delivered.
    pub fn finish_kill(&mut self, pid: u32, name: &str, outcome: KillOutcome)
        ensures
            final(self)@ == (match outcome {
                KillOutcome::Gone => old(self)@,
                KillOutcome::Tried(delivered) => MonitorView {
                    status: kill_status(pid, name@, delivered == Some(true)),
                    ..old(self)@
                },
            }),
    {
        match outcome {
            KillOutcome::Gone => {},
            KillOutcome::Tried(delivered) => {
                let killed: bool = match delivered {
                    Some(b) => b,
                    None => false,
                };
                self.status = kill_status_text(pid, name, killed);
            },
        }
    }

    /// Records one sample: counts it, appends the CPU and memory percentages
    /// to their histories, replaces the process table with the sampled
    /// processes ordered by the current sort column, and updates the status.
    pub fn record_sample(&mut self, cpu_percent: u64, mem_percent: u64, samples: Vec<ProcessSample>)
        requires
            old(self).tick < u64::MAX,
        ensures
            final(self).tick == old(self).tick + 1,
            final(self)@.cpu_history == keep_recent(old(self)@.cpu_history.push(cpu_percent)),
            final(self)@.mem_history == keep_recent(old(self)@.mem_history.push(mem_percent)),
            is_stable_sort(final(self)@.processes, rows_of(samples@), old(self).sort_by),
            final(self)@.status == sample_status(
                (old(self).tick + 1) as u64,
                old(self)@.filter,
                samples@.len(),
            ),
            final(self)@ == (MonitorView {
                tick: final(self)@.tick,
                cpu_history: final(self)@.cpu_history,
                mem_history: final(self)@.mem_history,
                processes: final(self)@.processes,
                status: final(self)@.status,
                ..old(self)@
            }),
    {
        self.tick = self.tick + 1;
        self.cpu_history.push(cpu_percent);
        self.mem_history.push(mem_percent);
        let count: usize = samples.len();
        let rows: Vec<ProcessInfo> = process_rows(samples);
        self.processes = sort_processes(rows, self.sort_by);
        self.status = sample_status_text(self.tick, self.filter.as_str(), count);
    }
}


/// The sum of a series of byte counters.
pub open spec fn total(s: Seq<u64>) -> int
    decreases s.len(),
{
    if s.len() == 0 {
        0
    } else {
        total(s.drop_last()) + s.last()
    }
}

proof fn lemma_total_nonneg(s: Seq<u64>)
    ensures
        total(s) >= 0,
    decreases s.len(),
{
    if s.len() > 0 {
        lemma_total_nonneg(s.drop_last());
    }
}

/// Adds up the traffic counters of all network interfaces; `None` when the
/// sum does not fit in a `u64`.
pub fn total_traffic(counts: &Vec<u64>) -> (t: Option<u64>)
    ensures
        match t {
            Some(v) => v == total(counts@),
            None => total(counts@) > u64::MAX,
        },
{
    // The sum so far, capped at 2^64.
    let cap: u128 = 0x1_0000_0000_0000_0000;
    let mut acc: u128 = 0;
    let n: usize = counts.len();
    let mut i: usize = 0;
    assert(counts@.take(0) =~= Seq::<u64>::empty());
    while i < n
        invariant
            i <= n == counts.len(),
            cap == 0x1_0000_0000_0000_0000,
            acc == (if total(counts@.take(i as int)) < cap {
                total(counts@.take(i as int))
            } else {
                cap as int
            }),
        decreases n - i,
    {
        let ghost prev = counts@.take(i as int);
        assert(counts@.take(i + 1).drop_last() =~= prev);
        proof {
            lemma_total_nonneg(prev);
        }
        let sum: u128 = acc + counts[i] as u128;
        acc = if sum > cap {
            cap
        } else {
            sum
        };
        i += 1;
    }
    assert(counts@.take(n as int) =~= counts@);
    if acc <= 0xffff_ffff_ffff_ffff {
        Some(acc as u64)
    } else {
        None
    }
}

} // verus!
