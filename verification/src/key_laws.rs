use vstd::prelude::*;

use crate::history::{keep_recent, HISTORY_CAPACITY};
use crate::laws::law_parse_reads_decimal;
use crate::monitor::{
    after_key, kill_status, sample_status, status_line_of, ActionView, Key, MonitorView, Tab,
};
use crate::process::{nice_of_stat, row_of, visible, ProcessSample, SortBy};
use crate::text::{is_digit, parse_i32_spec, words};
use crate::text::{decimal, signed_decimal};

verus! {

/// `k` outside the prompts asks to kill the row that the selection points
/// at in the filtered table: with selection `i`, the `i`-th row that passes
/// the filter, by its pid and name. Nothing in the state changes.
pub proof fn law_kill_names_selected_filtered_row(m: MonitorView, i: usize)
    requires
        !m.renice_mode,
        !m.input_mode,
        m.selected == Some(i),
        i < visible(m.processes, m.filter).len(),
    ensures
        after_key(m, Key::Char('k'), true).1 == (ActionView::Kill {
            pid: visible(m.processes, m.filter)[i as int].pid,
            name: visible(m.processes, m.filter)[i as int].name,
        }),
        after_key(m, Key::Char('k'), true).0 == m,
{
}

/// `k` with no selection, or a selection past the filtered table, asks for
/// nothing.
pub proof fn law_kill_without_row_does_nothing(m: MonitorView)
    requires
        !m.renice_mode,
        !m.input_mode,
        m.selected matches Some(i) ==> i >= visible(m.processes, m.filter).len(),
    ensures
        after_key(m, Key::Char('k'), true) == (m, ActionView::Continue),
{
}

/// Enter in the nice prompt, holding the decimal text of any `v` from -20
/// to 19 (0 included), applies `v` to the `i`-th row of the filtered table
/// when the selection is `i`, reports it in the status, and closes the
/// prompt.
pub proof fn law_renice_applies_typed_value(m: MonitorView, v: i32, i: usize)
    requires
        m.renice_mode,
        m.renice_input == signed_decimal(v as int),
        -20 <= v <= 19,
        m.selected == Some(i),
        i < visible(m.processes, m.filter).len(),
    ensures
        after_key(m, Key::Enter, true).1 == (ActionView::Renice {
            pid: visible(m.processes, m.filter)[i as int].pid,
            nice: v,
        }),
        after_key(m, Key::Enter, true).0 == (MonitorView {
            status: "Reniced PID "@ + decimal(visible(m.processes, m.filter)[i as int].pid as nat)
                + " → "@ + signed_decimal(v as int),
            renice_mode: false,
            renice_input: Seq::empty(),
            ..m
        }),
{
    law_parse_reads_decimal(v);
}

/// Enter in the nice prompt with a value outside -20..19 closes the prompt
/// and does nothing else.
pub proof fn law_renice_out_of_range_refused(m: MonitorView, v: i32)
    requires
        m.renice_mode,
        m.renice_input == signed_decimal(v as int),
        v < -20 || v > 19,
    ensures
        after_key(m, Key::Enter, true) == (
            MonitorView { renice_mode: false, renice_input: Seq::empty(), ..m },
            ActionView::Continue,
        ),
{
    law_parse_reads_decimal(v);
}

/// In the nice prompt, digits and `-` are typed at the end of the input,
/// every other character is ignored, Backspace deletes the last character
/// and Esc closes the prompt with an empty input.
pub proof fn law_renice_prompt_typing(m: MonitorView, c: char)
    requires
        m.renice_mode,
    ensures
        ('0' <= c && c <= '9') || c == '-' ==> after_key(m, Key::Char(c), true) == (
            MonitorView { renice_input: m.renice_input.push(c), ..m },
            ActionView::Continue,
        ),
        !(('0' <= c && c <= '9') || c == '-') ==> after_key(m, Key::Char(c), true) == (
            m,
            ActionView::Continue,
        ),
        m.renice_input.len() > 0 ==> after_key(m, Key::Backspace, true) == (
            MonitorView { renice_input: m.renice_input.drop_last(), ..m },
            ActionView::Continue,
        ),
        m.renice_input.len() == 0 ==> after_key(m, Key::Backspace, true) == (
            m,
            ActionView::Continue,
        ),
        after_key(m, Key::Esc, true) == (
            MonitorView { renice_mode: false, renice_input: Seq::empty(), ..m },
            ActionView::Continue,
        ),
{
}

/// In the filter prompt every ASCII character is typed at the end of the
/// filter, other characters are ignored, Backspace deletes the last
/// character, Enter closes the prompt keeping the filter and Esc closes it
/// with the filter cleared.
pub proof fn law_filter_prompt_typing(m: MonitorView, c: char)
    requires
        !m.renice_mode,
        m.input_mode,
    ensures
        (c as u32) < 128 ==> after_key(m, Key::Char(c), true) == (
            MonitorView { filter: m.filter.push(c), ..m },
            ActionView::Continue,
        ),
        (c as u32) >= 128 ==> after_key(m, Key::Char(c), true) == (m, ActionView::Continue),
        m.filter.len() > 0 ==> after_key(m, Key::Backspace, true) == (
            MonitorView { filter: m.filter.drop_last(), ..m },
            ActionView::Continue,
        ),
        m.filter.len() == 0 ==> after_key(m, Key::Backspace, true) == (m, ActionView::Continue),
        after_key(m, Key::Enter, true) == (
            MonitorView { input_mode: false, ..m },
            ActionView::Continue,
        ),
        after_key(m, Key::Esc, true) == (
            MonitorView { input_mode: false, filter: Seq::empty(), ..m },
            ActionView::Continue,
        ),
{
}

/// Up outside the prompts moves the selection one row up, and from the
/// first row (or no selection) to the first row; nothing else changes.
pub proof fn law_up_moves_one_row(m: MonitorView, i: usize)
    requires
        !m.renice_mode,
        !m.input_mode,
    ensures
        m.selected == Some(i) && i > 0 ==> after_key(m, Key::Up, true) == (
            MonitorView { selected: Some((i - 1) as usize), ..m },
            ActionView::Continue,
        ),
        m.selected == Some(0usize) || m.selected is None ==> after_key(m, Key::Up, true) == (
            MonitorView { selected: Some(0), ..m },
            ActionView::Continue,
        ),
{
}

/// Down (or `j`) outside the prompts moves the selection one row down in
/// the filtered table, stopping at its last row (row 0 for an empty table);
/// no selection counts as row 0. Nothing else changes.
pub proof fn law_down_moves_one_row(m: MonitorView, key: Key, i: usize)
    requires
        !m.renice_mode,
        !m.input_mode,
        key == Key::Down || key == Key::Char('j'),
        m.selected == Some(i) || (m.selected is None && i == 0),
    ensures
        i + 1 < visible(m.processes, m.filter).len() ==> after_key(m, key, true) == (
            MonitorView { selected: Some((i + 1) as usize), ..m },
            ActionView::Continue,
        ),
        visible(m.processes, m.filter).len() > 0 && i + 1 >= visible(m.processes, m.filter).len()
            ==> after_key(m, key, true) == (
            MonitorView {
                selected: Some((visible(m.processes, m.filter).len() - 1) as usize),
                ..m
            },
            ActionView::Continue,
        ),
        visible(m.processes, m.filter).len() == 0 ==> after_key(m, key, true) == (
            MonitorView { selected: Some(0), ..m },
            ActionView::Continue,
        ),
{
}

/// The command keys outside the prompts: `q` and Esc quit; `h` toggles the
/// help; Tab steps Overview, Processes, Disks, History and round again;
/// `1`..`4` pick those tabs; `f` opens the filter prompt and `n` the nice
/// prompt; `c` and `m` sort by CPU and by memory. Each changes only what it
/// names.
pub proof fn law_command_keys(m: MonitorView)
    requires
        !m.renice_mode,
        !m.input_mode,
    ensures
        after_key(m, Key::Char('q'), true) == (m, ActionView::Quit),
        after_key(m, Key::Esc, true) == (m, ActionView::Quit),
        after_key(m, Key::Char('h'), true) == (
            MonitorView { show_help: !m.show_help, ..m },
            ActionView::Continue,
        ),
        after_key(m, Key::Tab, true).1 == ActionView::Continue,
        m.tab == Tab::Overview ==> after_key(m, Key::Tab, true).0 == (MonitorView { tab: Tab::Processes, ..m }),
        m.tab == Tab::Processes ==> after_key(m, Key::Tab, true).0 == (MonitorView { tab: Tab::Disks, ..m }),
        m.tab == Tab::Disks ==> after_key(m, Key::Tab, true).0 == (MonitorView { tab: Tab::History, ..m }),
        m.tab == Tab::History ==> after_key(m, Key::Tab, true).0 == (MonitorView { tab: Tab::Overview, ..m }),
        after_key(m, Key::Char('1'), true) == (
            MonitorView { tab: Tab::Overview, ..m },
            ActionView::Continue,
        ),
        after_key(m, Key::Char('2'), true) == (
            MonitorView { tab: Tab::Processes, ..m },
            ActionView::Continue,
        ),
        after_key(m, Key::Char('3'), true) == (
            MonitorView { tab: Tab::Disks, ..m },
            ActionView::Continue,
        ),
        after_key(m, Key::Char('4'), true) == (
            MonitorView { tab: Tab::History, ..m },
            ActionView::Continue,
        ),
        after_key(m, Key::Char('f'), true) == (
            MonitorView { input_mode: true, ..m },
            ActionView::Continue,
        ),
        after_key(m, Key::Char('n'), true) == (
            MonitorView { renice_mode: true, ..m },
            ActionView::Continue,
        ),
        after_key(m, Key::Char('c'), true) == (
            MonitorView { sort_by: SortBy::Cpu, ..m },
            ActionView::Continue,
        ),
        after_key(m, Key::Char('m'), true) == (
            MonitorView { sort_by: SortBy::Memory, ..m },
            ActionView::Continue,
        ),
{
}

/// A sampled process becomes a row that keeps its pid, name, state and CPU
/// usage, shows its owner (`?` only where the owner is unknown), counts
/// memory in whole KiB, and has nice value 0 where no stat text was read.
pub proof fn law_sample_row(s: ProcessSample)
    ensures
        row_of(s).pid == s.pid,
        row_of(s).name == s.name@,
        row_of(s).state == s.state@,
        row_of(s).cpu_bits == s.cpu_bits,
        s.user matches Some(u) ==> row_of(s).user == u@,
        s.user is None ==> row_of(s).user == "?"@,
        row_of(s).memory_kb * 1024 <= s.memory_bytes < row_of(s).memory_kb * 1024 + 1024,
        s.stat is None ==> row_of(s).nice == 0,
        s.stat matches Some(t) ==> row_of(s).nice == nice_of_stat(t@),
{
}

/// A history keeps the most recent samples, oldest first: all of them up to
/// the capacity, and beyond it exactly the last `HISTORY_CAPACITY`.
pub proof fn law_recent_window_is_suffix<T>(s: Seq<T>)
    ensures
        s.len() <= HISTORY_CAPACITY ==> keep_recent(s) == s,
        s.len() > HISTORY_CAPACITY ==> keep_recent(s).len() == HISTORY_CAPACITY,
        forall|j: int|
            0 <= j < keep_recent(s).len() ==> #[trigger] keep_recent(s)[j] == s[s.len()
                - keep_recent(s).len() + j],
{
}


/// After a kill attempt the status names the pid; a delivered signal also
/// names the process, and the two outcomes read differently.
pub proof fn law_kill_status_text(pid: u32, name: Seq<char>)
    ensures
        kill_status(pid, name, true) == "✓ Killed PID "@ + decimal(pid as nat) + " - "@ + name,
        kill_status(pid, name, false) == "✗ Cannot kill PID "@ + decimal(pid as nat),
        kill_status(pid, name, true) != kill_status(pid, name, false),
{
    reveal_strlit("✓ Killed PID ");
    reveal_strlit("✗ Cannot kill PID ");
    assert(kill_status(pid, name, true)[0] != kill_status(pid, name, false)[0]);
}

/// After a sample the status counts the processes, after the sample number
/// when no filter is set and after the filter otherwise.
pub proof fn law_sample_status_text(tick: u64, filter: Seq<char>, count: nat)
    ensures
        filter.len() == 0 ==> sample_status(tick, filter, count) == "Tick "@ + decimal(tick as nat)
            + " | "@ + decimal(count) + " processes"@,
        filter.len() > 0 ==> sample_status(tick, filter, count) == "Filter: "@ + filter + " | "@
            + decimal(count) + " processes"@,
{
}

/// The foot line shows the nice prompt with what is typed, else the filter
/// prompt with the filter, else the status.
pub proof fn law_status_line(m: MonitorView)
    ensures
        m.renice_mode ==> status_line_of(m) == "Renice mode → Nhập nice (-20..19): "@ + m.renice_input,
        !m.renice_mode && m.input_mode ==> status_line_of(m) == "Filter mode: "@ + m.filter,
        !m.renice_mode && !m.input_mode ==> status_line_of(m) == m.status,
{
}

/// A number is read only from text made of an optional sign and at least
/// one digit: any other character, an empty text or a lone sign gives
/// nothing.
pub proof fn law_parse_rejects_non_numbers(s: Seq<char>, i: int)
    ensures
        s.len() == 0 ==> parse_i32_spec(s) is None,
        s == seq!['-'] || s == seq!['+'] ==> parse_i32_spec(s) is None,
        0 <= i < s.len() && !is_digit(s[i]) && !(i == 0 && (s[0] == '-' || s[0] == '+'))
            ==> parse_i32_spec(s) is None,
{
    if 0 <= i < s.len() && !is_digit(s[i]) && !(i == 0 && (s[0] == '-' || s[0] == '+')) {
        if s[0] == '-' || s[0] == '+' {
            assert(s.drop_first()[i - 1] == s[i]);
        }
    }
    if s == seq!['-'] || s == seq!['+'] {
        assert(s.drop_first().len() == 0);
    }
}

/// The nice value of a stat text is its word 18 (from 0) when that word is
/// the decimal text of a number, and 0 when the text has fewer words.
pub proof fn law_nice_is_word_18(t: Seq<char>, v: i32)
    ensures
        words(t).len() > 18 && words(t)[18] == signed_decimal(v as int) ==> nice_of_stat(t) == v,
        words(t).len() <= 18 ==> nice_of_stat(t) == 0,
{
    crate::laws::law_parse_reads_decimal(v);
}

} // verus!
