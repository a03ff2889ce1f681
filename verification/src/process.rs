use vstd::prelude::*;
use vstd::seq_lib::lemma_multiset_commutative;

use crate::text::{
    chars_of, contains_chars, contains_seq, decimal, parse_i32, parse_i32_spec, push_char,
    lowercase_chars, lowered, push_decimal, push_signed_decimal, signed_decimal,
    split_whitespace, words,
};

verus! {

/// The column the process table is ordered by, largest first.
#[derive(Clone, Copy, Debug, PartialEq, Eq, Structural)]
pub enum SortBy {
    Cpu,
    Memory,
}

impl Default for SortBy {
    fn default() -> (s: Self)
        ensures
            s == SortBy::Cpu,
    {
        SortBy::Cpu
    }
}

/// One row of the process table.
///
/// `cpu_bits` holds the bit pattern of the process's CPU usage (an `f32`
/// percentage). CPU usage is never negative, and for non-negative floats
/// the bit patterns order exactly as the values do, so the table is ordered
/// by this integer.
#[derive(Debug)]
pub struct ProcessInfo {
    pub pid: u32,
    pub name: String,
    pub user: String,
    pub cpu_bits: u32,
    pub memory_kb: u64,
    pub state: String,
    pub nice: i32,
}

impl ProcessInfo {
    /// Resident memory in MiB, rounded down, as the table shows it.
    pub fn memory_mb(&self) -> (mb: u64)
        ensures
            mb == self.memory_kb / 1024,
    {
        self.memory_kb / 1024
    }

    /// The PID column: the process id in decimal.
    pub fn pid_text(&self) -> (t: String)
        ensures
            t@ == decimal(self.pid as nat),
    {
        let mut t: String = String::new();
        push_decimal(&mut t, self.pid as u64);
        t
    }

    /// The memory column: MiB right-aligned in six places, then ` MB`.
    pub fn memory_text(&self) -> (t: String)
        ensures
            t@ == pad_left(decimal((self.memory_kb / 1024) as nat), 6) + " MB"@,
    {
        let mut digits: String = String::new();
        push_decimal(&mut digits, self.memory_mb());
        let n: usize = chars_of(digits.as_str()).len();
        let pad: usize = if n < 6 {
            6 - n
        } else {
            0
        };
        let mut t: String = String::new();
        let mut k: usize = 0;
        while k < pad
            invariant
                k <= pad,
                t@ == Seq::new(k as nat, |i: int| ' '),
            decreases pad - k,
        {
            push_char(&mut t, ' ');
            k += 1;
            assert(t@ =~= Seq::new(k as nat, |i: int| ' '));
        }
        t.append(digits.as_str());
        t.append(" MB");
        assert(digits@ == decimal((self.memory_kb / 1024) as nat));
        assert(t@ =~= pad_left(digits@, 6) + " MB"@);
        t
    }

    /// The NICE column: the nice value in decimal, with its sign.
    pub fn nice_text(&self) -> (t: String)
        ensures
            t@ == signed_decimal(self.nice as int),
    {
        let mut t: String = String::new();
        push_signed_decimal(&mut t, self.nice);
        t
    }
}

/// `s` right-aligned in a field of `width` characters: spaces in front of
/// it when it is shorter, as the format `{:>width}` pads text.
pub open spec fn pad_left(s: Seq<char>, width: nat) -> Seq<char> {
    if s.len() < width {
        Seq::new((width - s.len()) as nat, |i: int| ' ') + s
    } else {
        s
    }
}

/// The mathematical value of a process row.
pub struct ProcessView {
    pub pid: u32,
    pub name: Seq<char>,
    pub user: Seq<char>,
    pub cpu_bits: u32,
    pub memory_kb: u64,
    pub state: Seq<char>,
    pub nice: i32,
}

impl View for ProcessInfo {
    type V = ProcessView;

    open spec fn view(&self) -> ProcessView {
        ProcessView {
            pid: self.pid,
            name: self.name@,
            user: self.user@,
            cpu_bits: self.cpu_bits,
            memory_kb: self.memory_kb,
            state: self.state@,
            nice: self.nice,
        }
    }
}

/// The views of a sequence of rows.
pub open spec fn views(s: Seq<ProcessInfo>) -> Seq<ProcessView> {
    s.map_values(|p: ProcessInfo| p@)
}

/// The value a row is ordered by under `by`.
pub open spec fn sort_key(p: ProcessView, by: SortBy) -> int {
    match by {
        SortBy::Cpu => p.cpu_bits as int,
        SortBy::Memory => p.memory_kb as int,
    }
}

/// Rows ordered by `by`, largest first.
pub open spec fn sorted_desc(s: Seq<ProcessView>, by: SortBy) -> bool {
    forall|i: int, j: int|
        0 <= i < j < s.len() ==> sort_key(#[trigger] s[i], by) >= sort_key(#[trigger] s[j], by)
}

/// The rows whose key under `by` is `k`.
pub open spec fn with_key(by: SortBy, k: int) -> spec_fn(ProcessView) -> bool {
    |p: ProcessView| sort_key(p, by) == k
}

/// `out` is `inp` sorted by `by`, largest first, by a stable sort: it holds
/// the same rows, and rows with equal keys keep their relative order.
pub open spec fn is_stable_sort(out: Seq<ProcessView>, inp: Seq<ProcessView>, by: SortBy) -> bool {
    &&& sorted_desc(out, by)
    &&& out.to_multiset() == inp.to_multiset()
    &&& forall|k: int| #[trigger] out.filter(with_key(by, k)) == inp.filter(with_key(by, k))
}

fn key_of(p: &ProcessInfo, by: SortBy) -> (k: u64)
    ensures
        k == sort_key(p@, by),
{
    match by {
        SortBy::Cpu => p.cpu_bits as u64,
        SortBy::Memory => p.memory_kb,
    }
}

proof fn lemma_insert_sorted(
    out: Seq<ProcessView>,
    inp: Seq<ProcessView>,
    x: ProcessView,
    pos: int,
    by: SortBy,
)
    requires
        is_stable_sort(out, inp, by),
        0 <= pos <= out.len(),
        forall|t: int| 0 <= t < pos ==> sort_key(#[trigger] out[t], by) > sort_key(x, by),
        forall|t: int| pos <= t < out.len() ==> sort_key(#[trigger] out[t], by) <= sort_key(x, by),
    ensures
        is_stable_sort(out.insert(pos, x), seq![x] + inp, by),
{
    broadcast use vstd::seq_lib::group_to_multiset_ensures;

    let res = out.insert(pos, x);
    let front = out.take(pos);
    let back = out.skip(pos);
    assert(out =~= front + back);
    assert(res =~= front + (seq![x] + back));
    assert forall|i: int, j: int| 0 <= i < j < res.len() implies sort_key(#[trigger] res[i], by)
        >= sort_key(#[trigger] res[j], by) by {
        if j < pos {
            assert(res[i] == out[i] && res[j] == out[j]);
        } else if j == pos {
            assert(res[i] == out[i]);
        } else if i < pos {
            assert(res[i] == out[i] && res[j] == out[j - 1]);
        } else if i == pos {
            assert(res[j] == out[j - 1]);
        } else {
            assert(res[i] == out[i - 1] && res[j] == out[j - 1]);
        }
    }
    lemma_multiset_commutative(front, seq![x] + back);
    lemma_multiset_commutative(seq![x], back);
    lemma_multiset_commutative(front, back);
    lemma_multiset_commutative(seq![x], inp);
    assert(seq![x] =~= Seq::<ProcessView>::empty().push(x));
    assert(res.to_multiset() =~= (seq![x] + inp).to_multiset());
    assert forall|k: int| #[trigger] res.filter(with_key(by, k)) == (seq![x] + inp).filter(
        with_key(by, k),
    ) by {
        let p = with_key(by, k);
        Seq::filter_distributes_over_add(front, seq![x] + back, p);
        Seq::filter_distributes_over_add(front, back, p);
        back.lemma_filter_prepend(x, p);
        inp.lemma_filter_prepend(x, p);
        if p(x) {
            assert forall|t: int| 0 <= t < front.len() implies !p(#[trigger] front[t]) by {
                assert(front[t] == out[t]);
            }
            front.lemma_all_neg_filter_empty(p);
            assert(front.filter(p) =~= Seq::<ProcessView>::empty());
        }
        assert(res.filter(p) =~= (seq![x] + inp).filter(p));
    }
}

/// Orders rows by `by`, largest first; rows with equal keys keep their order.
pub fn sort_processes(procs: Vec<ProcessInfo>, by: SortBy) -> (out: Vec<ProcessInfo>)
    ensures
        is_stable_sort(views(out@), views(procs@), by),
{
    let ghost input = views(procs@);
    let mut rest: Vec<ProcessInfo> = procs;
    let mut out: Vec<ProcessInfo> = Vec::new();
    assert(input.skip(input.len() as int) =~= Seq::<ProcessView>::empty());
    assert(views(out@) =~= Seq::<ProcessView>::empty());
    while rest.len() > 0
        invariant
            rest.len() <= input.len(),
            views(rest@) == input.take(rest.len() as int),
            is_stable_sort(views(out@), input.skip(rest.len() as int), by),
        decreases rest.len(),
    {
        let ghost before = views(out@);
        let ghost r: int = rest.len() as int;
        let ghost old_rest = rest@;
        let x: ProcessInfo = rest.pop().unwrap();
        assert(x == old_rest[r - 1]);
        assert(views(old_rest)[r - 1] == x@);
        assert(input.take(r)[r - 1] == input[r - 1]);
        assert(x@ == input[r - 1]);
        assert(views(rest@) =~= input.take(r - 1));
        assert(input.skip(r - 1) =~= seq![x@] + input.skip(r));
        let kx: u64 = key_of(&x, by);
        let mut pos: usize = 0;
        while pos < out.len() && key_of(&out[pos], by) > kx
            invariant
                pos <= out.len(),
                before == views(out@),
                kx == sort_key(x@, by),
                forall|t: int| 0 <= t < pos ==> sort_key(#[trigger] before[t], by) > kx,
            decreases out.len() - pos,
        {
            pos += 1;
        }
        assert forall|t: int| pos <= t < before.len() implies sort_key(#[trigger] before[t], by)
            <= kx by {
            assert(sort_key(before[pos as int], by) <= kx);
        }
        proof {
            lemma_insert_sorted(before, input.skip(r), x@, pos as int, by);
        }
        out.insert(pos, x);
        assert(views(out@) =~= before.insert(pos as int, x@));
    }
    assert(input.skip(0) =~= input);
    out
}


/// The process filter in effect: an empty filter keeps every row, any other
/// keeps the rows whose lowercased name contains the lowercased filter.
pub open spec fn name_matches(p: ProcessView, filter: Seq<char>) -> bool {
    filter.len() == 0 || contains_seq(lowered(p.name), lowered(filter))
}

/// The rows that the filter `filter` lets through, in table order.
pub open spec fn visible(procs: Seq<ProcessView>, filter: Seq<char>) -> Seq<ProcessView> {
    procs.filter(|p: ProcessView| name_matches(p, filter))
}

/// The rows of `procs` that `filter` lets through, in order.
pub fn filter_processes<'a>(procs: &'a Vec<ProcessInfo>, filter: &str) -> (out: Vec<&'a ProcessInfo>)
    ensures
        out@.map_values(|r: &ProcessInfo| r@) == visible(views(procs@), filter@),
{
    let ghost pred = |p: ProcessView| name_matches(p, filter@);
    let keep_all: bool = filter.is_empty();
    let needle: Vec<char> = if keep_all {
        Vec::new()
    } else {
        lowercase_chars(filter)
    };
    let mut out: Vec<&'a ProcessInfo> = Vec::new();
    let n: usize = procs.len();
    let mut i: usize = 0;
    assert(views(procs@).take(0) =~= Seq::<ProcessView>::empty());
    while i < n
        invariant
            i <= n == procs.len(),
            keep_all == (filter@.len() == 0),
            pred == (|p: ProcessView| name_matches(p, filter@)),
            !keep_all ==> needle@ == lowered(filter@),
            out@.map_values(|r: &ProcessInfo| r@) == views(procs@).take(i as int).filter(pred),
        decreases n - i,
    {
        let p: &ProcessInfo = &procs[i];
        let keep: bool = if keep_all {
            true
        } else {
            let hay: Vec<char> = lowercase_chars(p.name.as_str());
            contains_chars(&hay, &needle)
        };
        assert(name_matches(p@, filter@) == keep);
        assert(keep == pred(p@));
        let ghost before = out@.map_values(|r: &ProcessInfo| r@);
        assert(views(procs@).take(i + 1) =~= views(procs@).take(i as int).push(p@));
        proof {
            views(procs@).take(i as int).lemma_filter_push(p@, pred);
        }
        if keep {
            out.push(p);
            assert(out@.map_values(|r: &ProcessInfo| r@) =~= before.push(p@));
        }
        i += 1;
    }
    assert(views(procs@).take(n as int) =~= views(procs@));
    out
}

/// The nice value in the text of `/proc/<pid>/stat`: its word 18 (counting
/// from 0) read as an `i32`, or 0 when there is no such word or it is no
/// number.
pub open spec fn nice_of_stat(stat: Seq<char>) -> i32 {
    let w = words(stat);
    if w.len() > 18 {
        match parse_i32_spec(w[18]) {
            Some(v) => v,
            None => 0,
        }
    } else {
        0
    }
}

/// Reads the nice value out of the text of `/proc/<pid>/stat`.
pub fn nice_from_stat(stat: &str) -> (nice: i32)
    ensures
        nice == nice_of_stat(stat@),
{
    let fields: Vec<Vec<char>> = split_whitespace(&chars_of(stat));
    assert(fields@.map_values(|w: Vec<char>| w@).len() == fields@.len());
    if fields.len() > 18 {
        assert(fields@.map_values(|w: Vec<char>| w@)[18] == fields@[18]@);
        match parse_i32(&fields[18]) {
            Some(v) => v,
            None => 0,
        }
    } else {
        0
    }
}

/// What the system reports of one process, before it becomes a table row.
pub struct ProcessSample {
    pub pid: u32,
    pub name: String,
    /// The owner's user id, where the system knows it.
    pub user: Option<String>,
    /// Bit pattern of the CPU usage (see `ProcessInfo::cpu_bits`).
    pub cpu_bits: u32,
    pub memory_bytes: u64,
    pub state: String,
    /// The text of `/proc/<pid>/stat`, where it could be read.
    pub stat: Option<String>,
}

/// The table row that a sample becomes: an unknown user shows as `?`,
/// memory is counted in KiB (rounded down), and the nice value comes from
/// the stat text, 0 where there is none.
pub open spec fn row_of(s: ProcessSample) -> ProcessView {
    ProcessView {
        pid: s.pid,
        name: s.name@,
        user: match s.user {
            Some(u) => u@,
            None => "?"@,
        },
        cpu_bits: s.cpu_bits,
        memory_kb: s.memory_bytes / 1024,
        state: s.state@,
        nice: match s.stat {
            Some(t) => nice_of_stat(t@),
            None => 0,
        },
    }
}

/// The rows that a list of samples becomes, in the same order.
pub open spec fn rows_of(samples: Seq<ProcessSample>) -> Seq<ProcessView> {
    samples.map_values(|s: ProcessSample| row_of(s))
}

/// Turns one sample into a table row.
pub fn process_row(s: ProcessSample) -> (p: ProcessInfo)
    ensures
        p@ == row_of(s),
{
    let ProcessSample { pid, name, user, cpu_bits, memory_bytes, state, stat } = s;
    let user: String = match user {
        Some(u) => u,
        None => "?".to_string(),
    };
    let nice: i32 = match &stat {
        Some(t) => nice_from_stat(t.as_str()),
        None => 0,
    };
    ProcessInfo { pid, name, user, cpu_bits, memory_kb: memory_bytes / 1024, state, nice }
}

/// Turns samples into table rows, keeping their order.
pub fn process_rows(samples: Vec<ProcessSample>) -> (rows: Vec<ProcessInfo>)
    ensures
        views(rows@) == rows_of(samples@),
{
    let ghost all = samples@;
    let mut rest: Vec<ProcessSample> = samples;
    let mut rev: Vec<ProcessInfo> = Vec::new();
    // Rows are built from the back, then put back in order.
    while rest.len() > 0
        invariant
            rest.len() + rev.len() == all.len(),
            rest@ == all.take(rest.len() as int),
            forall|t: int| 0 <= t < rev.len() ==> #[trigger] rev@[t]@ == row_of(all[all.len() - 1 - t]),
        decreases rest.len(),
    {
        let ghost old_rest = rest@;
        let s: ProcessSample = rest.pop().unwrap();
        assert(s == all[rest.len() as int]);
        let p: ProcessInfo = process_row(s);
        rev.push(p);
        assert(rest@ =~= all.take(rest.len() as int));
    }
    let mut rows: Vec<ProcessInfo> = Vec::new();
    while rev.len() > 0
        invariant
            rows.len() + rev.len() == all.len(),
            forall|t: int| 0 <= t < rev.len() ==> #[trigger] rev@[t]@ == row_of(all[all.len() - 1 - t]),
            forall|t: int| 0 <= t < rows.len() ==> #[trigger] rows@[t]@ == row_of(all[t]),
        decreases rev.len(),
    {
        let p: ProcessInfo = rev.pop().unwrap();
        rows.push(p);
    }
    assert(views(rows@) =~= rows_of(all));
    rows
}

} // verus!
