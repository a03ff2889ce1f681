use vstd::prelude::*;

use crate::monitor::{
    after_key, row_below, selected_row, ActionView, Key, MonitorView, Tab,
};
use crate::process::{
    is_stable_sort, name_matches, sort_key, sorted_desc, visible, with_key, ProcessView, SortBy,
};
use crate::layout::{centered, cut_at, side_len, side_share, Area};
use crate::text::{contains_seq, lowered, occurs_at};
use crate::text::{
    all_digits, decimal, digit_char, digit_value, digits_value, is_digit, parse_i32_spec,
    signed_decimal,
};

verus! {

/// Pressing Tab four times comes back to the same tab.
pub proof fn law_tab_cycle(t: Tab)
    ensures
        t.following().following().following().following() == t,
{
}

/// Key releases change nothing and ask for nothing.
pub proof fn law_release_ignored(m: MonitorView, key: Key)
    ensures
        after_key(m, key, false) == (m, ActionView::Continue),
{
}

/// The program is left only by `q` or Esc outside the typing prompts.
pub proof fn law_quit_only_by_command(m: MonitorView, key: Key, pressed: bool)
    ensures
        after_key(m, key, pressed).1 is Quit ==> pressed && !m.renice_mode && !m.input_mode && (
        key == Key::Esc || key == Key::Char('q')),
{
}

/// A kill is only ever asked for the selected row of the filtered table,
/// from the command keys.
pub proof fn law_kill_targets_selection(m: MonitorView, key: Key, pressed: bool)
    ensures
        after_key(m, key, pressed).1 matches ActionView::Kill { pid, name } ==> {
            &&& !m.renice_mode && !m.input_mode
            &&& selected_row(m) matches Some(p) && p.pid == pid && p.name == name
        },
{
}

/// A renice is only ever asked for the selected row, with a nice value
/// between -20 and 19, and it closes the prompt.
pub proof fn law_renice_in_range(m: MonitorView, key: Key, pressed: bool)
    ensures
        after_key(m, key, pressed).1 matches ActionView::Renice { pid, nice } ==> {
            &&& -20 <= nice <= 19
            &&& selected_row(m) matches Some(p) && p.pid == pid
            &&& !after_key(m, key, pressed).0.renice_mode
        },
{
}

/// Only one typing prompt is ever open: if at most one is open before a
/// key, at most one is open after it.
pub proof fn law_one_prompt_at_a_time(m: MonitorView, key: Key, pressed: bool)
    requires
        !(m.renice_mode && m.input_mode),
    ensures
        !(after_key(m, key, pressed).0.renice_mode && after_key(m, key, pressed).0.input_mode),
{
}

/// The filter only ever holds ASCII characters.
pub proof fn law_filter_stays_ascii(m: MonitorView, key: Key, pressed: bool)
    requires
        forall|i: int| 0 <= i < m.filter.len() ==> (#[trigger] m.filter[i] as u32) < 128,
    ensures
        forall|i: int|
            0 <= i < after_key(m, key, pressed).0.filter.len() ==> (
            #[trigger] after_key(m, key, pressed).0.filter[i] as u32) < 128,
{
}

/// The nice value prompt only ever holds digits and `-`.
pub proof fn law_renice_input_digits(m: MonitorView, key: Key, pressed: bool)
    requires
        forall|i: int| 0 <= i < m.renice_input.len() ==> is_digit(#[trigger] m.renice_input[i]) || m.renice_input[i] == '-',
    ensures
        forall|i: int|
            0 <= i < after_key(m, key, pressed).0.renice_input.len() ==> is_digit(
                #[trigger] after_key(m, key, pressed).0.renice_input[i],
            ) || after_key(m, key, pressed).0.renice_input[i] == '-',
{
}

/// Moving down in a non-empty filtered table always lands on a row of it.
pub proof fn law_down_lands_on_row(m: MonitorView, key: Key)
    requires
        !m.renice_mode,
        !m.input_mode,
        key == Key::Down || key == Key::Char('j'),
        visible(m.processes, m.filter).len() > 0,
    ensures
        selected_row(after_key(m, key, true).0) is Some,
        row_below(m) < visible(m.processes, m.filter).len(),
{
}

/// With an empty filter every row is shown, in table order.
pub proof fn law_empty_filter_shows_all(procs: Seq<ProcessView>)
    ensures
        visible(procs, Seq::empty()) == procs,
    decreases procs.len(),
{
    reveal(Seq::filter);
    if procs.len() > 0 {
        law_empty_filter_shows_all(procs.drop_last());
        assert(procs.drop_last().push(procs.last()) =~= procs);
    }
}

proof fn lemma_digit_char(d: int)
    requires
        0 <= d < 10,
    ensures
        is_digit(digit_char(d)),
        digit_value(digit_char(d)) == d,
{
}

proof fn lemma_decimal_digits(n: nat)
    ensures
        decimal(n).len() > 0,
        all_digits(decimal(n)),
        digits_value(decimal(n)) == n,
    decreases n,
{
    lemma_digit_char((n % 10) as int);
    if n < 10 {
        assert(decimal(n).drop_last() =~= Seq::<char>::empty());
        assert(decimal(n).last() == digit_char(n as int));
        assert(digits_value(decimal(n)) == digits_value(Seq::<char>::empty()) * 10 + digit_value(
            digit_char(n as int),
        ));
    } else {
        lemma_decimal_digits(n / 10);
        let d = decimal(n / 10);
        let s = decimal(n);
        assert(s.drop_last() =~= d);
        assert(s.last() == digit_char((n % 10) as int));
        assert(digits_value(s) == digits_value(d) * 10 + digit_value(s.last()));
        assert((n / 10) * 10 + n % 10 == n);
        assert forall|i: int| 0 <= i < s.len() implies is_digit(#[trigger] s[i]) by {
            if i < d.len() {
                assert(s[i] == d[i]);
            }
        }
    }
}

/// Reading back the decimal text of a number gives the number: the nice
/// value shown in a status reads back as itself.
pub proof fn law_parse_reads_decimal(n: i32)
    ensures
        parse_i32_spec(signed_decimal(n as int)) == Some(n),
{
    if n < 0 {
        let m = (-n) as nat;
        lemma_decimal_digits(m);
        let s = signed_decimal(n as int);
        assert(s[0] == '-');
        assert(s.drop_first() =~= decimal(m));
    } else {
        lemma_decimal_digits(n as nat);
        let s = decimal(n as nat);
        assert(is_digit(s[0]));
    }
}


/// A substring of a substring is a substring.
pub proof fn law_substring_transitive(hay: Seq<char>, mid: Seq<char>, needle: Seq<char>)
    requires
        contains_seq(hay, mid),
        contains_seq(mid, needle),
    ensures
        contains_seq(hay, needle),
{
    let i = choose|i: int| occurs_at(hay, mid, i);
    let j = choose|j: int| occurs_at(mid, needle, j);
    assert(hay.subrange(i + j, i + j + needle.len()) =~= needle) by {
        assert forall|t: int| 0 <= t < needle.len() implies hay.subrange(
            i + j,
            i + j + needle.len(),
        )[t] == needle[t] by {
            assert(hay.subrange(i, i + mid.len())[j + t] == mid[j + t]);
            assert(mid.subrange(j, j + needle.len())[t] == needle[t]);
        }
    }
    assert(occurs_at(hay, needle, i + j));
}

proof fn lemma_filter_of_filter(s: Seq<ProcessView>, p1: spec_fn(ProcessView) -> bool, p2: spec_fn(ProcessView) -> bool)
    requires
        forall|x: ProcessView| #[trigger] p2(x) ==> p1(x),
    ensures
        s.filter(p2) == s.filter(p1).filter(p2),
    decreases s.len(),
{
    reveal(Seq::filter);
    if s.len() > 0 {
        lemma_filter_of_filter(s.drop_last(), p1, p2);
        if p1(s.last()) {
            s.drop_last().filter(p1).lemma_filter_push(s.last(), p2);
        }
    }
}

/// Narrowing the filter only hides rows: when the new filter's lowercase
/// text contains the old one's (as typing more characters makes it), the
/// rows shown are the rows shown before that also match the new filter, in
/// the same order.
pub proof fn law_narrower_filter_hides_rows(
    procs: Seq<ProcessView>,
    old_filter: Seq<char>,
    new_filter: Seq<char>,
)
    requires
        old_filter.len() == 0 || contains_seq(lowered(new_filter), lowered(old_filter)),
    ensures
        visible(procs, new_filter) == visible(procs, old_filter).filter(
            |p: ProcessView| name_matches(p, new_filter),
        ),
{
    let p1 = |p: ProcessView| name_matches(p, old_filter);
    let p2 = |p: ProcessView| name_matches(p, new_filter);
    assert forall|x: ProcessView| #[trigger] p2(x) implies p1(x) by {
        if old_filter.len() > 0 {
            if new_filter.len() > 0 {
                law_substring_transitive(lowered(x.name), lowered(new_filter), lowered(old_filter));
            } else {
                // Only the empty text is a substring of the empty text.
                let i = choose|i: int| occurs_at(lowered(new_filter), lowered(old_filter), i);
                assert(lowered(old_filter).len() == 0);
                assert(lowered(x.name).subrange(0, 0) =~= lowered(old_filter));
                assert(occurs_at(lowered(x.name), lowered(old_filter), 0));
            }
        }
    }
    lemma_filter_of_filter(procs, p1, p2);
}

proof fn lemma_filter_element(s: Seq<ProcessView>, p: spec_fn(ProcessView) -> bool)
    requires
        s.filter(p).len() > 0,
    ensures
        exists|i: int| 0 <= i < s.len() && p(#[trigger] s[i]),
{
    broadcast use vstd::seq_lib::group_filter_ensures;

    let x = s.filter(p)[0];
    assert(s.filter(p).contains(x));
    s.lemma_filter_contains_rev(p, x);
    assert(p(x));
    assert(s.contains(x));
    let i = choose|i: int| 0 <= i < s.len() && s[i] == x;
    assert(p(s[i]));
}

proof fn lemma_filter_last(s: Seq<ProcessView>, p: spec_fn(ProcessView) -> bool)
    requires
        s.len() > 0,
    ensures
        s.filter(p) == (if p(s.last()) {
            s.drop_last().filter(p).push(s.last())
        } else {
            s.drop_last().filter(p)
        }),
{
    s.drop_last().lemma_filter_push(s.last(), p);
    assert(s.drop_last().push(s.last()) =~= s);
}

/// Two tables sorted by the same column, largest first, that agree on the
/// rows of every key value and their order are the same table.
pub proof fn law_sorted_tables_agree(a: Seq<ProcessView>, b: Seq<ProcessView>, by: SortBy)
    requires
        sorted_desc(a, by),
        sorted_desc(b, by),
        forall|k: int| #[trigger] a.filter(with_key(by, k)) == b.filter(with_key(by, k)),
    ensures
        a == b,
    decreases a.len() + b.len(),
{
    if a.len() == 0 && b.len() == 0 {
        assert(a =~= b);
    } else if a.len() == 0 {
        let kb = sort_key(b.last(), by);
        lemma_filter_last(b, with_key(by, kb));
        assert(a.filter(with_key(by, kb)) == b.filter(with_key(by, kb)));
        reveal(Seq::filter);
        assert(a.filter(with_key(by, kb)).len() == 0);
    } else if b.len() == 0 {
        let ka = sort_key(a.last(), by);
        lemma_filter_last(a, with_key(by, ka));
        assert(a.filter(with_key(by, ka)) == b.filter(with_key(by, ka)));
        reveal(Seq::filter);
        assert(b.filter(with_key(by, ka)).len() == 0);
    } else {
        let ka = sort_key(a.last(), by);
        let kb = sort_key(b.last(), by);
        lemma_filter_last(a, with_key(by, ka));
        lemma_filter_last(b, with_key(by, kb));
        assert(a.filter(with_key(by, ka)) == b.filter(with_key(by, ka)));
        assert(a.filter(with_key(by, kb)) == b.filter(with_key(by, kb)));
        // b holds a row of key ka, so its last row's key is at most ka, and the other way round.
        lemma_filter_element(b, with_key(by, ka));
        let i = choose|i: int| 0 <= i < b.len() && with_key(by, ka)(#[trigger] b[i]);
        if i < b.len() - 1 {
            assert(sort_key(b[i], by) >= sort_key(b[b.len() - 1], by));
        }
        lemma_filter_element(a, with_key(by, kb));
        let j = choose|j: int| 0 <= j < a.len() && with_key(by, kb)(#[trigger] a[j]);
        if j < a.len() - 1 {
            assert(sort_key(a[j], by) >= sort_key(a[a.len() - 1], by));
        }
        assert(ka == kb);
        assert(a.filter(with_key(by, ka)).last() == a.last());
        assert(b.filter(with_key(by, kb)).last() == b.last());
        assert(a.last() == b.last());
        let a2 = a.drop_last();
        let b2 = b.drop_last();
        assert forall|k: int| #[trigger] a2.filter(with_key(by, k)) == b2.filter(with_key(by, k)) by {
            lemma_filter_last(a, with_key(by, k));
            lemma_filter_last(b, with_key(by, k));
            assert(a.filter(with_key(by, k)) == b.filter(with_key(by, k)));
            if k == ka {
                assert(a2.filter(with_key(by, k)) =~= a.filter(with_key(by, k)).drop_last());
                assert(b2.filter(with_key(by, k)) =~= b.filter(with_key(by, k)).drop_last());
            }
        }
        assert forall|x: int, y: int| 0 <= x < y < a2.len() implies sort_key(#[trigger] a2[x], by)
            >= sort_key(#[trigger] a2[y], by) by {
            assert(a2[x] == a[x] && a2[y] == a[y]);
        }
        assert forall|x: int, y: int| 0 <= x < y < b2.len() implies sort_key(#[trigger] b2[x], by)
            >= sort_key(#[trigger] b2[y], by) by {
            assert(b2[x] == b[x] && b2[y] == b[y]);
        }
        law_sorted_tables_agree(a2, b2, by);
        assert(a =~= a2.push(a.last()));
        assert(b =~= b2.push(b.last()));
    }
}

/// Sorting a table a second time by the same column leaves it as the first
/// sort left it.
pub proof fn law_sort_idempotent(
    table: Seq<ProcessView>,
    once: Seq<ProcessView>,
    twice: Seq<ProcessView>,
    by: SortBy,
)
    requires
        is_stable_sort(once, table, by),
        is_stable_sort(twice, once, by),
    ensures
        twice == once,
{
    law_sorted_tables_agree(twice, once, by);
}


/// A popup of 100 percent both ways is the whole area, for any area that
/// does not reach past the last cell coordinate.
pub proof fn law_full_popup_is_area(r: Area)
    requires
        r.x + r.width <= u16::MAX,
        r.y + r.height <= u16::MAX,
    ensures
        centered(100, 100, r) == r,
{
    assert(side_share(100) == 0);
    assert(cut_at(r.x, side_len(r.x, r.width), 0) == r.x);
    assert(cut_at(r.x, side_len(r.x, r.width), 100) == r.x + r.width);
    assert(cut_at(r.y, side_len(r.y, r.height), 0) == r.y);
    assert(cut_at(r.y, side_len(r.y, r.height), 100) == r.y + r.height);
}

proof fn lemma_rounded_cuts(len: int, q: int, p: int)
    requires
        0 <= len,
        0 <= q,
        0 <= p,
    ensures
        0 <= (len * q + 50) / 100 - (len * q) / 100 <= 1,
        0 <= (len * (q + p) + 50) / 100 - (len * q + 50) / 100 - (len * p) / 100 <= 1,
{
    assert(len * (q + p) == len * q + len * p) by (nonlinear_arith);
    assert(0 <= len * q && 0 <= len * p) by (nonlinear_arith)
        requires
            0 <= len,
            0 <= q,
            0 <= p,
    ;
}

/// The popup's offset from the area's corner, and its size, are the
/// requested percentages of the area's sides, give or take one cell (for an
/// area that does not reach past the last cell coordinate).
pub proof fn law_popup_matches_percentages(percent_x: u16, percent_y: u16, r: Area)
    requires
        percent_x <= 100,
        percent_y <= 100,
        r.x + r.width <= u16::MAX,
        r.y + r.height <= u16::MAX,
    ensures
        0 <= centered(percent_x, percent_y, r).width - r.width * percent_x / 100 <= 1,
        0 <= centered(percent_x, percent_y, r).height - r.height * percent_y / 100 <= 1,
        0 <= (centered(percent_x, percent_y, r).x - r.x) - r.width * side_share(percent_x) / 100
            <= 1,
        0 <= (centered(percent_x, percent_y, r).y - r.y) - r.height * side_share(percent_y) / 100
            <= 1,
{
    lemma_rounded_cuts(r.width as int, side_share(percent_x), percent_x as int);
    lemma_rounded_cuts(r.height as int, side_share(percent_y), percent_y as int);
    assert(r.width * percent_x <= r.width * 100) by (nonlinear_arith)
        requires
            percent_x <= 100,
    ;
    assert(r.height * percent_y <= r.height * 100) by (nonlinear_arith)
        requires
            percent_y <= 100,
    ;
    assert(r.width * (side_share(percent_x) + percent_x) <= r.width * 100) by (nonlinear_arith)
        requires
            side_share(percent_x) + percent_x <= 100,
    ;
    assert(r.height * (side_share(percent_y) + percent_y) <= r.height * 100) by (nonlinear_arith)
        requires
            side_share(percent_y) + percent_y <= 100,
    ;
}

} // verus!
