//! What printing to the terminal does, one character at a time.
//!
//! A print starts from the terminal's state and a screen position derived
//! from it; each character then either ends the current line (`'\n'`) or is
//! appended to it and drawn, and whenever the position runs past the last
//! row the screen scrolls by one row. `PrintPos` holds the numbers that
//! decide where things go and whether a step is possible; `PrintState` adds
//! the contents.

use vstd::prelude::*;
use crate::tty::vga::{cell_offset, shift_front};

verus! {

/// Rows that a line of `len` bytes takes on an 80-column screen.
pub open spec fn rows_for(len: int) -> int {
    if len % 80 == 0 {
        len / 80
    } else {
        len / 80 + 1
    }
}

/// Rows taken by the lines `from` up to (not including) `to`.
pub open spec fn rows_between(lens: Seq<int>, from: int, to: int) -> int
    decreases to - from,
{
    if to <= from {
        0
    } else {
        rows_between(lens, from, to - 1) + rows_for(lens[to - 1])
    }
}

/// The first on-screen row, found by counting rows back from line `idx - 1`
/// with `remaining` rows of the screen left to fill: the line whose rows fill
/// them, and how many of its rows lie above the screen; `(0, 0)` when the
/// lines before `idx` do not fill the screen.
pub open spec fn start_line(lens: Seq<int>, idx: int, remaining: int) -> (int, int)
    decreases idx,
{
    if idx <= 0 {
        (0, 0)
    } else if rows_for(lens[idx - 1]) >= remaining {
        (idx - 1, rows_for(lens[idx - 1]) - remaining)
    } else {
        start_line(lens, idx - 1, remaining - rows_for(lens[idx - 1]))
    }
}

/// The byte a character is stored as: its code point cut to the low 8 bits.
pub open spec fn char_byte(c: char) -> u8 {
    c as u8
}

/// The contents of a terminal: finished lines, the line being typed, the
/// first displayed row (line index, row within that line), and the screen.
pub struct TtyModel {
    pub lines: Seq<Seq<u8>>,
    pub cur_input: Seq<u8>,
    pub display_from: (int, int),
    pub screen: Seq<u8>,
}

/// The numbers that steer a print: line lengths, the length of the line
/// being typed, the first displayed row, and the screen position.
pub struct PrintPos {
    pub lens: Seq<int>,
    pub cur: int,
    pub d0: int,
    pub d1: int,
    pub row: int,
    pub col: int,
}

/// A terminal in the middle of a print, at a screen position.
pub struct PrintState {
    pub model: TtyModel,
    pub row: int,
    pub col: int,
}

pub open spec fn line_lens(lines: Seq<Seq<u8>>) -> Seq<int> {
    lines.map_values(|l: Seq<u8>| l.len() as int)
}

pub open spec fn pos_of(st: PrintState) -> PrintPos {
    PrintPos {
        lens: line_lens(st.model.lines),
        cur: st.model.cur_input.len() as int,
        d0: st.model.display_from.0,
        d1: st.model.display_from.1,
        row: st.row,
        col: st.col,
    }
}

/// Rows on screen before the line being typed.
pub open spec fn displayed_rows(lens: Seq<int>, d0: int, d1: int) -> int {
    rows_between(lens, d0, lens.len() as int) - d1
}

/// Whether a print can start: the line and row counts fit in a machine word,
/// the first displayed line exists, and the line being typed ends on the screen.
pub open spec fn start_ok(lens: Seq<int>, cur: int, d0: int, d1: int) -> bool {
    &&& lens.len() <= usize::MAX
    &&& 0 <= d0 <= lens.len()
    &&& rows_between(lens, d0, lens.len() as int) <= usize::MAX
    &&& 0 <= d1 <= rows_between(lens, d0, lens.len() as int)
    &&& displayed_rows(lens, d0, d1) + rows_for(cur) <= 25
}

/// The position a print starts from.
pub open spec fn start_pos(lens: Seq<int>, cur: int, d0: int, d1: int) -> PrintPos {
    PrintPos {
        lens,
        cur,
        d0,
        d1,
        row: displayed_rows(lens, d0, d1) + rows_for(cur),
        col: cur % 25,
    }
}

/// The position after a character, before any scrolling.
pub open spec fn pos_after_char(p: PrintPos, c: char) -> PrintPos {
    if c == '\n' {
        PrintPos { lens: p.lens.push(p.cur), cur: 0, row: p.row + 1, col: 0, ..p }
    } else if (p.cur + 1) % 80 == 0 {
        PrintPos { cur: p.cur + 1, row: p.row + 1, col: 0, ..p }
    } else {
        PrintPos { cur: p.cur + 1, col: p.col + 1, ..p }
    }
}

/// Whether a character can be taken at `p`: a drawn character must land in
/// a cell of the screen (row and column as cut to 8 bits), and no count overflows.
pub open spec fn pos_char_ok(p: PrintPos, c: char) -> bool {
    &&& p.row + 1 <= usize::MAX
    &&& p.col + 1 <= usize::MAX
    &&& p.cur + 1 <= usize::MAX
    &&& c != '\n' ==> (p.row % 256 < 25 && p.col % 256 < 80)
}

/// Whether scrolling at `p` is possible: the position is at most one row
/// past the screen, and the first displayed line exists.
pub open spec fn pos_scroll_ok(p: PrintPos) -> bool {
    p.row >= 25 ==> {
        &&& p.row == 25
        &&& 0 <= p.d0 < p.lens.len()
        &&& p.d0 + 1 <= usize::MAX
        &&& p.d1 + 1 <= usize::MAX
    }
}

/// The position after scrolling, if the position ran past the last row.
pub open spec fn pos_scrolled(p: PrintPos) -> PrintPos {
    if p.row >= 25 {
        if p.d1 + 1 < rows_for(p.lens[p.d0]) {
            PrintPos { d1: p.d1 + 1, row: 24, ..p }
        } else {
            PrintPos { d0: p.d0 + 1, d1: 0, row: 24, ..p }
        }
    } else {
        p
    }
}

/// The rows of lines `from` to `to` are the rows of line `from` and then
/// those of the lines after it.
pub proof fn lemma_rows_between_first(lens: Seq<int>, from: int, to: int)
    requires
        from < to,
    ensures
        rows_between(lens, from, to) == rows_for(lens[from]) + rows_between(lens, from + 1, to),
    decreases to - from,
{
    assert(rows_between(lens, from, to) == rows_between(lens, from, to - 1) + rows_for(
        lens[to - 1],
    ));
    if to > from + 1 {
        lemma_rows_between_first(lens, from, to - 1);
        assert(rows_between(lens, from + 1, to) == rows_between(lens, from + 1, to - 1)
            + rows_for(lens[to - 1]));
    } else {
        assert(rows_between(lens, from, from) == 0);
        assert(rows_between(lens, from + 1, to) == 0);
    }
}

/// Scrolling takes exactly one row off the screen: when the position has
/// run past the last row and the first displayed row is one of the rows of
/// the first displayed line, the rows on screen before the line being typed
/// drop by one and the position moves back to the last row. A line with rows
/// still on screen stays first, with the next of its rows on top; only once
/// its last row scrolls away does the next line come first. Below the last
/// row nothing changes.
pub proof fn lemma_scroll_takes_one_row(p: PrintPos)
    requires
        0 <= p.d0 < p.lens.len(),
        0 <= p.d1 < rows_for(p.lens[p.d0]),
    ensures
        p.row >= 25 ==> {
            let q = pos_scrolled(p);
            &&& displayed_rows(q.lens, q.d0, q.d1) == displayed_rows(p.lens, p.d0, p.d1) - 1
            &&& q.row == 24
            &&& q.lens == p.lens
            &&& q.cur == p.cur
            &&& q.col == p.col
            &&& (p.d1 + 1 < rows_for(p.lens[p.d0]) ==> q.d0 == p.d0 && q.d1 == p.d1 + 1)
            &&& (p.d1 + 1 == rows_for(p.lens[p.d0]) ==> q.d0 == p.d0 + 1 && q.d1 == 0)
        },
        p.row < 25 ==> pos_scrolled(p) == p,
{
    lemma_rows_between_first(p.lens, p.d0, p.lens.len() as int);
}

pub open spec fn pos_step(p: PrintPos, c: char) -> PrintPos {
    pos_scrolled(pos_after_char(p, c))
}

pub open spec fn pos_step_ok(p: PrintPos, c: char) -> bool {
    pos_char_ok(p, c) && pos_scroll_ok(pos_after_char(p, c))
}

/// The position after the characters `cs`.
pub open spec fn pos_run(p: PrintPos, cs: Seq<char>) -> PrintPos
    decreases cs.len(),
{
    if cs.len() == 0 {
        p
    } else {
        pos_step(pos_run(p, cs.drop_last()), cs.last())
    }
}

/// Whether every character of `cs` can be taken in turn from `p`.
pub open spec fn pos_run_ok(p: PrintPos, cs: Seq<char>) -> bool
    decreases cs.len(),
{
    if cs.len() == 0 {
        true
    } else {
        pos_run_ok(p, cs.drop_last()) && pos_step_ok(pos_run(p, cs.drop_last()), cs.last())
    }
}

/// The state after one character.
pub open spec fn step(st: PrintState, c: char) -> PrintState {
    let p = pos_of(st);
    let q = pos_after_char(p, c);
    let r = pos_scrolled(q);
    let m = st.model;
    let drawn = if c == '\n' {
        m.screen
    } else {
        m.screen.update(cell_offset(st.row % 256, st.col % 256), char_byte(c))
    };
    PrintState {
        model: TtyModel {
            lines: if c == '\n' {
                m.lines.push(m.cur_input)
            } else {
                m.lines
            },
            cur_input: if c == '\n' {
                Seq::empty()
            } else {
                m.cur_input.push(char_byte(c))
            },
            display_from: (r.d0, r.d1),
            screen: if q.row >= 25 {
                shift_front(drawn, 3840, 160)
            } else {
                drawn
            },
        },
        row: r.row,
        col: r.col,
    }
}

/// The state after the characters `cs`.
pub open spec fn run(st: PrintState, cs: Seq<char>) -> PrintState
    decreases cs.len(),
{
    if cs.len() == 0 {
        st
    } else {
        step(run(st, cs.drop_last()), cs.last())
    }
}

pub open spec fn model_start_ok(m: TtyModel) -> bool {
    start_ok(line_lens(m.lines), m.cur_input.len() as int, m.display_from.0, m.display_from.1)
}

/// The state a print starts from.
pub open spec fn start_state(m: TtyModel) -> PrintState {
    let p = start_pos(
        line_lens(m.lines),
        m.cur_input.len() as int,
        m.display_from.0,
        m.display_from.1,
    );
    PrintState { model: m, row: p.row, col: p.col }
}

/// Whether printing `cs` to a terminal in state `m` is possible.
pub open spec fn print_ok(m: TtyModel, cs: Seq<char>) -> bool {
    model_start_ok(m) && pos_run_ok(pos_of(start_state(m)), cs)
}

/// The terminal after printing `cs`.
pub open spec fn print_result(m: TtyModel, cs: Seq<char>) -> TtyModel {
    run(start_state(m), cs).model
}

/// The terminal after the first `k` characters of a print of `cs`.
pub open spec fn print_prefix(m: TtyModel, cs: Seq<char>, k: int) -> TtyModel {
    run(start_state(m), cs.take(k)).model
}

/// The finished lines, each followed by a newline byte, one after the other.
pub open spec fn joined_lines(lines: Seq<Seq<u8>>) -> Seq<u8>
    decreases lines.len(),
{
    if lines.len() == 0 {
        Seq::empty()
    } else {
        joined_lines(lines.drop_last()) + lines.last() + seq![10u8]
    }
}

/// Everything typed on a terminal so far: its finished lines, each ended by a
/// newline byte, then the line being typed.
pub open spec fn history(m: TtyModel) -> Seq<u8> {
    joined_lines(m.lines) + m.cur_input
}

/// The bytes that the characters `cs` are stored as.
pub open spec fn char_bytes(cs: Seq<char>) -> Seq<u8> {
    cs.map_values(|c: char| char_byte(c))
}

/// How many of the characters `cs` are newlines.
pub open spec fn newline_count(cs: Seq<char>) -> nat
    decreases cs.len(),
{
    if cs.len() == 0 {
        0
    } else {
        newline_count(cs.drop_last()) + if cs.last() == '\n' {
            1nat
        } else {
            0nat
        }
    }
}

proof fn lemma_step_history(st: PrintState, c: char)
    ensures
        history(step(st, c).model) == history(st.model).push(char_byte(c)),
        step(st, c).model.lines.len() == st.model.lines.len() + if c == '\n' {
            1int
        } else {
            0int
        },
{
    let m = st.model;
    let n = step(st, c).model;
    if c == '\n' {
        assert(n.lines.drop_last() == m.lines);
        assert(char_byte('\n') == 10u8);
        assert(history(n) =~= history(m).push(char_byte(c)));
    } else {
        assert(history(n) =~= history(m).push(char_byte(c)));
    }
}

proof fn lemma_run_history(st: PrintState, cs: Seq<char>)
    ensures
        history(run(st, cs).model) == history(st.model) + char_bytes(cs),
        run(st, cs).model.lines.len() == st.model.lines.len() + newline_count(cs),
    decreases cs.len(),
{
    if cs.len() == 0 {
        assert(history(st.model) + char_bytes(cs) =~= history(st.model));
    } else {
        let init = cs.drop_last();
        lemma_run_history(st, init);
        lemma_step_history(run(st, init), cs.last());
        assert(char_bytes(cs) =~= char_bytes(init).push(char_byte(cs.last())));
        assert(history(st.model) + char_bytes(cs) =~= (history(st.model) + char_bytes(init)).push(
            char_byte(cs.last()),
        ));
    }
}

/// Printing appends to the terminal's text exactly the bytes of what was
/// printed, and adds one finished line per newline printed.
pub proof fn lemma_print_history(m: TtyModel, cs: Seq<char>)
    ensures
        history(print_result(m, cs)) == history(m) + char_bytes(cs),
        print_result(m, cs).lines.len() == m.lines.len() + newline_count(cs),
{
    lemma_run_history(start_state(m), cs);
}

/// Printing a newline finishes the line being typed and starts an empty one;
/// a print of a newline that stops before it leaves the terminal as it was.
pub proof fn lemma_print_newline(m: TtyModel)
    ensures
        print_result(m, seq!['\n']).lines == m.lines.push(m.cur_input),
        print_result(m, seq!['\n']).cur_input == Seq::<u8>::empty(),
        history(print_result(m, seq!['\n'])) == history(m).push(10u8),
        print_prefix(m, seq!['\n'], 0) == m,
{
    let cs = seq!['\n'];
    assert(cs.drop_last() =~= Seq::<char>::empty());
    assert(cs.last() == '\n');
    assert(run(start_state(m), cs.drop_last()) == start_state(m));
    assert(run(start_state(m), cs) == step(start_state(m), '\n'));
    lemma_print_history(m, cs);
    assert(char_bytes(cs) =~= seq![10u8]);
    assert(cs.take(0) =~= Seq::<char>::empty());
}

/// Printing `cs` and then a newline as a second print leaves the same text,
/// the same finished lines and the same (empty) line being typed as printing
/// `cs` followed by a newline in one print; only where the second print
/// starts drawing may differ.
pub proof fn lemma_print_then_newline(m: TtyModel, cs: Seq<char>)
    ensures
        print_result(print_result(m, cs), seq!['\n']).lines == print_result(
            m,
            cs.push('\n'),
        ).lines,
        print_result(print_result(m, cs), seq!['\n']).cur_input == Seq::<u8>::empty(),
        print_result(m, cs.push('\n')).cur_input == Seq::<u8>::empty(),
        history(print_result(print_result(m, cs), seq!['\n'])) == history(
            print_result(m, cs.push('\n')),
        ),
        history(print_result(m, cs.push('\n'))) == history(m) + char_bytes(cs) + seq![10u8],
{
    let r = print_result(m, cs);
    lemma_print_newline(r);
    let whole = cs.push('\n');
    assert(whole.drop_last() =~= cs);
    assert(whole.last() == '\n');
    assert(run(start_state(m), whole) == step(run(start_state(m), cs), '\n'));
    lemma_print_history(m, cs);
    lemma_print_history(m, whole);
    assert(char_bytes(whole) =~= char_bytes(cs) + seq![10u8]);
    assert(history(m) + char_bytes(whole) =~= history(m) + char_bytes(cs) + seq![10u8]);
}

pub proof fn lemma_line_lens_push(lines: Seq<Seq<u8>>, l: Seq<u8>)
    ensures
        line_lens(lines.push(l)) == line_lens(lines).push(l.len() as int),
{
    assert(line_lens(lines.push(l)) =~= line_lens(lines).push(l.len() as int));
}

/// The positions of the contents follow the positions alone.
pub proof fn lemma_step_pos(st: PrintState, c: char)
    ensures
        pos_of(step(st, c)) == pos_step(pos_of(st), c),
{
    lemma_line_lens_push(st.model.lines, st.model.cur_input);
    let a = pos_of(step(st, c));
    let b = pos_step(pos_of(st), c);
    assert(a.lens =~= b.lens);
}

pub proof fn lemma_run_pos(st: PrintState, cs: Seq<char>)
    ensures
        pos_of(run(st, cs)) == pos_run(pos_of(st), cs),
    decreases cs.len(),
{
    if cs.len() > 0 {
        lemma_run_pos(st, cs.drop_last());
        lemma_step_pos(run(st, cs.drop_last()), cs.last());
    }
}

/// A possible run is possible on each of its prefixes, and each next step is possible.
pub proof fn lemma_run_ok_prefix(p: PrintPos, cs: Seq<char>, k: int)
    requires
        0 <= k < cs.len(),
        pos_run_ok(p, cs),
    ensures
        pos_run_ok(p, cs.take(k)),
        pos_step_ok(pos_run(p, cs.take(k)), cs[k]),
    decreases cs.len() - k,
{
    if k + 1 < cs.len() {
        lemma_run_ok_prefix(p, cs, k + 1);
        assert(cs.take(k + 1).drop_last() == cs.take(k));
    } else {
        assert(cs.drop_last() == cs.take(k));
    }
}

pub proof fn lemma_take_step(cs: Seq<char>, k: int)
    requires
        0 <= k < cs.len(),
    ensures
        cs.take(k + 1).drop_last() == cs.take(k),
        cs.take(k + 1).last() == cs[k],
{
    assert(cs.take(k + 1).drop_last() == cs.take(k));
}

} // verus!
