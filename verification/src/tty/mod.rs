//! A scrolling terminal on the VGA text screen: finished lines are kept,
//! the line being typed grows character by character, and the screen
//! scrolls when the output runs past the last row.

pub mod vga;
pub mod print_spec;

use vstd::prelude::*;
use vstd::string::StringSliceAdditionalSpecFns;
use crate::common::string_buf::StringBuf;
use crate::common::try_vec::TryVec;
use crate::tty::vga::{Vga, VGA_HEIGHT, VGA_WIDTH};
use crate::tty::print_spec::{
    PrintPos, start_line, start_ok, start_pos, pos_step, pos_run, pos_char_ok, pos_scroll_ok,
    TtyModel, PrintState, rows_for, rows_between, line_lens, start_state, model_start_ok, pos_of,
    pos_run_ok, run, print_ok, print_result, print_prefix, pos_after_char, pos_step_ok,
    lemma_run_ok_prefix, lemma_run_pos, history, char_bytes, newline_count, lemma_print_history,
    lemma_print_newline, lemma_take_step, lemma_line_lens_push, step,
};

verus! {

pub struct Tty {
    configured: bool,
    pub vga: Vga,
    /// (line idx, row idx within line) of first on-screen row.
    display_from: (usize, usize),
    lines: TryVec<StringBuf>,
    cur_input: StringBuf,
}

/// The views of a sequence of byte strings.
pub open spec fn views(s: Seq<StringBuf>) -> Seq<Seq<u8>> {
    s.map_values(|b: StringBuf| b@)
}

/// Rows taken grow with the lines counted.
pub proof fn lemma_rows_between_grows(lens: Seq<int>, from: int, mid: int, to: int)
    requires
        from <= mid <= to,
        forall|i: int| 0 <= i < lens.len() ==> #[trigger] lens[i] >= 0,
        to <= lens.len(),
        0 <= from,
    ensures
        0 <= rows_between(lens, from, mid) <= rows_between(lens, from, to),
    decreases to - from,
{
    if to > mid {
        lemma_rows_between_grows(lens, from, mid, to - 1);
        assert(lens[to - 1] >= 0);
    } else if mid > from {
        lemma_rows_between_grows(lens, from, mid - 1, mid - 1);
        assert(lens[mid - 1] >= 0);
    }
}

/// The numbers of a print in progress, without the contents: the lengths of
/// the lines finished during the print (after the terminal's own lines), and
/// the position.
struct PosSim {
    extra: Vec<usize>,
    cur: usize,
    d0: usize,
    d1: usize,
    row: usize,
    col: usize,
}

/// The position that a simulation stands for, given the terminal's own line lengths.
spec fn sim_pos(base: Seq<int>, p: PosSim) -> PrintPos {
    PrintPos {
        lens: base + p.extra@.map_values(|x: usize| x as int),
        cur: p.cur as int,
        d0: p.d0 as int,
        d1: p.d1 as int,
        row: p.row as int,
        col: p.col as int,
    }
}

impl Tty {
    /// The contents of the terminal.
    pub closed spec fn model(&self) -> TtyModel {
        TtyModel {
            lines: views(self.lines@),
            cur_input: self.cur_input@,
            display_from: (self.display_from.0 as int, self.display_from.1 as int),
            screen: self.vga.screen(),
        }
    }

    pub closed spec fn configured_flag(&self) -> bool {
        self.configured
    }

    /// The screen device of the terminal: the value of its field `vga`.
    /// Outside this module Verus keeps the fields of `Tty` opaque; verified
    /// callers reach the device through `screen_device`, which carries the
    /// clauses stated over `vga_state`.
    pub closed spec fn vga_state(&self) -> Vga {
        self.vga
    }

    /// The terminal's screen device.
    pub fn screen_device(&self) -> (r: &Vga)
        ensures
            *r == self.vga_state(),
    {
        &self.vga
    }

    pub fn new(vga: Vga) -> (r: Self)
        ensures
            !r.configured_flag(),
            r.vga_state() == vga,
            r.model() == (TtyModel {
                lines: Seq::empty(),
                cur_input: Seq::empty(),
                display_from: (0, 0),
                screen: vga.screen(),
            }),
    {
        let r = Self {
            configured: false,
            vga,
            display_from: (0, 0),
            lines: TryVec::new(),
            cur_input: StringBuf::new(),
        };
        assert(views(r.lines@) =~= Seq::empty());
        r
    }

    pub fn configure(&mut self)
        requires
            !old(self).configured_flag(),
            !old(self).vga_state().configured_flag(),
        ensures
            final(self).configured_flag(),
            final(self).vga_state().configured_flag(),
            final(self).vga_state().cursor_shown(),
            final(self).vga_state().cursor() == old(self).vga_state().cursor(),
            final(self).model() == old(self).model(),
    {
        self.vga.configure();
        self.configured = true;
    }

    pub fn is_configured(&self) -> (r: bool)
        ensures
            r == self.configured_flag(),
    {
        self.configured
    }

    fn get_num_rows(&self, len: usize) -> (r: usize)
        ensures
            r == rows_for(len as int),
    {
        let w: usize = self.vga.get_width() as usize;
        len / w + if len % w == 0 {
            0
        } else {
            1
        }
    }

    /// Returns correct value for `self.display_from`: counting rows back from
    /// the last finished line, the line whose rows fill the screen's height,
    /// and how many of its rows lie above the screen; `(0, 0)` when the
    /// finished lines do not fill the screen.
    fn get_start_line(&self) -> (r: (usize, usize))
        ensures
            (r.0 as int, r.1 as int) == start_line(
                line_lens(self.model().lines),
                line_lens(self.model().lines).len() as int,
                VGA_HEIGHT as int,
            ),
    {
        let ghost lens = line_lens(self.model().lines);
        let mut remaining: usize = self.vga.get_height() as usize;
        let mut idx: usize = self.lines.len();
        assert(lens.len() == idx);
        while idx > 0
            invariant
                lens == line_lens(self.model().lines),
                idx <= lens.len(),
                remaining > 0,
                start_line(lens, lens.len() as int, VGA_HEIGHT as int) == start_line(
                    lens,
                    idx as int,
                    remaining as int,
                ),
            decreases idx,
        {
            let len_i = self.lines.index(idx - 1).len();
            assert(len_i == lens[idx - 1]);
            let rows = self.get_num_rows(len_i);
            if rows >= remaining {
                return (idx - 1, rows - remaining);
            }
            remaining = remaining - rows;
            idx = idx - 1;
        }
        (0, 0)
    }

    /// The length of line `i`, counting the lines finished during a simulated print.
    fn sim_len_at(&self, extra: &Vec<usize>, i: usize) -> (r: usize)
        requires
            i < line_lens(self.model().lines).len() + extra@.len(),
        ensures
            r == (line_lens(self.model().lines) + extra@.map_values(|x: usize| x as int))[i as int],
    {
        let n = self.lines.len();
        if i < n {
            self.lines.index(i).len()
        } else {
            extra[i - n]
        }
    }

    /// Starts a simulated print from the given numbers; `None` when a print could not start.
    fn sim_start(&self, extra: Vec<usize>, cur: usize, d0: usize, d1: usize) -> (r: Option<PosSim>)
        ensures
            r is Some <==> start_ok(
                line_lens(self.model().lines) + extra@.map_values(|x: usize| x as int),
                cur as int,
                d0 as int,
                d1 as int,
            ),
            r is Some ==> sim_pos(line_lens(self.model().lines), r->0) == start_pos(
                line_lens(self.model().lines) + extra@.map_values(|x: usize| x as int),
                cur as int,
                d0 as int,
                d1 as int,
            ),
    {
        let ghost base = line_lens(self.model().lines);
        let ghost lens = base + extra@.map_values(|x: usize| x as int);
        let n = self.lines.len();
        assert(base.len() == n);
        let total_opt = n.checked_add(extra.len());
        let total = match total_opt {
            Some(t) => t,
            None => {
                return None;
            },
        };
        assert(lens.len() == total);
        if d0 > total {
            return None;
        }
        proof {
            assert forall|j: int| 0 <= j < lens.len() implies #[trigger] lens[j] >= 0 by {
                if j < base.len() {
                    assert(lens[j] == base[j]);
                } else {
                    assert(lens[j] == extra@[j - base.len()] as int);
                }
            }
        }
        let mut sum: usize = 0;
        let mut i: usize = d0;
        while i < total
            invariant
                lens == line_lens(self.model().lines) + extra@.map_values(|x: usize| x as int),
                lens.len() == total,
                forall|j: int| 0 <= j < lens.len() ==> #[trigger] lens[j] >= 0,
                d0 <= i <= total,
                sum == rows_between(lens, d0 as int, i as int),
            decreases total - i,
        {
            let len_i = self.sim_len_at(&extra, i);
            let rows = self.get_num_rows(len_i);
            proof {
                lemma_rows_between_grows(lens, d0 as int, i + 1, total as int);
            }
            match sum.checked_add(rows) {
                Some(t) => {
                    sum = t;
                },
                None => {
                    return None;
                },
            }
            i = i + 1;
        }
        if d1 > sum {
            return None;
        }
        let shown = sum - d1;
        let cur_rows = self.get_num_rows(cur);
        if cur_rows > 25 || shown > 25 - cur_rows {
            return None;
        }
        Some(PosSim { extra, cur, d0, d1, row: shown + cur_rows, col: cur % 25 })
    }

    /// Takes one character in a simulated print; false when the print could not take it.
    fn sim_step(&self, sim: &mut PosSim, c: char) -> (r: bool)
        ensures
            r == pos_step_ok(sim_pos(line_lens(self.model().lines), *old(sim)), c),
            r ==> sim_pos(line_lens(self.model().lines), *final(sim)) == pos_step(
                sim_pos(line_lens(self.model().lines), *old(sim)),
                c,
            ),
    {
        let ghost base = line_lens(self.model().lines);
        let ghost p = sim_pos(base, *sim);
        if sim.row == usize::MAX || sim.col == usize::MAX || sim.cur == usize::MAX {
            return false;
        }
        if c != '\n' {
            let rw: usize = sim.row;
            let cl: usize = sim.col;
            let r8: u8 = rw as u8;
            let c8: u8 = cl as u8;
            assert((rw as u8) as int == rw % 256) by (bit_vector);
            assert((cl as u8) as int == cl % 256) by (bit_vector);
            if !(r8 < 25 && c8 < 80) {
                return false;
            }
        }
        assert(pos_char_ok(p, c));
        if c == '\n' {
            let cur = sim.cur;
            sim.extra.push(cur);
            sim.cur = 0;
            sim.row = sim.row + 1;
            sim.col = 0;
            proof {
                assert(sim_pos(base, *sim).lens =~= p.lens.push(p.cur));
            }
        } else {
            sim.cur = sim.cur + 1;
            if sim.cur % 80 == 0 {
                sim.row = sim.row + 1;
                sim.col = 0;
            } else {
                sim.col = sim.col + 1;
            }
        }
        let ghost q = sim_pos(base, *sim);
        assert(q == pos_after_char(p, c));
        if sim.row >= 25 {
            if sim.row != 25 || sim.d1 == usize::MAX || sim.d0 == usize::MAX {
                return false;
            }
            let n = self.lines.len();
            let total = n.checked_add(sim.extra.len());
            match total {
                Some(t) => {
                    if sim.d0 >= t {
                        return false;
                    }
                },
                None => {
                    if sim.d0 >= n && sim.d0 - n >= sim.extra.len() {
                        return false;
                    }
                },
            }
            assert(pos_scroll_ok(q));
            let first_len = self.sim_len_at(&sim.extra, sim.d0);
            if sim.d1 + 1 < self.get_num_rows(first_len) {
                sim.d1 = sim.d1 + 1;
            } else {
                sim.d0 = sim.d0 + 1;
                sim.d1 = 0;
            }
            sim.row = 24;
        }
        true
    }

    /// Takes the characters of `s` in a simulated print; false when the print could not take them.
    fn sim_run(&self, sim: &mut PosSim, s: &str) -> (r: bool)
        ensures
            r == pos_run_ok(sim_pos(line_lens(self.model().lines), *old(sim)), s@),
            r ==> sim_pos(line_lens(self.model().lines), *final(sim)) == pos_run(
                sim_pos(line_lens(self.model().lines), *old(sim)),
                s@,
            ),
    {
        let ghost base = line_lens(self.model().lines);
        let ghost p0 = sim_pos(base, *sim);
        assert(s@.take(0) =~= Seq::<char>::empty());
        for c in it: s.chars()
            invariant
                it.seq() == s@,
                base == line_lens(self.model().lines),
                p0 == sim_pos(base, *old(sim)),
                pos_run_ok(p0, s@.take(it.index() as int)),
                sim_pos(base, *sim) == pos_run(p0, s@.take(it.index() as int)),
        {
            let ghost k: int = it.index() as int;
            proof {
                lemma_take_step(s@, k);
                assert(c == s@[k]);
            }
            let ok = self.sim_step(sim, c);
            if !ok {
                proof {
                    if pos_run_ok(p0, s@) {
                        lemma_run_ok_prefix(p0, s@, k);
                    }
                }
                return false;
            }
        }
        assert(s@.take(s@.len() as int) == s@);
        true
    }

    /// Whether printing `s` is possible: exactly the precondition of `try_print`.
    pub fn print_fits(&self, s: &str) -> (r: bool)
        ensures
            r == print_ok(self.model(), s@),
    {
        let ghost m = self.model();
        let ghost base = line_lens(m.lines);
        let extra: Vec<usize> = Vec::new();
        assert(base + extra@.map_values(|x: usize| x as int) =~= base);
        let start = self.sim_start(extra, self.cur_input.len(), self.display_from.0, self.display_from.1);
        match start {
            None => false,
            Some(sim) => {
                let mut sim = sim;
                assert(sim_pos(base, sim) == pos_of(start_state(m)));
                self.sim_run(&mut sim, s)
            },
        }
    }

    /// Whether printing `s` and then a newline is possible: exactly the precondition of `try_println`.
    pub fn println_fits(&self, s: &str) -> (r: bool)
        ensures
            r == (print_ok(self.model(), s@) && print_ok(
                print_result(self.model(), s@),
                seq!['\n'],
            )),
    {
        let ghost m = self.model();
        let ghost base = line_lens(m.lines);
        let extra: Vec<usize> = Vec::new();
        assert(base + extra@.map_values(|x: usize| x as int) =~= base);
        let start = self.sim_start(extra, self.cur_input.len(), self.display_from.0, self.display_from.1);
        let mut sim = match start {
            None => {
                return false;
            },
            Some(sim) => sim,
        };
        assert(sim_pos(base, sim) == pos_of(start_state(m)));
        if !self.sim_run(&mut sim, s) {
            return false;
        }
        proof {
            lemma_run_pos(start_state(m), s@);
        }
        let ghost m2 = print_result(m, s@);
        assert(pos_of(run(start_state(m), s@)) == sim_pos(base, sim));
        let PosSim { extra, cur, d0, d1, row: _, col: _ } = sim;
        let restart = self.sim_start(extra, cur, d0, d1);
        let mut sim2 = match restart {
            None => {
                return false;
            },
            Some(x) => x,
        };
        assert(sim_pos(base, sim2) == pos_of(start_state(m2)));
        proof {
            reveal_strlit("\n");
            assert("\n"@ =~= seq!['\n']);
        }
        self.sim_run(&mut sim2, "\n")
    }

    pub fn redraw_from_row(&mut self, line_idx: usize, row_idx: usize)
        requires
            old(self).configured_flag(),
        ensures
            *final(self) == *old(self),
    {
    }

    /// Prints `s`: each `'\n'` ends the line being typed, every other
    /// character (cut to a byte) is appended to it and drawn; the screen
    /// scrolls when the output runs past the last row. On a failure to
    /// reserve memory, stops with the characters before it printed.
    pub fn try_print(&mut self, s: &str) -> (r: Result<(), ()>)
        requires
            old(self).configured_flag(),
            print_ok(old(self).model(), s@),
        ensures
            final(self).configured_flag(),
            final(self).vga_state().same_but_screen(&old(self).vga_state()),
            r is Ok ==> final(self).model() == print_result(old(self).model(), s@),
            r is Ok ==> history(final(self).model()) == history(old(self).model()) + char_bytes(
                s@,
            ),
            r is Ok ==> final(self).model().lines.len() == old(self).model().lines.len()
                + newline_count(s@),
            r is Ok && vstd::string::is_ascii(s) ==> history(final(self).model()) == history(
                old(self).model(),
            ) + s.spec_bytes(),
            r is Err ==> exists|k: int|
                0 <= k < s@.len() && final(self).model() == print_prefix(old(self).model(), s@, k)
                    && history(final(self).model()) == history(old(self).model()) + char_bytes(
                    s@.take(k),
                ),
    {
        let width: usize = self.vga.get_width() as usize;
        let height: usize = self.vga.get_height() as usize;
        let ghost m0 = self.model();
        let ghost lens = line_lens(m0.lines);
        let ghost st0 = start_state(m0);
        let ghost old_vga = self.vga;
        let _ = self.vga.screen_len();
        proof {
            assert forall|i: int| 0 <= i < lens.len() implies #[trigger] lens[i] >= 0 by {}
            assert(lens.len() == self.lines@.len());
        }
        let mut num_displayed_rows: usize = 0;
        let mut i: usize = self.display_from.0;
        let n = self.lines.len();
        while i < n
            invariant
                self.model() == m0,
                lens == line_lens(m0.lines),
                n == lens.len(),
                forall|j: int| 0 <= j < lens.len() ==> #[trigger] lens[j] >= 0,
                model_start_ok(m0),
                self.display_from.0 <= i <= n,
                num_displayed_rows == rows_between(lens, self.display_from.0 as int, i as int),
            decreases n - i,
        {
            proof {
                lemma_rows_between_grows(lens, self.display_from.0 as int, i + 1, n as int);
            }
            let len_i = self.lines.index(i).len();
            assert(len_i == lens[i as int]);
            num_displayed_rows = num_displayed_rows + self.get_num_rows(len_i);
            i = i + 1;
        }
        num_displayed_rows = num_displayed_rows - self.display_from.1;
        let cur_input_num_rows = self.get_num_rows(self.cur_input.len());
        let next_row = num_displayed_rows + cur_input_num_rows;
        let mut screen_row: usize = next_row;
        let mut screen_col: usize = self.cur_input.len() % height;
        assert(screen_row == st0.row && screen_col == st0.col);
        assert(s@.take(0) =~= Seq::<char>::empty());
        for c in it: s.chars()
            invariant
                it.seq() == s@,
                width == 80,
                height == 25,
                st0 == start_state(m0),
                pos_run_ok(pos_of(st0), s@),
                self.configured_flag(),
                self.vga.same_but_screen(&old_vga),
                old_vga == old(self).vga_state(),
                m0 == old(self).model(),
                (PrintState { model: self.model(), row: screen_row as int, col: screen_col as int })
                    == run(st0, s@.take(it.index() as int)),
        {
            let ghost k: int = it.index() as int;
            let ghost before = self.model();
            let ghost st = PrintState { model: before, row: screen_row as int, col: screen_col as int };
            proof {
                lemma_run_ok_prefix(pos_of(st0), s@, k);
                lemma_run_pos(st0, s@.take(k));
                lemma_take_step(s@, k);
                assert(c == s@[k]);
                assert(pos_step_ok(pos_of(st), c));
            }
            if c == '\n' {
                let line = self.cur_input.clone();
                let pushed = self.lines.try_push(line);
                if pushed.is_err() {
                    assert(self.model() == before);
                    assert(self.model() == print_prefix(old(self).model(), s@, k));
                    proof {
                        lemma_print_history(m0, s@.take(k));
                    }
                    return Err(());
                }
                self.cur_input = StringBuf::new();
                screen_row = screen_row + 1;
                screen_col = 0;
                assert(views(self.lines@) =~= before.lines.push(before.cur_input));
            } else {
                let b: u8 = c as u8;
                let pushed = self.cur_input.try_push(b);
                if pushed.is_err() {
                    assert(self.model() == before);
                    assert(self.model() == print_prefix(old(self).model(), s@, k));
                    proof {
                        lemma_print_history(m0, s@.take(k));
                    }
                    return Err(());
                }
                let r8: u8 = screen_row as u8;
                let c8: u8 = screen_col as u8;
                assert((screen_row as u8) as int == screen_row % 256) by (bit_vector);
                assert((screen_col as u8) as int == screen_col % 256) by (bit_vector);
                self.vga.write_char_at(b, r8, c8);
                screen_col = screen_col + 1;
                if self.cur_input.len() % width == 0 {
                    screen_row = screen_row + 1;
                    screen_col = 0;
                }
            }
            let ghost mid_pos = pos_after_char(pos_of(st), c);
            assert(screen_row == mid_pos.row && screen_col == mid_pos.col);
            if screen_row >= height {
                screen_row = height - 1;
                proof {
                    lemma_line_lens_push(before.lines, before.cur_input);
                    assert(self.lines@.len() == mid_pos.lens.len());
                }
                let _ = self.lines.len();
                let first_line_len = self.lines.index(self.display_from.0).len();
                assert(first_line_len == mid_pos.lens[mid_pos.d0]);
                if self.display_from.1 + 1 < self.get_num_rows(first_line_len) {
                    self.display_from.1 = self.display_from.1 + 1;
                } else {
                    self.display_from.0 = self.display_from.0 + 1;
                    self.display_from.1 = 0;
                }
                self.vga.scroll_line();
            }
            proof {
                let next = step(st, c);
                assert(self.model().lines == next.model.lines);
                assert(self.model().cur_input =~= next.model.cur_input);
                assert(self.model().screen =~= next.model.screen);
                assert(self.model() == next.model);
            }
        }
        assert(s@.take(s@.len() as int) == s@);
        proof {
            lemma_print_history(m0, s@);
            vstd::string::is_ascii_spec_bytes(s);
            assert(vstd::string::is_ascii(s) ==> char_bytes(s@) =~= s.spec_bytes());
        }
        Ok(())
    }

    pub fn try_newline(&mut self) -> (r: Result<(), ()>)
        requires
            old(self).configured_flag(),
            print_ok(old(self).model(), seq!['\n']),
        ensures
            final(self).configured_flag(),
            final(self).vga_state().same_but_screen(&old(self).vga_state()),
            r is Ok ==> final(self).model() == print_result(old(self).model(), "\n"@),
            r is Ok ==> final(self).model().lines == old(self).model().lines.push(
                old(self).model().cur_input,
            ),
            r is Ok ==> final(self).model().cur_input == Seq::<u8>::empty(),
            r is Ok ==> history(final(self).model()) == history(old(self).model()).push(10u8),
            r is Err ==> final(self).model() == old(self).model(),
    {
        proof {
            reveal_strlit("\n");
            assert("\n"@ =~= seq!['\n']);
            lemma_print_newline(old(self).model());
        }
        let r = self.try_print("\n");
        proof {
            if r is Err {
                let k = choose|k: int|
                    0 <= k < 1 && self.model() == print_prefix(old(self).model(), seq!['\n'], k);
                assert(seq!['\n'].take(0) =~= Seq::<char>::empty());
            }
        }
        r
    }

    pub fn try_println(&mut self, s: &str) -> (r: Result<(), ()>)
        requires
            old(self).configured_flag(),
            print_ok(old(self).model(), s@),
            print_ok(print_result(old(self).model(), s@), seq!['\n']),
        ensures
            final(self).configured_flag(),
            final(self).vga_state().same_but_screen(&old(self).vga_state()),
            r is Ok ==> final(self).model() == print_result(
                print_result(old(self).model(), s@),
                seq!['\n'],
            ),
            r is Ok ==> history(final(self).model()) == (history(old(self).model()) + char_bytes(
                s@,
            )).push(10u8),
            r is Ok ==> final(self).model().lines.len() == old(self).model().lines.len()
                + newline_count(s@) + 1,
            r is Ok ==> final(self).model().cur_input == Seq::<u8>::empty(),
            r is Err ==> (exists|k: int|
                0 <= k < s@.len() && final(self).model() == print_prefix(old(self).model(), s@, k))
                || final(self).model() == print_result(old(self).model(), s@),
    {
        let first = self.try_print(s);
        if first.is_err() {
            return Err(());
        }
        let second = self.try_newline();
        proof {
            lemma_print_history(old(self).model(), s@);
            reveal_strlit("\n");
            assert("\n"@ =~= seq!['\n']);
        }
        if second.is_err() {
            return Err(());
        }
        Ok(())
    }
}

} // verus!
