//! A text-mode VGA screen: 25 rows of 80 cells, each cell a character byte
//! followed by an attribute byte, plus the state of the hardware cursor.
//!
//! The screen contents are held here as plain bytes; the decisions about the
//! VGA registers (what to write, and when) are made here as well, and the
//! port and memory-mapped accesses that carry them out stand outside.

use vstd::prelude::*;
use crate::common::flags::{spec_write_bitmask, write_byte_bitmask};

verus! {

pub const VGA_WIDTH: u8 = 80;

pub const VGA_HEIGHT: u8 = 25;

/// Bytes in the screen buffer: two per cell.
pub const VGA_BUF_BYTES: usize = 4000;

/// Bytes in the linear view of the buffer that `shift_by` moves: one per cell.
pub const VGA_LINEAR_BYTES: usize = 2000;

/// Bytes in one row of the screen buffer.
pub const VGA_ROW_BYTES: usize = 160;

pub const EXT_MISC_REG_IOAS_FLAG: u8 = 0;

pub const CURSOR_LOC_HI_REG: u8 = 0xe;

pub const CURSOR_LOC_LO_REG: u8 = 0xf;

pub const CURSOR_START_REG: u8 = 0xa;

pub const CURSOR_START_REG_DISABLE_MASK: u8 = 0x20;

pub const GRAPHICS_MISC_REG_IDX: u8 = 6;

/// Attr bit flags
pub const FG_OFFSET: u8 = 0;

pub const BG_OFFSET: u8 = 4;

pub const BRIGHT: u8 = 0x08;

pub const BLINK: u8 = 0x80;

/// The attribute byte of a cell: foreground colour, brightness, background
/// colour and blinking.
#[derive(Clone, Copy)]
pub struct VgaAttr(u8);

#[derive(Clone, Copy)]
pub enum BgColor {
    Black,
    Blue,
    Green,
    Cyan,
    Red,
    Magenta,
    Brown,
    LightGray,
}

#[derive(Clone, Copy)]
pub enum FgColor {
    Black,
    Blue,
    Green,
    Cyan,
    Red,
    Magenta,
    Brown,
    LightGray,
    DarkGray,
    BrightBlue,
    BrightGreen,
    BrighnCyan,
    BrightRed,
    BrightMagenta,
    Yellow,
    White,
}

/// The colour number of a background colour.
pub open spec fn bg_number(c: BgColor) -> u8 {
    match c {
        BgColor::Black => 0,
        BgColor::Blue => 1,
        BgColor::Green => 2,
        BgColor::Cyan => 3,
        BgColor::Red => 4,
        BgColor::Magenta => 5,
        BgColor::Brown => 6,
        BgColor::LightGray => 7,
    }
}

/// The colour number of a foreground colour.
pub open spec fn fg_number(c: FgColor) -> u8 {
    match c {
        FgColor::Black => 0,
        FgColor::Blue => 1,
        FgColor::Green => 2,
        FgColor::Cyan => 3,
        FgColor::Red => 4,
        FgColor::Magenta => 5,
        FgColor::Brown => 6,
        FgColor::LightGray => 7,
        FgColor::DarkGray => 8,
        FgColor::BrightBlue => 9,
        FgColor::BrightGreen => 10,
        FgColor::BrighnCyan => 11,
        FgColor::BrightRed => 12,
        FgColor::BrightMagenta => 13,
        FgColor::Yellow => 14,
        FgColor::White => 15,
    }
}

/// The colours are the standard VGA text palette: each colour is its number
/// there (black 0, blue 1, green 2, cyan 3, red 4, magenta 5, brown 6, light
/// gray 7, then their bright forms 8 to 15), no two colours share a number,
/// every bright colour is its dark colour plus 8, and a background colour
/// has the number of the foreground colour of the same name.
pub proof fn lemma_vga_palette(c1: FgColor, c2: FgColor)
    ensures
        fg_number(c1) < 16,
        fg_number(c1) == fg_number(c2) ==> c1 == c2,
        fg_number(FgColor::Black) == 0,
        fg_number(FgColor::Blue) == 1,
        fg_number(FgColor::Green) == 2,
        fg_number(FgColor::Cyan) == 3,
        fg_number(FgColor::Red) == 4,
        fg_number(FgColor::Magenta) == 5,
        fg_number(FgColor::Brown) == 6,
        fg_number(FgColor::LightGray) == 7,
        fg_number(FgColor::DarkGray) == fg_number(FgColor::Black) + 8,
        fg_number(FgColor::BrightBlue) == fg_number(FgColor::Blue) + 8,
        fg_number(FgColor::BrightGreen) == fg_number(FgColor::Green) + 8,
        fg_number(FgColor::BrighnCyan) == fg_number(FgColor::Cyan) + 8,
        fg_number(FgColor::BrightRed) == fg_number(FgColor::Red) + 8,
        fg_number(FgColor::BrightMagenta) == fg_number(FgColor::Magenta) + 8,
        fg_number(FgColor::Yellow) == fg_number(FgColor::Brown) + 8,
        fg_number(FgColor::White) == fg_number(FgColor::LightGray) + 8,
        bg_number(BgColor::Black) == fg_number(FgColor::Black),
        bg_number(BgColor::Blue) == fg_number(FgColor::Blue),
        bg_number(BgColor::Green) == fg_number(FgColor::Green),
        bg_number(BgColor::Cyan) == fg_number(FgColor::Cyan),
        bg_number(BgColor::Red) == fg_number(FgColor::Red),
        bg_number(BgColor::Magenta) == fg_number(FgColor::Magenta),
        bg_number(BgColor::Brown) == fg_number(FgColor::Brown),
        bg_number(BgColor::LightGray) == fg_number(FgColor::LightGray),
{
}

impl BgColor {
    pub fn as_u8(self) -> (r: u8)
        ensures
            r == bg_number(self),
    {
        match self {
            BgColor::Black => 0,
            BgColor::Blue => 1,
            BgColor::Green => 2,
            BgColor::Cyan => 3,
            BgColor::Red => 4,
            BgColor::Magenta => 5,
            BgColor::Brown => 6,
            BgColor::LightGray => 7,
        }
    }
}

impl FgColor {
    pub fn as_u8(self) -> (r: u8)
        ensures
            r == fg_number(self),
    {
        match self {
            FgColor::Black => 0,
            FgColor::Blue => 1,
            FgColor::Green => 2,
            FgColor::Cyan => 3,
            FgColor::Red => 4,
            FgColor::Magenta => 5,
            FgColor::Brown => 6,
            FgColor::LightGray => 7,
            FgColor::DarkGray => 8,
            FgColor::BrightBlue => 9,
            FgColor::BrightGreen => 10,
            FgColor::BrighnCyan => 11,
            FgColor::BrightRed => 12,
            FgColor::BrightMagenta => 13,
            FgColor::Yellow => 14,
            FgColor::White => 15,
        }
    }
}

impl View for VgaAttr {
    type V = u8;

    closed spec fn view(&self) -> u8 {
        self.0
    }
}

impl VgaAttr {
    pub fn from_fg(col: FgColor) -> (r: Self)
        ensures
            r@ == fg_number(col),
    {
        let n = col.as_u8();
        assert(n << 0u8 == n) by (bit_vector);
        Self(n << FG_OFFSET)
    }

    pub fn with_bright(self) -> (r: Self)
        ensures
            r@ == self@ | BRIGHT,
    {
        Self(self.0 | BRIGHT)
    }

    pub fn with_blink(self) -> (r: Self)
        ensures
            r@ == self@ | BLINK,
    {
        Self(self.0 | BLINK)
    }

    pub fn with_bg(self, bg: BgColor) -> (r: Self)
        ensures
            r@ == self@ | (bg_number(bg) << 4u8),
    {
        Self(self.0 | (bg.as_u8() << BG_OFFSET))
    }

    pub fn as_byte(&self) -> (r: u8)
        ensures
            r == self@,
    {
        self.0
    }
}

/// One screen cell: a character byte and an attribute byte.
#[derive(Clone, Copy)]
pub struct VgaCell {
    pub char: u8,
    pub attr: u8,
}

impl VgaCell {
    pub fn new(char: u8, attr: VgaAttr) -> (r: Self)
        ensures
            r.char == char,
            r.attr == attr@,
    {
        Self { char, attr: attr.as_byte() }
    }
}

/// The byte offset of the cell at `row`, `col` in the screen buffer.
pub open spec fn cell_offset(row: int, col: int) -> int {
    2 * (row * 80 + col)
}

/// The screen after the cell at `row`, `col` receives `ch` and `attr`.
pub open spec fn put_cell(screen: Seq<u8>, row: int, col: int, ch: u8, attr: u8) -> Seq<u8> {
    screen.update(cell_offset(row, col), ch).update(cell_offset(row, col) + 1, attr)
}

/// The screen after the cells from index `start` on receive the bytes of
/// `text`, all with attribute `attr`.
pub open spec fn put_text(screen: Seq<u8>, text: Seq<u8>, attr: u8, start: int) -> Seq<u8> {
    Seq::new(
        screen.len(),
        |j: int|
            if 2 * start <= j < 2 * (start + text.len()) {
                if j % 2 == 0 {
                    text[j / 2 - start]
                } else {
                    attr
                }
            } else {
                screen[j]
            },
    )
}

/// The screen after its first `count` bytes are each replaced by the byte
/// `by` places further on.
pub open spec fn shift_front(screen: Seq<u8>, count: int, by: int) -> Seq<u8> {
    Seq::new(screen.len(), |j: int| if j < count { screen[j + by] } else { screen[j] })
}

/// The row and column that a cell index maps to, each cut to 8 bits as a `u8` cast cuts it.
pub open spec fn idx_row(idx: u16) -> int {
    (idx / 80) as int % 256
}

pub open spec fn idx_col(idx: u16) -> int {
    (idx % 80) as int
}

/// The register writes that a read-modify-write of an indexed VGA register
/// needs, given what was read.
pub struct RegWritePlan {
    /// Whether the data register must be written (the new value differs).
    pub write_data: bool,
    /// Whether the index register must be set back to what it held before.
    pub restore_index: bool,
}

/// Plans a read-modify-write of a sequencer, graphics or CRT register: the
/// data register is written only when its value changes, and the index
/// register is restored only when it was pointing elsewhere.
pub fn sgc_write_plan(prev_reg_idx: u8, reg_idx: u8, prev_data: u8, data_to_write: u8) -> (r:
    RegWritePlan)
    ensures
        r.write_data == (data_to_write != prev_data),
        r.restore_index == (prev_reg_idx != reg_idx),
{
    RegWritePlan { write_data: data_to_write != prev_data, restore_index: prev_reg_idx != reg_idx }
}

/// Whether an external register, holding `prev_data`, must be written with `data_to_write`.
pub fn external_write_needed(prev_data: u8, data_to_write: u8) -> (r: bool)
    ensures
        r == (data_to_write != prev_data),
{
    data_to_write != prev_data
}

/// The new value of the miscellaneous output register when the CRT ports are selected.
pub fn crt_port_misc_value(prev: u8) -> (r: u8)
    ensures
        r == prev | EXT_MISC_REG_IOAS_FLAG,
{
    prev | EXT_MISC_REG_IOAS_FLAG
}

/// The low and the high byte of a cursor location, for the two cursor location registers.
pub fn cursor_location_bytes(idx: u16) -> (r: (u8, u8))
    ensures
        r.0 == idx % 256,
        r.1 == (idx / 256) % 256,
{
    let lo = (idx & 0xff) as u8;
    let hi = ((idx >> 8) & 0xff) as u8;
    assert(idx & 0xff == idx % 256) by (bit_vector);
    assert((idx >> 8) & 0xff == (idx / 256) % 256) by (bit_vector);
    (lo, hi)
}

/// The new value of the cursor start register that shows (`visible`) or hides the cursor.
pub fn cursor_start_value(reg: u8, visible: bool) -> (r: u8)
    ensures
        r as u64 == spec_write_bitmask(reg as u64, CURSOR_START_REG_DISABLE_MASK as u64, !visible),
{
    let v = write_byte_bitmask(reg as u64, CURSOR_START_REG_DISABLE_MASK as u64, !visible);
    let m: u64 = CURSOR_START_REG_DISABLE_MASK as u64;
    let rg: u64 = reg as u64;
    assert(rg | m < 256 && rg & !m < 256) by (bit_vector)
        requires
            rg < 256,
            m == 0x20,
    ;
    v as u8
}

/// Whether a cursor start register value leaves the cursor shown.
pub fn cursor_shown_in(reg: u8) -> (r: bool)
    ensures
        r == (reg & CURSOR_START_REG_DISABLE_MASK == 0),
{
    (reg & CURSOR_START_REG_DISABLE_MASK) == 0
}

/// Used to modify/query VGA state.
/// For use with VGA text mode, exposes only select functionality.
pub struct Vga {
    buf: [u8; VGA_BUF_BYTES],
    configured: bool,
    cursor_visible: bool,
    cursor_row: u8,
    cursor_col: u8,
}

impl Vga {
    #[verifier::type_invariant]
    spec fn well_formed(&self) -> bool {
        &&& self.buf@.len() == VGA_BUF_BYTES
        &&& self.cursor_row < VGA_HEIGHT
        &&& self.cursor_col < VGA_WIDTH
        &&& !self.configured ==> !self.cursor_visible
    }

    /// The bytes of the screen buffer, character and attribute of each cell in turn.
    pub closed spec fn screen(&self) -> Seq<u8> {
        self.buf@
    }

    pub closed spec fn configured_flag(&self) -> bool {
        self.configured
    }

    pub closed spec fn cursor_shown(&self) -> bool {
        self.cursor_visible
    }

    /// The row and column of the cursor.
    pub closed spec fn cursor(&self) -> (u8, u8) {
        (self.cursor_row, self.cursor_col)
    }

    /// Whether nothing but the screen changed from `old` to `self`.
    pub open spec fn same_but_screen(&self, old: &Vga) -> bool {
        &&& self.configured_flag() == old.configured_flag()
        &&& self.cursor_shown() == old.cursor_shown()
        &&& self.cursor() == old.cursor()
        &&& self.screen().len() == VGA_BUF_BYTES
    }

    /// A screen of zero bytes, not configured, with the cursor hidden at the top left.
    pub fn new() -> (r: Self)
        ensures
            r.screen() == Seq::new(VGA_BUF_BYTES as nat, |j: int| 0u8),
            !r.configured_flag(),
            !r.cursor_shown(),
            r.cursor() == (0u8, 0u8),
    {
        let buf = [0u8; VGA_BUF_BYTES];
        assert(buf@ =~= Seq::new(VGA_BUF_BYTES as nat, |j: int| 0u8));
        Self { buf, configured: false, cursor_visible: false, cursor_row: 0, cursor_col: 0 }
    }

    /// A screen that starts out holding `bytes` (what the display shows when
    /// it is taken over), not configured, with the cursor hidden at the top left.
    pub fn from_screen(bytes: &[u8]) -> (r: Self)
        requires
            bytes@.len() == VGA_BUF_BYTES,
        ensures
            r.screen() == bytes@,
            !r.configured_flag(),
            !r.cursor_shown(),
            r.cursor() == (0u8, 0u8),
    {
        let mut buf = [0u8; VGA_BUF_BYTES];
        let mut i: usize = 0;
        while i < bytes.len()
            invariant
                i <= bytes@.len(),
                bytes@.len() == VGA_BUF_BYTES,
                forall|j: int| 0 <= j < i ==> buf@[j] == bytes@[j],
            decreases bytes@.len() - i,
        {
            buf[i] = bytes[i];
            i = i + 1;
        }
        assert(buf@ =~= bytes@);
        Self { buf, configured: false, cursor_visible: false, cursor_row: 0, cursor_col: 0 }
    }

    /// The screen always holds 25 rows of 80 two-byte cells.
    pub fn screen_len(&self) -> (r: usize)
        ensures
            r == self.screen().len(),
            r == VGA_BUF_BYTES,
    {
        proof {
            use_type_invariant(self);
        }
        VGA_BUF_BYTES
    }

    /// The bytes of the screen buffer.
    pub fn screen_bytes(&self) -> (r: &[u8])
        ensures
            r@ == self.screen(),
            r@.len() == VGA_BUF_BYTES,
    {
        proof {
            use_type_invariant(self);
        }
        self.buf.as_slice()
    }

    pub fn is_configured(&self) -> (r: bool)
        ensures
            r == self.configured_flag(),
    {
        self.configured
    }

    pub fn is_cursor_visible(&self) -> (r: bool)
        ensures
            r == self.cursor_shown(),
    {
        self.cursor_visible
    }

    pub fn cursor_position(&self) -> (r: (u8, u8))
        ensures
            r == self.cursor(),
            r.0 < VGA_HEIGHT,
            r.1 < VGA_WIDTH,
    {
        proof {
            use_type_invariant(self);
        }
        (self.cursor_row, self.cursor_col)
    }

    /// Marks the screen configured, keeps the cursor where it is and shows it.
    pub fn configure(&mut self)
        requires
            !old(self).configured_flag(),
        ensures
            final(self).configured_flag(),
            final(self).cursor_shown(),
            final(self).cursor() == old(self).cursor(),
            final(self).screen() == old(self).screen(),
    {
        proof {
            use_type_invariant(&*self);
        }
        self.configured = true;
        let row = self.cursor_row;
        let col = self.cursor_col;
        self.move_cursor(row, col);
        self.enable_cursor();
    }

    pub fn get_width(&self) -> (r: u16)
        ensures
            r == VGA_WIDTH,
    {
        VGA_WIDTH as u16
    }

    pub fn get_height(&self) -> (r: u16)
        ensures
            r == VGA_HEIGHT,
    {
        VGA_HEIGHT as u16
    }

    /// The index of the cell at `row`, `col`.
    pub fn coords_to_idx(row: u8, col: u8) -> (r: u16)
        requires
            row < VGA_HEIGHT,
            col < VGA_WIDTH,
        ensures
            r == row * 80 + col,
    {
        assert(row * 80 <= 24 * 80) by (nonlinear_arith)
            requires
                row < 25,
        ;
        (row as u16) * (VGA_WIDTH as u16) + (col as u16)
    }

    /// The row and column of the cell index `idx`, each cast to `u8`.
    pub fn idx_to_coords(idx: u16) -> (r: (u8, u8))
        ensures
            r.0 == idx_row(idx),
            r.1 == idx_col(idx),
    {
        let q: u16 = idx / (VGA_WIDTH as u16);
        let m: u16 = idx % (VGA_WIDTH as u16);
        assert((q as u8) as int == (q as int) % 256) by (bit_vector);
        ((q as u8), (m as u8))
    }

    /// Moves the cursor to `row`, `col`.
    pub fn move_cursor(&mut self, row: u8, col: u8)
        requires
            old(self).configured_flag(),
            row < VGA_HEIGHT,
            col < VGA_WIDTH,
        ensures
            final(self).cursor() == (row, col),
            final(self).configured_flag(),
            final(self).cursor_shown() == old(self).cursor_shown(),
            final(self).screen() == old(self).screen(),
    {
        proof {
            use_type_invariant(&*self);
        }
        let _idx = Self::coords_to_idx(row, col);
        self.cursor_row = row;
        self.cursor_col = col;
    }

    pub fn enable_cursor(&mut self)
        requires
            old(self).configured_flag(),
            !old(self).cursor_shown(),
        ensures
            final(self).cursor_shown(),
            final(self).configured_flag(),
            final(self).cursor() == old(self).cursor(),
            final(self).screen() == old(self).screen(),
    {
        proof {
            use_type_invariant(&*self);
        }
        self.cursor_visible = true;
    }

    pub fn disable_cursor(&mut self)
        requires
            old(self).configured_flag(),
            old(self).cursor_shown(),
        ensures
            !final(self).cursor_shown(),
            final(self).configured_flag(),
            final(self).cursor() == old(self).cursor(),
            final(self).screen() == old(self).screen(),
    {
        proof {
            use_type_invariant(&*self);
        }
        self.cursor_visible = false;
    }

    fn set_byte(&mut self, i: usize, v: u8)
        requires
            i < old(self).screen().len(),
        ensures
            final(self).screen() == old(self).screen().update(i as int, v),
            final(self).same_but_screen(old(self)),
        no_unwind
    {
        proof {
            use_type_invariant(&*self);
        }
        self.buf[i] = v;
    }

    fn get_byte(&self, i: usize) -> (r: u8)
        requires
            i < self.screen().len(),
        ensures
            r == self.screen()[i as int],
    {
        self.buf[i]
    }

    pub fn write_at(&mut self, ch: u8, attr: VgaAttr, row: u8, col: u8)
        requires
            row < VGA_HEIGHT,
            col < VGA_WIDTH,
        ensures
            final(self).screen() == put_cell(old(self).screen(), row as int, col as int, ch, attr@),
            final(self).same_but_screen(old(self)),
    {
        proof {
            use_type_invariant(&*self);
        }
        let cell = VgaCell::new(ch, attr);
        let off: usize = 2 * ((row as usize) * 80 + (col as usize));
        self.set_byte(off, cell.char);
        self.set_byte(off + 1, cell.attr);
    }

    pub fn write_char_at(&mut self, ch: u8, row: u8, col: u8)
        requires
            row < VGA_HEIGHT,
            col < VGA_WIDTH,
        ensures
            final(self).screen() == old(self).screen().update(cell_offset(row as int, col as int), ch),
            final(self).same_but_screen(old(self)),
    {
        proof {
            use_type_invariant(&*self);
        }
        let off: usize = 2 * ((row as usize) * 80 + (col as usize));
        self.set_byte(off, ch);
    }

    pub fn write_attr_at(&mut self, attr: VgaAttr, row: u8, col: u8)
        requires
            row < VGA_HEIGHT,
            col < VGA_WIDTH,
        ensures
            final(self).screen() == old(self).screen().update(
                cell_offset(row as int, col as int) + 1,
                attr@,
            ),
            final(self).same_but_screen(old(self)),
    {
        proof {
            use_type_invariant(&*self);
        }
        let off: usize = 2 * ((row as usize) * 80 + (col as usize));
        self.set_byte(off + 1, attr.as_byte());
    }

    pub fn write_at_idx(&mut self, ch: u8, attr: VgaAttr, idx: u16)
        requires
            idx_row(idx) < VGA_HEIGHT,
        ensures
            final(self).screen() == put_cell(old(self).screen(), idx_row(idx), idx_col(idx), ch, attr@),
            final(self).same_but_screen(old(self)),
    {
        let (row, col) = Self::idx_to_coords(idx);
        self.write_at(ch, attr, row, col);
    }

    pub fn write_bytes(&mut self, text: &[u8], attr: VgaAttr, start_row: u8, start_col: u8)
        requires
            old(self).configured_flag(),
            start_row < VGA_HEIGHT,
            start_col < VGA_WIDTH,
            start_row * 80 + start_col + text@.len() <= VGA_LINEAR_BYTES,
        ensures
            final(self).screen() == put_text(
                old(self).screen(),
                text@,
                attr@,
                start_row * 80 + start_col,
            ),
            final(self).same_but_screen(old(self)),
    {
        proof {
            use_type_invariant(&*self);
        }
        let start_idx = Self::coords_to_idx(start_row, start_col);
        let ghost s0 = self.screen();
        let mut i: usize = 0;
        while i < text.len()
            invariant
                0 <= i <= text@.len(),
                start_idx == start_row * 80 + start_col,
                start_idx + text@.len() <= VGA_LINEAR_BYTES,
                s0.len() == VGA_BUF_BYTES,
                self.screen() == put_text(s0, text@.take(i as int), attr@, start_idx as int),
                self.same_but_screen(old(self)),
            decreases text@.len() - i,
        {
            let ch = text[i];
            let idx: u16 = start_idx + i as u16;
            assert(idx == start_idx + i);
            assert(idx_row(idx) == (start_idx + i) / 80);
            assert(idx_col(idx) == (start_idx + i) % 80);
            self.write_at_idx(ch, attr, idx);
            assert(self.screen() =~= put_text(s0, text@.take(i + 1), attr@, start_idx as int));
            i = i + 1;
        }
        assert(text@.take(i as int) == text@);
    }

    pub fn write_bytes_default(&mut self, text: &[u8], start_row: u8, start_col: u8)
        requires
            old(self).configured_flag(),
            start_row < VGA_HEIGHT,
            start_col < VGA_WIDTH,
            start_row * 80 + start_col + text@.len() <= VGA_LINEAR_BYTES,
        ensures
            final(self).screen() == put_text(
                old(self).screen(),
                text@,
                fg_number(FgColor::White),
                start_row * 80 + start_col,
            ),
            final(self).same_but_screen(old(self)),
    {
        let attr = VgaAttr::from_fg(FgColor::White);
        self.write_bytes(text, attr, start_row, start_col);
    }

    /// Moves the first 2000 bytes of the buffer `shift_by` places towards the start.
    pub fn shift_by(&mut self, shift_by: u16)
        requires
            shift_by <= VGA_LINEAR_BYTES,
        ensures
            final(self).screen() == shift_front(
                old(self).screen(),
                VGA_LINEAR_BYTES - shift_by,
                shift_by as int,
            ),
            final(self).same_but_screen(old(self)),
    {
        proof {
            use_type_invariant(&*self);
        }
        let ghost s0 = self.screen();
        let n: usize = shift_by as usize;
        let count: usize = VGA_LINEAR_BYTES - n;
        let mut i: usize = 0;
        while i < count
            invariant
                0 <= i <= count,
                count == VGA_LINEAR_BYTES - n,
                s0.len() == VGA_BUF_BYTES,
                self.screen() == shift_front(s0, i as int, n as int),
                self.same_but_screen(old(self)),
            decreases count - i,
        {
            let b = self.get_byte(i + n);
            self.set_byte(i, b);
            assert(self.screen() =~= shift_front(s0, i + 1, n as int));
            i = i + 1;
        }
    }

    /// Moves every row `scroll_by` rows up; the last `scroll_by` rows keep their contents.
    pub fn scroll_by(&mut self, scroll_by: u8)
        requires
            scroll_by <= VGA_HEIGHT,
        ensures
            final(self).screen() == shift_front(
                old(self).screen(),
                (VGA_HEIGHT - scroll_by) * 160,
                scroll_by * 160,
            ),
            final(self).same_but_screen(old(self)),
    {
        proof {
            use_type_invariant(&*self);
        }
        let ghost s0 = self.screen();
        let by: usize = (scroll_by as usize) * VGA_ROW_BYTES;
        let count: usize = ((VGA_HEIGHT - scroll_by) as usize) * VGA_ROW_BYTES;
        let mut i: usize = 0;
        while i < count
            invariant
                0 <= i <= count,
                count == (VGA_HEIGHT - scroll_by) * 160,
                by == scroll_by * 160,
                s0.len() == VGA_BUF_BYTES,
                self.screen() == shift_front(s0, i as int, by as int),
                self.same_but_screen(old(self)),
            decreases count - i,
        {
            let b = self.get_byte(i + by);
            self.set_byte(i, b);
            assert(self.screen() =~= shift_front(s0, i + 1, by as int));
            i = i + 1;
        }
    }

    pub fn scroll_line(&mut self)
        ensures
            final(self).screen() == shift_front(old(self).screen(), 3840int, 160int),
            final(self).same_but_screen(old(self)),
    {
        self.scroll_by(1);
    }
}

} // verus!
