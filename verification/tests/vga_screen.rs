use kernel::tty::vga::{
    cursor_location_bytes, cursor_shown_in, cursor_start_value, crt_port_misc_value,
    external_write_needed, sgc_write_plan, BgColor, FgColor, Vga, VgaAttr, VgaCell,
};

fn cell(v: &Vga, row: usize, col: usize) -> (u8, u8) {
    let b = v.screen_bytes();
    (b[2 * (row * 80 + col)], b[2 * (row * 80 + col) + 1])
}

#[test]
fn attributes_combine_colours_and_flags() {
    assert_eq!(VgaAttr::from_fg(FgColor::White).as_byte(), 0x0F);
    assert_eq!(VgaAttr::from_fg(FgColor::Red).as_byte(), 0x04);
    assert_eq!(VgaAttr::from_fg(FgColor::Red).with_bright().as_byte(), 0x0C);
    assert_eq!(VgaAttr::from_fg(FgColor::Black).with_blink().as_byte(), 0x80);
    assert_eq!(VgaAttr::from_fg(FgColor::Yellow).with_bg(BgColor::Blue).as_byte(), 0x1E);
    let c = VgaCell::new(b'x', VgaAttr::from_fg(FgColor::Green));
    assert_eq!((c.char, c.attr), (b'x', 2));
}

#[test]
fn new_screen_is_blank_and_unconfigured() {
    let v = Vga::new();
    assert!(!v.is_configured());
    assert!(!v.is_cursor_visible());
    assert_eq!(v.cursor_position(), (0, 0));
    assert_eq!(v.screen_len(), 4000);
    assert!(v.screen_bytes().iter().all(|&b| b == 0));
    assert_eq!((v.get_width(), v.get_height()), (80, 25));
}

#[test]
fn configure_shows_the_cursor_and_moves_it() {
    let mut v = Vga::new();
    v.configure();
    assert!(v.is_configured());
    assert!(v.is_cursor_visible());
    v.move_cursor(10, 10);
    assert_eq!(v.cursor_position(), (10, 10));
    v.disable_cursor();
    assert!(!v.is_cursor_visible());
    v.enable_cursor();
    assert!(v.is_cursor_visible());
}

#[test]
fn coordinates_and_indices_convert() {
    assert_eq!(Vga::coords_to_idx(0, 0), 0);
    assert_eq!(Vga::coords_to_idx(24, 79), 1999);
    assert_eq!(Vga::coords_to_idx(1, 2), 82);
    assert_eq!(Vga::idx_to_coords(82), (1, 2));
    assert_eq!(Vga::idx_to_coords(1999), (24, 79));
    assert_eq!(Vga::idx_to_coords(20480 + 81), (1, 1));
}

#[test]
fn writes_touch_only_their_cell() {
    let mut v = Vga::new();
    let red = VgaAttr::from_fg(FgColor::Red);
    v.write_at(b'A', red, 2, 3);
    assert_eq!(cell(&v, 2, 3), (b'A', 4));
    assert_eq!(cell(&v, 2, 4), (0, 0));
    v.write_char_at(b'B', 2, 3);
    assert_eq!(cell(&v, 2, 3), (b'B', 4));
    v.write_attr_at(VgaAttr::from_fg(FgColor::Blue), 2, 3);
    assert_eq!(cell(&v, 2, 3), (b'B', 1));
    v.write_at_idx(b'C', red, 81);
    assert_eq!(cell(&v, 1, 1), (b'C', 4));
}

#[test]
fn write_bytes_fills_consecutive_cells() {
    let mut v = Vga::new();
    v.configure();
    v.write_bytes(b"hi!", VgaAttr::from_fg(FgColor::Cyan), 0, 78);
    assert_eq!(cell(&v, 0, 78), (b'h', 3));
    assert_eq!(cell(&v, 0, 79), (b'i', 3));
    assert_eq!(cell(&v, 1, 0), (b'!', 3));
    v.write_bytes_default(b"ok", 24, 78);
    assert_eq!(cell(&v, 24, 78), (b'o', 0x0F));
    assert_eq!(cell(&v, 24, 79), (b'k', 0x0F));
}

#[test]
fn scrolling_moves_rows_up() {
    let mut v = Vga::new();
    let a = VgaAttr::from_fg(FgColor::White);
    v.write_at(b'0', a, 0, 0);
    v.write_at(b'1', a, 1, 0);
    v.write_at(b'L', a, 24, 5);
    v.scroll_line();
    assert_eq!(cell(&v, 0, 0), (b'1', 0x0F));
    assert_eq!(cell(&v, 23, 5), (b'L', 0x0F));
    assert_eq!(cell(&v, 24, 5), (b'L', 0x0F));
    v.scroll_by(25);
    assert_eq!(cell(&v, 0, 0), (b'1', 0x0F));
    v.scroll_by(24);
    assert_eq!(cell(&v, 0, 5), (b'L', 0x0F));
}

#[test]
fn shift_moves_the_first_half_bytewise() {
    let mut v = Vga::new();
    let a = VgaAttr::from_fg(FgColor::White);
    v.write_at(b'Z', a, 0, 1);
    v.shift_by(1);
    assert_eq!(cell(&v, 0, 0), (0, b'Z'));
    assert_eq!(cell(&v, 0, 1), (0x0F, 0));
    v.shift_by(2000);
    assert_eq!(cell(&v, 0, 0), (0, b'Z'));
}

#[test]
fn register_decisions() {
    assert_eq!(cursor_location_bytes(0x1234), (0x34, 0x12));
    assert_eq!(cursor_start_value(0x0E, false), 0x2E);
    assert_eq!(cursor_start_value(0x2E, true), 0x0E);
    assert!(cursor_shown_in(0x0E));
    assert!(!cursor_shown_in(0x2E));
    let plan = sgc_write_plan(3, 0x0F, 5, 5);
    assert!(!plan.write_data);
    assert!(plan.restore_index);
    let plan = sgc_write_plan(0x0F, 0x0F, 5, 6);
    assert!(plan.write_data);
    assert!(!plan.restore_index);
    assert!(!external_write_needed(7, 7));
    assert!(external_write_needed(7, 8));
    assert_eq!(crt_port_misc_value(0x67), 0x67);
}
