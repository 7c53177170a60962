use kernel::tty::vga::Vga;
use kernel::tty::Tty;

fn ch(t: &Tty, row: usize, col: usize) -> u8 {
    t.vga.screen_bytes()[2 * (row * 80 + col)]
}

fn configured() -> Tty {
    let mut t = Tty::new(Vga::new());
    assert!(!t.is_configured());
    t.configure();
    assert!(t.is_configured());
    assert!(t.vga.is_configured());
    t
}

#[test]
fn print_draws_characters_in_order() {
    let mut t = configured();
    assert!(t.print_fits("ab"));
    assert_eq!(t.try_print("ab"), Ok(()));
    assert_eq!((ch(&t, 0, 0), ch(&t, 0, 1)), (b'a', b'b'));
    assert!(t.print_fits("c"));
    assert_eq!(t.try_print("c"), Ok(()));
    // A new print starts below the rows that the line being typed takes.
    assert_eq!(ch(&t, 0, 2), 0);
    assert_eq!(ch(&t, 1, 2), b'c');
}

#[test]
fn newline_moves_to_the_next_row() {
    let mut t = configured();
    assert!(t.println_fits("one"));
    assert_eq!(t.try_println("one"), Ok(()));
    assert!(t.print_fits("two"));
    assert_eq!(t.try_print("two"), Ok(()));
    assert_eq!(ch(&t, 0, 0), b'o');
    assert_eq!(ch(&t, 1, 0), b't');
    assert_eq!(ch(&t, 1, 2), b'o');
    assert_eq!(t.try_newline(), Ok(()));
}

#[test]
fn column_restarts_from_length_modulo_height() {
    let mut t = configured();
    let long = "x".repeat(30);
    assert_eq!(t.try_print(&long), Ok(()));
    // The line being typed holds 30 bytes: a new print starts one row down,
    // at column 30 % 25.
    assert_eq!(t.try_print("y"), Ok(()));
    assert_eq!(ch(&t, 1, 5), b'y');
}

#[test]
fn screen_scrolls_when_full() {
    let mut t = configured();
    for i in 0..25u8 {
        let line = [b'a' + i];
        let s = std::str::from_utf8(&line).unwrap();
        assert!(t.println_fits(s));
        assert_eq!(t.try_println(s), Ok(()));
    }
    // Finishing the 24th and the 25th line each scrolled one row off the top.
    assert_eq!(ch(&t, 0, 0), b'c');
    assert_eq!(ch(&t, 22, 0), b'y');
    assert!(t.print_fits("z"));
    assert_eq!(t.try_print("z"), Ok(()));
    assert_eq!(ch(&t, 23, 0), b'z');
}

#[test]
fn print_fits_rejects_a_print_below_the_screen() {
    let mut t = configured();
    for _ in 0..24 {
        assert_eq!(t.try_println(""), Ok(()));
    }
    // 24 empty lines take no rows, so the typing row is still the first.
    assert!(t.print_fits("q"));
    // Each full row past the screen scrolls one of the 24 lines away; the
    // 25th scroll finds no line left and cannot happen.
    let wide = "w".repeat(3919);
    assert!(t.print_fits(&wide));
    let wider = "w".repeat(3920);
    assert!(!t.print_fits(&wider));
    assert_eq!(t.try_print(&wide), Ok(()));
}

#[test]
fn redraw_changes_nothing() {
    let mut t = configured();
    assert_eq!(t.try_print("abc"), Ok(()));
    let before: Vec<u8> = t.vga.screen_bytes().to_vec();
    t.redraw_from_row(0, 0);
    assert_eq!(t.vga.screen_bytes(), &before[..]);
}

#[test]
fn newline_acts_as_printing_a_line_break() {
    let mut a = configured();
    let mut b = configured();
    assert_eq!(a.try_print("ab"), Ok(()));
    assert_eq!(a.try_newline(), Ok(()));
    assert_eq!(b.try_print("ab\n"), Ok(()));
    assert_eq!(a.vga.screen_bytes(), b.vga.screen_bytes());
    assert_eq!(a.try_print("cd"), Ok(()));
    assert_eq!(b.try_print("cd"), Ok(()));
    assert_eq!(a.vga.screen_bytes(), b.vga.screen_bytes());
    assert_eq!(ch(&a, 1, 0), b'c');
}

#[test]
fn println_acts_as_print_then_newline() {
    let mut a = configured();
    let mut b = configured();
    assert_eq!(a.try_println("xyz"), Ok(()));
    assert_eq!(b.try_print("xyz"), Ok(()));
    assert_eq!(b.try_newline(), Ok(()));
    assert_eq!(a.try_print("w"), Ok(()));
    assert_eq!(b.try_print("w"), Ok(()));
    assert_eq!(a.vga.screen_bytes(), b.vga.screen_bytes());
    assert_eq!((ch(&a, 0, 2), ch(&a, 1, 0)), (b'z', b'w'));
}

#[test]
fn terminal_keeps_what_the_screen_showed() {
    let mut screen = vec![0u8; 4000];
    screen[1] = 0x07;
    screen[3999] = 0x1F;
    let t = Tty::new(Vga::from_screen(&screen));
    assert_eq!(t.vga.screen_bytes(), &screen[..]);
}

#[test]
fn screen_device_is_the_terminals_screen() {
    let mut t = configured();
    assert_eq!(t.try_print("k"), Ok(()));
    assert!(t.screen_device().is_configured());
    assert_eq!(t.screen_device().screen_bytes()[0], b'k');
}
