use sunyat::{frame_action, Echo, FrameAction, SatScreen};

#[test]
fn printable_byte_is_stored_and_cursor_moves() {
    let mut s = SatScreen::new(0, 0);
    assert_eq!(s.put_char(b'H', true), Echo::Glyph(b'H'));
    assert_eq!(s.cell(0, 0), 'H');
    assert_eq!((s.cur_x(), s.cur_y()), (1, 0));
}

#[test]
fn unprintable_byte_blanks_the_cell_and_keeps_the_cursor() {
    let mut s = SatScreen::new(0, 0);
    s.put_char(b'A', true);
    s.put_char(0x0D, true);
    assert_eq!(s.put_char(0x01, false), Echo::Hex(0x01));
    assert_eq!(s.cell(0, 0), ' ');
    assert_eq!((s.cur_x(), s.cur_y()), (0, 0));
}

#[test]
fn tab_moves_to_the_next_tab_stop() {
    let mut s = SatScreen::new(1, 2);
    assert_eq!(s.put_char(0x09, false), Echo::Nothing);
    assert_eq!((s.cur_x(), s.cur_y()), (4, 2));
    s.put_char(0x09, false);
    assert_eq!((s.cur_x(), s.cur_y()), (8, 2));
}

#[test]
fn tab_from_last_stop_wraps_to_next_row() {
    let mut s = SatScreen::new(78, 23);
    s.put_char(0x09, false);
    assert_eq!((s.cur_x(), s.cur_y()), (0, 0));
}

#[test]
fn carriage_return_and_line_feed() {
    let mut s = SatScreen::new(10, 5);
    s.put_char(0x0D, false);
    assert_eq!((s.cur_x(), s.cur_y()), (0, 5));
    s.put_char(0x0A, false);
    assert_eq!((s.cur_x(), s.cur_y()), (0, 6));
    let mut t = SatScreen::new(3, 23);
    t.put_char(0x0A, false);
    assert_eq!((t.cur_x(), t.cur_y()), (3, 0));
}

#[test]
fn writing_past_the_last_column_wraps() {
    let mut s = SatScreen::new(79, 4);
    s.put_char(b'z', true);
    assert_eq!(s.cell(79, 4), 'z');
    assert_eq!((s.cur_x(), s.cur_y()), (0, 5));
}

#[test]
fn cursor_stays_on_terminal() {
    let mut s = SatScreen::new(0, 0);
    for i in 0..5000u32 {
        let c = (i * 37 % 256) as u8;
        let printable = (0x20..0x7F).contains(&c);
        assert!(!s.put_would_trap(c, printable));
        s.put_char(c, printable);
        assert!((0..80).contains(&s.cur_x()));
        assert!((0..24).contains(&s.cur_y()));
    }
}

#[test]
fn writing_a_cell_off_the_terminal_traps() {
    let s = SatScreen::new(80, 24);
    assert!(s.put_would_trap(b'a', true));
    assert!(s.put_would_trap(0x02, false));
    assert!(!s.put_would_trap(0x0D, true));
    assert!(!s.put_would_trap(0x0A, true));
    let t = SatScreen::new(i32::MAX - 1, 0);
    assert!(t.put_would_trap(0x09, false));
    let u = SatScreen::new(0, i32::MAX);
    assert!(u.put_would_trap(0x0A, false));
}

#[test]
fn frame_decisions() {
    assert_eq!(frame_action(80, 24, false), FrameAction::Run);
    assert_eq!(frame_action(120, 40, true), FrameAction::Restore);
    assert_eq!(frame_action(60, 30, false), FrameAction::TooSmall { top: 14, left: 20 });
    assert_eq!(frame_action(100, 10, true), FrameAction::TooSmall { top: 4, left: 40 });
    assert_eq!(frame_action(0, 0, false), FrameAction::TooSmall { top: -1, left: -10 });
}
