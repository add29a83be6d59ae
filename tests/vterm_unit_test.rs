use claude_explorer::style::{Color, Style};
use claude_explorer::vterm::VirtualTerminal;

#[test]
fn test_basic_print() {
    let mut vt = VirtualTerminal::new(10, 5);
    vt.feed(b"Hello");
    assert_eq!(vt.grid()[0][0].ch, "H");
    assert_eq!(vt.grid()[0][1].ch, "e");
    assert_eq!(vt.grid()[0][2].ch, "l");
    assert_eq!(vt.grid()[0][3].ch, "l");
    assert_eq!(vt.grid()[0][4].ch, "o");
    assert_eq!(vt.cursor().x, 5);
    assert_eq!(vt.cursor().y, 0);
}

#[test]
fn test_newline() {
    let mut vt = VirtualTerminal::new(10, 5);
    vt.feed(b"AB\nCD");
    assert_eq!(vt.grid()[0][0].ch, "A");
    assert_eq!(vt.grid()[0][1].ch, "B");
    assert_eq!(vt.grid()[1][2].ch, "C"); // LF moves down but not to col 0
    assert_eq!(vt.grid()[1][3].ch, "D");
}

#[test]
fn test_crlf() {
    let mut vt = VirtualTerminal::new(10, 5);
    vt.feed(b"AB\r\nCD");
    assert_eq!(vt.grid()[0][0].ch, "A");
    assert_eq!(vt.grid()[0][1].ch, "B");
    assert_eq!(vt.grid()[1][0].ch, "C");
    assert_eq!(vt.grid()[1][1].ch, "D");
}

#[test]
fn test_cursor_movement() {
    let mut vt = VirtualTerminal::new(10, 5);
    // Move to row 3, col 5 (1-indexed)
    vt.feed(b"\x1b[3;5H");
    assert_eq!(vt.cursor().y, 2);
    assert_eq!(vt.cursor().x, 4);

    // Cursor up 1
    vt.feed(b"\x1b[AX");
    assert_eq!(vt.cursor().y, 1);
    assert_eq!(vt.grid()[1][4].ch, "X");
}

#[test]
fn test_erase_display() {
    let mut vt = VirtualTerminal::new(10, 3);
    vt.feed(b"AAAAAAAAAA");
    vt.feed(b"\r\nBBBBBBBBBB");
    vt.feed(b"\r\nCCCCCCCCCC");

    // Move to row 2, col 5 and erase below
    vt.feed(b"\x1b[2;5H");
    vt.feed(b"\x1b[0J");

    // Row 0 should be intact
    assert_eq!(vt.grid()[0][0].ch, "A");
    // Row 1, cols 0-3 should be intact, 4+ cleared
    assert_eq!(vt.grid()[1][3].ch, "B");
    assert_eq!(vt.grid()[1][4].ch, " ");
    // Row 2 should be cleared
    assert_eq!(vt.grid()[2][0].ch, " ");
}

#[test]
fn vterm_test_erase_line() {
    let mut vt = VirtualTerminal::new(10, 3);
    vt.feed(b"ABCDEFGHIJ");
    // Move to col 5, erase from cursor to end of line
    vt.feed(b"\x1b[1;6H\x1b[0K");
    assert_eq!(vt.grid()[0][4].ch, "E");
    assert_eq!(vt.grid()[0][5].ch, " ");
    assert_eq!(vt.grid()[0][9].ch, " ");
}

#[test]
fn test_sgr_color() {
    let mut vt = VirtualTerminal::new(20, 5);
    // Red foreground
    vt.feed(b"\x1b[31mR");
    assert_eq!(vt.grid()[0][0].ch, "R");
    assert_eq!(vt.grid()[0][0].style.fg, Some(Color::Red));

    // Reset
    vt.feed(b"\x1b[0mN");
    assert_eq!(vt.grid()[0][1].ch, "N");
    assert_eq!(vt.grid()[0][1].style, Style::default());
}

#[test]
fn vterm_test_scroll_on_overflow() {
    let mut vt = VirtualTerminal::new(5, 3);
    vt.feed(b"A\r\nB\r\nC\r\nD");
    // After 4 lines in a 3-row terminal, first line should be in scrollback
    assert_eq!(vt.scrollback().len(), 1);
    assert_eq!(vt.scrollback()[0][0].ch, "A");
    assert_eq!(vt.grid()[0][0].ch, "B");
    assert_eq!(vt.grid()[1][0].ch, "C");
    assert_eq!(vt.grid()[2][0].ch, "D");
}

#[test]
fn vterm_test_line_wrap() {
    let mut vt = VirtualTerminal::new(5, 3);
    vt.feed(b"ABCDEFGH");
    assert_eq!(vt.grid()[0][0].ch, "A");
    assert_eq!(vt.grid()[0][4].ch, "E");
    assert_eq!(vt.grid()[1][0].ch, "F");
    assert_eq!(vt.grid()[1][2].ch, "H");
}

#[test]
fn test_alternate_screen() {
    let mut vt = VirtualTerminal::new(10, 3);
    vt.feed(b"Main screen");

    // Enter alternate screen
    vt.feed(b"\x1b[?1049h");
    assert_eq!(vt.grid()[0][0].ch, " "); // Should be blank
    vt.feed(b"Alt screen");

    // Leave alternate screen
    vt.feed(b"\x1b[?1049l");
    assert_eq!(vt.grid()[0][0].ch, "M");
    assert_eq!(vt.grid()[0][1].ch, "a");
}

#[test]
fn vterm_test_resize() {
    let mut vt = VirtualTerminal::new(10, 5);
    vt.feed(b"Hello");
    vt.resize(5, 3);
    assert_eq!(vt.cols(), 5);
    assert_eq!(vt.rows(), 3);
    assert_eq!(vt.grid()[0][0].ch, "H");
    assert_eq!(vt.grid()[0][4].ch, "o");
}

#[test]
fn vterm_test_cursor_visibility() {
    let mut vt = VirtualTerminal::new(10, 5);
    assert!(vt.cursor().visible);
    vt.feed(b"\x1b[?25l");
    assert!(!vt.cursor().visible);
    vt.feed(b"\x1b[?25h");
    assert!(vt.cursor().visible);
}

#[test]
fn test_tab() {
    let mut vt = VirtualTerminal::new(20, 5);
    vt.feed(b"A\tB");
    assert_eq!(vt.grid()[0][0].ch, "A");
    assert_eq!(vt.cursor().x, 9); // 'B' at col 8, cursor at 9
    assert_eq!(vt.grid()[0][8].ch, "B");
}

#[test]
fn vterm_test_backspace() {
    let mut vt = VirtualTerminal::new(10, 5);
    vt.feed(b"AB\x08C");
    // Backspace moves cursor back, 'C' overwrites 'B'
    assert_eq!(vt.grid()[0][0].ch, "A");
    assert_eq!(vt.grid()[0][1].ch, "C");
}

#[test]
fn vterm_test_carriage_return_overwrite() {
    let mut vt = VirtualTerminal::new(10, 5);
    vt.feed(b"Hello\rWorld");
    assert_eq!(vt.grid()[0][0].ch, "W");
    assert_eq!(vt.grid()[0][1].ch, "o");
    assert_eq!(vt.grid()[0][2].ch, "r");
    assert_eq!(vt.grid()[0][3].ch, "l");
    assert_eq!(vt.grid()[0][4].ch, "d");
}

#[test]
fn test_delete_chars() {
    let mut vt = VirtualTerminal::new(10, 3);
    vt.feed(b"ABCDEF");
    // Move to col 2, delete 2 chars
    vt.feed(b"\x1b[1;3H\x1b[2P");
    assert_eq!(vt.grid()[0][0].ch, "A");
    assert_eq!(vt.grid()[0][1].ch, "B");
    assert_eq!(vt.grid()[0][2].ch, "E");
    assert_eq!(vt.grid()[0][3].ch, "F");
}

#[test]
fn vterm_test_insert_lines() {
    let mut vt = VirtualTerminal::new(5, 3);
    vt.feed(b"A\r\nB\r\nC");
    // Move to row 2, insert 1 line
    vt.feed(b"\x1b[2;1H\x1b[1L");
    assert_eq!(vt.grid()[0][0].ch, "A");
    assert_eq!(vt.grid()[1][0].ch, " "); // Inserted blank line
    assert_eq!(vt.grid()[2][0].ch, "B"); // Pushed down
}
