use claude_explorer::style::{Color, Modifier, Style};
use claude_explorer::vterm::{Cell, CursorState, VirtualTerminal};

fn row_string(vt: &VirtualTerminal, row: usize) -> String {
    vt.grid()[row].iter().map(|c| c.ch.as_str()).collect()
}

fn snapshot(vt: &VirtualTerminal) -> (Vec<String>, Vec<Vec<Style>>, CursorState, Vec<String>, Option<String>) {
    let rows: Vec<String> = (0..vt.rows()).map(|r| row_string(vt, r)).collect();
    let styles: Vec<Vec<Style>> = vt.grid().iter().map(|r| r.iter().map(|c| c.style).collect()).collect();
    let sb: Vec<String> = vt
        .scrollback()
        .iter()
        .map(|r| r.iter().map(|c| c.ch.as_str()).collect())
        .collect();
    (rows, styles, vt.cursor(), sb, vt.reported_cwd())
}

#[test]
fn scenario_basic_print() {
    let mut vt = VirtualTerminal::new(10, 5);
    vt.feed(b"Hello");
    let g: Vec<&str> = vt.grid()[0][0..5].iter().map(|c| c.ch.as_str()).collect();
    assert_eq!(g, vec!["H", "e", "l", "l", "o"]);
    assert_eq!((vt.cursor().x, vt.cursor().y), (5, 0));
}

#[test]
fn scenario_carriage_return_overwrite() {
    let mut vt = VirtualTerminal::new(10, 5);
    vt.feed(b"Hello\rWorld");
    assert_eq!(row_string(&vt, 0), "World     ");
}

#[test]
fn scenario_sgr_and_erase() {
    let mut vt = VirtualTerminal::new(10, 3);
    vt.feed(b"\x1b[31mABC\x1b[0m\r\n");
    for x in 0..3 {
        assert_eq!(vt.grid()[0][x].style.fg, Some(Color::Red));
    }
    // CUP 1;2 is row 0, column 1: the erase starts there.
    vt.feed(b"\x1b[1;2H\x1b[0K");
    assert_eq!(vt.grid()[0][0].ch, "A");
    assert_eq!(vt.grid()[0][0].style.fg, Some(Color::Red));
    for x in 1..10 {
        assert_eq!(vt.grid()[0][x].ch, " ");
        assert_eq!(vt.grid()[0][x].style, Style::default());
    }
    for cell in &vt.grid()[1] {
        assert_eq!(cell.ch, " ");
        assert_eq!(cell.style, Style::default());
    }
}

#[test]
fn scenario_scroll_keeps_styles() {
    let mut vt = VirtualTerminal::new(5, 3);
    vt.feed(b"\x1b[32mA\x1b[0m\r\nB\r\nC\r\nD\r\nE");
    assert_eq!(vt.scrollback().len(), 2);
    assert_eq!(vt.scrollback()[0][0].ch, "A");
    assert_eq!(vt.scrollback()[0][0].style.fg, Some(Color::Green));
    assert_eq!(vt.scrollback()[1][0].ch, "B");
    assert_eq!(vt.grid()[0][0].ch, "C");
    assert_eq!(vt.grid()[1][0].ch, "D");
    assert_eq!(vt.grid()[2][0].ch, "E");
}

#[test]
fn scenario_alternate_screen_round_trip() {
    let mut vt = VirtualTerminal::new(10, 3);
    vt.feed(b"Main");
    let before = vt.cursor();
    vt.feed(b"\x1b[?1049hALT\x1b[?1049l");
    assert_eq!(row_string(&vt, 0), "Main      ");
    assert_eq!(vt.cursor(), before);
}

#[test]
fn scenario_osc7_reports_directory() {
    let mut vt = VirtualTerminal::new(10, 3);
    vt.feed(b"\x1b]7;file://host/home/user%20dir\x1b\\");
    assert_eq!(vt.reported_cwd(), Some("/home/user dir".to_string()));
}

#[test]
fn scenario_wide_character() {
    let mut vt = VirtualTerminal::new(5, 2);
    vt.feed("あA".as_bytes());
    assert_eq!(vt.grid()[0][0].ch, "あ");
    assert_eq!(vt.grid()[0][1].ch, "");
    assert_eq!(vt.grid()[0][2].ch, "A");
    assert_eq!(vt.cursor().x, 3);
}

#[test]
fn shape_holds_after_arbitrary_bytes() {
    let mut seed: u32 = 12345;
    for (cols, rows) in [(1usize, 1usize), (3, 2), (10, 5), (80, 24)] {
        let mut vt = VirtualTerminal::new(cols, rows);
        let mut bytes = Vec::new();
        for _ in 0..4000 {
            seed = seed.wrapping_mul(1103515245).wrapping_add(12345);
            bytes.push((seed >> 16) as u8);
        }
        bytes.extend_from_slice(b"\x1b[5;1r\x1b[99;99H\x1b[?1049h\x1b[3Lxyz\x1b[2S\x1b[?1049l");
        vt.feed(&bytes);
        assert_eq!(vt.grid().len(), rows);
        for row in vt.grid() {
            assert_eq!(row.len(), cols);
        }
        assert!(vt.cursor().x <= cols);
        assert!(vt.cursor().y < rows);
    }
}

#[test]
fn split_input_equals_whole_input() {
    let input: &[u8] = "ab\x1b[31;1mcd\x1b]7;file://h/tmp\x07é\x1b[2;3Hあ\r\n\x1b[?1049hxy\x1b[?1049l\x1b[6n".as_bytes();
    for cut in 0..=input.len() {
        let mut whole = VirtualTerminal::new(8, 4);
        whole.feed(input);
        let mut split = VirtualTerminal::new(8, 4);
        split.feed(&input[..cut]);
        split.feed(&input[cut..]);
        assert_eq!(snapshot(&whole), snapshot(&split), "cut at {}", cut);
        assert_eq!(whole.take_responses(), split.take_responses());
    }
}

#[test]
fn resize_twice_equals_once() {
    let mut a = VirtualTerminal::new(10, 5);
    a.feed(b"Hello\r\nWorld\x1b[2;3r");
    let mut b = VirtualTerminal::new(10, 5);
    b.feed(b"Hello\r\nWorld\x1b[2;3r");
    a.resize(4, 3);
    b.resize(4, 3);
    b.resize(4, 3);
    assert_eq!(snapshot(&a), snapshot(&b));
    assert_eq!(a.cols(), 4);
    assert_eq!(a.rows(), 3);
}

#[test]
fn scrollback_is_bounded() {
    let mut vt = VirtualTerminal::new(5, 3);
    for i in 0..1500 {
        vt.feed(format!("{}\r\n", i).as_bytes());
    }
    assert_eq!(vt.scrollback().len(), 1000);
    assert_eq!(vt.scrollback()[999][0].ch, "1");
    assert_eq!(row_string(&vt, 0), "1498 ");
}

#[test]
fn alternate_screen_restores_everything() {
    let mut vt = VirtualTerminal::new(6, 2);
    vt.feed(b"one\r\ntwo\r\nthree\x1b[1;2H");
    let before = snapshot(&vt);
    vt.feed(b"\x1b[?1049h\x1b[2Jjunk\r\nmore\r\nlines");
    assert_eq!(vt.scrollback().len(), 1);
    vt.feed(b"\x1b[?1049l");
    assert_eq!(snapshot(&vt), before);
}

#[test]
fn position_report_after_cup() {
    let mut vt = VirtualTerminal::new(80, 24);
    for (row, col) in [(1usize, 1usize), (24, 80), (12, 7)] {
        vt.feed(format!("\x1b[{};{}H\x1b[6n", row, col).as_bytes());
        let r = vt.take_responses();
        assert_eq!(r, vec![format!("\x1b[{};{}R", row, col).into_bytes()]);
    }
}

#[test]
fn status_report_ok() {
    let mut vt = VirtualTerminal::new(10, 3);
    vt.feed(b"\x1b[5n");
    assert_eq!(vt.take_responses(), vec![b"\x1b[0n".to_vec()]);
    assert!(vt.take_responses().is_empty());
}

#[test]
fn cursor_position_is_clamped() {
    let mut vt = VirtualTerminal::new(10, 5);
    vt.feed(b"\x1b[99;99H");
    assert_eq!((vt.cursor().x, vt.cursor().y), (9, 4));
    vt.feed(b"\x1b[0;0H");
    assert_eq!((vt.cursor().x, vt.cursor().y), (0, 0));
    vt.feed(b"\x1b[3B\x1b[20C");
    assert_eq!((vt.cursor().x, vt.cursor().y), (9, 3));
    vt.feed(b"\x1b[2E");
    assert_eq!((vt.cursor().x, vt.cursor().y), (0, 4));
    vt.feed(b"\x1b[9F");
    assert_eq!((vt.cursor().x, vt.cursor().y), (0, 0));
}

#[test]
fn extended_colours() {
    let mut vt = VirtualTerminal::new(10, 2);
    vt.feed(b"\x1b[48;5;21mA\x1b[48;2;1;2;3mB\x1b[38;2;9mC\x1b[39;49mD");
    assert_eq!(vt.grid()[0][0].style.bg, Some(Color::Indexed(21)));
    assert_eq!(vt.grid()[0][1].style.bg, Some(Color::Rgb(1, 2, 3)));
    assert_eq!(vt.grid()[0][2].style.fg, Some(Color::Rgb(9, 0, 0)));
    assert_eq!(vt.grid()[0][3].style.fg, Some(Color::Reset));
    assert_eq!(vt.grid()[0][3].style.bg, Some(Color::Reset));
}

#[test]
fn sgr_22_clears_bold_and_dim_only() {
    let mut vt = VirtualTerminal::new(10, 2);
    vt.feed(b"\x1b[1;2;3;91;104mA\x1b[22mB");
    let a = vt.grid()[0][0].style;
    assert!(a.modifier.bold && a.modifier.dim && a.modifier.italic);
    assert_eq!(a.fg, Some(Color::LightRed));
    assert_eq!(a.bg, Some(Color::LightBlue));
    let b = vt.grid()[0][1].style;
    assert!(!b.modifier.bold && !b.modifier.dim && b.modifier.italic);
}

#[test]
fn scroll_region_limits_line_feed() {
    let mut vt = VirtualTerminal::new(3, 4);
    vt.feed(b"top\r\n\x1b[2;3r\x1b[2;1Ha\r\nb\r\nc");
    assert_eq!(row_string(&vt, 0), "top");
    assert_eq!(row_string(&vt, 1), "b  ");
    assert_eq!(row_string(&vt, 2), "c  ");
    assert!(vt.scrollback().is_empty());
}

#[test]
fn reverse_index_scrolls_down_at_top() {
    let mut vt = VirtualTerminal::new(3, 3);
    vt.feed(b"a\r\nb\r\nc\x1b[1;1H\x1bM");
    assert_eq!(row_string(&vt, 0), "   ");
    assert_eq!(row_string(&vt, 1), "a  ");
    assert_eq!(row_string(&vt, 2), "b  ");
}

#[test]
fn insert_and_erase_chars() {
    let mut vt = VirtualTerminal::new(6, 2);
    vt.feed(b"abcdef\x1b[1;2H\x1b[2@");
    assert_eq!(row_string(&vt, 0), "a  bcd");
    vt.feed(b"\x1b[1;1H\x1b[99X");
    assert_eq!(row_string(&vt, 0), "      ");
}

#[test]
fn overwriting_half_of_wide_char_blanks_the_other_half() {
    let mut vt = VirtualTerminal::new(6, 2);
    vt.feed("あい".as_bytes());
    vt.feed(b"\x1b[1;2Hx");
    assert_eq!(vt.grid()[0][0].ch, " ");
    assert_eq!(vt.grid()[0][1].ch, "x");
    assert_eq!(vt.grid()[0][2].ch, "い");
    vt.feed(b"\x1b[1;3Hy");
    assert_eq!(vt.grid()[0][3].ch, " ");
}

#[test]
fn combining_mark_after_wide_char() {
    let mut vt = VirtualTerminal::new(6, 2);
    vt.feed("あ\u{301}".as_bytes());
    assert_eq!(vt.grid()[0][0].ch, "あ\u{301}");
    assert_eq!(vt.grid()[0][1].ch, "");
    assert_eq!(vt.cursor().x, 2);
}

#[test]
fn wide_char_at_last_column_takes_one_cell() {
    let mut vt = VirtualTerminal::new(3, 2);
    vt.feed("abあ".as_bytes());
    assert_eq!(vt.grid()[0][2].ch, "あ");
    assert_eq!(vt.cursor().x, 3);
}

#[test]
fn invalid_utf8_becomes_replacement() {
    let mut vt = VirtualTerminal::new(6, 2);
    vt.feed(b"a\xffb\xe3\x81c");
    assert_eq!(row_string(&vt, 0), "a\u{fffd}b\u{fffd}c ");
}

#[test]
fn osc7_with_bad_bytes() {
    let mut vt = VirtualTerminal::new(10, 3);
    vt.feed(b"\x1b]7;file://h/a%FFb\x07");
    assert_eq!(vt.reported_cwd(), Some("/a\u{fffd}b".to_string()));
    let mut vt2 = VirtualTerminal::new(10, 3);
    vt2.feed(b"\x1b]7;http://h/x\x07\x1b]2;title\x07");
    assert_eq!(vt2.reported_cwd(), None);
    vt2.feed(b"\x1b]7;file://h/a\xffb\x07");
    assert_eq!(vt2.reported_cwd(), Some("/a\u{fffd}b".to_string()));
    vt2.feed(b"\x1b]7;file://h/%E3%81%82\x07");
    assert_eq!(vt2.reported_cwd(), Some("/\u{3042}".to_string()));
}

#[test]
fn row_text_trims_trailing_spaces() {
    let mut vt = VirtualTerminal::new(8, 2);
    vt.feed("a あ b".as_bytes());
    assert_eq!(vt.row_text(0), "a あ b");
    assert_eq!(vt.row_text(1), "");
    assert_eq!(vt.row_text(7), "");
}

#[test]
fn full_reset_clears_screen() {
    let mut vt = VirtualTerminal::new(4, 2);
    vt.feed(b"ab\x1b[31m\x1b]7;file://h/x\x07\x1bc");
    assert_eq!(row_string(&vt, 0), "    ");
    assert_eq!(vt.reported_cwd(), None);
    vt.feed(b"z");
    assert_eq!(vt.grid()[0][0].style, Style::default());
}

#[test]
fn input_modes_are_remembered() {
    let mut vt = VirtualTerminal::new(10, 3);
    assert!(!vt.focus_reporting());
    assert!(!vt.bracketed_paste());
    vt.feed(b"\x1b[?1004;2004h");
    assert!(vt.focus_reporting());
    assert!(vt.bracketed_paste());
    vt.feed(b"\x1b[?2004l");
    assert!(vt.focus_reporting());
    assert!(!vt.bracketed_paste());
    vt.feed(b"\x1bc");
    assert!(!vt.focus_reporting());
}

#[test]
fn modifier_sets() {
    let bold = Modifier { bold: true, ..Modifier::empty() };
    let both = Modifier { italic: true, ..bold };
    assert!(both.contains(&bold));
    assert!(!bold.contains(&both));
    assert!(bold.contains(&Modifier::empty()));
}

#[test]
fn defaults() {
    let c = Cell::default();
    assert_eq!(c.ch, " ");
    assert_eq!(c.style, Style::default());
    assert_eq!(CursorState::default(), CursorState { x: 0, y: 0, visible: true });
    let vt = VirtualTerminal::new(3, 2);
    assert_eq!(vt.cursor(), CursorState::default());
    assert_eq!(vt.scroll_offset(), 0);
}

#[test]
fn missing_colour_parameters_read_as_zero() {
    let mut vt = VirtualTerminal::new(10, 2);
    vt.feed(b"\x1b[38;5mA\x1b[48;5mB\x1b[38;2;7mC\x1b[48;2mD");
    assert_eq!(vt.grid()[0][0].style.fg, Some(Color::Indexed(0)));
    assert_eq!(vt.grid()[0][1].style.bg, Some(Color::Indexed(0)));
    assert_eq!(vt.grid()[0][2].style.fg, Some(Color::Rgb(7, 0, 0)));
    assert_eq!(vt.grid()[0][3].style.bg, Some(Color::Rgb(0, 0, 0)));
}

#[test]
fn row_text_joins_wide_characters() {
    let mut vt = VirtualTerminal::new(5, 1);
    vt.feed("あA".as_bytes());
    assert_eq!(vt.row_text(0), "あA");
}

#[test]
fn alternate_screen_restores_after_activity() {
    let mut vt = VirtualTerminal::new(6, 3);
    vt.feed(b"one\r\ntwo\x1b[31m");
    let before = snapshot(&vt);
    vt.feed(b"\x1b[?1049hxx\r\nyy\r\nzz\r\nww\x1b[2J\x1b[3;3H\x1b[1L\x1b[?25l\x1b[?25h");
    vt.feed(b"\x1b[?1049l");
    assert_eq!(snapshot(&vt), before);
}
