//! The virtual terminal: a grid of cells, a cursor, scrollback and the
//! alternate screen, driven byte by byte through the escape-sequence parser.
//!
//! Every operation is stated as a function on [`VtState`], the mathematical
//! value of a [`VirtualTerminal`]; the executable code is proved to compute
//! exactly those functions.
use vstd::prelude::*;
use crate::parser::{Action, ActionView, ParseState, Parser, ParserView, parser_step, initial_parser, seqs_view};
use crate::style::{Color, Style, default_style};
use crate::text::{width_of, utf8_lossy, char_width, push_char, decode_lossy};
use vstd::string::StrSliceExecFns;

verus! {

/// Rows kept in the scrollback before the oldest is dropped.
pub const MAX_SCROLLBACK: usize = 1000;

/// One grid position: a grapheme cluster and its style. An empty cluster
/// marks the right half of the wide character to its left.
pub struct Cell {
    pub ch: String,
    pub style: Style,
}

/// The mathematical value of a [`Cell`].
pub struct CellView {
    pub ch: Seq<char>,
    pub style: Style,
}

impl View for Cell {
    type V = CellView;

    open spec fn view(&self) -> CellView {
        CellView { ch: self.ch@, style: self.style }
    }
}

/// Cursor position, zero-based, and whether the cursor is shown.
#[derive(Clone, Copy, Debug, PartialEq, Eq, Structural)]
pub struct CursorState {
    pub x: usize,
    pub y: usize,
    pub visible: bool,
}

pub open spec fn home_cursor() -> CursorState {
    CursorState { x: 0, y: 0, visible: true }
}

pub open spec fn blank_cell() -> CellView {
    CellView { ch: seq![' '], style: default_style() }
}

pub open spec fn blank_row(cols: nat) -> Seq<CellView> {
    Seq::new(cols, |i: int| blank_cell())
}

pub open spec fn blank_grid(cols: nat, rows: nat) -> Seq<Seq<CellView>> {
    Seq::new(rows, |i: int| blank_row(cols))
}

pub open spec fn row_view(r: Seq<Cell>) -> Seq<CellView> {
    r.map_values(|c: Cell| c@)
}

pub open spec fn grid_view(g: Seq<Vec<Cell>>) -> Seq<Seq<CellView>> {
    g.map_values(|r: Vec<Cell>| row_view(r@))
}

/// The mathematical value of a [`VirtualTerminal`].
pub struct VtState {
    pub grid: Seq<Seq<CellView>>,
    pub cols: nat,
    pub rows: nat,
    pub cursor: CursorState,
    pub style: Style,
    pub scrollback: Seq<Seq<CellView>>,
    pub scroll_offset: nat,
    pub saved_cursor: Option<CursorState>,
    pub saved_grid: Option<Seq<Seq<CellView>>>,
    pub saved_scrollback: Option<Seq<Seq<CellView>>>,
    pub saved_main_cursor: Option<CursorState>,
    pub parser: ParserView,
    /// The scroll region is the rows `scroll_top .. scroll_bottom`.
    pub scroll_top: nat,
    pub scroll_bottom: nat,
    pub responses: Seq<Seq<u8>>,
    pub reported_cwd: Option<Seq<char>>,
    /// The host asked for focus reports (mode 1004).
    pub focus_reporting: bool,
    /// The host asked for bracketed paste (mode 2004).
    pub bracketed_paste: bool,
}

/// A fresh terminal of the given size.
pub open spec fn new_state(cols: nat, rows: nat) -> VtState {
    VtState {
        grid: blank_grid(cols, rows),
        cols,
        rows,
        cursor: home_cursor(),
        style: default_style(),
        scrollback: Seq::empty(),
        scroll_offset: 0,
        saved_cursor: None,
        saved_grid: None,
        saved_scrollback: None,
        saved_main_cursor: None,
        parser: initial_parser(),
        scroll_top: 0,
        scroll_bottom: rows,
        responses: Seq::empty(),
        reported_cwd: None,
        focus_reporting: false,
        bracketed_paste: false,
    }
}

/// The grid has `rows` rows of `cols` cells each.
pub open spec fn grid_shape(g: Seq<Seq<CellView>>, cols: nat, rows: nat) -> bool {
    g.len() == rows && forall|i: int| 0 <= i < g.len() ==> (#[trigger] g[i]).len() == cols
}

/// What holds of a terminal between any two bytes. The cursor may stand
/// one past the last column: the next printed character wraps first.
pub open spec fn state_wf(s: VtState) -> bool {
    &&& s.cols > 0
    &&& s.rows > 0
    &&& grid_shape(s.grid, s.cols, s.rows)
    &&& s.cursor.x <= s.cols
    &&& s.cursor.y < s.rows
    &&& s.scroll_top < s.scroll_bottom <= s.rows
    &&& s.scrollback.len() <= MAX_SCROLLBACK
    &&& (s.saved_scrollback matches Some(sb) ==> sb.len() <= MAX_SCROLLBACK)
    &&& s.parser.wf()
}

pub open spec fn min(a: int, b: int) -> int {
    if a < b {
        a
    } else {
        b
    }
}

pub open spec fn max(a: int, b: int) -> int {
    if a < b {
        b
    } else {
        a
    }
}

/// The `i`-th parameter, or `d` where it is missing or zero.
pub open spec fn arg(ps: Seq<u16>, i: int, d: int) -> int {
    if 0 <= i < ps.len() && ps[i] != 0 {
        ps[i] as int
    } else {
        d
    }
}

pub open spec fn move_to(s: VtState, x: int, y: int) -> VtState {
    VtState { cursor: CursorState { x: x as usize, y: y as usize, ..s.cursor }, ..s }
}

pub open spec fn set_row(s: VtState, y: int, row: Seq<CellView>) -> VtState {
    VtState { grid: s.grid.update(y, row), ..s }
}

/// The scrollback after `row` is pushed, dropping the oldest row beyond
/// the bound.
pub open spec fn push_scrollback(sb: Seq<Seq<CellView>>, row: Seq<CellView>) -> Seq<Seq<CellView>> {
    if sb.len() + 1 > MAX_SCROLLBACK {
        sb.push(row).drop_first()
    } else {
        sb.push(row)
    }
}

/// Scroll the region up one row; a row leaving the top of the screen goes
/// to the scrollback.
pub open spec fn scroll_up(s: VtState) -> VtState {
    let t = s.scroll_top as int;
    let b = s.scroll_bottom as int;
    VtState {
        grid: s.grid.remove(t).insert(b - 1, blank_row(s.cols)),
        scrollback: if t == 0 {
            push_scrollback(s.scrollback, s.grid[t])
        } else {
            s.scrollback
        },
        ..s
    }
}

/// Scroll the region down one row.
pub open spec fn scroll_down(s: VtState) -> VtState {
    let t = s.scroll_top as int;
    let b = s.scroll_bottom as int;
    VtState { grid: s.grid.remove(b - 1).insert(t, blank_row(s.cols)), ..s }
}

pub open spec fn scroll_up_n(s: VtState, n: nat) -> VtState
    decreases n,
{
    if n == 0 {
        s
    } else {
        scroll_up(scroll_up_n(s, (n - 1) as nat))
    }
}

pub open spec fn scroll_down_n(s: VtState, n: nat) -> VtState
    decreases n,
{
    if n == 0 {
        s
    } else {
        scroll_down(scroll_down_n(s, (n - 1) as nat))
    }
}

/// Line feed: down one row, or scroll the region at its last row.
pub open spec fn line_feed(s: VtState) -> VtState {
    if s.cursor.y + 1 >= s.scroll_bottom {
        scroll_up(s)
    } else {
        move_to(s, s.cursor.x as int, s.cursor.y + 1)
    }
}

/// Reverse index: up one row, or scroll the region down at its first row.
pub open spec fn reverse_index(s: VtState) -> VtState {
    if s.cursor.y <= s.scroll_top {
        scroll_down(s)
    } else {
        move_to(s, s.cursor.x as int, s.cursor.y - 1)
    }
}

/// Before cells `a .. b` of a row are overwritten: a wide character that
/// would lose one of its halves is blanked.
pub open spec fn unpair(row: Seq<CellView>, a: int, b: int) -> Seq<CellView> {
    let r = if 0 < a < row.len() && row[a].ch.len() == 0 {
        row.update(a - 1, blank_cell())
    } else {
        row
    };
    if 0 <= b < r.len() && r[b].ch.len() == 0 {
        r.update(b, blank_cell())
    } else {
        r
    }
}

/// The row with cells `a .. b` blank.
pub open spec fn blank_span(row: Seq<CellView>, a: int, b: int) -> Seq<CellView> {
    Seq::new(row.len(), |i: int| if a <= i < b { blank_cell() } else { row[i] })
}

/// Erase cells `a .. b` of the cursor row.
pub open spec fn erase_span(s: VtState, a: int, b: int) -> VtState {
    let y = s.cursor.y as int;
    set_row(s, y, blank_span(unpair(s.grid[y], a, b), a, b))
}

/// The grid with rows `a .. b` blank.
pub open spec fn blank_rows(s: VtState, a: int, b: int) -> VtState {
    VtState {
        grid: Seq::new(s.grid.len(), |i: int| if a <= i < b { blank_row(s.cols) } else { s.grid[i] }),
        ..s
    }
}

/// Erase in display: 0 from the cursor on, 1 up to the cursor, 2 and 3 all.
pub open spec fn erase_display(s: VtState, mode: int) -> VtState {
    let x = s.cursor.x as int;
    let y = s.cursor.y as int;
    if mode == 0 {
        blank_rows(erase_span(s, x, s.cols as int), y + 1, s.rows as int)
    } else if mode == 1 {
        erase_span(blank_rows(s, 0, y), 0, min(x, s.cols - 1) + 1)
    } else if mode == 2 || mode == 3 {
        blank_rows(s, 0, s.rows as int)
    } else {
        s
    }
}

/// Erase in line: 0 from the cursor on, 1 up to the cursor, 2 all.
pub open spec fn erase_line(s: VtState, mode: int) -> VtState {
    let x = s.cursor.x as int;
    if mode == 0 {
        erase_span(s, x, s.cols as int)
    } else if mode == 1 {
        erase_span(s, 0, min(x, s.cols - 1) + 1)
    } else if mode == 2 {
        set_row(s, s.cursor.y as int, blank_row(s.cols))
    } else {
        s
    }
}

pub open spec fn insert_line(s: VtState) -> VtState {
    let y = s.cursor.y as int;
    if s.scroll_top <= y < s.scroll_bottom {
        VtState {
            grid: s.grid.remove(s.scroll_bottom - 1).insert(y, blank_row(s.cols)),
            ..s
        }
    } else {
        s
    }
}

pub open spec fn insert_lines(s: VtState, n: nat) -> VtState
    decreases n,
{
    if n == 0 {
        s
    } else {
        insert_line(insert_lines(s, (n - 1) as nat))
    }
}

pub open spec fn delete_line(s: VtState) -> VtState {
    let y = s.cursor.y as int;
    if s.scroll_top <= y < s.scroll_bottom {
        VtState {
            grid: s.grid.remove(y).insert(s.scroll_bottom - 1, blank_row(s.cols)),
            ..s
        }
    } else {
        s
    }
}

pub open spec fn delete_lines(s: VtState, n: nat) -> VtState
    decreases n,
{
    if n == 0 {
        s
    } else {
        delete_line(delete_lines(s, (n - 1) as nat))
    }
}

/// Delete `n` cells at `x`, shifting the rest left and padding with blanks.
pub open spec fn delete_cells(row: Seq<CellView>, x: int, n: nat) -> Seq<CellView>
    decreases n,
{
    if n == 0 {
        row
    } else {
        let r = delete_cells(row, x, (n - 1) as nat);
        if x < r.len() {
            r.remove(x).push(blank_cell())
        } else {
            r
        }
    }
}

/// Insert `n` blank cells at `x`, shifting the rest right and dropping what
/// passes the last column.
pub open spec fn insert_cells(row: Seq<CellView>, x: int, n: nat) -> Seq<CellView>
    decreases n,
{
    if n == 0 {
        row
    } else {
        let r = insert_cells(row, x, (n - 1) as nat);
        if x < r.len() {
            r.insert(x, blank_cell()).subrange(0, r.len() as int)
        } else {
            r
        }
    }
}

pub open spec fn named_fg(code: int) -> Color {
    if code == 30 {
        Color::Black
    } else if code == 31 {
        Color::Red
    } else if code == 32 {
        Color::Green
    } else if code == 33 {
        Color::Yellow
    } else if code == 34 {
        Color::Blue
    } else if code == 35 {
        Color::Magenta
    } else if code == 36 {
        Color::Cyan
    } else {
        Color::White
    }
}

pub open spec fn bright(code: int) -> Color {
    if code == 90 {
        Color::DarkGray
    } else if code == 91 {
        Color::LightRed
    } else if code == 92 {
        Color::LightGreen
    } else if code == 93 {
        Color::LightYellow
    } else if code == 94 {
        Color::LightBlue
    } else if code == 95 {
        Color::LightMagenta
    } else if code == 96 {
        Color::LightCyan
    } else {
        Color::White
    }
}

pub open spec fn with_modifier(st: Style, m: crate::style::Modifier) -> Style {
    Style { modifier: m, ..st }
}

/// One graphic-rendition code other than the extended colours.
pub open spec fn sgr_code(st: Style, code: int) -> Style {
    let m = st.modifier;
    if code == 0 {
        default_style()
    } else if code == 1 {
        with_modifier(st, crate::style::Modifier { bold: true, ..m })
    } else if code == 2 {
        with_modifier(st, crate::style::Modifier { dim: true, ..m })
    } else if code == 3 {
        with_modifier(st, crate::style::Modifier { italic: true, ..m })
    } else if code == 4 {
        with_modifier(st, crate::style::Modifier { underlined: true, ..m })
    } else if code == 7 {
        with_modifier(st, crate::style::Modifier { reversed: true, ..m })
    } else if code == 9 {
        with_modifier(st, crate::style::Modifier { crossed_out: true, ..m })
    } else if code == 22 {
        with_modifier(st, crate::style::Modifier { bold: false, dim: false, ..m })
    } else if code == 23 {
        with_modifier(st, crate::style::Modifier { italic: false, ..m })
    } else if code == 24 {
        with_modifier(st, crate::style::Modifier { underlined: false, ..m })
    } else if code == 27 {
        with_modifier(st, crate::style::Modifier { reversed: false, ..m })
    } else if code == 29 {
        with_modifier(st, crate::style::Modifier { crossed_out: false, ..m })
    } else if 30 <= code <= 37 {
        Style { fg: Some(named_fg(code)), ..st }
    } else if code == 39 {
        Style { fg: Some(Color::Reset), ..st }
    } else if 40 <= code <= 47 {
        Style { bg: Some(named_fg(code - 10)), ..st }
    } else if code == 49 {
        Style { bg: Some(Color::Reset), ..st }
    } else if 90 <= code <= 97 {
        Style { fg: Some(bright(code)), ..st }
    } else if 100 <= code <= 107 {
        Style { bg: Some(bright(code - 10)), ..st }
    } else {
        st
    }
}

/// The low byte of a parameter.
pub open spec fn low_byte(v: u16) -> u8 {
    (v % 256) as u8
}

/// The `i`-th parameter's low byte, 0 where it is missing.
pub open spec fn byte_arg(ps: Seq<u16>, i: int) -> u8 {
    if 0 <= i < ps.len() {
        low_byte(ps[i])
    } else {
        0
    }
}

pub open spec fn set_colour(st: Style, fg: bool, c: Color) -> Style {
    if fg {
        Style { fg: Some(c), ..st }
    } else {
        Style { bg: Some(c), ..st }
    }
}

/// Graphic renditions from the `i`-th parameter on, left to right.
pub open spec fn sgr(st: Style, ps: Seq<u16>, i: int) -> Style
    decreases ps.len() - i,
{
    if i < 0 || i >= ps.len() {
        st
    } else {
        let code = ps[i] as int;
        if code == 38 || code == 48 {
            if i + 1 >= ps.len() {
                st
            } else if ps[i + 1] == 5 {
                let st2 = set_colour(st, code == 38, Color::Indexed(byte_arg(ps, i + 2)));
                if i + 3 < ps.len() {
                    sgr(st2, ps, i + 3)
                } else {
                    st2
                }
            } else if ps[i + 1] == 2 {
                let st2 = set_colour(
                    st,
                    code == 38,
                    Color::Rgb(byte_arg(ps, i + 2), byte_arg(ps, i + 3), byte_arg(ps, i + 4)),
                );
                if i + 5 < ps.len() {
                    sgr(st2, ps, i + 5)
                } else {
                    st2
                }
            } else {
                sgr(st, ps, i + 2)
            }
        } else {
            sgr(sgr_code(st, code), ps, i + 1)
        }
    }
}

/// The grid `g` cut or padded to the given size, keeping its top-left.
pub open spec fn fit_grid(g: Seq<Seq<CellView>>, cols: nat, rows: nat) -> Seq<Seq<CellView>> {
    Seq::new(
        rows,
        |y: int|
            Seq::new(
                cols,
                |x: int| if y < g.len() && x < g[y].len() { g[y][x] } else { blank_cell() },
            ),
    )
}

/// A saved cursor brought within the current bounds.
pub open spec fn clamp_cursor(c: CursorState, cols: nat, rows: nat) -> CursorState {
    CursorState {
        x: min(c.x as int, cols as int) as usize,
        y: min(c.y as int, rows - 1) as usize,
        visible: c.visible,
    }
}

pub open spec fn restore_cursor(s: VtState) -> VtState {
    match s.saved_cursor {
        Some(c) => VtState { cursor: clamp_cursor(c, s.cols, s.rows), ..s },
        None => s,
    }
}

/// Switch to the alternate screen; `with_cursor` also saves the cursor.
pub open spec fn enter_alt(s: VtState, with_cursor: bool) -> VtState {
    VtState {
        saved_grid: Some(s.grid),
        saved_scrollback: Some(s.scrollback),
        saved_main_cursor: if with_cursor {
            Some(s.cursor)
        } else {
            s.saved_main_cursor
        },
        grid: blank_grid(s.cols, s.rows),
        scrollback: Seq::empty(),
        cursor: home_cursor(),
        ..s
    }
}

/// Back to the main screen: each snapshot that was taken comes back and is
/// used up.
pub open spec fn leave_alt(s: VtState, with_cursor: bool) -> VtState {
    VtState {
        grid: match s.saved_grid {
            Some(g) => fit_grid(g, s.cols, s.rows),
            None => s.grid,
        },
        saved_grid: None,
        scrollback: match s.saved_scrollback {
            Some(sb) => sb,
            None => s.scrollback,
        },
        saved_scrollback: None,
        cursor: if with_cursor {
            match s.saved_main_cursor {
                Some(c) => clamp_cursor(c, s.cols, s.rows),
                None => s.cursor,
            }
        } else {
            s.cursor
        },
        saved_main_cursor: if with_cursor {
            None
        } else {
            s.saved_main_cursor
        },
        ..s
    }
}

pub open spec fn dec_mode(s: VtState, code: u16, set: bool) -> VtState {
    if code == 25 {
        VtState { cursor: CursorState { visible: set, ..s.cursor }, ..s }
    } else if code == 1049 || code == 1047 || code == 47 {
        if set {
            enter_alt(s, code == 1049)
        } else {
            leave_alt(s, code == 1049)
        }
    } else if code == 1004 {
        VtState { focus_reporting: set, ..s }
    } else if code == 2004 {
        VtState { bracketed_paste: set, ..s }
    } else {
        s
    }
}

pub open spec fn dec_modes(s: VtState, ps: Seq<u16>, set: bool, i: int) -> VtState
    decreases ps.len() - i,
{
    if i < 0 || i >= ps.len() {
        s
    } else {
        dec_modes(dec_mode(s, ps[i], set), ps, set, i + 1)
    }
}

/// The decimal digits of `n`.
pub open spec fn decimal(n: nat) -> Seq<u8>
    decreases n,
{
    if n < 10 {
        seq![(48 + n) as u8]
    } else {
        decimal(n / 10).push((48 + n % 10) as u8)
    }
}

/// The cursor position report `ESC [ row ; col R`.
pub open spec fn position_report(row: nat, col: nat) -> Seq<u8> {
    seq![0x1Bu8, 0x5Bu8] + decimal(row) + seq![0x3Bu8] + decimal(col) + seq![0x52u8]
}

/// Device status report: 5 answers `ESC [ 0 n`, 6 the cursor position.
pub open spec fn status_report(s: VtState, code: int) -> VtState {
    if code == 5 {
        VtState { responses: s.responses.push(seq![0x1Bu8, 0x5Bu8, 0x30u8, 0x6Eu8]), ..s }
    } else if code == 6 {
        VtState {
            responses: s.responses.push(position_report((s.cursor.y + 1) as nat, (s.cursor.x + 1) as nat)),
            ..s
        }
    } else {
        s
    }
}

/// Set the scroll region and home the cursor.
pub open spec fn set_region(s: VtState, ps: Seq<u16>) -> VtState {
    let top = min(arg(ps, 0, 1) - 1, s.rows - 1);
    let bottom = max(min(arg(ps, 1, s.rows as int), s.rows as int), top + 1);
    VtState {
        scroll_top: top as nat,
        scroll_bottom: bottom as nat,
        cursor: CursorState { x: 0, y: 0, ..s.cursor },
        ..s
    }
}

/// A control sequence with parameters `ps`, intermediates `inter` and
/// final byte `f`.
#[verifier::opaque]
pub open spec fn csi(s: VtState, ps: Seq<u16>, inter: Seq<u8>, f: u8) -> VtState {
    let n = arg(ps, 0, 1);
    let x = s.cursor.x as int;
    let y = s.cursor.y as int;
    let last_col = s.cols - 1;
    let last_row = s.rows - 1;
    if f == 0x48 || f == 0x66 {
        move_to(s, min(arg(ps, 1, 1) - 1, last_col), min(n - 1, last_row))
    } else if f == 0x41 {
        move_to(s, x, max(y - n, 0))
    } else if f == 0x42 {
        move_to(s, x, min(y + n, last_row))
    } else if f == 0x43 {
        move_to(s, min(x + n, last_col), y)
    } else if f == 0x44 {
        move_to(s, max(x - n, 0), y)
    } else if f == 0x45 {
        move_to(s, 0, min(y + n, last_row))
    } else if f == 0x46 {
        move_to(s, 0, max(y - n, 0))
    } else if f == 0x47 {
        move_to(s, min(n - 1, last_col), y)
    } else if f == 0x64 {
        move_to(s, x, min(n - 1, last_row))
    } else if f == 0x4A {
        erase_display(s, arg(ps, 0, 0))
    } else if f == 0x4B {
        erase_line(s, arg(ps, 0, 0))
    } else if f == 0x4C {
        insert_lines(s, n as nat)
    } else if f == 0x4D {
        delete_lines(s, n as nat)
    } else if f == 0x50 {
        set_row(s, y, delete_cells(unpair(s.grid[y], x, x + n), x, n as nat))
    } else if f == 0x53 {
        scroll_up_n(s, n as nat)
    } else if f == 0x54 {
        scroll_down_n(s, n as nat)
    } else if f == 0x40 {
        set_row(s, y, insert_cells(unpair(s.grid[y], x, x), x, n as nat))
    } else if f == 0x58 {
        erase_span(s, x, min(x + n, s.cols as int))
    } else if f == 0x6D {
        VtState { style: sgr(s.style, ps, 0), ..s }
    } else if f == 0x68 || f == 0x6C {
        if inter == seq![0x3Fu8] {
            dec_modes(s, ps, f == 0x68, 0)
        } else {
            s
        }
    } else if f == 0x73 {
        VtState { saved_cursor: Some(s.cursor), ..s }
    } else if f == 0x75 {
        restore_cursor(s)
    } else if f == 0x72 {
        if inter.len() == 0 {
            set_region(s, ps)
        } else {
            s
        }
    } else if f == 0x6E {
        status_report(s, arg(ps, 0, 0))
    } else {
        s
    }
}

/// An escape sequence with final byte `f`.
#[verifier::opaque]
pub open spec fn esc(s: VtState, f: u8) -> VtState {
    if f == 0x44 {
        line_feed(s)
    } else if f == 0x4D {
        reverse_index(s)
    } else if f == 0x37 {
        VtState { saved_cursor: Some(s.cursor), ..s }
    } else if f == 0x38 {
        restore_cursor(s)
    } else if f == 0x63 {
        VtState { parser: s.parser, ..new_state(s.cols, s.rows) }
    } else {
        s
    }
}

/// A C0 control.
#[verifier::opaque]
pub open spec fn execute(s: VtState, b: u8) -> VtState {
    let x = s.cursor.x as int;
    if b == 8 {
        move_to(s, max(x - 1, 0), s.cursor.y as int)
    } else if b == 9 {
        move_to(s, min((x / 8 + 1) * 8, s.cols - 1), s.cursor.y as int)
    } else if 10 <= b <= 12 {
        line_feed(s)
    } else if b == 13 {
        move_to(s, 0, s.cursor.y as int)
    } else {
        s
    }
}


/// Join a zero-width character to the cluster left of the cursor, or to
/// the wide character whose right half is there.
pub open spec fn combine(s: VtState, c: char) -> VtState {
    let x = s.cursor.x as int;
    let y = s.cursor.y as int;
    if x > 0 {
        let row = s.grid[y];
        let q = if row[x - 1].ch.len() == 0 && x - 1 > 0 {
            x - 2
        } else {
            x - 1
        };
        set_row(s, y, row.update(q, CellView { ch: row[q].ch.push(c), style: row[q].style }))
    } else {
        s
    }
}

/// Past the last column the cursor wraps to the next row, scrolling the
/// region when that row lies beyond it.
pub open spec fn wrap(s: VtState) -> VtState {
    if s.cursor.x >= s.cols {
        if s.cursor.y + 1 >= s.scroll_bottom {
            move_to(scroll_up(s), 0, s.scroll_bottom - 1)
        } else {
            move_to(s, 0, s.cursor.y + 1)
        }
    } else {
        s
    }
}

/// Write a character of width `w` at the cursor and move past it; a wide
/// character that fits takes a second, empty cell.
pub open spec fn put_glyph(s: VtState, c: char, w: usize) -> VtState {
    let x = s.cursor.x as int;
    let y = s.cursor.y as int;
    let span: int = if w == 2 && x + 1 < s.cols {
        2
    } else {
        1
    };
    let r0 = unpair(s.grid[y], x, x + span);
    let r1 = r0.update(x, CellView { ch: seq![c], style: s.style });
    let r2 = if span == 2 {
        r1.update(x + 1, CellView { ch: Seq::empty(), style: s.style })
    } else {
        r1
    };
    move_to(set_row(s, y, r2), x + span, y)
}

/// Show a printable character.
#[verifier::opaque]
pub open spec fn print(s: VtState, c: char) -> VtState {
    match width_of(c) {
        Some(w) => if w == 0 {
            combine(s, c)
        } else {
            put_glyph(wrap(s), c, w)
        },
        None => combine(s, c),
    }
}

pub open spec fn is_hex(b: u8) -> bool {
    (0x30 <= b <= 0x39) || (0x41 <= b <= 0x46) || (0x61 <= b <= 0x66)
}

pub open spec fn hex_val(b: u8) -> int {
    if b <= 0x39 {
        b - 0x30
    } else if b <= 0x46 {
        b - 0x41 + 10
    } else {
        b - 0x61 + 10
    }
}

/// Each `%` followed by two hex digits becomes the byte they spell.
pub open spec fn percent_decode(b: Seq<u8>) -> Seq<u8>
    decreases b.len(),
{
    if b.len() == 0 {
        Seq::empty()
    } else if b[0] == 0x25 && b.len() >= 3 && is_hex(b[1]) && is_hex(b[2]) {
        seq![(hex_val(b[1]) * 16 + hex_val(b[2])) as u8] + percent_decode(b.subrange(3, b.len() as int))
    } else {
        seq![b[0]] + percent_decode(b.drop_first())
    }
}

/// The bytes of `file://`.
pub open spec fn file_scheme() -> Seq<u8> {
    seq![0x66u8, 0x69u8, 0x6Cu8, 0x65u8, 0x3Au8, 0x2Fu8, 0x2Fu8]
}

/// The index of the first `/` at or after `i`, or the length if none.
pub open spec fn first_slash(b: Seq<u8>, i: int) -> int
    decreases b.len() - i,
{
    if i < 0 || i >= b.len() {
        b.len() as int
    } else if b[i] == 0x2F {
        i
    } else {
        first_slash(b, i + 1)
    }
}

/// The path of a `file://host/path` location: from the first `/` after the
/// scheme to the end.
pub open spec fn location_path(uri: Seq<u8>) -> Option<Seq<u8>> {
    if uri.len() >= 7 && uri.subrange(0, 7) == file_scheme() && first_slash(uri, 7) < uri.len() {
        Some(uri.subrange(first_slash(uri, 7), uri.len() as int))
    } else {
        None
    }
}

/// An operating-system command; OSC 7 reports the working directory.
#[verifier::opaque]
pub open spec fn osc(s: VtState, ps: Seq<Seq<u8>>) -> VtState {
    if ps.len() >= 2 && ps[0] == seq![0x37u8] {
        match location_path(ps[1]) {
            Some(p) => VtState { reported_cwd: Some(utf8_lossy(percent_decode(p))), ..s },
            None => s,
        }
    } else {
        s
    }
}

pub open spec fn perform(s: VtState, a: ActionView) -> VtState {
    match a {
        ActionView::Nothing => s,
        ActionView::Print(c) => print(s, c),
        ActionView::Execute(b) => execute(s, b),
        ActionView::Csi(ps, inter, f) => csi(s, ps, inter, f),
        ActionView::Esc(inter, f) => esc(s, f),
        ActionView::Osc(ps) => osc(s, ps),
    }
}

/// One byte of input.
#[verifier::opaque]
pub open spec fn step(s: VtState, b: u8) -> VtState {
    let r = parser_step(s.parser, b);
    perform(perform(VtState { parser: r.0, ..s }, r.1), r.2)
}

/// A byte string of input, one byte after the other.
pub open spec fn feed_bytes(s: VtState, bytes: Seq<u8>) -> VtState
    decreases bytes.len(),
{
    if bytes.len() == 0 {
        s
    } else {
        step(feed_bytes(s, bytes.drop_last()), bytes.last())
    }
}

/// Reshape to `cols` by `rows`, keeping the top-left of the grid and the
/// scrollback; the scroll region becomes the whole screen.
pub open spec fn resized(s: VtState, cols: nat, rows: nat) -> VtState {
    if cols == s.cols && rows == s.rows {
        s
    } else {
        VtState {
            grid: fit_grid(s.grid, cols, rows),
            cols,
            rows,
            scroll_top: 0,
            scroll_bottom: rows,
            cursor: CursorState {
                x: min(s.cursor.x as int, cols - 1) as usize,
                y: min(s.cursor.y as int, rows - 1) as usize,
                visible: s.cursor.visible,
            },
            ..s
        }
    }
}

/// The text of a cell: its cluster, empty for the right half of a wide
/// character.
pub open spec fn cell_text(c: CellView) -> Seq<char> {
    c.ch
}

pub open spec fn cells_text(row: Seq<CellView>) -> Seq<char>
    decreases row.len(),
{
    if row.len() == 0 {
        Seq::empty()
    } else {
        cells_text(row.drop_last()) + cell_text(row.last())
    }
}

/// The text without its trailing spaces.
pub open spec fn trim_end_spaces(t: Seq<char>) -> Seq<char>
    decreases t.len(),
{
    if t.len() > 0 && t.last() == ' ' {
        trim_end_spaces(t.drop_last())
    } else {
        t
    }
}


/// A terminal emulator's screen state, fed with the bytes a program writes.
pub struct VirtualTerminal {
    grid: Vec<Vec<Cell>>,
    cols: usize,
    rows: usize,
    cursor: CursorState,
    current_style: Style,
    scrollback: Vec<Vec<Cell>>,
    scroll_offset: usize,
    saved_cursor: Option<CursorState>,
    saved_grid: Option<Vec<Vec<Cell>>>,
    saved_scrollback: Option<Vec<Vec<Cell>>>,
    saved_main_cursor: Option<CursorState>,
    parser: Parser,
    scroll_top: usize,
    scroll_bottom: usize,
    response_queue: Vec<Vec<u8>>,
    reported_cwd: Option<String>,
    focus_reporting: bool,
    bracketed_paste: bool,
}

pub open spec fn opt_grid_view(g: Option<Vec<Vec<Cell>>>) -> Option<Seq<Seq<CellView>>> {
    match g {
        Some(v) => Some(grid_view(v@)),
        None => None,
    }
}

pub open spec fn opt_string_view(s: Option<String>) -> Option<Seq<char>> {
    match s {
        Some(v) => Some(v@),
        None => None,
    }
}

impl View for VirtualTerminal {
    type V = VtState;

    closed spec fn view(&self) -> VtState {
        VtState {
            grid: grid_view(self.grid@),
            cols: self.cols as nat,
            rows: self.rows as nat,
            cursor: self.cursor,
            style: self.current_style,
            scrollback: grid_view(self.scrollback@),
            scroll_offset: self.scroll_offset as nat,
            saved_cursor: self.saved_cursor,
            saved_grid: opt_grid_view(self.saved_grid),
            saved_scrollback: opt_grid_view(self.saved_scrollback),
            saved_main_cursor: self.saved_main_cursor,
            parser: self.parser@,
            scroll_top: self.scroll_top as nat,
            scroll_bottom: self.scroll_bottom as nat,
            responses: seqs_view(self.response_queue@),
            reported_cwd: opt_string_view(self.reported_cwd),
            focus_reporting: self.focus_reporting,
            bracketed_paste: self.bracketed_paste,
        }
    }
}

impl Default for Cell {
    /// A space in the default style.
    fn default() -> (c: Cell)
        ensures
            c@ == blank_cell(),
    {
        Cell::blank()
    }
}

impl Default for CursorState {
    /// The top-left corner, shown.
    fn default() -> (c: CursorState)
        ensures
            c == home_cursor(),
    {
        CursorState { x: 0, y: 0, visible: true }
    }
}

impl Cell {
    /// A space in the default style.
    pub fn blank() -> (c: Cell)
        ensures
            c@ == blank_cell(),
    {
        let mut ch = String::new();
        push_char(&mut ch, ' ');
        Cell { ch, style: Style::plain() }
    }
}

fn make_row(cols: usize) -> (r: Vec<Cell>)
    ensures
        row_view(r@) == blank_row(cols as nat),
{
    let mut r: Vec<Cell> = Vec::new();
    let mut i: usize = 0;
    while i < cols
        invariant
            i <= cols,
            row_view(r@) == blank_row(i as nat),
        decreases cols - i,
    {
        let ghost r0 = r@;
        r.push(Cell::blank());
        i = i + 1;
        assert(row_view(r@) =~= row_view(r0).push(blank_cell()));
        assert(row_view(r@) =~= blank_row(i as nat));
    }
    r
}

fn make_grid(cols: usize, rows: usize) -> (g: Vec<Vec<Cell>>)
    ensures
        grid_view(g@) == blank_grid(cols as nat, rows as nat),
{
    let mut g: Vec<Vec<Cell>> = Vec::new();
    let mut i: usize = 0;
    while i < rows
        invariant
            i <= rows,
            grid_view(g@) == blank_grid(cols as nat, i as nat),
        decreases rows - i,
    {
        let ghost g0 = g@;
        g.push(make_row(cols));
        i = i + 1;
        assert(grid_view(g@) =~= grid_view(g0).push(blank_row(cols as nat)));
        assert(grid_view(g@) =~= blank_grid(cols as nat, i as nat));
    }
    g
}

impl VirtualTerminal {
    /// The invariant of a terminal between two bytes of input.
    pub closed spec fn wf(&self) -> bool {
        state_wf(self@)
    }

    /// A blank terminal of `cols` columns and `rows` rows.
    pub fn new(cols: usize, rows: usize) -> (r: VirtualTerminal)
        requires
            cols > 0,
            rows > 0,
        ensures
            r@ == new_state(cols as nat, rows as nat),
            r.wf(),
    {
        let r = VirtualTerminal {
            grid: make_grid(cols, rows),
            cols,
            rows,
            cursor: CursorState { x: 0, y: 0, visible: true },
            current_style: Style::plain(),
            scrollback: Vec::new(),
            scroll_offset: 0,
            saved_cursor: None,
            saved_grid: None,
            saved_scrollback: None,
            saved_main_cursor: None,
            parser: Parser::new(),
            scroll_top: 0,
            scroll_bottom: rows,
            response_queue: Vec::new(),
            reported_cwd: None,
            focus_reporting: false,
            bracketed_paste: false,
        };
        assert(grid_view(r.scrollback@) =~= Seq::<Seq<CellView>>::empty());
        assert(seqs_view(r.response_queue@) =~= Seq::<Seq<u8>>::empty());
        r
    }

    /// Replace the cell at column `x` of row `y`.
    fn set_cell(&mut self, y: usize, x: usize, c: Cell)
        requires
            y < old(self).grid@.len(),
            x < old(self).grid@[y as int]@.len(),
        ensures
            final(self)@ == (VtState {
                grid: old(self)@.grid.update(y as int, old(self)@.grid[y as int].update(x as int, c@)),
                ..old(self)@
            }),
    {
        let ghost g0 = self.grid@;
        let mut row: Vec<Cell> = Vec::new();
        std::mem::swap(&mut row, &mut self.grid[y]);
        let ghost r0 = row@;
        row[x] = c;
        self.grid[y] = row;
        assert(row_view(row@) =~= row_view(r0).update(x as int, c@));
        assert(grid_view(self.grid@) =~= grid_view(g0).update(y as int, row_view(row@)));
    }
}


proof fn lemma_shape_move_row(g: Seq<Seq<CellView>>, cols: nat, rows: nat, i: int, j: int)
    requires
        grid_shape(g, cols, rows),
        0 <= i < rows,
        0 <= j < rows,
    ensures
        grid_shape(g.remove(i).insert(j, blank_row(cols)), cols, rows),
{
    let h = g.remove(i).insert(j, blank_row(cols));
    assert forall|k: int| 0 <= k < h.len() implies (#[trigger] h[k]).len() == cols by {
        if k < j {
            if k >= i {
                assert(h[k] == g[k + 1]);
            }
        } else if k > j {
            if k - 1 >= i {
                assert(h[k] == g[k]);
            } else {
                assert(h[k] == g[k - 1]);
            }
        }
    }
}

impl VirtualTerminal {
    fn scroll_up(&mut self)
        requires
            old(self).wf(),
        ensures
            final(self)@ == scroll_up(old(self)@),
            final(self).wf(),
    {
        let ghost s0 = self@;
        let ghost g0 = self.grid@;
        let ghost sb0 = self.scrollback@;
        let t = self.scroll_top;
        let b = self.scroll_bottom;
        let removed = self.grid.remove(t);
        assert(row_view(removed@) == s0.grid[t as int]);
        if t == 0 {
            self.scrollback.push(removed);
            assert(grid_view(self.scrollback@) =~= grid_view(sb0).push(s0.grid[t as int]));
            if self.scrollback.len() > MAX_SCROLLBACK {
                let ghost sb1 = self.scrollback@;
                let _ = self.scrollback.remove(0);
                assert(grid_view(self.scrollback@) =~= grid_view(sb1).drop_first());
            }
        }
        let row = make_row(self.cols);
        let ghost g1 = self.grid@;
        self.grid.insert(b - 1, row);
        assert(grid_view(g1) =~= grid_view(g0).remove(t as int));
        assert(grid_view(self.grid@) =~= grid_view(g0).remove(t as int).insert(
            b - 1,
            blank_row(self.cols as nat),
        ));
        proof {
            lemma_shape_move_row(s0.grid, s0.cols, s0.rows, t as int, b - 1);
        }
    }

    fn scroll_down(&mut self)
        requires
            old(self).wf(),
        ensures
            final(self)@ == scroll_down(old(self)@),
            final(self).wf(),
    {
        let ghost s0 = self@;
        let ghost g0 = self.grid@;
        let t = self.scroll_top;
        let b = self.scroll_bottom;
        let _ = self.grid.remove(b - 1);
        let row = make_row(self.cols);
        let ghost g1 = self.grid@;
        self.grid.insert(t, row);
        assert(grid_view(g1) =~= grid_view(g0).remove(b - 1));
        assert(grid_view(self.grid@) =~= grid_view(g0).remove(b - 1).insert(
            t as int,
            blank_row(self.cols as nat),
        ));
        proof {
            lemma_shape_move_row(s0.grid, s0.cols, s0.rows, b - 1, t as int);
        }
    }

    fn scroll_up_n(&mut self, n: usize)
        requires
            old(self).wf(),
        ensures
            final(self)@ == scroll_up_n(old(self)@, n as nat),
            final(self).wf(),
    {
        let mut i: usize = 0;
        while i < n
            invariant
                i <= n,
                self.wf(),
                self@ == scroll_up_n(old(self)@, i as nat),
            decreases n - i,
        {
            self.scroll_up();
            i = i + 1;
        }
    }

    fn scroll_down_n(&mut self, n: usize)
        requires
            old(self).wf(),
        ensures
            final(self)@ == scroll_down_n(old(self)@, n as nat),
            final(self).wf(),
    {
        let mut i: usize = 0;
        while i < n
            invariant
                i <= n,
                self.wf(),
                self@ == scroll_down_n(old(self)@, i as nat),
            decreases n - i,
        {
            self.scroll_down();
            i = i + 1;
        }
    }

    fn line_feed(&mut self)
        requires
            old(self).wf(),
        ensures
            final(self)@ == line_feed(old(self)@),
            final(self).wf(),
    {
        if self.cursor.y + 1 >= self.scroll_bottom {
            self.scroll_up();
        } else {
            self.cursor.y = self.cursor.y + 1;
        }
    }

    fn reverse_index(&mut self)
        requires
            old(self).wf(),
        ensures
            final(self)@ == reverse_index(old(self)@),
            final(self).wf(),
    {
        if self.cursor.y <= self.scroll_top {
            self.scroll_down();
        } else {
            self.cursor.y = self.cursor.y - 1;
        }
    }

    fn insert_lines(&mut self, n: usize)
        requires
            old(self).wf(),
        ensures
            final(self)@ == insert_lines(old(self)@, n as nat),
            final(self).wf(),
    {
        let mut i: usize = 0;
        while i < n
            invariant
                i <= n,
                self.wf(),
                self@ == insert_lines(old(self)@, i as nat),
            decreases n - i,
        {
            let y = self.cursor.y;
            if self.scroll_top <= y && y < self.scroll_bottom {
                let ghost s0 = self@;
                let ghost g0 = self.grid@;
                let _ = self.grid.remove(self.scroll_bottom - 1);
                let row = make_row(self.cols);
                let ghost g1 = self.grid@;
                self.grid.insert(y, row);
                assert(grid_view(g1) =~= grid_view(g0).remove(self.scroll_bottom - 1));
                assert(grid_view(self.grid@) =~= grid_view(g0).remove(self.scroll_bottom - 1).insert(
                    y as int,
                    blank_row(self.cols as nat),
                ));
                proof {
                    lemma_shape_move_row(s0.grid, s0.cols, s0.rows, self.scroll_bottom - 1, y as int);
                }
            }
            i = i + 1;
        }
    }

    fn delete_lines(&mut self, n: usize)
        requires
            old(self).wf(),
        ensures
            final(self)@ == delete_lines(old(self)@, n as nat),
            final(self).wf(),
    {
        let mut i: usize = 0;
        while i < n
            invariant
                i <= n,
                self.wf(),
                self@ == delete_lines(old(self)@, i as nat),
            decreases n - i,
        {
            let y = self.cursor.y;
            if self.scroll_top <= y && y < self.scroll_bottom {
                let ghost s0 = self@;
                let ghost g0 = self.grid@;
                let _ = self.grid.remove(y);
                let row = make_row(self.cols);
                let ghost g1 = self.grid@;
                self.grid.insert(self.scroll_bottom - 1, row);
                assert(grid_view(g1) =~= grid_view(g0).remove(y as int));
                assert(grid_view(self.grid@) =~= grid_view(g0).remove(y as int).insert(
                    self.scroll_bottom - 1,
                    blank_row(self.cols as nat),
                ));
                proof {
                    lemma_shape_move_row(s0.grid, s0.cols, s0.rows, y as int, self.scroll_bottom - 1);
                }
            }
            i = i + 1;
        }
    }
}


fn unpair_row(row: &mut Vec<Cell>, a: usize, b: usize)
    ensures
        row_view(final(row)@) == unpair(row_view(old(row)@), a as int, b as int),
        final(row)@.len() == old(row)@.len(),
{
    let ghost r0 = row_view(row@);
    if 0 < a && a < row.len() && row[a].ch.as_str().unicode_len() == 0 {
        row[a - 1] = Cell::blank();
        assert(row_view(row@) =~= r0.update(a - 1, blank_cell()));
    }
    let ghost r1 = row_view(row@);
    if b < row.len() && row[b].ch.as_str().unicode_len() == 0 {
        row[b] = Cell::blank();
        assert(row_view(row@) =~= r1.update(b as int, blank_cell()));
    }
}

fn blank_span_row(row: &mut Vec<Cell>, a: usize, b: usize)
    requires
        a <= b <= old(row)@.len(),
    ensures
        row_view(final(row)@) == blank_span(row_view(old(row)@), a as int, b as int),
        final(row)@.len() == old(row)@.len(),
{
    let ghost r0 = row_view(row@);
    let mut i: usize = a;
    while i < b
        invariant
            a <= i <= b,
            b <= row@.len(),
            row@.len() == old(row)@.len(),
            row_view(row@) == blank_span(r0, a as int, i as int),
        decreases b - i,
    {
        let ghost r1 = row_view(row@);
        row[i] = Cell::blank();
        i = i + 1;
        assert(row_view(row@) =~= r1.update(i - 1, blank_cell()));
        assert(row_view(row@) =~= blank_span(r0, a as int, i as int));
    }
}

fn delete_cells_row(row: &mut Vec<Cell>, x: usize, n: usize)
    ensures
        row_view(final(row)@) == delete_cells(row_view(old(row)@), x as int, n as nat),
        final(row)@.len() == old(row)@.len(),
{
    let ghost r0 = row_view(row@);
    let mut i: usize = 0;
    while i < n
        invariant
            i <= n,
            row@.len() == old(row)@.len(),
            row_view(row@) == delete_cells(r0, x as int, i as nat),
        decreases n - i,
    {
        let ghost r1 = row_view(row@);
        if x < row.len() {
            let _ = row.remove(x);
            let ghost r2 = row@;
            row.push(Cell::blank());
            assert(row_view(r2) =~= r1.remove(x as int));
            assert(row_view(row@) =~= r1.remove(x as int).push(blank_cell()));
        }
        i = i + 1;
    }
}

fn insert_cells_row(row: &mut Vec<Cell>, x: usize, n: usize)
    ensures
        row_view(final(row)@) == insert_cells(row_view(old(row)@), x as int, n as nat),
        final(row)@.len() == old(row)@.len(),
{
    let ghost r0 = row_view(row@);
    let len = row.len();
    let mut i: usize = 0;
    while i < n
        invariant
            i <= n,
            len == old(row)@.len(),
            row@.len() == len,
            row_view(row@) == insert_cells(r0, x as int, i as nat),
        decreases n - i,
    {
        let ghost r1 = row_view(row@);
        if x < row.len() {
            row.insert(x, Cell::blank());
            let ghost r2 = row@;
            row.truncate(len);
            assert(row_view(r2) =~= r1.insert(x as int, blank_cell()));
            assert(row_view(row@) =~= r1.insert(x as int, blank_cell()).subrange(0, len as int));
        }
        i = i + 1;
    }
}

impl VirtualTerminal {
    /// Take row `y` out of the grid, leaving an empty row in its place.
    fn take_row(&mut self, y: usize) -> (r: Vec<Cell>)
        requires
            y < old(self)@.grid.len(),
        ensures
            row_view(r@) == old(self)@.grid[y as int],
            final(self)@ == (VtState {
                grid: old(self)@.grid.update(y as int, Seq::empty()),
                ..old(self)@
            }),
    {
        let ghost g0 = self.grid@;
        let mut row: Vec<Cell> = Vec::new();
        std::mem::swap(&mut row, &mut self.grid[y]);
        assert(row_view(self.grid@[y as int]@) =~= Seq::<CellView>::empty());
        assert(grid_view(self.grid@) =~= grid_view(g0).update(y as int, Seq::empty()));
        row
    }

    /// Put `row` in as row `y`.
    fn put_row(&mut self, y: usize, row: Vec<Cell>)
        requires
            y < old(self)@.grid.len(),
        ensures
            final(self)@ == (VtState {
                grid: old(self)@.grid.update(y as int, row_view(row@)),
                ..old(self)@
            }),
    {
        let ghost g0 = self.grid@;
        self.grid[y] = row;
        assert(grid_view(self.grid@) =~= grid_view(g0).update(y as int, row_view(row@)));
    }

    fn erase_span(&mut self, a: usize, b: usize)
        requires
            old(self).wf(),
            a <= b <= old(self)@.cols,
        ensures
            final(self)@ == erase_span(old(self)@, a as int, b as int),
            final(self).wf(),
    {
        let ghost s0 = self@;
        let y = self.cursor.y;
        let mut row = self.take_row(y);
        unpair_row(&mut row, a, b);
        blank_span_row(&mut row, a, b);
        self.put_row(y, row);
        assert(self@.grid =~= s0.grid.update(y as int, blank_span(unpair(s0.grid[y as int], a as int, b as int), a as int, b as int)));
    }

    fn blank_rows(&mut self, a: usize, b: usize)
        requires
            old(self).wf(),
            a <= b <= old(self)@.rows,
        ensures
            final(self)@ == blank_rows(old(self)@, a as int, b as int),
            final(self).wf(),
    {
        let ghost s0 = self@;
        let mut i: usize = a;
        assert(s0.grid =~= blank_rows(s0, a as int, a as int).grid);
        while i < b
            invariant
                a <= i <= b,
                b <= s0.rows,
                self.wf(),
                self@ == blank_rows(s0, a as int, i as int),
            decreases b - i,
        {
            let row = make_row(self.cols);
            self.put_row(i, row);
            i = i + 1;
            assert(self@.grid =~= blank_rows(s0, a as int, i as int).grid);
        }
    }

    fn erase_display(&mut self, mode: u16)
        requires
            old(self).wf(),
        ensures
            final(self)@ == erase_display(old(self)@, mode as int),
            final(self).wf(),
    {
        let x = self.cursor.x;
        let y = self.cursor.y;
        if mode == 0 {
            self.erase_span(x, self.cols);
            self.blank_rows(y + 1, self.rows);
        } else if mode == 1 {
            self.blank_rows(0, y);
            let last = if x < self.cols - 1 {
                x
            } else {
                self.cols - 1
            };
            self.erase_span(0, last + 1);
        } else if mode == 2 || mode == 3 {
            self.blank_rows(0, self.rows);
        }
    }

    fn erase_line(&mut self, mode: u16)
        requires
            old(self).wf(),
        ensures
            final(self)@ == erase_line(old(self)@, mode as int),
            final(self).wf(),
    {
        let x = self.cursor.x;
        if mode == 0 {
            self.erase_span(x, self.cols);
        } else if mode == 1 {
            let last = if x < self.cols - 1 {
                x
            } else {
                self.cols - 1
            };
            self.erase_span(0, last + 1);
        } else if mode == 2 {
            let row = make_row(self.cols);
            self.put_row(self.cursor.y, row);
        }
    }

    fn delete_chars(&mut self, n: usize)
        requires
            old(self).wf(),
        ensures
            final(self)@ == set_row(
                old(self)@,
                old(self)@.cursor.y as int,
                delete_cells(unpair(old(self)@.grid[old(self)@.cursor.y as int], old(self)@.cursor.x as int, old(self)@.cursor.x + n), old(self)@.cursor.x as int, n as nat),
            ),
            final(self).wf(),
    {
        let ghost s0 = self@;
        let x = self.cursor.x;
        let y = self.cursor.y;
        let b = if n >= self.cols - x {
            self.cols
        } else {
            x + n
        };
        let mut row = self.take_row(y);
        unpair_row(&mut row, x, b);
        assert(unpair(s0.grid[y as int], x as int, b as int) == unpair(s0.grid[y as int], x as int, x + n));
        delete_cells_row(&mut row, x, n);
        self.put_row(y, row);
        assert(self@.grid =~= s0.grid.update(y as int, delete_cells(unpair(s0.grid[y as int], x as int, x + n), x as int, n as nat)));
    }

    fn insert_chars(&mut self, n: usize)
        requires
            old(self).wf(),
        ensures
            final(self)@ == set_row(
                old(self)@,
                old(self)@.cursor.y as int,
                insert_cells(unpair(old(self)@.grid[old(self)@.cursor.y as int], old(self)@.cursor.x as int, old(self)@.cursor.x as int), old(self)@.cursor.x as int, n as nat),
            ),
            final(self).wf(),
    {
        let ghost s0 = self@;
        let x = self.cursor.x;
        let y = self.cursor.y;
        let mut row = self.take_row(y);
        unpair_row(&mut row, x, x);
        insert_cells_row(&mut row, x, n);
        self.put_row(y, row);
        assert(self@.grid =~= s0.grid.update(y as int, insert_cells(unpair(s0.grid[y as int], x as int, x as int), x as int, n as nat)));
    }

    fn erase_chars(&mut self, n: usize)
        requires
            old(self).wf(),
        ensures
            final(self)@ == erase_span(old(self)@, old(self)@.cursor.x as int, min(old(self)@.cursor.x + n, old(self)@.cols as int)),
            final(self).wf(),
    {
        let x = self.cursor.x;
        let b = if n >= self.cols - x {
            self.cols
        } else {
            x + n
        };
        self.erase_span(x, b);
    }
}


fn named_colour(code: u16) -> (c: Color)
    ensures
        c == named_fg(code as int),
{
    if code == 30 {
        Color::Black
    } else if code == 31 {
        Color::Red
    } else if code == 32 {
        Color::Green
    } else if code == 33 {
        Color::Yellow
    } else if code == 34 {
        Color::Blue
    } else if code == 35 {
        Color::Magenta
    } else if code == 36 {
        Color::Cyan
    } else {
        Color::White
    }
}

fn bright_colour(code: u16) -> (c: Color)
    ensures
        c == bright(code as int),
{
    if code == 90 {
        Color::DarkGray
    } else if code == 91 {
        Color::LightRed
    } else if code == 92 {
        Color::LightGreen
    } else if code == 93 {
        Color::LightYellow
    } else if code == 94 {
        Color::LightBlue
    } else if code == 95 {
        Color::LightMagenta
    } else if code == 96 {
        Color::LightCyan
    } else {
        Color::White
    }
}

/// Apply one graphic-rendition code.
pub fn apply_sgr_code(st: Style, code: u16) -> (r: Style)
    ensures
        r == sgr_code(st, code as int),
{
    if code == 0 {
        Style::plain()
    } else if code == 1 {
        st.bold()
    } else if code == 2 {
        st.dim()
    } else if code == 3 {
        st.italic()
    } else if code == 4 {
        st.underlined()
    } else if code == 7 {
        st.reversed()
    } else if code == 9 {
        st.crossed_out()
    } else if code == 22 {
        st.not_bold().not_dim()
    } else if code == 23 {
        st.not_italic()
    } else if code == 24 {
        st.not_underlined()
    } else if code == 27 {
        st.not_reversed()
    } else if code == 29 {
        st.not_crossed_out()
    } else if 30 <= code && code <= 37 {
        st.fg(named_colour(code))
    } else if code == 39 {
        st.fg(Color::Reset)
    } else if 40 <= code && code <= 47 {
        st.bg(named_colour(code - 10))
    } else if code == 49 {
        st.bg(Color::Reset)
    } else if 90 <= code && code <= 97 {
        st.fg(bright_colour(code))
    } else if 100 <= code && code <= 107 {
        st.bg(bright_colour(code - 10))
    } else {
        st
    }
}

fn colour_to(st: Style, fg: bool, c: Color) -> (r: Style)
    ensures
        r == set_colour(st, fg, c),
{
    if fg {
        st.fg(c)
    } else {
        st.bg(c)
    }
}

fn byte_at(ps: &Vec<u16>, i: usize, k: usize) -> (r: u8)
    requires
        i <= ps@.len(),
    ensures
        r == byte_arg(ps@, i + k),
{
    if k < ps.len() - i {
        (ps[i + k] % 256) as u8
    } else {
        0
    }
}

/// Apply the graphic renditions `ps`, left to right: `38` and `48` take a
/// palette index after `5` or red, green and blue after `2`, each 0 where
/// it is missing.
pub fn apply_sgr(st: Style, ps: &Vec<u16>) -> (r: Style)
    ensures
        r == sgr(st, ps@, 0),
{
    let mut cur = st;
    let mut i: usize = 0;
    while i < ps.len()
        invariant
            sgr(cur, ps@, i as int) == sgr(st, ps@, 0),
        decreases ps.len() - i,
    {
        let code = ps[i];
        if code == 38 || code == 48 {
            if i + 1 >= ps.len() {
                return cur;
            } else if ps[i + 1] == 5 {
                cur = colour_to(cur, code == 38, Color::Indexed(byte_at(ps, i, 2)));
                if 3 < ps.len() - i {
                    i = i + 3;
                } else {
                    return cur;
                }
            } else if ps[i + 1] == 2 {
                let c = Color::Rgb(byte_at(ps, i, 2), byte_at(ps, i, 3), byte_at(ps, i, 4));
                cur = colour_to(cur, code == 38, c);
                if 5 < ps.len() - i {
                    i = i + 5;
                } else {
                    return cur;
                }
            } else {
                i = i + 2;
            }
        } else {
            cur = apply_sgr_code(cur, code);
            i = i + 1;
        }
    }
    cur
}


impl Cell {
    /// A copy of this cell.
    pub fn duplicate(&self) -> (r: Cell)
        ensures
            r@ == self@,
    {
        Cell { ch: self.ch.clone(), style: self.style }
    }
}

/// `g` cut or padded to `cols` by `rows`.
fn fit(g: &Vec<Vec<Cell>>, cols: usize, rows: usize) -> (r: Vec<Vec<Cell>>)
    ensures
        grid_view(r@) == fit_grid(grid_view(g@), cols as nat, rows as nat),
{
    let ghost target = fit_grid(grid_view(g@), cols as nat, rows as nat);
    let mut out: Vec<Vec<Cell>> = Vec::new();
    let mut y: usize = 0;
    while y < rows
        invariant
            y <= rows,
            target == fit_grid(grid_view(g@), cols as nat, rows as nat),
            grid_view(out@) == target.subrange(0, y as int),
        decreases rows - y,
    {
        let mut row: Vec<Cell> = Vec::new();
        let mut x: usize = 0;
        while x < cols
            invariant
                x <= cols,
                y < rows,
                target == fit_grid(grid_view(g@), cols as nat, rows as nat),
                row_view(row@) == target[y as int].subrange(0, x as int),
            decreases cols - x,
        {
            let ghost r0 = row@;
            if y < g.len() && x < g[y].len() {
                row.push(g[y][x].duplicate());
            } else {
                row.push(Cell::blank());
            }
            x = x + 1;
            assert(row_view(row@) =~= row_view(r0).push(target[y as int][x - 1]));
            assert(row_view(row@) =~= target[y as int].subrange(0, x as int));
        }
        let ghost o0 = out@;
        out.push(row);
        y = y + 1;
        assert(row_view(row@) =~= target[y - 1]);
        assert(grid_view(out@) =~= grid_view(o0).push(target[y - 1]));
        assert(grid_view(out@) =~= target.subrange(0, y as int));
    }
    assert(target.subrange(0, rows as int) =~= target);
    out
}

/// A grid already of the requested size is left as it is.
pub proof fn lemma_fit_same(g: Seq<Seq<CellView>>, cols: nat, rows: nat)
    requires
        grid_shape(g, cols, rows),
    ensures
        fit_grid(g, cols, rows) == g,
{
    let f = fit_grid(g, cols, rows);
    assert forall|y: int| 0 <= y < rows implies #[trigger] f[y] == g[y] by {
        assert(f[y] =~= g[y]);
    }
    assert(f =~= g);
}

proof fn lemma_fit_shape(g: Seq<Seq<CellView>>, cols: nat, rows: nat)
    ensures
        grid_shape(fit_grid(g, cols, rows), cols, rows),
{
}

fn push_decimal(out: &mut Vec<u8>, n: u128)
    ensures
        final(out)@ == old(out)@ + decimal(n as nat),
    decreases n,
{
    if n < 10 {
        out.push((48 + n) as u8);
        assert(decimal(n as nat) =~= seq![(48 + n) as u8]);
    } else {
        push_decimal(out, n / 10);
        out.push((48 + n % 10) as u8);
    }
    assert(final(out)@ =~= old(out)@ + decimal(n as nat));
}

/// The `i`-th parameter, or `d` where it is missing or zero.
fn arg_at(ps: &Vec<u16>, i: usize, d: usize) -> (r: usize)
    ensures
        r == arg(ps@, i as int, d as int),
{
    if i < ps.len() && ps[i] != 0 {
        ps[i] as usize
    } else {
        d
    }
}

impl VirtualTerminal {
    fn enter_alt(&mut self, with_cursor: bool)
        requires
            old(self).wf(),
        ensures
            final(self)@ == enter_alt(old(self)@, with_cursor),
            final(self).wf(),
    {
        let mut g = make_grid(self.cols, self.rows);
        std::mem::swap(&mut g, &mut self.grid);
        self.saved_grid = Some(g);
        let mut sb: Vec<Vec<Cell>> = Vec::new();
        std::mem::swap(&mut sb, &mut self.scrollback);
        self.saved_scrollback = Some(sb);
        if with_cursor {
            self.saved_main_cursor = Some(self.cursor);
        }
        self.cursor = CursorState { x: 0, y: 0, visible: true };
        assert(grid_view(self.scrollback@) =~= Seq::<Seq<CellView>>::empty());
    }

    fn leave_alt(&mut self, with_cursor: bool)
        requires
            old(self).wf(),
        ensures
            final(self)@ == leave_alt(old(self)@, with_cursor),
            final(self).wf(),
    {
        let mut sg: Option<Vec<Vec<Cell>>> = None;
        std::mem::swap(&mut sg, &mut self.saved_grid);
        match sg {
            Some(g) => {
                self.grid = fit(&g, self.cols, self.rows);
                proof {
                    lemma_fit_shape(grid_view(g@), self.cols as nat, self.rows as nat);
                }
            },
            None => {},
        }
        let mut ssb: Option<Vec<Vec<Cell>>> = None;
        std::mem::swap(&mut ssb, &mut self.saved_scrollback);
        match ssb {
            Some(sb) => {
                self.scrollback = sb;
            },
            None => {},
        }
        if with_cursor {
            match self.saved_main_cursor {
                Some(c) => {
                    self.cursor = clamp(c, self.cols, self.rows);
                },
                None => {},
            }
            self.saved_main_cursor = None;
        }
    }
}

fn clamp(c: CursorState, cols: usize, rows: usize) -> (r: CursorState)
    requires
        rows > 0,
    ensures
        r == clamp_cursor(c, cols as nat, rows as nat),
{
    CursorState {
        x: if c.x < cols {
            c.x
        } else {
            cols
        },
        y: if c.y < rows - 1 {
            c.y
        } else {
            rows - 1
        },
        visible: c.visible,
    }
}


impl VirtualTerminal {
    fn dec_modes(&mut self, ps: &Vec<u16>, set: bool)
        requires
            old(self).wf(),
        ensures
            final(self)@ == dec_modes(old(self)@, ps@, set, 0),
            final(self).wf(),
    {
        let mut i: usize = 0;
        while i < ps.len()
            invariant
                self.wf(),
                dec_modes(self@, ps@, set, i as int) == dec_modes(old(self)@, ps@, set, 0),
            decreases ps.len() - i,
        {
            let code = ps[i];
            if code == 25 {
                self.cursor.visible = set;
            } else if code == 1049 || code == 1047 || code == 47 {
                if set {
                    self.enter_alt(code == 1049);
                } else {
                    self.leave_alt(code == 1049);
                }
            } else if code == 1004 {
                self.focus_reporting = set;
            } else if code == 2004 {
                self.bracketed_paste = set;
            }
            i = i + 1;
        }
    }

    fn restore_cursor(&mut self)
        requires
            old(self).wf(),
        ensures
            final(self)@ == restore_cursor(old(self)@),
            final(self).wf(),
    {
        match self.saved_cursor {
            Some(c) => {
                self.cursor = clamp(c, self.cols, self.rows);
            },
            None => {},
        }
    }

    fn status_report(&mut self, code: usize)
        requires
            old(self).wf(),
        ensures
            final(self)@ == status_report(old(self)@, code as int),
            final(self).wf(),
    {
        let ghost q0 = self.response_queue@;
        if code == 5 {
            let mut r: Vec<u8> = Vec::new();
            r.push(0x1B);
            r.push(0x5B);
            r.push(0x30);
            r.push(0x6E);
            self.response_queue.push(r);
            assert(r@ =~= seq![0x1Bu8, 0x5Bu8, 0x30u8, 0x6Eu8]);
            assert(seqs_view(self.response_queue@) =~= seqs_view(q0).push(r@));
        } else if code == 6 {
            let mut r: Vec<u8> = Vec::new();
            r.push(0x1B);
            r.push(0x5B);
            push_decimal(&mut r, self.cursor.y as u128 + 1);
            r.push(0x3B);
            push_decimal(&mut r, self.cursor.x as u128 + 1);
            r.push(0x52);
            assert(r@ =~= position_report((self.cursor.y + 1) as nat, (self.cursor.x + 1) as nat));
            self.response_queue.push(r);
            assert(seqs_view(self.response_queue@) =~= seqs_view(q0).push(r@));
        }
    }

    fn set_region(&mut self, ps: &Vec<u16>)
        requires
            old(self).wf(),
        ensures
            final(self)@ == set_region(old(self)@, ps@),
            final(self).wf(),
    {
        let t = arg_at(ps, 0, 1) - 1;
        let top = if t < self.rows - 1 {
            t
        } else {
            self.rows - 1
        };
        let b = arg_at(ps, 1, self.rows);
        let b2 = if b < self.rows {
            b
        } else {
            self.rows
        };
        let bottom = if b2 < top + 1 {
            top + 1
        } else {
            b2
        };
        self.scroll_top = top;
        self.scroll_bottom = bottom;
        self.cursor.x = 0;
        self.cursor.y = 0;
    }

    #[verifier::rlimit(50)]
    fn csi_dispatch(&mut self, ps: &Vec<u16>, inter: &Vec<u8>, f: u8)
        requires
            old(self).wf(),
        ensures
            final(self)@ == csi(old(self)@, ps@, inter@, f),
            final(self).wf(),
    {
        reveal(csi);
        let n = arg_at(ps, 0, 1);
        let x = self.cursor.x;
        let y = self.cursor.y;
        let last_col = self.cols - 1;
        let last_row = self.rows - 1;
        let down = if n >= last_row - y {
            last_row
        } else {
            y + n
        };
        let up = if n >= y {
            0
        } else {
            y - n
        };
        if f == 0x48 || f == 0x66 {
            let c = arg_at(ps, 1, 1) - 1;
            let r = n - 1;
            self.cursor.x = if c < last_col {
                c
            } else {
                last_col
            };
            self.cursor.y = if r < last_row {
                r
            } else {
                last_row
            };
        } else if f == 0x41 {
            self.cursor.y = up;
        } else if f == 0x42 {
            self.cursor.y = down;
        } else if f == 0x43 {
            self.cursor.x = if x >= last_col || n >= last_col - x {
                last_col
            } else {
                x + n
            };
        } else if f == 0x44 {
            self.cursor.x = if n >= x {
                0
            } else {
                x - n
            };
        } else if f == 0x45 {
            self.cursor.x = 0;
            self.cursor.y = down;
        } else if f == 0x46 {
            self.cursor.x = 0;
            self.cursor.y = up;
        } else if f == 0x47 {
            self.cursor.x = if n - 1 < last_col {
                n - 1
            } else {
                last_col
            };
        } else if f == 0x64 {
            self.cursor.y = if n - 1 < last_row {
                n - 1
            } else {
                last_row
            };
        } else if f == 0x4A {
            let mode = arg_at(ps, 0, 0);
            self.erase_display(mode as u16);
        } else if f == 0x4B {
            let mode = arg_at(ps, 0, 0);
            self.erase_line(mode as u16);
        } else if f == 0x4C {
            self.insert_lines(n);
        } else if f == 0x4D {
            self.delete_lines(n);
        } else if f == 0x50 {
            self.delete_chars(n);
        } else if f == 0x53 {
            self.scroll_up_n(n);
        } else if f == 0x54 {
            self.scroll_down_n(n);
        } else if f == 0x40 {
            self.insert_chars(n);
        } else if f == 0x58 {
            self.erase_chars(n);
        } else if f == 0x6D {
            self.current_style = apply_sgr(self.current_style, ps);
        } else if f == 0x68 || f == 0x6C {
            if inter.len() == 1 && inter[0] == 0x3F {
                assert(inter@ =~= seq![0x3Fu8]);
                self.dec_modes(ps, f == 0x68);
            } else {
                assert(inter@ != seq![0x3Fu8]) by {
                    if inter@.len() == 1 {
                        assert(inter@[0] != seq![0x3Fu8][0]);
                    }
                }
            }
        } else if f == 0x73 {
            self.saved_cursor = Some(self.cursor);
        } else if f == 0x75 {
            self.restore_cursor();
        } else if f == 0x72 {
            if inter.len() == 0 {
                self.set_region(ps);
            }
        } else if f == 0x6E {
            self.status_report(arg_at(ps, 0, 0));
        }
    }
}


/// Decode `%XX` escapes, byte by byte.
pub fn percent_decode_bytes(b: &[u8]) -> (r: Vec<u8>)
    ensures
        r@ == percent_decode(b@),
{
    let mut out: Vec<u8> = Vec::new();
    let mut i: usize = 0;
    assert(b@.subrange(0, b@.len() as int) =~= b@);
    assert(out@ + b@ =~= b@);
    while i < b.len()
        invariant
            i <= b@.len(),
            out@ + percent_decode(b@.subrange(i as int, b@.len() as int)) == percent_decode(b@),
        decreases b.len() - i,
    {
        let ghost rest = b@.subrange(i as int, b@.len() as int);
        if b[i] == 0x25 && b.len() - i >= 3 && hex_digit(b[i + 1]).is_some() && hex_digit(
            b[i + 2],
        ).is_some() {
            let hi = hex_digit(b[i + 1]).unwrap();
            let lo = hex_digit(b[i + 2]).unwrap();
            out.push(hi * 16 + lo);
            assert(rest.subrange(3, rest.len() as int) =~= b@.subrange(i + 3, b@.len() as int));
            i = i + 3;
        } else {
            out.push(b[i]);
            assert(rest.drop_first() =~= b@.subrange(i + 1, b@.len() as int));
            i = i + 1;
        }
        assert(out@ + percent_decode(b@.subrange(i as int, b@.len() as int)) =~= percent_decode(b@));
    }
    assert(b@.subrange(i as int, b@.len() as int) =~= Seq::<u8>::empty());
    assert(out@ + Seq::<u8>::empty() =~= out@);
    out
}

fn hex_digit(b: u8) -> (r: Option<u8>)
    ensures
        r is Some <==> is_hex(b),
        r matches Some(v) ==> v == hex_val(b) && v < 16,
{
    if 0x30 <= b && b <= 0x39 {
        Some(b - 0x30)
    } else if 0x41 <= b && b <= 0x46 {
        Some(b - 0x41 + 10)
    } else if 0x61 <= b && b <= 0x66 {
        Some(b - 0x61 + 10)
    } else {
        None
    }
}

/// The path of a `file://host/path` location, if `uri` is one.
pub fn location_path_of(uri: &[u8]) -> (r: Option<Vec<u8>>)
    ensures
        match r {
            Some(p) => location_path(uri@) == Some(p@),
            None => location_path(uri@) is None,
        },
{
    if uri.len() < 7 || uri[0] != 0x66 || uri[1] != 0x69 || uri[2] != 0x6C || uri[3] != 0x65
        || uri[4] != 0x3A || uri[5] != 0x2F || uri[6] != 0x2F {
        assert(uri@.len() < 7 || uri@.subrange(0, 7) != file_scheme()) by {
            if uri@.len() >= 7 {
                let p = uri@.subrange(0, 7);
                assert(p[0] != file_scheme()[0] || p[1] != file_scheme()[1] || p[2]
                    != file_scheme()[2] || p[3] != file_scheme()[3] || p[4] != file_scheme()[4]
                    || p[5] != file_scheme()[5] || p[6] != file_scheme()[6]);
            }
        }
        return None;
    }
    assert(uri@.subrange(0, 7) =~= file_scheme());
    let mut k: usize = 7;
    while k < uri.len() && uri[k] != 0x2F
        invariant
            7 <= k <= uri@.len(),
            first_slash(uri@, k as int) == first_slash(uri@, 7),
        decreases uri.len() - k,
    {
        k = k + 1;
    }
    if k == uri.len() {
        return None;
    }
    let mut p: Vec<u8> = Vec::new();
    let mut i: usize = k;
    while i < uri.len()
        invariant
            k <= i <= uri@.len(),
            p@ == uri@.subrange(k as int, i as int),
        decreases uri.len() - i,
    {
        p.push(uri[i]);
        i = i + 1;
        assert(p@ =~= uri@.subrange(k as int, i as int));
    }
    Some(p)
}

impl VirtualTerminal {
    fn osc_dispatch(&mut self, ps: &Vec<Vec<u8>>)
        requires
            old(self).wf(),
        ensures
            final(self)@ == osc(old(self)@, seqs_view(ps@)),
            final(self).wf(),
    {
        reveal(osc);
        let ghost v = seqs_view(ps@);
        if ps.len() >= 2 && ps[0].len() == 1 && ps[0][0] == 0x37 {
            assert(v[0] =~= seq![0x37u8]);
            match location_path_of(ps[1].as_slice()) {
                Some(p) => {
                    let d = percent_decode_bytes(p.as_slice());
                    self.reported_cwd = Some(decode_lossy(d.as_slice()));
                },
                None => {},
            }
        } else {
            assert(!(v.len() >= 2 && v[0] == seq![0x37u8])) by {
                if v.len() >= 2 && v[0] == seq![0x37u8] {
                    assert(v[0].len() == 1 && v[0][0] == 0x37);
                }
            }
        }
    }

    fn execute(&mut self, b: u8)
        requires
            old(self).wf(),
        ensures
            final(self)@ == execute(old(self)@, b),
            final(self).wf(),
    {
        reveal(execute);
        if b == 8 {
            if self.cursor.x > 0 {
                self.cursor.x = self.cursor.x - 1;
            }
        } else if b == 9 {
            let stop = (self.cursor.x / 8) as u128 * 8 + 8;
            self.cursor.x = if stop < (self.cols - 1) as u128 {
                stop as usize
            } else {
                self.cols - 1
            };
        } else if 10 <= b && b <= 12 {
            self.line_feed();
        } else if b == 13 {
            self.cursor.x = 0;
        }
    }

    fn esc_dispatch(&mut self, f: u8)
        requires
            old(self).wf(),
        ensures
            final(self)@ == esc(old(self)@, f),
            final(self).wf(),
    {
        reveal(esc);
        if f == 0x44 {
            self.line_feed();
        } else if f == 0x4D {
            self.reverse_index();
        } else if f == 0x37 {
            self.saved_cursor = Some(self.cursor);
        } else if f == 0x38 {
            self.restore_cursor();
        } else if f == 0x63 {
            let mut fresh = VirtualTerminal::new(self.cols, self.rows);
            std::mem::swap(&mut fresh.parser, &mut self.parser);
            *self = fresh;
        }
    }

    fn combine(&mut self, c: char)
        requires
            old(self).wf(),
        ensures
            final(self)@ == combine(old(self)@, c),
            final(self).wf(),
    {
        let ghost s0 = self@;
        let x = self.cursor.x;
        let y = self.cursor.y;
        if x > 0 {
            let mut row = self.take_row(y);
            let q = if row[x - 1].ch.as_str().unicode_len() == 0 && x - 1 > 0 {
                x - 2
            } else {
                x - 1
            };
            let ghost r0 = row@;
            let mut cell = Cell::blank();
            std::mem::swap(&mut cell, &mut row[q]);
            push_char(&mut cell.ch, c);
            row[q] = cell;
            assert(row_view(row@) =~= row_view(r0).update(q as int, CellView { ch: row_view(r0)[q as int].ch.push(c), style: row_view(r0)[q as int].style }));
            self.put_row(y, row);
            assert(self@.grid =~= combine(s0, c).grid);
        }
    }

    fn wrap(&mut self)
        requires
            old(self).wf(),
        ensures
            final(self)@ == wrap(old(self)@),
            final(self).wf(),
            final(self)@.cursor.x < final(self)@.cols,
    {
        if self.cursor.x >= self.cols {
            if self.cursor.y + 1 >= self.scroll_bottom {
                self.scroll_up();
                self.cursor.x = 0;
                self.cursor.y = self.scroll_bottom - 1;
            } else {
                self.cursor.x = 0;
                self.cursor.y = self.cursor.y + 1;
            }
        }
    }

    fn put_glyph(&mut self, c: char, w: usize)
        requires
            old(self).wf(),
            old(self)@.cursor.x < old(self)@.cols,
        ensures
            final(self)@ == put_glyph(old(self)@, c, w),
            final(self).wf(),
    {
        let ghost s0 = self@;
        let x = self.cursor.x;
        let y = self.cursor.y;
        let span: usize = if w == 2 && x + 1 < self.cols {
            2
        } else {
            1
        };
        let mut row = self.take_row(y);
        unpair_row(&mut row, x, x + span);
        let mut ch = String::new();
        push_char(&mut ch, c);
        assert(ch@ =~= seq![c]);
        let ghost r0 = row@;
        row[x] = Cell { ch, style: self.current_style };
        let ghost r1 = row@;
        assert(row_view(r1) =~= row_view(r0).update(x as int, CellView { ch: seq![c], style: s0.style }));
        if span == 2 {
            row[x + 1] = Cell { ch: String::new(), style: self.current_style };
            assert(row_view(row@) =~= row_view(r1).update(x + 1, CellView { ch: Seq::empty(), style: s0.style }));
        }
        self.put_row(y, row);
        self.cursor.x = x + span;
        assert(self@.grid =~= put_glyph(s0, c, w).grid);
    }

    fn print(&mut self, c: char)
        requires
            old(self).wf(),
        ensures
            final(self)@ == print(old(self)@, c),
            final(self).wf(),
    {
        reveal(print);
        match char_width(c) {
            Some(w) => {
                if w == 0 {
                    self.combine(c);
                } else {
                    self.wrap();
                    self.put_glyph(c, w);
                }
            },
            None => self.combine(c),
        }
    }

    fn perform(&mut self, a: Action)
        requires
            old(self).wf(),
        ensures
            final(self)@ == perform(old(self)@, a@),
            final(self).wf(),
    {
        match a {
            Action::Nothing => {},
            Action::Print(c) => self.print(c),
            Action::Execute(b) => self.execute(b),
            Action::Csi(ps, inter, f) => self.csi_dispatch(&ps, &inter, f),
            Action::Esc(inter, f) => self.esc_dispatch(f),
            Action::Osc(ps) => self.osc_dispatch(&ps),
        }
    }

    fn advance(&mut self, b: u8)
        requires
            old(self).wf(),
        ensures
            final(self)@ == step(old(self)@, b),
            final(self).wf(),
    {
        reveal(step);
        let (a1, a2) = self.parser.advance(b);
        self.perform(a1);
        self.perform(a2);
    }

    /// Feed bytes written by the program; parser state carries over from
    /// one call to the next, so a sequence may be split anywhere.
    pub fn feed(&mut self, bytes: &[u8])
        requires
            old(self).wf(),
        ensures
            final(self)@ == feed_bytes(old(self)@, bytes@),
            final(self).wf(),
            final(self)@.grid.len() == old(self)@.rows,
            final(self)@.rows == old(self)@.rows,
            final(self)@.cols == old(self)@.cols,
            forall|i: int| 0 <= i < final(self)@.rows ==> (#[trigger] final(self)@.grid[i]).len() == old(self)@.cols,
            final(self)@.cursor.x <= final(self)@.cols,
            final(self)@.cursor.y < final(self)@.rows,
            final(self)@.scroll_top < final(self)@.scroll_bottom <= final(self)@.rows,
            final(self)@.scrollback.len() <= MAX_SCROLLBACK,
    {
        let mut i: usize = 0;
        while i < bytes.len()
            invariant
                i <= bytes@.len(),
                self.wf(),
                self@ == feed_bytes(old(self)@, bytes@.subrange(0, i as int)),
            decreases bytes.len() - i,
        {
            self.advance(bytes[i]);
            i = i + 1;
            assert(bytes@.subrange(0, i as int).drop_last() =~= bytes@.subrange(0, i - 1));
        }
        assert(bytes@.subrange(0, i as int) =~= bytes@);
        proof {
            lemma_feed_keeps_size(old(self)@, bytes@);
        }
    }
}


/// The alternate-screen snapshots and the size of `t` are those of `s`.
pub open spec fn same_screens(s: VtState, t: VtState) -> bool {
    &&& t.saved_grid == s.saved_grid
    &&& t.saved_scrollback == s.saved_scrollback
    &&& t.saved_main_cursor == s.saved_main_cursor
    &&& t.cols == s.cols
    &&& t.rows == s.rows
}

proof fn lemma_repeat_size(s: VtState, n: nat)
    ensures
        same_screens(s, scroll_up_n(s, n)),
        same_screens(s, scroll_down_n(s, n)),
        same_screens(s, insert_lines(s, n)),
        same_screens(s, delete_lines(s, n)),
    decreases n,
{
    if n > 0 {
        lemma_repeat_size(s, (n - 1) as nat);
    }
}

proof fn lemma_modes_size(s: VtState, ps: Seq<u16>, set: bool, i: int)
    ensures
        dec_modes(s, ps, set, i).cols == s.cols && dec_modes(s, ps, set, i).rows == s.rows,
    decreases ps.len() - i,
{
    if 0 <= i < ps.len() {
        lemma_modes_size(dec_mode(s, ps[i], set), ps, set, i + 1);
    }
}

proof fn lemma_perform_size(s: VtState, a: ActionView)
    ensures
        perform(s, a).cols == s.cols && perform(s, a).rows == s.rows,
{
    match a {
        ActionView::Csi(ps, inter, f) => {
            reveal(csi);
            let n = arg(ps, 0, 1);
            lemma_repeat_size(s, n as nat);
            lemma_modes_size(s, ps, f == 0x68, 0);
        },
        _ => {
            reveal(esc);
            reveal(execute);
            reveal(print);
            reveal(osc);
        },
    }
}

/// Input never changes the size of the screen.
pub proof fn lemma_feed_keeps_size(s: VtState, bytes: Seq<u8>)
    ensures
        feed_bytes(s, bytes).cols == s.cols,
        feed_bytes(s, bytes).rows == s.rows,
    decreases bytes.len(),
{
    if bytes.len() > 0 {
        reveal(step);
        let t = feed_bytes(s, bytes.drop_last());
        lemma_feed_keeps_size(s, bytes.drop_last());
        let r = parser_step(t.parser, bytes.last());
        let u = VtState { parser: r.0, ..t };
        lemma_perform_size(u, r.1);
        lemma_perform_size(perform(u, r.1), r.2);
    }
}


/// The text of a row: the cells' clusters joined, with the trailing spaces
/// removed.
pub open spec fn row_text_of(row: Seq<CellView>) -> Seq<char> {
    trim_end_spaces(cells_text(row))
}

impl VirtualTerminal {
    /// Reshape to `cols` by `rows`; nothing happens when the size is the
    /// same. The top-left of the grid is kept, the scrollback is kept, the
    /// scroll region becomes the whole screen and the cursor is clamped.
    pub fn resize(&mut self, cols: usize, rows: usize)
        requires
            old(self).wf(),
            cols > 0,
            rows > 0,
        ensures
            final(self)@ == resized(old(self)@, cols as nat, rows as nat),
            final(self).wf(),
            final(self)@.scrollback.len() <= MAX_SCROLLBACK,
    {
        if cols == self.cols && rows == self.rows {
            return;
        }
        let g = fit(&self.grid, cols, rows);
        proof {
            lemma_fit_shape(self@.grid, cols as nat, rows as nat);
        }
        self.grid = g;
        self.cols = cols;
        self.rows = rows;
        self.scroll_top = 0;
        self.scroll_bottom = rows;
        self.cursor.x = if self.cursor.x < cols - 1 {
            self.cursor.x
        } else {
            cols - 1
        };
        self.cursor.y = if self.cursor.y < rows - 1 {
            self.cursor.y
        } else {
            rows - 1
        };
    }

    /// Hand over the replies queued for the host, oldest first.
    pub fn take_responses(&mut self) -> (r: Vec<Vec<u8>>)
        requires
            old(self).wf(),
        ensures
            seqs_view(r@) == old(self)@.responses,
            final(self)@ == (VtState { responses: Seq::empty(), ..old(self)@ }),
            final(self).wf(),
    {
        let mut q: Vec<Vec<u8>> = Vec::new();
        std::mem::swap(&mut q, &mut self.response_queue);
        assert(seqs_view(self.response_queue@) =~= Seq::<Seq<u8>>::empty());
        q
    }

    /// The working directory last reported with OSC 7.
    pub fn reported_cwd(&self) -> (r: Option<String>)
        ensures
            opt_string_view(r) == self@.reported_cwd,
    {
        match &self.reported_cwd {
            Some(p) => Some(p.clone()),
            None => None,
        }
    }

    pub fn grid(&self) -> (r: &Vec<Vec<Cell>>)
        ensures
            grid_view(r@) == self@.grid,
    {
        &self.grid
    }

    pub fn cursor(&self) -> (r: CursorState)
        ensures
            r == self@.cursor,
    {
        self.cursor
    }

    pub fn scrollback(&self) -> (r: &Vec<Vec<Cell>>)
        ensures
            grid_view(r@) == self@.scrollback,
    {
        &self.scrollback
    }

    /// How many rows above the live screen the view is scrolled.
    pub fn scroll_offset(&self) -> (r: usize)
        ensures
            r == self@.scroll_offset,
    {
        self.scroll_offset
    }

    /// Scroll the view, no further back than the scrollback reaches.
    pub fn set_scroll_offset(&mut self, offset: usize)
        requires
            old(self).wf(),
        ensures
            final(self)@ == (VtState {
                scroll_offset: min(offset as int, old(self)@.scrollback.len() as int) as nat,
                ..old(self)@
            }),
            final(self).wf(),
    {
        self.scroll_offset = if offset < self.scrollback.len() {
            offset
        } else {
            self.scrollback.len()
        };
    }

    pub fn cols(&self) -> (r: usize)
        ensures
            r == self@.cols,
            self.wf() ==> r > 0,
    {
        self.cols
    }

    /// Whether the host asked to be told when the focus comes and goes.
    pub fn focus_reporting(&self) -> (r: bool)
        ensures
            r == self@.focus_reporting,
    {
        self.focus_reporting
    }

    /// Whether the host asked for pasted text to be bracketed.
    pub fn bracketed_paste(&self) -> (r: bool)
        ensures
            r == self@.bracketed_paste,
    {
        self.bracketed_paste
    }

    pub fn rows(&self) -> (r: usize)
        ensures
            r == self@.rows,
            self.wf() ==> r > 0,
    {
        self.rows
    }

    /// The text of grid row `row`, empty past the last row.
    pub fn row_text(&self, row: usize) -> (r: String)
        requires
            self.wf(),
        ensures
            r@ == if row < self@.rows {
                row_text_of(self@.grid[row as int])
            } else {
                Seq::empty()
            },
    {
        let mut out = String::new();
        if row >= self.rows {
            return out;
        }
        let cells = &self.grid[row];
        let ghost rv = self@.grid[row as int];
        assert(row_view(cells@) == rv);
        let mut buf: Vec<char> = Vec::new();
        let mut i: usize = 0;
        while i < cells.len()
            invariant
                i <= cells@.len(),
                row_view(cells@) == rv,
                buf@ == cells_text(rv.subrange(0, i as int)),
            decreases cells.len() - i,
        {
            let s = cells[i].ch.as_str();
            let n = s.unicode_len();
            let ghost b0 = buf@;
            if n > 0 {
                let mut k: usize = 0;
                while k < n
                    invariant
                        k <= n,
                        n == s@.len(),
                        buf@ == b0 + s@.subrange(0, k as int),
                    decreases n - k,
                {
                    buf.push(s.get_char(k));
                    k = k + 1;
                    assert(buf@ =~= b0 + s@.subrange(0, k as int));
                }
                assert(s@.subrange(0, n as int) =~= s@);
            } else {
                assert(b0 + s@ =~= b0);
            }
            i = i + 1;
            assert(rv.subrange(0, i as int).drop_last() =~= rv.subrange(0, i - 1));
            assert(rv[i - 1] == cells@[i - 1]@);
            assert(buf@ =~= cells_text(rv.subrange(0, i as int)));
        }
        assert(rv.subrange(0, cells@.len() as int) =~= rv);
        let mut end: usize = buf.len();
        assert(buf@.subrange(0, end as int) =~= buf@);
        while end > 0 && buf[end - 1] == ' '
            invariant
                end <= buf@.len(),
                trim_end_spaces(buf@.subrange(0, end as int)) == trim_end_spaces(buf@),
            decreases end,
        {
            assert(buf@.subrange(0, end as int).drop_last() =~= buf@.subrange(0, end - 1));
            end = end - 1;
        }
        let ghost kept = buf@.subrange(0, end as int);
        assert(trim_end_spaces(kept) == kept);
        let mut j: usize = 0;
        while j < end
            invariant
                j <= end <= buf@.len(),
                out@ == buf@.subrange(0, j as int),
            decreases end - j,
        {
            push_char(&mut out, buf[j]);
            j = j + 1;
            assert(out@ =~= buf@.subrange(0, j as int));
        }
        assert(out@ == kept);
        out
    }
}


/// Input split anywhere has the same effect as the whole input at once:
/// feeding `a` and then `b` leaves the terminal exactly as feeding `a + b`.
pub proof fn lemma_feed_split(s: VtState, a: Seq<u8>, b: Seq<u8>)
    ensures
        feed_bytes(feed_bytes(s, a), b) == feed_bytes(s, a + b),
    decreases b.len(),
{
    if b.len() == 0 {
        assert(a + b =~= a);
    } else {
        lemma_feed_split(s, a, b.drop_last());
        assert((a + b).drop_last() =~= a + b.drop_last());
        assert((a + b).last() == b.last());
    }
}

/// Resizing twice to the same size is the same as resizing once.
pub proof fn lemma_resize_idempotent(s: VtState, cols: nat, rows: nat)
    ensures
        resized(resized(s, cols, rows), cols, rows) == resized(s, cols, rows),
{
}

/// Entering the alternate screen (`CSI ? 1049 h`) and leaving it again
/// (`CSI ? 1049 l`) brings back the grid, cursor and scrollback of the
/// moment of entry.
pub proof fn lemma_alternate_screen_round_trip(s: VtState)
    requires
        state_wf(s),
    ensures
        ({
            let t = csi(csi(s, seq![1049u16], seq![0x3Fu8], 0x68), seq![1049u16], seq![0x3Fu8], 0x6C);
            &&& t.grid == s.grid
            &&& t.cursor == s.cursor
            &&& t.scrollback == s.scrollback
        }),
{
    reveal(csi);
    let ps = seq![1049u16];
    let u = csi(s, ps, seq![0x3Fu8], 0x68);
    assert(dec_modes(dec_mode(s, 1049, true), ps, true, 1) == dec_mode(s, 1049, true));
    assert(u == dec_mode(s, 1049, true));
    let t = csi(u, ps, seq![0x3Fu8], 0x6C);
    assert(dec_modes(dec_mode(u, 1049, false), ps, false, 1) == dec_mode(u, 1049, false));
    assert(t == dec_mode(u, 1049, false));
    lemma_fit_same(s.grid, s.cols, s.rows);
}

/// For a position inside the screen, `CSI row ; col H` followed by
/// `CSI 6 n` queues the report `ESC [ row ; col R`.
pub proof fn lemma_position_report_round_trip(s: VtState, row: u16, col: u16)
    requires
        state_wf(s),
        1 <= row <= s.rows,
        1 <= col <= s.cols,
    ensures
        csi(csi(s, seq![row, col], Seq::empty(), 0x48), seq![6u16], Seq::empty(), 0x6E).responses
            == s.responses.push(position_report(row as nat, col as nat)),
{
    reveal(csi);
    let u = csi(s, seq![row, col], Seq::empty(), 0x48);
    assert(u.cursor.y == row - 1 && u.cursor.x == col - 1);
}


/// The bytes `ESC [ row ; col H`.
pub open spec fn cursor_position_bytes(row: nat, col: nat) -> Seq<u8> {
    seq![0x1Bu8, 0x5Bu8] + decimal(row) + seq![0x3Bu8] + decimal(col) + seq![0x48u8]
}

/// The bytes `ESC [ 6 n`.
pub open spec fn position_query_bytes() -> Seq<u8> {
    seq![0x1Bu8, 0x5Bu8, 0x36u8, 0x6Eu8]
}

proof fn lemma_feed_one(s: VtState, b: u8)
    ensures
        feed_bytes(s, seq![b]) == step(s, b),
{
    assert(seq![b].drop_last() =~= Seq::<u8>::empty());
    assert(feed_bytes(s, Seq::<u8>::empty()) == s);
}

/// A byte that asks nothing of the terminal moves only the parser.
proof fn lemma_quiet_step(s: VtState, b: u8)
    requires
        parser_step(s.parser, b).1 == ActionView::Nothing,
        parser_step(s.parser, b).2 == ActionView::Nothing,
    ensures
        step(s, b) == (VtState { parser: parser_step(s.parser, b).0, ..s }),
{
    reveal(step);
}

/// The decimal digits of `n` read into a parameter that starts at zero.
proof fn lemma_read_digits(s: VtState, n: nat)
    requires
        n <= 0xFFFF,
        s.parser.state == ParseState::CsiEntry || s.parser.state == ParseState::CsiParam,
        s.parser.param == 0,
        s.parser.param_len < crate::parser::MAX_PARAMS,
    ensures
        feed_bytes(s, decimal(n)) == (VtState {
            parser: ParserView { state: ParseState::CsiParam, param: n as u16, ..s.parser },
            ..s
        }),
    decreases n,
{
    if n < 10 {
        let d = (48 + n) as u8;
        assert(decimal(n) == seq![d]);
        lemma_feed_one(s, d);
        lemma_quiet_step(s, d);
    } else {
        lemma_read_digits(s, n / 10);
        let t = feed_bytes(s, decimal(n / 10));
        let d = (48 + n % 10) as u8;
        assert(decimal(n).drop_last() =~= decimal(n / 10));
        assert(decimal(n).last() == d);
        lemma_quiet_step(t, d);
        vstd::arithmetic::div_mod::lemma_fundamental_div_mod(n as int, 10);
    }
}

/// A byte whose first action is the only one.
proof fn lemma_single_action_step(s: VtState, b: u8)
    requires
        parser_step(s.parser, b).2 == ActionView::Nothing,
    ensures
        step(s, b) == perform(VtState { parser: parser_step(s.parser, b).0, ..s }, parser_step(s.parser, b).1),
{
    reveal(step);
}

/// The parser after a control sequence has been read from rest.
pub open spec fn settled(p: ParserView) -> ParserView {
    p.reset().with_state(ParseState::Ground)
}

/// `ESC [ row ; col H` read by a parser at rest is one cursor-position
/// sequence with parameters `row` and `col`.
proof fn lemma_feed_cursor_position(s: VtState, row: u16, col: u16)
    requires
        s.parser.state == ParseState::Ground,
        s.parser.utf8_need == 0,
        1 <= row,
        1 <= col,
    ensures
        feed_bytes(s, cursor_position_bytes(row as nat, col as nat)) == csi(
            VtState { parser: settled(s.parser), ..s },
            seq![row, col],
            Seq::empty(),
            0x48,
        ),
{
    let e = seq![0x1Bu8];
    let b = seq![0x5Bu8];
    let dr = decimal(row as nat);
    let semi = seq![0x3Bu8];
    let dc = decimal(col as nat);
    let h = seq![0x48u8];
    assert(cursor_position_bytes(row as nat, col as nat) =~= ((((e + b) + dr) + semi) + dc) + h);
    lemma_feed_one(s, 0x1B);
    lemma_quiet_step(s, 0x1B);
    let s1 = feed_bytes(s, e);
    lemma_feed_split(s, e, b);
    lemma_feed_one(s1, 0x5B);
    lemma_quiet_step(s1, 0x5B);
    let s2 = feed_bytes(s, e + b);
    lemma_read_digits(s2, row as nat);
    lemma_feed_split(s, e + b, dr);
    let s3 = feed_bytes(s, (e + b) + dr);
    lemma_feed_split(s, (e + b) + dr, semi);
    lemma_feed_one(s3, 0x3B);
    lemma_quiet_step(s3, 0x3B);
    let s4 = feed_bytes(s, ((e + b) + dr) + semi);
    assert(s4.parser.params =~= seq![row]);
    lemma_read_digits(s4, col as nat);
    lemma_feed_split(s, ((e + b) + dr) + semi, dc);
    let s5 = feed_bytes(s, (((e + b) + dr) + semi) + dc);
    lemma_feed_split(s, (((e + b) + dr) + semi) + dc, h);
    lemma_feed_one(s5, 0x48);
    let r = parser_step(s5.parser, 0x48);
    assert(r.1 == ActionView::Csi(seq![row, col], Seq::<u8>::empty(), 0x48)) by {
        assert(r.1->Csi_0 =~= seq![row, col]);
    }
    lemma_single_action_step(s5, 0x48);
    assert(r.0 == settled(s.parser));
    assert(VtState { parser: r.0, ..s5 } == VtState { parser: settled(s.parser), ..s });
}

/// `ESC [ 6 n` read by a parser at rest is one status-report sequence.
proof fn lemma_feed_position_query(s: VtState)
    requires
        s.parser.state == ParseState::Ground,
        s.parser.utf8_need == 0,
    ensures
        feed_bytes(s, position_query_bytes()) == csi(
            VtState { parser: settled(s.parser), ..s },
            seq![6u16],
            Seq::empty(),
            0x6E,
        ),
{
    let e = seq![0x1Bu8];
    let b = seq![0x5Bu8];
    let six = seq![0x36u8];
    let n = seq![0x6Eu8];
    assert(position_query_bytes() =~= ((e + b) + six) + n);
    lemma_feed_one(s, 0x1B);
    lemma_quiet_step(s, 0x1B);
    let s1 = feed_bytes(s, e);
    lemma_feed_split(s, e, b);
    lemma_feed_one(s1, 0x5B);
    lemma_quiet_step(s1, 0x5B);
    let s2 = feed_bytes(s, e + b);
    lemma_feed_split(s, e + b, six);
    lemma_feed_one(s2, 0x36);
    lemma_quiet_step(s2, 0x36);
    let s3 = feed_bytes(s, (e + b) + six);
    lemma_feed_split(s, (e + b) + six, n);
    lemma_feed_one(s3, 0x6E);
    let r = parser_step(s3.parser, 0x6E);
    assert(r.1 == ActionView::Csi(seq![6u16], Seq::<u8>::empty(), 0x6E)) by {
        assert(r.1->Csi_0 =~= seq![6u16]);
    }
    lemma_single_action_step(s3, 0x6E);
    assert(r.0 == settled(s.parser));
    assert(VtState { parser: r.0, ..s3 } == VtState { parser: settled(s.parser), ..s });
}

proof fn lemma_cursor_position_keeps_parser(s: VtState, ps: Seq<u16>)
    ensures
        csi(s, ps, Seq::empty(), 0x48).parser == s.parser,
        csi(s, ps, Seq::empty(), 0x48).responses == s.responses,
{
    reveal(csi);
}

/// For a position inside the screen, feeding `ESC [ row ; col H` and then
/// `ESC [ 6 n` to a terminal whose parser is at rest queues the report
/// `ESC [ row ; col R`.
pub proof fn lemma_position_report_bytes(s: VtState, row: u16, col: u16)
    requires
        state_wf(s),
        s.parser.state == ParseState::Ground,
        s.parser.utf8_need == 0,
        1 <= row <= s.rows,
        1 <= col <= s.cols,
    ensures
        feed_bytes(s, cursor_position_bytes(row as nat, col as nat) + position_query_bytes()).responses
            == s.responses.push(position_report(row as nat, col as nat)),
{
    let cup = cursor_position_bytes(row as nat, col as nat);
    lemma_feed_split(s, cup, position_query_bytes());
    lemma_feed_cursor_position(s, row, col);
    let base = VtState { parser: settled(s.parser), ..s };
    let t = feed_bytes(s, cup);
    lemma_cursor_position_keeps_parser(base, seq![row, col]);
    lemma_feed_position_query(t);
    assert(settled(t.parser) == t.parser);
    assert(VtState { parser: settled(t.parser), ..t } == t);
    assert(state_wf(base));
    lemma_position_report_round_trip(base, row, col);
}


/// The bytes `ESC [ ? code f`, which set (`f` = `h`) or reset (`f` = `l`)
/// a private mode.
pub open spec fn private_mode_bytes(code: nat, f: u8) -> Seq<u8> {
    seq![0x1Bu8, 0x5Bu8, 0x3Fu8] + decimal(code) + seq![f]
}

/// `ESC [ ? code f` read by a parser at rest is one private-mode sequence.
proof fn lemma_feed_private_mode(s: VtState, code: u16, f: u8)
    requires
        s.parser.state == ParseState::Ground,
        s.parser.utf8_need == 0,
        f == 0x68 || f == 0x6C,
    ensures
        feed_bytes(s, private_mode_bytes(code as nat, f)) == csi(
            VtState { parser: settled(s.parser), ..s },
            seq![code],
            seq![0x3Fu8],
            f,
        ),
{
    let e = seq![0x1Bu8];
    let b = seq![0x5Bu8];
    let q = seq![0x3Fu8];
    let dc = decimal(code as nat);
    let fin = seq![f];
    assert(private_mode_bytes(code as nat, f) =~= (((e + b) + q) + dc) + fin);
    lemma_feed_one(s, 0x1B);
    lemma_quiet_step(s, 0x1B);
    let s1 = feed_bytes(s, e);
    lemma_feed_split(s, e, b);
    lemma_feed_one(s1, 0x5B);
    lemma_quiet_step(s1, 0x5B);
    let s2 = feed_bytes(s, e + b);
    lemma_feed_split(s, e + b, q);
    lemma_feed_one(s2, 0x3F);
    lemma_quiet_step(s2, 0x3F);
    let s3 = feed_bytes(s, (e + b) + q);
    assert(s3.parser.intermediates =~= seq![0x3Fu8]);
    lemma_read_digits(s3, code as nat);
    lemma_feed_split(s, (e + b) + q, dc);
    let s4 = feed_bytes(s, ((e + b) + q) + dc);
    lemma_feed_split(s, ((e + b) + q) + dc, fin);
    lemma_feed_one(s4, f);
    let r = parser_step(s4.parser, f);
    assert(r.1 == ActionView::Csi(seq![code], seq![0x3Fu8], f)) by {
        assert(r.1->Csi_0 =~= seq![code]);
    }
    lemma_single_action_step(s4, f);
    assert(r.0 == settled(s.parser));
    assert(VtState { parser: r.0, ..s4 } == VtState { parser: settled(s.parser), ..s });
}

proof fn lemma_alternate_keeps_parser(s: VtState, f: u8)
    requires
        f == 0x68 || f == 0x6C,
    ensures
        csi(s, seq![1049u16], seq![0x3Fu8], f).parser == s.parser,
{
    reveal(csi);
    let ps = seq![1049u16];
    assert(csi(s, ps, seq![0x3Fu8], f) == dec_modes(s, ps, f == 0x68, 0));
    assert(dec_modes(dec_mode(s, 1049, f == 0x68), ps, f == 0x68, 1) == dec_mode(s, 1049, f == 0x68));
}

/// Feeding `ESC [ ? 1049 h` and then `ESC [ ? 1049 l` to a terminal whose
/// parser is at rest leaves its grid, cursor and scrollback as they were.
pub proof fn lemma_alternate_screen_bytes(s: VtState)
    requires
        state_wf(s),
        s.parser.state == ParseState::Ground,
        s.parser.utf8_need == 0,
    ensures
        ({
            let t = feed_bytes(s, private_mode_bytes(1049, 0x68) + private_mode_bytes(1049, 0x6C));
            &&& t.grid == s.grid
            &&& t.cursor == s.cursor
            &&& t.scrollback == s.scrollback
        }),
{
    let enter = private_mode_bytes(1049, 0x68);
    let leave = private_mode_bytes(1049, 0x6C);
    lemma_feed_split(s, enter, leave);
    lemma_feed_private_mode(s, 1049, 0x68);
    let base = VtState { parser: settled(s.parser), ..s };
    let u = feed_bytes(s, enter);
    lemma_alternate_keeps_parser(base, 0x68);
    lemma_feed_private_mode(u, 1049, 0x6C);
    assert(settled(u.parser) == u.parser);
    assert(VtState { parser: settled(u.parser), ..u } == u);
    assert(state_wf(base));
    lemma_alternate_screen_round_trip(base);
}


/// A private mode that switches between the main and alternate screens.
pub open spec fn is_screen_mode(code: u16) -> bool {
    code == 47 || code == 1047 || code == 1049
}

/// An action that neither switches screens nor resets the terminal.
pub open spec fn keeps_screens(a: ActionView) -> bool {
    match a {
        ActionView::Csi(ps, inter, f) => !((f == 0x68 || f == 0x6C) && inter == seq![0x3Fu8] && exists|
            k: int,
        | 0 <= k < ps.len() && is_screen_mode(#[trigger] ps[k])),
        ActionView::Esc(inter, f) => f != 0x63,
        _ => true,
    }
}

/// Every action that `bytes` calls for, fed to `s`, keeps the screens.
pub open spec fn keeps_screens_on(s: VtState, bytes: Seq<u8>) -> bool
    decreases bytes.len(),
{
    if bytes.len() == 0 {
        true
    } else {
        let r = parser_step(feed_bytes(s, bytes.drop_last()).parser, bytes.last());
        keeps_screens_on(s, bytes.drop_last()) && keeps_screens(r.1) && keeps_screens(r.2)
    }
}

proof fn lemma_modes_keep_screens(s: VtState, ps: Seq<u16>, set: bool, i: int)
    requires
        forall|k: int| i <= k < ps.len() ==> !is_screen_mode(#[trigger] ps[k]),
    ensures
        same_screens(s, dec_modes(s, ps, set, i)),
    decreases ps.len() - i,
{
    if 0 <= i < ps.len() {
        lemma_modes_keep_screens(dec_mode(s, ps[i], set), ps, set, i + 1);
    }
}

proof fn lemma_perform_keeps_screens(s: VtState, a: ActionView)
    requires
        keeps_screens(a),
    ensures
        same_screens(s, perform(s, a)),
{
    match a {
        ActionView::Csi(ps, inter, f) => {
            reveal(csi);
            lemma_repeat_size(s, arg(ps, 0, 1) as nat);
            if (f == 0x68 || f == 0x6C) && inter == seq![0x3Fu8] {
                lemma_modes_keep_screens(s, ps, f == 0x68, 0);
            }
        },
        _ => {
            reveal(esc);
            reveal(execute);
            reveal(print);
            reveal(osc);
        },
    }
}

proof fn lemma_feed_keeps_screens(s: VtState, bytes: Seq<u8>)
    requires
        keeps_screens_on(s, bytes),
    ensures
        same_screens(s, feed_bytes(s, bytes)),
    decreases bytes.len(),
{
    if bytes.len() > 0 {
        reveal(step);
        let t = feed_bytes(s, bytes.drop_last());
        lemma_feed_keeps_screens(s, bytes.drop_last());
        let r = parser_step(t.parser, bytes.last());
        let u = VtState { parser: r.0, ..t };
        lemma_perform_keeps_screens(u, r.1);
        lemma_perform_keeps_screens(perform(u, r.1), r.2);
    }
}

proof fn lemma_screen_switch(s: VtState, f: u8)
    requires
        f == 0x68 || f == 0x6C,
    ensures
        csi(s, seq![1049u16], seq![0x3Fu8], f) == dec_mode(s, 1049, f == 0x68),
{
    reveal(csi);
    let ps = seq![1049u16];
    assert(dec_modes(dec_mode(s, 1049, f == 0x68), ps, f == 0x68, 1) == dec_mode(s, 1049, f == 0x68));
}

/// Entering the alternate screen with `ESC [ ? 1049 h`, feeding any input
/// `mid` that switches no screen and resets nothing, and leaving with
/// `ESC [ ? 1049 l` brings back the grid, cursor and scrollback of the
/// moment of entry. The parser must be at rest where each of the two
/// sequences starts.
pub proof fn lemma_alternate_screen_restores(s: VtState, mid: Seq<u8>)
    requires
        state_wf(s),
        s.parser.state == ParseState::Ground,
        s.parser.utf8_need == 0,
        keeps_screens_on(feed_bytes(s, private_mode_bytes(1049, 0x68)), mid),
        feed_bytes(feed_bytes(s, private_mode_bytes(1049, 0x68)), mid).parser.state
            == ParseState::Ground,
        feed_bytes(feed_bytes(s, private_mode_bytes(1049, 0x68)), mid).parser.utf8_need == 0,
    ensures
        ({
            let t = feed_bytes(
                s,
                private_mode_bytes(1049, 0x68) + mid + private_mode_bytes(1049, 0x6C),
            );
            &&& t.grid == s.grid
            &&& t.cursor == s.cursor
            &&& t.scrollback == s.scrollback
        }),
{
    let enter = private_mode_bytes(1049, 0x68);
    let leave = private_mode_bytes(1049, 0x6C);
    lemma_feed_split(s, enter + mid, leave);
    lemma_feed_split(s, enter, mid);
    lemma_feed_private_mode(s, 1049, 0x68);
    let base = VtState { parser: settled(s.parser), ..s };
    lemma_screen_switch(base, 0x68);
    let u = feed_bytes(s, enter);
    assert(u == enter_alt(base, true));
    let w = feed_bytes(u, mid);
    lemma_feed_keeps_screens(u, mid);
    lemma_feed_private_mode(w, 1049, 0x6C);
    let w2 = VtState { parser: settled(w.parser), ..w };
    lemma_screen_switch(w2, 0x6C);
    lemma_fit_same(s.grid, s.cols, s.rows);
    assert(clamp_cursor(s.cursor, s.cols, s.rows) == s.cursor);
}

} // verus!
