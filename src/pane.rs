//! Which pane of the split view has the keyboard, and how typed keys are
//! read there.
use vstd::prelude::*;
use vstd::string::StringExecFns;
use crate::input::{KeyCode, KeyEvent, KeyModifiers, no_modifiers};
use crate::text::push_char;

verus! {

/// The pane that receives keys.
#[derive(Clone, Copy, Debug, PartialEq, Eq, Structural)]
pub enum FocusedPane {
    Tree,
    Terminal,
}

/// Whether keys drive the tree or edit a search query.
#[derive(Clone, Copy, Debug, PartialEq, Eq, Structural)]
pub enum InputMode {
    Normal,
    Search,
}


/// A move in the file tree that a key asks for.
#[derive(Clone, Copy, Debug, PartialEq, Eq, Structural)]
pub enum TreeMove {
    Previous,
    Next,
    First,
    Last,
    PageUp,
    PageDown,
    Open,
    Collapse,
    ToggleExpand,
    Search,
    SearchNext,
    SearchPrevious,
}

/// What the application is to do after a key or a mouse event.
#[derive(Clone, Copy, Debug, PartialEq, Eq, Structural)]
pub enum Command {
    Nothing,
    Quit,
    /// Send Ctrl-C to the child.
    Interrupt,
    /// Encode the key and send it to the child.
    SendKey(KeyEvent),
    /// Walk the directory again.
    RefreshTree,
    /// Show or hide hidden files and walk again.
    ToggleHidden,
    Tree(TreeMove),
    /// Scroll the terminal's view back (`true`) or forward.
    ScrollTerminal(bool),
}

/// The mathematical value of an [`AppState`].
pub struct AppView {
    pub focused: FocusedPane,
    pub input_mode: InputMode,
    pub search_query: Seq<char>,
    pub show_help: bool,
    pub status: Option<Seq<char>>,
}

/// The interface state of the split view.
pub struct AppState {
    pub focused: FocusedPane,
    pub input_mode: InputMode,
    pub search_query: String,
    pub show_help: bool,
    pub status_message: Option<String>,
}

pub open spec fn status_view(s: Option<String>) -> Option<Seq<char>> {
    match s {
        Some(m) => Some(m@),
        None => None,
    }
}

impl View for AppState {
    type V = AppView;

    open spec fn view(&self) -> AppView {
        AppView {
            focused: self.focused,
            input_mode: self.input_mode,
            search_query: self.search_query@,
            show_help: self.show_help,
            status: status_view(self.status_message),
        }
    }
}

pub open spec fn ctrl_only() -> KeyModifiers {
    KeyModifiers { control: true, ..no_modifiers() }
}

/// Keys while a search query is typed.
pub open spec fn search_key(s: AppView, k: KeyEvent) -> (AppView, Command) {
    match k.code {
        KeyCode::Enter => (AppView { input_mode: InputMode::Normal, ..s }, Command::Tree(TreeMove::Search)),
        KeyCode::Esc => (
            AppView { input_mode: InputMode::Normal, search_query: Seq::empty(), ..s },
            Command::Nothing,
        ),
        KeyCode::Backspace => (
            AppView {
                search_query: if s.search_query.len() > 0 {
                    s.search_query.drop_last()
                } else {
                    s.search_query
                },
                ..s
            },
            Command::Nothing,
        ),
        KeyCode::Char(c) => (AppView { search_query: s.search_query.push(c), ..s }, Command::Nothing),
        _ => (s, Command::Nothing),
    }
}

/// Keys while the tree has the focus; modifiers are not looked at.
pub open spec fn tree_key(s: AppView, k: KeyEvent) -> (AppView, Command) {
    let c = k.code;
    if c == KeyCode::Up || c == KeyCode::Char('k') {
        (s, Command::Tree(TreeMove::Previous))
    } else if c == KeyCode::Down || c == KeyCode::Char('j') {
        (s, Command::Tree(TreeMove::Next))
    } else if c == KeyCode::Home || c == KeyCode::Char('g') {
        (s, Command::Tree(TreeMove::First))
    } else if c == KeyCode::End || c == KeyCode::Char('G') {
        (s, Command::Tree(TreeMove::Last))
    } else if c == KeyCode::PageUp {
        (s, Command::Tree(TreeMove::PageUp))
    } else if c == KeyCode::PageDown {
        (s, Command::Tree(TreeMove::PageDown))
    } else if c == KeyCode::Enter || c == KeyCode::Right || c == KeyCode::Char('l') {
        (s, Command::Tree(TreeMove::Open))
    } else if c == KeyCode::Left || c == KeyCode::Char('h') {
        (s, Command::Tree(TreeMove::Collapse))
    } else if c == KeyCode::Char(' ') {
        (s, Command::Tree(TreeMove::ToggleExpand))
    } else if c == KeyCode::Char('r') || c == KeyCode::F(5) {
        (AppView { status: Some("Tree refreshed"@), ..s }, Command::RefreshTree)
    } else if c == KeyCode::Char('/') {
        (AppView { input_mode: InputMode::Search, search_query: Seq::empty(), ..s }, Command::Nothing)
    } else if c == KeyCode::Char('n') {
        (s, Command::Tree(TreeMove::SearchNext))
    } else if c == KeyCode::Char('N') {
        (s, Command::Tree(TreeMove::SearchPrevious))
    } else if c == KeyCode::Char('.') {
        (s, Command::ToggleHidden)
    } else if c == KeyCode::Tab || c == KeyCode::Char('\t') || c == KeyCode::Esc {
        (AppView { focused: FocusedPane::Terminal, ..s }, Command::Nothing)
    } else {
        (s, Command::Nothing)
    }
}

/// Keys while the terminal has the focus: Tab alone and Ctrl-T move to
/// the tree, everything else goes to the child.
pub open spec fn terminal_key(s: AppView, k: KeyEvent) -> (AppView, Command) {
    if (k.code == KeyCode::Tab && k.modifiers == no_modifiers()) || (k.code == KeyCode::Char('t')
        && k.modifiers == ctrl_only()) {
        (AppView { focused: FocusedPane::Tree, ..s }, Command::Nothing)
    } else {
        (s, Command::SendKey(k))
    }
}

/// A key press: Ctrl-C interrupts the child when the terminal has the
/// focus and quits otherwise, Ctrl-Q quits, F1 or `?` toggles the help,
/// any key closes it, and the rest depends on the mode and the focus.
pub open spec fn app_key(s: AppView, k: KeyEvent) -> (AppView, Command) {
    if k.code == KeyCode::Char('c') && k.modifiers == ctrl_only() {
        if s.focused == FocusedPane::Terminal {
            (s, Command::Interrupt)
        } else {
            (s, Command::Quit)
        }
    } else if k.code == KeyCode::Char('q') && k.modifiers == ctrl_only() {
        (s, Command::Quit)
    } else if k.code == KeyCode::F(1) || (k.code == KeyCode::Char('?') && s.input_mode
        == InputMode::Normal) {
        (AppView { show_help: !s.show_help, ..s }, Command::Nothing)
    } else if s.show_help {
        (AppView { show_help: false, ..s }, Command::Nothing)
    } else if s.input_mode == InputMode::Search {
        search_key(s, k)
    } else if s.focused == FocusedPane::Tree {
        tree_key(s, k)
    } else {
        terminal_key(s, k)
    }
}

/// The mouse wheel moves the tree selection or scrolls the terminal.
pub open spec fn wheel(focused: FocusedPane, up: bool) -> Command {
    if focused == FocusedPane::Tree {
        Command::Tree(if up {
            TreeMove::Previous
        } else {
            TreeMove::Next
        })
    } else {
        Command::ScrollTerminal(up)
    }
}

/// Relies on String::pop: the last character, if any, is removed.
#[verifier::external_body]
fn pop_char(s: &mut String)
    ensures
        final(s)@ == if old(s)@.len() > 0 {
            old(s)@.drop_last()
        } else {
            old(s)@
        },
{
    s.pop();
}

fn is_ctrl_only(m: KeyModifiers) -> (r: bool)
    ensures
        r == (m == ctrl_only()),
{
    m.control && !m.shift && !m.alt && !m.other
}

fn tree_move(c: KeyCode) -> (r: Option<TreeMove>)
    ensures
        r == match tree_key(
            AppView {
                focused: FocusedPane::Tree,
                input_mode: InputMode::Normal,
                search_query: Seq::empty(),
                show_help: false,
                status: None,
            },
            KeyEvent { code: c, modifiers: no_modifiers() },
        ).1 {
            Command::Tree(m) => Some(m),
            _ => None,
        },
{
    match c {
        KeyCode::Up | KeyCode::Char('k') => Some(TreeMove::Previous),
        KeyCode::Down | KeyCode::Char('j') => Some(TreeMove::Next),
        KeyCode::Home | KeyCode::Char('g') => Some(TreeMove::First),
        KeyCode::End | KeyCode::Char('G') => Some(TreeMove::Last),
        KeyCode::PageUp => Some(TreeMove::PageUp),
        KeyCode::PageDown => Some(TreeMove::PageDown),
        KeyCode::Enter | KeyCode::Right | KeyCode::Char('l') => Some(TreeMove::Open),
        KeyCode::Left | KeyCode::Char('h') => Some(TreeMove::Collapse),
        KeyCode::Char(' ') => Some(TreeMove::ToggleExpand),
        KeyCode::Char('n') => Some(TreeMove::SearchNext),
        KeyCode::Char('N') => Some(TreeMove::SearchPrevious),
        _ => None,
    }
}

impl AppState {
    /// The state at start: the terminal has the focus.
    pub fn new() -> (r: AppState)
        ensures
            r@ == (AppView {
                focused: FocusedPane::Terminal,
                input_mode: InputMode::Normal,
                search_query: Seq::empty(),
                show_help: false,
                status: None,
            }),
    {
        AppState {
            focused: FocusedPane::Terminal,
            input_mode: InputMode::Normal,
            search_query: String::new(),
            show_help: false,
            status_message: None,
        }
    }

    pub fn set_status(&mut self, message: String)
        ensures
            final(self)@ == (AppView { status: Some(message@), ..old(self)@ }),
    {
        self.status_message = Some(message);
    }

    pub fn clear_status(&mut self)
        ensures
            final(self)@ == (AppView { status: None, ..old(self)@ }),
    {
        self.status_message = None;
    }

    fn search_key(&mut self, key: KeyEvent) -> (r: Command)
        ensures
            (final(self)@, r) == search_key(old(self)@, key),
    {
        match key.code {
            KeyCode::Enter => {
                self.input_mode = InputMode::Normal;
                Command::Tree(TreeMove::Search)
            },
            KeyCode::Esc => {
                self.search_query = String::new();
                self.input_mode = InputMode::Normal;
                Command::Nothing
            },
            KeyCode::Backspace => {
                pop_char(&mut self.search_query);
                Command::Nothing
            },
            KeyCode::Char(c) => {
                push_char(&mut self.search_query, c);
                Command::Nothing
            },
            _ => Command::Nothing,
        }
    }

    fn tree_key(&mut self, key: KeyEvent) -> (r: Command)
        ensures
            (final(self)@, r) == tree_key(old(self)@, key),
    {
        let c = key.code;
        match tree_move(c) {
            Some(m) => {
                return Command::Tree(m);
            },
            None => {},
        }
        if c == KeyCode::Char('r') || c == KeyCode::F(5) {
            self.status_message = Some(String::from_str("Tree refreshed"));
            Command::RefreshTree
        } else if c == KeyCode::Char('/') {
            self.input_mode = InputMode::Search;
            self.search_query = String::new();
            Command::Nothing
        } else if c == KeyCode::Char('.') {
            Command::ToggleHidden
        } else if c == KeyCode::Tab || c == KeyCode::Char('\t') || c == KeyCode::Esc {
            self.focused = FocusedPane::Terminal;
            Command::Nothing
        } else {
            Command::Nothing
        }
    }

    /// Handle a key press and say what is to be done with it.
    pub fn handle_key(&mut self, key: KeyEvent) -> (r: Command)
        ensures
            (final(self)@, r) == app_key(old(self)@, key),
    {
        let ctrl = is_ctrl_only(key.modifiers);
        if key.code == KeyCode::Char('c') && ctrl {
            if self.focused == FocusedPane::Terminal {
                Command::Interrupt
            } else {
                Command::Quit
            }
        } else if key.code == KeyCode::Char('q') && ctrl {
            Command::Quit
        } else if key.code == KeyCode::F(1) || (key.code == KeyCode::Char('?') && self.input_mode
            == InputMode::Normal) {
            self.show_help = !self.show_help;
            Command::Nothing
        } else if self.show_help {
            self.show_help = false;
            Command::Nothing
        } else if self.input_mode == InputMode::Search {
            self.search_key(key)
        } else if self.focused == FocusedPane::Tree {
            self.tree_key(key)
        } else if (key.code == KeyCode::Tab && key.modifiers == KeyModifiers::none()) || (key.code
            == KeyCode::Char('t') && ctrl) {
            self.focused = FocusedPane::Tree;
            Command::Nothing
        } else {
            Command::SendKey(key)
        }
    }

    /// The mouse wheel, turned up or down.
    pub fn handle_wheel(&self, up: bool) -> (r: Command)
        ensures
            r == wheel(self.focused, up),
    {
        if self.focused == FocusedPane::Tree {
            Command::Tree(if up {
                TreeMove::Previous
            } else {
                TreeMove::Next
            })
        } else {
            Command::ScrollTerminal(up)
        }
    }
}


/// The selected line after a move among `count` lines; a page is ten
/// lines. Moves that open, collapse or search keep the selection.
pub open spec fn moved_selection(selected: nat, count: nat, m: TreeMove) -> nat {
    let last: nat = if count == 0 {
        0
    } else {
        (count - 1) as nat
    };
    let lower = |k: nat|
        if selected >= k {
            (selected - k) as nat
        } else {
            0nat
        };
    let higher = |k: nat|
        if selected + k >= last {
            last
        } else {
            selected + k
        };
    match m {
        TreeMove::Previous => lower(1),
        TreeMove::Next => higher(1),
        TreeMove::First => 0,
        TreeMove::Last => last,
        TreeMove::PageUp => lower(10),
        TreeMove::PageDown => higher(10),
        _ => selected,
    }
}

/// The selected line after the move `m` among `count` lines.
pub fn next_selection(selected: usize, count: usize, m: TreeMove) -> (r: usize)
    ensures
        r == moved_selection(selected as nat, count as nat, m),
{
    let last = if count == 0 {
        0
    } else {
        count - 1
    };
    match m {
        TreeMove::Previous => if selected >= 1 {
            selected - 1
        } else {
            0
        },
        TreeMove::Next => if selected >= last || 1 >= last - selected {
            last
        } else {
            selected + 1
        },
        TreeMove::First => 0,
        TreeMove::Last => last,
        TreeMove::PageUp => if selected >= 10 {
            selected - 10
        } else {
            0
        },
        TreeMove::PageDown => if selected >= last || 10 >= last - selected {
            last
        } else {
            selected + 10
        },
        _ => selected,
    }
}

} // verus!
