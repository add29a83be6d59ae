use claude_explorer::input::{KeyCode, KeyEvent, KeyModifiers};
use claude_explorer::pane::{next_selection, AppState, Command, FocusedPane, InputMode, TreeMove};

fn plain(code: KeyCode) -> KeyEvent {
    KeyEvent { code, modifiers: KeyModifiers::none() }
}

fn ctrl(c: char) -> KeyEvent {
    KeyEvent { code: KeyCode::Char(c), modifiers: KeyModifiers { control: true, shift: false, alt: false, other: false } }
}

#[test]
fn ctrl_c_interrupts_terminal_and_quits_tree() {
    let mut s = AppState::new();
    assert_eq!(s.handle_key(ctrl('c')), Command::Interrupt);
    s.focused = FocusedPane::Tree;
    assert_eq!(s.handle_key(ctrl('c')), Command::Quit);
    assert_eq!(s.handle_key(ctrl('q')), Command::Quit);
}

#[test]
fn keys_go_to_terminal_until_tab() {
    let mut s = AppState::new();
    let k = plain(KeyCode::Char('x'));
    assert_eq!(s.handle_key(k), Command::SendKey(k));
    assert_eq!(s.handle_key(plain(KeyCode::Tab)), Command::Nothing);
    assert_eq!(s.focused, FocusedPane::Tree);
    assert_eq!(s.handle_key(plain(KeyCode::Char('j'))), Command::Tree(TreeMove::Next));
    assert_eq!(s.handle_key(plain(KeyCode::Esc)), Command::Nothing);
    assert_eq!(s.focused, FocusedPane::Terminal);
    assert_eq!(s.handle_key(ctrl('t')), Command::Nothing);
    assert_eq!(s.focused, FocusedPane::Tree);
}

#[test]
fn help_toggles_and_any_key_closes_it() {
    let mut s = AppState::new();
    s.handle_key(plain(KeyCode::F(1)));
    assert!(s.show_help);
    assert_eq!(s.handle_key(plain(KeyCode::Char('x'))), Command::Nothing);
    assert!(!s.show_help);
}

#[test]
fn search_query_editing() {
    let mut s = AppState::new();
    s.focused = FocusedPane::Tree;
    s.handle_key(plain(KeyCode::Char('/')));
    assert_eq!(s.input_mode, InputMode::Search);
    s.handle_key(plain(KeyCode::Char('a')));
    s.handle_key(plain(KeyCode::Char('?')));
    s.handle_key(plain(KeyCode::Char('b')));
    s.handle_key(plain(KeyCode::Backspace));
    assert_eq!(s.search_query, "a?");
    assert_eq!(s.handle_key(plain(KeyCode::Enter)), Command::Tree(TreeMove::Search));
    assert_eq!(s.input_mode, InputMode::Normal);
    s.handle_key(plain(KeyCode::Char('/')));
    assert_eq!(s.search_query, "");
    s.handle_key(plain(KeyCode::Backspace));
    assert_eq!(s.search_query, "");
}

#[test]
fn refresh_sets_status() {
    let mut s = AppState::new();
    s.focused = FocusedPane::Tree;
    assert_eq!(s.handle_key(plain(KeyCode::F(5))), Command::RefreshTree);
    assert_eq!(s.status_message, Some("Tree refreshed".to_string()));
    s.clear_status();
    assert_eq!(s.status_message, None);
    assert_eq!(s.handle_key(plain(KeyCode::Char('.'))), Command::ToggleHidden);
}

#[test]
fn wheel_follows_focus() {
    let mut s = AppState::new();
    assert_eq!(s.handle_wheel(true), Command::ScrollTerminal(true));
    s.focused = FocusedPane::Tree;
    assert_eq!(s.handle_wheel(false), Command::Tree(TreeMove::Next));
}

#[test]
fn selection_moves_stay_in_range() {
    assert_eq!(next_selection(0, 5, TreeMove::Previous), 0);
    assert_eq!(next_selection(3, 5, TreeMove::Next), 4);
    assert_eq!(next_selection(4, 5, TreeMove::Next), 4);
    assert_eq!(next_selection(2, 5, TreeMove::Last), 4);
    assert_eq!(next_selection(2, 5, TreeMove::First), 0);
    assert_eq!(next_selection(12, 30, TreeMove::PageUp), 2);
    assert_eq!(next_selection(25, 30, TreeMove::PageDown), 29);
    assert_eq!(next_selection(0, 0, TreeMove::Next), 0);
    assert_eq!(next_selection(3, 5, TreeMove::Open), 3);
}
