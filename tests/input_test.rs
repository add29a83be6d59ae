use claude_explorer::input::{encode_key, focus_bytes, interrupt_bytes, paste_bytes, KeyCode, KeyEvent, KeyModifiers};

fn mods(shift: bool, control: bool, alt: bool) -> KeyModifiers {
    KeyModifiers { shift, control, alt, other: false }
}

fn key(code: KeyCode, m: KeyModifiers) -> Vec<u8> {
    encode_key(KeyEvent { code, modifiers: m })
}

#[test]
fn scenario_key_encoding() {
    let none = KeyModifiers::none();
    assert_eq!(key(KeyCode::Char('c'), mods(false, true, false)), vec![0x03]);
    assert_eq!(key(KeyCode::Char('a'), mods(false, false, true)), vec![0x1B, 0x61]);
    assert_eq!(key(KeyCode::F(5), none), b"\x1b[15~".to_vec());
    assert_eq!(key(KeyCode::F(5), mods(true, false, false)), b"\x1b[15;2~".to_vec());
    assert_eq!(key(KeyCode::Up, none), b"\x1b[A".to_vec());
    assert_eq!(key(KeyCode::Up, mods(false, true, false)), b"\x1b[1;5A".to_vec());
}

#[test]
fn printable_characters() {
    let none = KeyModifiers::none();
    assert_eq!(key(KeyCode::Char('x'), none), b"x".to_vec());
    assert_eq!(key(KeyCode::Char('x'), mods(true, false, false)), b"X".to_vec());
    assert_eq!(key(KeyCode::Char('é'), none), "é".as_bytes().to_vec());
    assert_eq!(key(KeyCode::Char('é'), mods(true, false, false)), "É".as_bytes().to_vec());
    assert_eq!(key(KeyCode::Char('A'), mods(false, true, false)), vec![0x01]);
    assert_eq!(key(KeyCode::Char('z'), mods(false, true, false)), vec![0x1A]);
    assert_eq!(key(KeyCode::Char('b'), mods(false, true, true)), vec![0x1B, 0x02]);
    assert_eq!(key(KeyCode::Char('q'), mods(true, true, false)), b"q".to_vec());
}

#[test]
fn named_keys() {
    let none = KeyModifiers::none();
    assert_eq!(key(KeyCode::Enter, none), vec![b'\r']);
    assert_eq!(key(KeyCode::Backspace, none), vec![0x7F]);
    assert_eq!(key(KeyCode::Backspace, mods(false, false, true)), vec![0x1B, 0x7F]);
    assert_eq!(key(KeyCode::Tab, none), vec![b'\t']);
    assert_eq!(key(KeyCode::Tab, mods(true, false, false)), b"\x1b[Z".to_vec());
    assert_eq!(key(KeyCode::BackTab, none), b"\x1b[Z".to_vec());
    assert_eq!(key(KeyCode::Esc, none), vec![0x1B]);
    assert_eq!(key(KeyCode::Null, none), Vec::<u8>::new());
}

#[test]
fn navigation_keys() {
    let none = KeyModifiers::none();
    let all = mods(true, true, true);
    assert_eq!(key(KeyCode::Home, none), b"\x1b[H".to_vec());
    assert_eq!(key(KeyCode::End, mods(false, false, true)), b"\x1b[1;3F".to_vec());
    assert_eq!(key(KeyCode::PageUp, none), b"\x1b[5~".to_vec());
    assert_eq!(key(KeyCode::PageDown, all), b"\x1b[6;8~".to_vec());
    assert_eq!(key(KeyCode::Insert, none), b"\x1b[2~".to_vec());
    assert_eq!(key(KeyCode::Delete, mods(true, true, false)), b"\x1b[3;6~".to_vec());
    assert_eq!(key(KeyCode::Left, mods(true, false, true)), b"\x1b[1;4D".to_vec());
    assert_eq!(key(KeyCode::Right, none), b"\x1b[C".to_vec());
    assert_eq!(key(KeyCode::Down, none), b"\x1b[B".to_vec());
}

#[test]
fn function_keys() {
    let none = KeyModifiers::none();
    assert_eq!(key(KeyCode::F(1), none), b"\x1bOP".to_vec());
    assert_eq!(key(KeyCode::F(4), none), b"\x1bOS".to_vec());
    assert_eq!(key(KeyCode::F(2), mods(false, true, false)), b"\x1b[1;5Q".to_vec());
    let numbers = ["15", "17", "18", "19", "20", "21", "23", "24"];
    for (i, n) in numbers.iter().enumerate() {
        assert_eq!(key(KeyCode::F(5 + i as u8), none), format!("\x1b[{}~", n).into_bytes());
    }
    assert_eq!(key(KeyCode::F(12), mods(false, false, true)), b"\x1b[24;3~".to_vec());
    assert_eq!(key(KeyCode::F(13), none), Vec::<u8>::new());
}

#[test]
fn focus_and_interrupt() {
    assert_eq!(focus_bytes(true), b"\x1b[I".to_vec());
    assert_eq!(focus_bytes(false), b"\x1b[O".to_vec());
    assert_eq!(interrupt_bytes(), vec![0x03]);
}

#[test]
fn pasted_text() {
    assert_eq!(paste_bytes("hé", false), "hé".as_bytes().to_vec());
    assert_eq!(paste_bytes("x", true), b"\x1b[200~x\x1b[201~".to_vec());
    assert_eq!(paste_bytes("", true), b"\x1b[200~\x1b[201~".to_vec());
}
