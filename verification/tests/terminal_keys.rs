use omnyssh::ssh::pty::{key_to_bytes, TermKey, TermKeyCode};
use omnyssh::ui::theme::ThemeName;

fn key(code: TermKeyCode) -> TermKey {
    TermKey { code, ctrl: false, alt: false, shift: false }
}

#[test]
fn control_and_alt_characters() {
    let ctrl_c = TermKey { code: TermKeyCode::Char('c'), ctrl: true, alt: false, shift: false };
    assert_eq!(key_to_bytes(ctrl_c), vec![0x03]);
    let ctrl_z = TermKey { code: TermKeyCode::Char('Z'), ctrl: true, alt: false, shift: false };
    assert_eq!(key_to_bytes(ctrl_z), vec![0x1a]);
    let ctrl_br = TermKey { code: TermKeyCode::Char('['), ctrl: true, alt: false, shift: false };
    assert_eq!(key_to_bytes(ctrl_br), vec![0x1b]);
    let ctrl_at = TermKey { code: TermKeyCode::Char('@'), ctrl: true, alt: false, shift: false };
    assert_eq!(key_to_bytes(ctrl_at), vec![0x00]);
    let alt_x = TermKey { code: TermKeyCode::Char('x'), ctrl: false, alt: true, shift: false };
    assert_eq!(key_to_bytes(alt_x), vec![0x1b, b'x']);
    assert_eq!(key_to_bytes(key(TermKeyCode::Char('é'))), vec![0xc3, 0xa9]);
}

#[test]
fn special_and_function_keys() {
    assert_eq!(key_to_bytes(key(TermKeyCode::Enter)), vec![b'\r']);
    assert_eq!(key_to_bytes(key(TermKeyCode::Backspace)), vec![0x7f]);
    assert_eq!(key_to_bytes(key(TermKeyCode::Tab)), vec![0x09]);
    let back_tab = TermKey { code: TermKeyCode::Tab, ctrl: false, alt: false, shift: true };
    assert_eq!(key_to_bytes(back_tab), vec![0x1b, b'[', b'Z']);
    assert_eq!(key_to_bytes(key(TermKeyCode::Up)), vec![0x1b, b'[', b'A']);
    assert_eq!(key_to_bytes(key(TermKeyCode::Delete)), vec![0x1b, b'[', b'3', b'~']);
    assert_eq!(key_to_bytes(key(TermKeyCode::F(1))), vec![0x1b, b'O', b'P']);
    assert_eq!(key_to_bytes(key(TermKeyCode::F(12))), vec![0x1b, b'[', b'2', b'4', b'~']);
    assert!(key_to_bytes(key(TermKeyCode::F(13))).is_empty());
    assert!(key_to_bytes(key(TermKeyCode::Other)).is_empty());
}

#[test]
fn theme_names() {
    assert_eq!(ThemeName::from_name("dracula"), ThemeName::Dracula);
    assert_eq!(ThemeName::from_name("nord"), ThemeName::Nord);
    assert_eq!(ThemeName::from_name("gruvbox"), ThemeName::Gruvbox);
    assert_eq!(ThemeName::from_name("default"), ThemeName::Default);
    assert_eq!(ThemeName::from_name("Dracula"), ThemeName::Default);
}
