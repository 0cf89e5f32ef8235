use chip8::input::{keypad_code, HostKey, Input};

#[test]
fn key_layout() {
    let table = [
        (HostKey::Key1, 0x1), (HostKey::Key2, 0x2), (HostKey::Key3, 0x3), (HostKey::Key4, 0xC),
        (HostKey::Q, 0x4), (HostKey::W, 0x5), (HostKey::E, 0x6), (HostKey::R, 0xD),
        (HostKey::A, 0x7), (HostKey::S, 0x8), (HostKey::D, 0x9), (HostKey::F, 0xE),
        (HostKey::Z, 0xA), (HostKey::X, 0x0), (HostKey::C, 0xB), (HostKey::V, 0xF),
    ];
    for (k, c) in table {
        assert_eq!(keypad_code(k), Some(c));
    }
    assert_eq!(keypad_code(HostKey::Other), None);
}

#[test]
fn keys_go_down_and_up() {
    let mut input = Input::new();
    assert!(!input.has_keys());
    assert_eq!(input.any_pressed(), None);
    input.process(HostKey::F, true);
    input.set_key(3, true);
    assert!(input.has_keys());
    assert!(input.is_pressed(0xE));
    assert!(!input.is_pressed(0x20));
    assert_eq!(input.any_pressed(), Some(3));
    input.set_key(3, false);
    input.set_key(3, false);
    assert_eq!(input.any_pressed(), Some(0xE));
    input.process(HostKey::Other, true);
    input.process(HostKey::F, false);
    assert!(!input.has_keys());
}
