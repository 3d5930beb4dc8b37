use chip8::keyboard::{key_message, key_value, Keyboard, KeyboardMessage, PhysicalKey};

const VALUES: [u8; 8] = [0x0, 0x1, 0x7, 0xF, 0x10, 0x7F, 0x80, 0xFF];

#[test]
fn initial() {
    for value in 0u8..=255 {
        let keyboard = Keyboard::new();

        assert!(!keyboard.is_pressed(value));
    }
}

#[test]
fn press_initial() {
    for value in VALUES {
        let mut keyboard = Keyboard::new();

        keyboard.update(KeyboardMessage::Press(value));
        assert!(keyboard.is_pressed(value));
    }
}

#[test]
fn press_twice() {
    for value in VALUES {
        let mut keyboard = Keyboard::new();

        keyboard.update(KeyboardMessage::Press(value));
        keyboard.update(KeyboardMessage::Press(value));
        assert!(keyboard.is_pressed(value));
    }
}

#[test]
fn press_then_release() {
    for value in VALUES {
        let mut keyboard = Keyboard::new();

        keyboard.update(KeyboardMessage::Press(value));
        keyboard.update(KeyboardMessage::Release(value));
        assert!(!keyboard.is_pressed(value));
    }
}

#[test]
fn press_twice_then_release_once() {
    let mut keyboard = Keyboard::new();
    keyboard.update(KeyboardMessage::Press(0x4));
    keyboard.update(KeyboardMessage::Press(0x4));
    keyboard.update(KeyboardMessage::Release(0x4));
    assert!(!keyboard.is_pressed(0x4));
}

#[test]
fn release_of_an_unpressed_key_changes_nothing() {
    let mut keyboard = Keyboard::new();
    keyboard.update(KeyboardMessage::Press(0x2));
    keyboard.update(KeyboardMessage::Release(0x3));
    assert!(keyboard.is_pressed(0x2));
    assert!(!keyboard.is_pressed(0x3));
}

#[test]
fn keys_are_independent() {
    let mut keyboard = Keyboard::new();
    keyboard.update(KeyboardMessage::Press(0x1));
    keyboard.update(KeyboardMessage::Press(0xA));
    keyboard.update(KeyboardMessage::Release(0x1));
    assert!(!keyboard.is_pressed(0x1));
    assert!(keyboard.is_pressed(0xA));
}

#[test]
fn host_keys_map_to_pad_values() {
    let table = [
        (PhysicalKey::Comma, 0x0u8),
        (PhysicalKey::Key7, 0x1),
        (PhysicalKey::Key8, 0x2),
        (PhysicalKey::Key9, 0x3),
        (PhysicalKey::U, 0x4),
        (PhysicalKey::I, 0x5),
        (PhysicalKey::O, 0x6),
        (PhysicalKey::J, 0x7),
        (PhysicalKey::K, 0x8),
        (PhysicalKey::L, 0x9),
        (PhysicalKey::M, 0xA),
        (PhysicalKey::Period, 0xB),
        (PhysicalKey::Key0, 0xC),
        (PhysicalKey::P, 0xD),
        (PhysicalKey::Semicolon, 0xE),
        (PhysicalKey::Slash, 0xF),
    ];
    for (key, value) in table {
        assert_eq!(key_value(key), value);
        assert!(matches!(key_message(key, true), KeyboardMessage::Press(v) if v == value));
        assert!(matches!(key_message(key, false), KeyboardMessage::Release(v) if v == value));
    }
}
