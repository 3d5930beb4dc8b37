//! The sixteen-key pad: which keys are held down right now.

use std::collections::HashSet;
use vstd::prelude::*;
use vstd::std_specs::hash::*;

verus! {

broadcast use group_hash_axioms;

/// A change of one key, as the input side reports it.
#[derive(Debug, Clone, Copy)]
pub enum KeyboardMessage {
    Press(u8),
    Release(u8),
}

/// The set of held keys after `message` has been applied to `keys`.
pub open spec fn keys_after(keys: Set<u8>, message: KeyboardMessage) -> Set<u8> {
    match message {
        KeyboardMessage::Press(value) => keys.insert(value),
        KeyboardMessage::Release(value) => keys.remove(value),
    }
}

pub struct Keyboard {
    pressed_keys: HashSet<u8>,
}

impl View for Keyboard {
    type V = Set<u8>;

    closed spec fn view(&self) -> Set<u8> {
        self.pressed_keys@
    }
}

impl Keyboard {
    /// A pad on which no key is held.
    pub fn new() -> (keyboard: Keyboard)
        ensures
            keyboard@ == Set::<u8>::empty(),
    {
        Keyboard { pressed_keys: HashSet::new() }
    }

    /// Records that a key went down or came up.
    pub fn update(&mut self, message: KeyboardMessage)
        ensures
            final(self)@ == keys_after(old(self)@, message),
    {
        match message {
            KeyboardMessage::Press(value) => {
                self.pressed_keys.insert(value);
            },
            KeyboardMessage::Release(value) => {
                self.pressed_keys.remove(&value);
                assert(self@ =~= old(self)@.remove(value));
            },
        }
    }

    /// Whether the key `value` is held.
    pub fn is_pressed(&self, value: u8) -> (pressed: bool)
        ensures
            pressed == self@.contains(value),
    {
        self.pressed_keys.contains(&value)
    }
}

/// Pressing a held key, or releasing a key that is not held, changes
/// nothing; a pressed key is held, a released key is not.
pub proof fn lemma_keys_idempotent(keys: Set<u8>, value: u8)
    ensures
        keys.contains(value) ==> keys_after(keys, KeyboardMessage::Press(value)) == keys,
        !keys.contains(value) ==> keys_after(keys, KeyboardMessage::Release(value)) == keys,
        keys_after(keys, KeyboardMessage::Press(value)).contains(value),
        !keys_after(keys, KeyboardMessage::Release(value)).contains(value),
{
    if keys.contains(value) {
        assert(keys.insert(value) =~= keys);
    } else {
        assert(keys.remove(value) =~= keys);
    }
}

/// The sixteen keys of a host keyboard that stand for the pad.
#[derive(Debug, Clone, Copy, PartialEq, Eq, Structural)]
pub enum PhysicalKey {
    Comma,
    Key7,
    Key8,
    Key9,
    U,
    I,
    O,
    J,
    K,
    L,
    M,
    Period,
    Key0,
    P,
    Semicolon,
    Slash,
}

/// The host keys in the order of the pad values they stand for: the key
/// at index `n` is the pad key `n`.
pub open spec fn key_table() -> Seq<PhysicalKey> {
    seq![
        PhysicalKey::Comma,
        PhysicalKey::Key7,
        PhysicalKey::Key8,
        PhysicalKey::Key9,
        PhysicalKey::U,
        PhysicalKey::I,
        PhysicalKey::O,
        PhysicalKey::J,
        PhysicalKey::K,
        PhysicalKey::L,
        PhysicalKey::M,
        PhysicalKey::Period,
        PhysicalKey::Key0,
        PhysicalKey::P,
        PhysicalKey::Semicolon,
        PhysicalKey::Slash,
    ]
}

/// The pad value of a host key: its place in `key_table`.
pub fn key_value(key: PhysicalKey) -> (value: u8)
    ensures
        value < 16,
        key_table()[value as int] == key,
        value == key_value_of(key),
{
    match key {
        PhysicalKey::Comma => 0x0,
        PhysicalKey::Key7 => 0x1,
        PhysicalKey::Key8 => 0x2,
        PhysicalKey::Key9 => 0x3,
        PhysicalKey::U => 0x4,
        PhysicalKey::I => 0x5,
        PhysicalKey::O => 0x6,
        PhysicalKey::J => 0x7,
        PhysicalKey::K => 0x8,
        PhysicalKey::L => 0x9,
        PhysicalKey::M => 0xA,
        PhysicalKey::Period => 0xB,
        PhysicalKey::Key0 => 0xC,
        PhysicalKey::P => 0xD,
        PhysicalKey::Semicolon => 0xE,
        PhysicalKey::Slash => 0xF,
    }
}

/// The message for a host key that went down (`pressed`) or came up.
pub fn key_message(key: PhysicalKey, pressed: bool) -> (message: KeyboardMessage)
    ensures
        pressed ==> message == KeyboardMessage::Press(key_value_of(key)),
        !pressed ==> message == KeyboardMessage::Release(key_value_of(key)),
{
    if pressed {
        KeyboardMessage::Press(key_value(key))
    } else {
        KeyboardMessage::Release(key_value(key))
    }
}

/// The one index at which `key` stands in `key_table`.
pub open spec fn key_value_of(key: PhysicalKey) -> u8 {
    choose|value: u8| value < 16 && key_table()[value as int] == key
}

/// No host key stands for two pad keys.
pub proof fn lemma_key_table_distinct(a: int, b: int)
    requires
        0 <= a < 16,
        0 <= b < 16,
        key_table()[a] == key_table()[b],
    ensures
        a == b,
{
}

} // verus!
