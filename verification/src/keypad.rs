//! Input mapping: the sixteen keys of the hexadecimal keypad, the host keys
//! that stand for them, and a snapshot of which host keys are held.

use vstd::prelude::*;

verus! {

/// A host key that the machine asks about: the sixteen that stand for the
/// keypad, and the one that stands for every code that is no keypad key.
#[derive(Clone, Copy, Debug, PartialEq, Eq, Structural)]
pub enum Key {
    Key0,
    Key1,
    Key2,
    Key3,
    Key4,
    Key5,
    Key6,
    Key7,
    Key8,
    Key9,
    A,
    B,
    C,
    D,
    E,
    F,
    Escape,
}

/// The host key for a key code: the keypad key of that number for a code
/// below sixteen, `Escape` for any other.
pub open spec fn key_for(x: u8) -> Key {
    match x {
        0x0 => Key::Key0,
        0x1 => Key::Key1,
        0x2 => Key::Key2,
        0x3 => Key::Key3,
        0x4 => Key::Key4,
        0x5 => Key::Key5,
        0x6 => Key::Key6,
        0x7 => Key::Key7,
        0x8 => Key::Key8,
        0x9 => Key::Key9,
        0xA => Key::A,
        0xB => Key::B,
        0xC => Key::C,
        0xD => Key::D,
        0xE => Key::E,
        0xF => Key::F,
        _ => Key::Escape,
    }
}

/// Maps a key code to the host key that stands for it.
pub fn keyCode(x: u8) -> (key: Key)
    ensures
        key == key_for(x),
{
    match x {
        0x0 => Key::Key0,
        0x1 => Key::Key1,
        0x2 => Key::Key2,
        0x3 => Key::Key3,
        0x4 => Key::Key4,
        0x5 => Key::Key5,
        0x6 => Key::Key6,
        0x7 => Key::Key7,
        0x8 => Key::Key8,
        0x9 => Key::Key9,
        0xA => Key::A,
        0xB => Key::B,
        0xC => Key::C,
        0xD => Key::D,
        0xE => Key::E,
        0xF => Key::F,
        _ => Key::Escape,
    }
}

impl Key {
    /// The place of the key among the seventeen: its keypad number, and 16
    /// for `Escape`.
    pub open spec fn slot(self) -> int {
        match self {
            Key::Key0 => 0,
            Key::Key1 => 1,
            Key::Key2 => 2,
            Key::Key3 => 3,
            Key::Key4 => 4,
            Key::Key5 => 5,
            Key::Key6 => 6,
            Key::Key7 => 7,
            Key::Key8 => 8,
            Key::Key9 => 9,
            Key::A => 10,
            Key::B => 11,
            Key::C => 12,
            Key::D => 13,
            Key::E => 14,
            Key::F => 15,
            Key::Escape => 16,
        }
    }

    /// The keypad number that the key stands for, if it stands for one.
    pub open spec fn nibble_spec(self) -> Option<u8> {
        if self == Key::Escape {
            None
        } else {
            Some(self.slot() as u8)
        }
    }

    fn index(self) -> (i: usize)
        ensures
            i == self.slot(),
    {
        match self {
            Key::Key0 => 0,
            Key::Key1 => 1,
            Key::Key2 => 2,
            Key::Key3 => 3,
            Key::Key4 => 4,
            Key::Key5 => 5,
            Key::Key6 => 6,
            Key::Key7 => 7,
            Key::Key8 => 8,
            Key::Key9 => 9,
            Key::A => 10,
            Key::B => 11,
            Key::C => 12,
            Key::D => 13,
            Key::E => 14,
            Key::F => 15,
            Key::Escape => 16,
        }
    }

    /// The keypad number that the key stands for; `Escape` stands for none.
    #[verifier::when_used_as_spec(nibble_spec)]
    pub fn nibble(self) -> (n: Option<u8>)
        ensures
            n == self.nibble_spec(),
    {
        let i: usize = self.index();
        if i < 16 {
            Some(i as u8)
        } else {
            None
        }
    }
}

/// The keypad keys and the key codes below sixteen stand for each other:
/// the key for a code has that code as its number, and the key code of a
/// key's number gives the key back. Every other code maps to `Escape`.
pub proof fn lemma_key_mapping(x: u8, key: Key)
    ensures
        x < 16 ==> key_for(x).nibble_spec() == Some(x),
        x >= 16 ==> key_for(x) == Key::Escape,
        key.nibble_spec() matches Some(n) ==> n < 16 && key_for(n) == key,
        key_for(x).slot() == (if x < 16 { x as int } else { 16 }),
        0 <= key.slot() <= 16,
{
}

/// Which host keys are held, as one coherent snapshot.
#[derive(Clone, Copy, Debug)]
pub struct Keypad {
    held: [bool; 17],
}

impl Keypad {
    /// Whether the snapshot shows `key` as held.
    pub closed spec fn holds(&self, key: Key) -> bool {
        self.held@[key.slot()]
    }

    /// A snapshot in which no key is held.
    pub fn new() -> (keys: Keypad)
        ensures
            forall|key: Key| !keys.holds(key),
    {
        Keypad { held: [false; 17] }
    }

    /// Records whether `key` is held; the other keys stay as they are.
    pub fn set_held(&mut self, key: Key, held: bool)
        ensures
            final(self).holds(key) == held,
            forall|other: Key| other != key ==> final(self).holds(other) == old(self).holds(other),
    {
        let i: usize = key.index();
        self.held[i] = held;
    }

    /// Whether `key` is held.
    pub fn is_held(&self, key: Key) -> (held: bool)
        ensures
            held == self.holds(key),
    {
        let i: usize = key.index();
        self.held[i]
    }
}

} // verus!
