//! Edge updates of the 16-key latch from host key events.

use vstd::prelude::*;

verus! {

/// Translates host key presses and releases into latch updates. The host
/// window library delivers each event as the pressed key's character plus a
/// press/release edge; unmapped characters are ignored.
pub struct Input {}

/// The keypad index a host key stands for, under the fixed virtual-keypad
/// layout (the 4x4 block `1 2 3 4 / q w e r / a s d f / z x c v` maps to the
/// hexadecimal keys in the traditional CHIP-8 arrangement).
pub open spec fn keypad_index_spec(key: char) -> Option<u8> {
    if key == 'x' {
        Some(0x0u8)
    } else if key == '1' {
        Some(0x1u8)
    } else if key == '2' {
        Some(0x2u8)
    } else if key == '3' {
        Some(0x3u8)
    } else if key == 'q' {
        Some(0x4u8)
    } else if key == 'w' {
        Some(0x5u8)
    } else if key == 'e' {
        Some(0x6u8)
    } else if key == 'a' {
        Some(0x7u8)
    } else if key == 's' {
        Some(0x8u8)
    } else if key == 'd' {
        Some(0x9u8)
    } else if key == 'z' {
        Some(0xAu8)
    } else if key == 'c' {
        Some(0xBu8)
    } else if key == '4' {
        Some(0xCu8)
    } else if key == 'r' {
        Some(0xDu8)
    } else if key == 'f' {
        Some(0xEu8)
    } else if key == 'v' {
        Some(0xFu8)
    } else {
        None
    }
}

impl Input {
    pub fn init() -> Input {
        Input {  }
    }

    /// Set or clear the latch entry that the host key stands for; an unmapped
    /// key leaves the latch untouched.
    pub fn process(&self, keys: &mut Vec<bool>, key: char, pressed: bool)
        requires
            old(keys)@.len() == 16,
        ensures
            match keypad_index_spec(key) {
                Some(k) => final(keys)@ == old(keys)@.update(k as int, pressed),
                None => final(keys)@ == old(keys)@,
            },
    {
        if key == 'x' {
            keys.set(0x0, pressed);
        } else if key == '1' {
            keys.set(0x1, pressed);
        } else if key == '2' {
            keys.set(0x2, pressed);
        } else if key == '3' {
            keys.set(0x3, pressed);
        } else if key == 'q' {
            keys.set(0x4, pressed);
        } else if key == 'w' {
            keys.set(0x5, pressed);
        } else if key == 'e' {
            keys.set(0x6, pressed);
        } else if key == 'a' {
            keys.set(0x7, pressed);
        } else if key == 's' {
            keys.set(0x8, pressed);
        } else if key == 'd' {
            keys.set(0x9, pressed);
        } else if key == 'z' {
            keys.set(0xA, pressed);
        } else if key == 'c' {
            keys.set(0xB, pressed);
        } else if key == '4' {
            keys.set(0xC, pressed);
        } else if key == 'r' {
            keys.set(0xD, pressed);
        } else if key == 'f' {
            keys.set(0xE, pressed);
        } else if key == 'v' {
            keys.set(0xF, pressed);
        }
    }
}

} // verus!
