//! What a front end needs between the host and the machine: the keyboard layout
//! and the conversion of the display to pixels.
use vstd::prelude::*;

use crate::KEY_COUNT;

verus! {

/// A key of the host keyboard, as far as the keypad layout cares.
#[derive(Clone, Copy, Debug, PartialEq, Eq, Structural)]
pub enum HostKey {
    Key1,
    Key2,
    Key3,
    Key4,
    Q,
    W,
    E,
    R,
    A,
    S,
    D,
    F,
    Z,
    X,
    C,
    V,
    /// Any key that is not part of the keypad layout.
    Other,
}

/// The CHIP-8 key under each host key: the left-hand 4x4 block of a QWERTY keyboard
/// stands for the COSMAC VIP keypad `1 2 3 C / 4 5 6 D / 7 8 9 E / A 0 B F`.
pub open spec fn keypad_key(key: HostKey) -> Option<u8> {
    match key {
        HostKey::Key1 => Some(0x1u8),
        HostKey::Key2 => Some(0x2u8),
        HostKey::Key3 => Some(0x3u8),
        HostKey::Key4 => Some(0xCu8),
        HostKey::Q => Some(0x4u8),
        HostKey::W => Some(0x5u8),
        HostKey::E => Some(0x6u8),
        HostKey::R => Some(0xDu8),
        HostKey::A => Some(0x7u8),
        HostKey::S => Some(0x8u8),
        HostKey::D => Some(0x9u8),
        HostKey::F => Some(0xEu8),
        HostKey::Z => Some(0xAu8),
        HostKey::X => Some(0x0u8),
        HostKey::C => Some(0xBu8),
        HostKey::V => Some(0xFu8),
        HostKey::Other => None,
    }
}

/// The CHIP-8 key that a host key stands for, if any.
pub fn map_key(key: HostKey) -> (r: Option<u8>)
    ensures
        r == keypad_key(key),
        r matches Some(k) ==> k < KEY_COUNT,
{
    match key {
        HostKey::Key1 => Some(0x1),
        HostKey::Key2 => Some(0x2),
        HostKey::Key3 => Some(0x3),
        HostKey::Key4 => Some(0xC),
        HostKey::Q => Some(0x4),
        HostKey::W => Some(0x5),
        HostKey::E => Some(0x6),
        HostKey::R => Some(0xD),
        HostKey::A => Some(0x7),
        HostKey::S => Some(0x8),
        HostKey::D => Some(0x9),
        HostKey::F => Some(0xE),
        HostKey::Z => Some(0xA),
        HostKey::X => Some(0x0),
        HostKey::C => Some(0xB),
        HostKey::V => Some(0xF),
        HostKey::Other => None,
    }
}

/// Key `k` of the keypad is down iff some pressed host key stands for it.
pub open spec fn key_is_down(pressed: Seq<HostKey>, k: int) -> bool {
    exists|i: int| 0 <= i < pressed.len() && keypad_key(#[trigger] pressed[i]) == Some(k as u8)
}

/// The keypad state for the host keys that are held down.
pub fn keypad_from_host_keys(pressed: &[HostKey]) -> (r: [bool; KEY_COUNT])
    ensures
        forall|k: int| 0 <= k < KEY_COUNT ==> #[trigger] r@[k] == key_is_down(pressed@, k),
{
    let mut key_state = [false; KEY_COUNT];
    for i in 0..pressed.len()
        invariant
            forall|k: int|
                0 <= k < KEY_COUNT ==> #[trigger] key_state@[k] == key_is_down(
                    pressed@.take(i as int),
                    k,
                ),
    {
        let ghost before = pressed@.take(i as int);
        let ghost after = pressed@.take(i + 1);
        assert(after == before.push(pressed@[i as int]));
        if let Some(chip8_key) = map_key(pressed[i]) {
            key_state[chip8_key as usize] = true;
        }
        assert forall|k: int| 0 <= k < KEY_COUNT implies #[trigger] key_state@[k] == key_is_down(
            after,
            k,
        ) by {
            if key_is_down(before, k) {
                let j = choose|j: int|
                    0 <= j < before.len() && keypad_key(#[trigger] before[j]) == Some(k as u8);
                assert(after[j] == before[j]);
            }
            if keypad_key(pressed@[i as int]) == Some(k as u8) {
                assert(after[i as int] == pressed@[i as int]);
            }
        }
    }
    assert(pressed@.take(pressed@.len() as int) == pressed@);
    key_state
}

/// The host colour of a pixel: white when lit, black otherwise.
pub open spec fn pixel_color(on: bool) -> u32 {
    if on { 0x00FFFFFFu32 } else { 0x00000000u32 }
}

/// The display as host pixels, one `u32` per pixel in the same order.
pub fn framebuffer_to_u32(framebuffer: &[bool]) -> (r: Vec<u32>)
    ensures
        r@.len() == framebuffer@.len(),
        forall|i: int| 0 <= i < framebuffer@.len() ==> #[trigger] r@[i] == pixel_color(framebuffer@[i]),
{
    let mut pixels: Vec<u32> = Vec::new();
    for i in 0..framebuffer.len()
        invariant
            pixels@.len() == i,
            forall|j: int| 0 <= j < i ==> #[trigger] pixels@[j] == pixel_color(framebuffer@[j]),
    {
        pixels.push(if framebuffer[i] { 0x00FFFFFF } else { 0x00000000 });
    }
    pixels
}

} // verus!
