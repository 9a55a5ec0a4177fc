//! A CHIP-8 interpreter: the virtual machine, its instruction set, and the
//! pieces of a front end that are not input or output.
mod config;
mod cpu;
mod error;
mod frontend;
mod instruction;
mod laws;
mod pacer;
mod random;
mod semantics;

pub use config::{default_quirks, QuirkConfig};
pub use cpu::Chip8;
pub use error::{Chip8Error, Result};
pub use frontend::{
    framebuffer_to_u32, key_is_down, keypad_from_host_keys, keypad_key, map_key, pixel_color,
    HostKey,
};
pub use instruction::{decode, decode_spec, lemma_decode_wf, nibbles, Instruction};
pub use laws::{
    font_intact, law_add_carry, law_bcd_digits, law_blocked_step_changes_nothing,
    law_call_then_return, law_draw_twice_restores_display, law_failed_step_only_advances,
    law_first_opcode_is_rom_start, law_font_at_power_on, law_font_char_points_at_glyph,
    law_keypad_layout_bijective, law_load_rom_keeps_font, law_only_random_reads_randomness,
    law_random_masked, law_shifts_keep_bits, law_step_call_return, law_step_deterministic,
    law_store_then_load_registers, law_sub_borrow, law_timers_count_down,
    law_wait_key_sees_release, law_draw_flips_sprite_pixels, law_draw_collision_flag,
    law_store_registers, law_load_registers, law_bitwise_ops, law_key_skips_read_current_keypad,
    law_load_rom_copies_rom, encode, law_decode_round_trip, law_fetch_big_endian,
    law_register_loads, law_conditional_skips, law_control_and_index, law_timer_instructions,
    law_clear_screen, law_wait_key, law_power_on, law_set_keys, law_outcomes,
};
pub use pacer::{Pacer, PacerView};
pub use semantics::{
    advanced, can_skip, draw_sprite, execute_defined, fetched, first_released_from, font_sprites,
    initial_memory, initial_state, key_released, lemma_first_released_keys_only, next_state,
    outcome, rom_capacity, rows_drawn, shift_source, skip_if, sprite_bit, sprite_covers,
    step_defined, step_outcome, step_state, timers_ticked, with_keys, with_rom, Chip8View,
};

use vstd::prelude::*;

verus! {

/// Width of the display in pixels.
pub const SCREEN_WIDTH: usize = 64;
/// Height of the display in pixels.
pub const SCREEN_HEIGHT: usize = 32;
/// Number of pixels of the display (`SCREEN_WIDTH * SCREEN_HEIGHT`).
pub const FRAMEBUFFER_LEN: usize = 2048;
/// Rate, in Hz, at which the delay and sound timers count down.
pub const TIMER_HZ: usize = 60;
/// Size of the address space in bytes.
pub const MEMORY_BYTES: usize = 4096;
/// Number of general purpose registers `V0`..`VF`.
pub const REGISTER_COUNT: usize = 16;
/// Number of keys on the hexadecimal keypad.
pub const KEY_COUNT: usize = 16;
/// Address at which programs are loaded and execution starts.
pub const PROGRAM_COUNTER_START_ADDRESS: usize = 0x200;
/// Address of the built-in hexadecimal font.
pub const FONTSET_START_ADDRESS: usize = 0x50;

} // verus!
