use chip8::{
    decode, framebuffer_to_u32, keypad_from_host_keys, map_key, Chip8, Chip8Error, HostKey,
    Instruction, Pacer, QuirkConfig, FRAMEBUFFER_LEN, SCREEN_WIDTH,
};

const FONT: [u8; 80] = [
    0xF0, 0x90, 0x90, 0x90, 0xF0, 0x20, 0x60, 0x20, 0x20, 0x70, 0xF0, 0x10, 0xF0, 0x80, 0xF0,
    0xF0, 0x10, 0xF0, 0x10, 0xF0, 0x90, 0x90, 0xF0, 0x10, 0x10, 0xF0, 0x80, 0xF0, 0x10, 0xF0,
    0xF0, 0x80, 0xF0, 0x90, 0xF0, 0xF0, 0x10, 0x20, 0x40, 0x40, 0xF0, 0x90, 0xF0, 0x90, 0xF0,
    0xF0, 0x90, 0xF0, 0x10, 0xF0, 0xF0, 0x90, 0xF0, 0x90, 0x90, 0xE0, 0x90, 0xE0, 0x90, 0xE0,
    0xF0, 0x80, 0x80, 0x80, 0xF0, 0xE0, 0x90, 0x90, 0x90, 0xE0, 0xF0, 0x80, 0xF0, 0x80, 0xF0,
    0xF0, 0x80, 0xF0, 0x80, 0x80,
];

fn rom_bytes(opcodes: &[u16]) -> Vec<u8> {
    let mut bytes = Vec::new();
    for op in opcodes {
        bytes.push((op >> 8) as u8);
        bytes.push((op & 0xFF) as u8);
    }
    bytes
}

fn machine(opcodes: &[u16]) -> Chip8 {
    machine_with(QuirkConfig::default(), opcodes)
}

fn machine_with(quirks: QuirkConfig, opcodes: &[u16]) -> Chip8 {
    let mut chip8 = Chip8::with_config(quirks);
    chip8.load_rom(&rom_bytes(opcodes)).unwrap();
    chip8
}

fn run(chip8: &mut Chip8, steps: usize) {
    for _ in 0..steps {
        assert!(chip8.can_step());
        chip8.step_with_random(0).unwrap();
    }
}

/// The display holding exactly the glyph of `digit` at the top-left corner.
fn glyph_only(digit: usize) -> Vec<bool> {
    let mut fb = vec![false; FRAMEBUFFER_LEN];
    for row in 0..5 {
        let byte = FONT[digit * 5 + row];
        for col in 0..8 {
            if byte & (0x80 >> col) != 0 {
                fb[row * SCREEN_WIDTH + col] = true;
            }
        }
    }
    fb
}

fn lit_count(chip8: &Chip8) -> usize {
    chip8.get_framebuffer().iter().filter(|&&p| p).count()
}

/// Program prefix that draws the glyph of the digit in `V{reg}` at (0, 0), using VE as 0.
fn draw_digit_of(reg: u16) -> [u16; 3] {
    [0x6E00, 0xF029 | (reg << 8), 0xDEE5]
}

#[test]
fn new_machine_is_blank() {
    let chip8 = Chip8::new();
    assert!(!chip8.draw_flag());
    assert!(!chip8.should_beep());
    assert_eq!(chip8.get_framebuffer().len(), FRAMEBUFFER_LEN);
    assert_eq!(lit_count(&chip8), 0);
}

#[test]
fn load_rom_rejects_oversized_rom() {
    let mut chip8 = Chip8::new();
    let rom = vec![0u8; 3585];
    assert_eq!(
        chip8.load_rom(&rom),
        Err(Chip8Error::RomTooLarge { rom_size: 3585, available: 3584 })
    );
    let fits = vec![0u8; 3584];
    assert_eq!(chip8.load_rom(&fits), Ok(()));
}

#[test]
fn unknown_opcode_is_reported() {
    let mut chip8 = machine(&[0x0000]);
    assert_eq!(chip8.step_with_random(0), Err(Chip8Error::UnknownOpcode(0x0000)));
    let mut chip8 = machine(&[0x5121]);
    assert_eq!(chip8.step(), Err(Chip8Error::UnknownOpcode(0x5121)));
    let mut chip8 = machine(&[0xF0FF]);
    assert_eq!(chip8.step(), Err(Chip8Error::UnknownOpcode(0xF0FF)));
}

#[test]
fn return_on_empty_stack_underflows() {
    let mut chip8 = machine(&[0x00EE]);
    assert_eq!(chip8.step(), Err(Chip8Error::StackUnderflow));
}

#[test]
fn draws_font_glyph_and_sets_draw_flag() {
    let mut prog = vec![0x6007];
    prog.extend_from_slice(&draw_digit_of(0));
    let mut chip8 = machine(&prog);
    run(&mut chip8, 4);
    assert!(chip8.draw_flag());
    assert_eq!(chip8.get_framebuffer().to_vec(), glyph_only(7));
    chip8.clear_draw_flag();
    assert!(!chip8.draw_flag());
}

#[test]
fn clear_screen_turns_every_pixel_off() {
    let mut prog = vec![0x6008];
    prog.extend_from_slice(&draw_digit_of(0));
    prog.push(0x00E0);
    let mut chip8 = machine(&prog);
    run(&mut chip8, 4);
    assert!(lit_count(&chip8) > 0);
    chip8.clear_draw_flag();
    run(&mut chip8, 1);
    assert_eq!(lit_count(&chip8), 0);
    assert!(chip8.draw_flag());
}

#[test]
fn draw_waits_for_vertical_blank() {
    // Two draws of glyph 0 in a row: the second only runs after a timer tick.
    let mut chip8 = machine(&[0x6000, 0xF029, 0xD005, 0xD005]);
    run(&mut chip8, 3);
    let after_first = chip8.get_framebuffer().to_vec();
    assert_eq!(after_first, glyph_only(0));
    run(&mut chip8, 1);
    assert_eq!(chip8.get_framebuffer().to_vec(), after_first);
    run(&mut chip8, 1);
    assert_eq!(chip8.get_framebuffer().to_vec(), after_first);
    chip8.tick_timers();
    run(&mut chip8, 1);
    // Drawing the same sprite again erases it.
    assert_eq!(lit_count(&chip8), 0);
}

#[test]
fn second_draw_reports_collision() {
    // Draw glyph 0 twice; then skip the `1` glyph draw if VF == 1 and draw `2` instead.
    let mut chip8 = machine(&[
        0x6000, 0xF029, 0xD005, 0xD005, 0x3F01, 0x1212, 0x6102, 0xF129, 0x00E0, 0xD005, 0x1216,
        0x0000, 0x0000, 0x0000,
    ]);
    run(&mut chip8, 3);
    chip8.tick_timers();
    run(&mut chip8, 1);
    chip8.tick_timers();
    run(&mut chip8, 5);
    assert_eq!(chip8.get_framebuffer().to_vec(), glyph_only(2));
}

#[test]
fn sprites_clip_at_the_right_and_bottom_edges() {
    // Glyph 8 drawn at (62, 30): only the columns 62..64 of rows 30..32 are shown.
    let mut chip8 = machine(&[0x603E, 0x611E, 0x6208, 0xF229, 0xD015]);
    run(&mut chip8, 5);
    let fb = chip8.get_framebuffer();
    let mut expected = vec![false; FRAMEBUFFER_LEN];
    for row in 0..2 {
        let byte = FONT[8 * 5 + row];
        for col in 0..2 {
            if byte & (0x80 >> col) != 0 {
                expected[(30 + row) * SCREEN_WIDTH + 62 + col] = true;
            }
        }
    }
    assert_eq!(fb.to_vec(), expected);
}

#[test]
fn coordinates_wrap_around_the_screen() {
    // X = 64 wraps to 0 and Y = 32 wraps to 0.
    let mut chip8 = machine(&[0x6040, 0x6120, 0x6203, 0xF229, 0xD015]);
    run(&mut chip8, 5);
    assert_eq!(chip8.get_framebuffer().to_vec(), glyph_only(3));
}

#[test]
fn sound_timer_beeps_until_it_runs_out() {
    let mut chip8 = machine(&[0x6003, 0xF018]);
    run(&mut chip8, 2);
    assert!(chip8.should_beep());
    chip8.tick_timers();
    chip8.tick_timers();
    assert!(chip8.should_beep());
    chip8.tick_timers();
    assert!(!chip8.should_beep());
    chip8.tick_timers();
    assert!(!chip8.should_beep());
}

#[test]
fn delay_timer_is_readable() {
    // Set the delay timer to 9, tick twice, read it back into V0 and draw it.
    let mut prog = vec![0x6009, 0xF015];
    let mut chip8 = machine(&{
        prog.push(0xF007);
        prog.extend_from_slice(&draw_digit_of(0));
        prog
    });
    run(&mut chip8, 2);
    chip8.tick_timers();
    chip8.tick_timers();
    run(&mut chip8, 4);
    assert_eq!(chip8.get_framebuffer().to_vec(), glyph_only(7));
}

#[test]
fn bcd_stores_decimal_digits() {
    // V0 = 123, I = 0x300, BCD, load V0..V2, draw the middle digit.
    let mut prog = vec![0x607B, 0xA300, 0xF033, 0xF265];
    prog.extend_from_slice(&draw_digit_of(1));
    let mut chip8 = machine(&prog);
    run(&mut chip8, 7);
    assert_eq!(chip8.get_framebuffer().to_vec(), glyph_only(2));
}

#[test]
fn store_and_load_registers_advance_index() {
    // V0 = 4, V1 = 9; store both at 0x300 (I becomes 0x302); I = 0x300; load V0..V1 into
    // fresh values; draw V1.
    let mut prog = vec![0x6004, 0x6109, 0xA300, 0xF155, 0x6000, 0x6100, 0xA300, 0xF165];
    prog.extend_from_slice(&draw_digit_of(1));
    let mut chip8 = machine(&prog);
    run(&mut chip8, 11);
    assert_eq!(chip8.get_framebuffer().to_vec(), glyph_only(9));
}

#[test]
fn call_then_return_resumes_after_call() {
    // 0x200: call 0x206; 0x202: V0 = 5; 0x204: jump 0x20A; 0x206: V1 = 1; 0x208: return;
    // 0x20A..: draw V0.
    let mut prog = vec![0x2206, 0x6005, 0x120A, 0x6101, 0x00EE];
    prog.extend_from_slice(&draw_digit_of(0));
    let mut chip8 = machine(&prog);
    run(&mut chip8, 8);
    assert_eq!(chip8.get_framebuffer().to_vec(), glyph_only(5));
}

#[test]
fn add_sets_carry() {
    // V0 = 0xFF, V1 = 1, V0 += V1 -> V0 = 0, VF = 1; skip drawing 0 when VF == 1, draw 1.
    let mut chip8 = machine(&[
        0x60FF, 0x6101, 0x8014, 0x3F01, 0x120E, 0x6001, 0x1210, 0x0000, 0x6E00, 0xF029, 0xDEE5,
    ]);
    run(&mut chip8, 9);
    assert_eq!(chip8.get_framebuffer().to_vec(), glyph_only(1));
}

#[test]
fn subtraction_and_logic_ops() {
    // V0 = 9, V1 = 3, V0 -= V1 (6); V2 = 0xC, V2 &= 0x5 via V3 (4); V0 |= V2 -> 6;
    let mut prog = vec![0x6009, 0x6103, 0x8015, 0x620C, 0x6305, 0x8232, 0x8021];
    prog.extend_from_slice(&draw_digit_of(0));
    let mut chip8 = machine(&prog);
    run(&mut chip8, 10);
    assert_eq!(chip8.get_framebuffer().to_vec(), glyph_only(6));
}

#[test]
fn reverse_subtraction_and_xor() {
    // V0 = 3, V1 = 0xA, V0 = V1 - V0 (7); V0 ^= V2 (0) -> 7, VF = 0.
    let mut prog = vec![0x6003, 0x610A, 0x8017, 0x6200, 0x8023, 0x8F00];
    prog.extend_from_slice(&draw_digit_of(0));
    let mut chip8 = machine(&prog);
    run(&mut chip8, 9);
    assert_eq!(chip8.get_framebuffer().to_vec(), glyph_only(7));
}

#[test]
fn shift_uses_vy_without_quirk_and_vx_with_it() {
    // V0 = 2, V1 = 8; 8016 shifts: without the quirk V0 = V1 >> 1 = 4, with it V0 = 2 >> 1 = 1.
    let mut prog = vec![0x6002, 0x6108, 0x8016];
    prog.extend_from_slice(&draw_digit_of(0));
    let mut plain = machine(&prog);
    run(&mut plain, 6);
    assert_eq!(plain.get_framebuffer().to_vec(), glyph_only(4));
    let quirks = QuirkConfig { shift: true, load_store: false, jumping: false };
    let mut quirky = machine_with(quirks, &prog);
    run(&mut quirky, 6);
    assert_eq!(quirky.get_framebuffer().to_vec(), glyph_only(1));
}

#[test]
fn shift_left_puts_high_bit_in_vf() {
    // V1 = 0x85; 801E: V0 = 0x0A, VF = 1; draw VF.
    let mut prog = vec![0x6185, 0x801E];
    prog.extend_from_slice(&draw_digit_of(0xF));
    let mut chip8 = machine(&prog);
    run(&mut chip8, 5);
    assert_eq!(chip8.get_framebuffer().to_vec(), glyph_only(1));
}

#[test]
fn jump_with_offset_honours_quirk() {
    // V0 = 4, V2 = 8; B208 jumps to 0x208 + V0 (0x20C) or, with the quirk, 0x208 + V2 (0x210).
    let prog = vec![
        0x6004, 0x6208, 0xB208, 0x0000, 0x0000, 0x0000, 0x6303, 0x1214, 0x6309, 0x1214, 0x6E00,
        0xF329, 0xDEE5,
    ];
    let mut plain = machine(&prog);
    run(&mut plain, 8);
    assert_eq!(plain.get_framebuffer().to_vec(), glyph_only(3));
    let quirks = QuirkConfig { shift: false, load_store: false, jumping: true };
    let mut quirky = machine_with(quirks, &prog);
    run(&mut quirky, 8);
    assert_eq!(quirky.get_framebuffer().to_vec(), glyph_only(9));
}

#[test]
fn skips_compare_registers_and_immediates() {
    // 3005 skips when V0 == 5, 4006 skips when V0 != 6, 5010 skips when V0 == V1,
    // 9020 skips when V0 != V2; each skipped instruction would set VA to 1.
    let mut prog = vec![
        0x6005, 0x6105, 0x6207, 0x3005, 0x6A01, 0x4006, 0x6A01, 0x5010, 0x6A01, 0x9020,
        0x6A01,
    ];
    prog.extend_from_slice(&draw_digit_of(0xA));
    let mut chip8 = machine(&prog);
    run(&mut chip8, 10);
    assert_eq!(chip8.get_framebuffer().to_vec(), glyph_only(0));
}

#[test]
fn random_is_masked() {
    let mut prog = vec![0xC00F];
    prog.extend_from_slice(&draw_digit_of(0));
    let mut chip8 = machine(&prog);
    assert!(chip8.can_step());
    chip8.step_with_random(0xF6).unwrap();
    run(&mut chip8, 3);
    assert_eq!(chip8.get_framebuffer().to_vec(), glyph_only(6));

    let mut chip8 = machine(&[0xC003]);
    assert_eq!(chip8.step(), Ok(()));
}

#[test]
fn key_skips_read_the_keypad() {
    // V0 = 5; skip `VA = 1` when key 5 is down; skip `VB = 1` when key 5 is up (it is not).
    let mut prog = vec![0x6005, 0xE09E, 0x6A01, 0xE0A1, 0x6B02];
    prog.extend_from_slice(&draw_digit_of(0xB));
    let mut chip8 = machine(&prog);
    let mut keys = [false; 16];
    keys[5] = true;
    chip8.set_keys(&keys);
    run(&mut chip8, 7);
    assert_eq!(chip8.get_framebuffer().to_vec(), glyph_only(2));
}

#[test]
fn key_skip_needs_a_valid_key() {
    let mut chip8 = machine(&[0x6020, 0xE09E]);
    run(&mut chip8, 1);
    assert!(!chip8.can_step());
}

#[test]
fn wait_key_blocks_until_release() {
    let mut prog = vec![0xF00A];
    prog.extend_from_slice(&draw_digit_of(0));
    let mut chip8 = machine(&prog);
    run(&mut chip8, 3);
    assert_eq!(lit_count(&chip8), 0);
    let mut keys = [false; 16];
    keys[0xC] = true;
    chip8.set_keys(&keys);
    run(&mut chip8, 2);
    assert_eq!(lit_count(&chip8), 0);
    chip8.set_keys(&[false; 16]);
    run(&mut chip8, 4);
    assert_eq!(chip8.get_framebuffer().to_vec(), glyph_only(0xC));
}

#[test]
fn index_add_and_jump_past_memory() {
    // I = 0xFFF; I += V0 with V0 = 1 would exceed nothing; jump to 0xFFF leaves no room to fetch.
    let mut chip8 = machine(&[0x1FFF]);
    run(&mut chip8, 1);
    assert!(!chip8.can_step());
    let mut chip8 = machine(&[0xAFFF, 0x6001, 0xF01E, 0xF033]);
    run(&mut chip8, 3);
    assert!(!chip8.can_step());
}

#[test]
fn decode_names_instructions() {
    assert_eq!(decode(0x00E0), Instruction::ClearScreen);
    assert_eq!(decode(0x00EE), Instruction::Return);
    assert_eq!(decode(0x1ABC), Instruction::Jump(0xABC));
    assert_eq!(decode(0x8AB4), Instruction::AddReg(0xA, 0xB));
    assert_eq!(decode(0xD123), Instruction::Draw(1, 2, 3));
    assert_eq!(decode(0xF365), Instruction::LoadRegs(3));
    assert_eq!(decode(0x5121), Instruction::Unknown(0x5121));
    assert_eq!(decode(0xE0A2), Instruction::Unknown(0xE0A2));
}

#[test]
fn keyboard_layout() {
    assert_eq!(map_key(HostKey::Key1), Some(0x1));
    assert_eq!(map_key(HostKey::Key4), Some(0xC));
    assert_eq!(map_key(HostKey::X), Some(0x0));
    assert_eq!(map_key(HostKey::V), Some(0xF));
    assert_eq!(map_key(HostKey::Other), None);
    let keypad = keypad_from_host_keys(&[HostKey::Q, HostKey::Other, HostKey::F]);
    let mut expected = [false; 16];
    expected[0x4] = true;
    expected[0xE] = true;
    assert_eq!(keypad, expected);
    assert_eq!(keypad_from_host_keys(&[]), [false; 16]);
}

#[test]
fn framebuffer_colours() {
    assert_eq!(framebuffer_to_u32(&[true, false, true]), vec![0x00FFFFFF, 0, 0x00FFFFFF]);
    assert!(framebuffer_to_u32(&[]).is_empty());
}

#[test]
fn pacer_hands_out_whole_periods() {
    let mut pacer = Pacer::new(10, 100);
    assert_eq!(pacer.advance(25), (2, 0));
    assert_eq!(pacer.advance(80), (8, 1));
    assert_eq!(pacer.advance(0), (0, 0));
    assert_eq!(pacer.advance(95), (10, 1));
}

#[test]
fn default_is_new() {
    let chip8 = Chip8::default();
    assert_eq!(lit_count(&chip8), 0);
    assert!(!chip8.draw_flag());
    assert!(!chip8.should_beep());
}

#[test]
fn failed_step_moves_past_the_bad_opcode() {
    let mut prog = vec![0x0000, 0x00EE, 0x6004];
    prog.extend_from_slice(&draw_digit_of(0));
    let mut chip8 = machine(&prog);
    assert_eq!(chip8.step(), Err(Chip8Error::UnknownOpcode(0)));
    assert_eq!(chip8.step(), Err(Chip8Error::StackUnderflow));
    run(&mut chip8, 4);
    assert_eq!(chip8.get_framebuffer().to_vec(), glyph_only(4));
}

#[test]
fn subtraction_borrow_clears_vf() {
    // V0 = 2, V1 = 3, V0 -= V1 -> 0xFF with VF = 0; draw VF.
    let mut prog = vec![0x6002, 0x6103, 0x8015];
    prog.extend_from_slice(&draw_digit_of(0xF));
    let mut chip8 = machine(&prog);
    run(&mut chip8, 6);
    assert_eq!(chip8.get_framebuffer().to_vec(), glyph_only(0));
}

#[test]
fn add_immediate_wraps_without_touching_vf() {
    // VF = 3, V0 = 0xFE, V0 += 3 wraps to 1; draw V0.
    let mut prog = vec![0x6F03, 0x60FE, 0x7003];
    prog.extend_from_slice(&draw_digit_of(0));
    let mut chip8 = machine(&prog);
    run(&mut chip8, 6);
    assert_eq!(chip8.get_framebuffer().to_vec(), glyph_only(1));
}

#[test]
fn load_store_quirk_keeps_index() {
    // With the quirk, I stays at 0x300 after FX55, so FX65 reads back what was stored.
    let quirks = QuirkConfig { shift: false, load_store: true, jumping: false };
    let mut prog = vec![0x6006, 0xA300, 0xF055, 0x6000, 0xF065];
    prog.extend_from_slice(&draw_digit_of(0));
    let mut chip8 = machine_with(quirks, &prog);
    run(&mut chip8, 8);
    assert_eq!(chip8.get_framebuffer().to_vec(), glyph_only(6));
}

#[test]
fn every_keypad_key_has_one_host_key() {
    let all = [
        HostKey::Key1,
        HostKey::Key2,
        HostKey::Key3,
        HostKey::Key4,
        HostKey::Q,
        HostKey::W,
        HostKey::E,
        HostKey::R,
        HostKey::A,
        HostKey::S,
        HostKey::D,
        HostKey::F,
        HostKey::Z,
        HostKey::X,
        HostKey::C,
        HostKey::V,
    ];
    let mut seen = [false; 16];
    for key in all {
        let k = map_key(key).unwrap() as usize;
        assert!(!seen[k]);
        seen[k] = true;
    }
    assert_eq!(seen, [true; 16]);
    assert_eq!(keypad_from_host_keys(&all), [true; 16]);
}
