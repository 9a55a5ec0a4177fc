use vstd::prelude::*;

mod opcodes;

use crate::config::{default_quirks, QuirkConfig};
use crate::error::{Chip8Error, Result};
use crate::instruction::{decode, decode_spec, Instruction};
use crate::random::random_byte;
use crate::semantics::{
    advanced, execute_defined, fetched, first_released_from, font_sprites, initial_state,
    key_released, lemma_first_released_keys_only, next_state, outcome, rom_capacity, step_defined, step_outcome,
    step_state, timers_ticked, with_keys, with_rom, Chip8View,
};
use crate::{
    FONTSET_START_ADDRESS, FRAMEBUFFER_LEN, KEY_COUNT, MEMORY_BYTES,
    PROGRAM_COUNTER_START_ADDRESS, REGISTER_COUNT, SCREEN_HEIGHT,
};

verus! {

/// The CHIP-8 virtual machine.
pub struct Chip8 {
    pub(crate) memory: [u8; MEMORY_BYTES],
    pub(crate) framebuffer: [bool; FRAMEBUFFER_LEN],
    pub(crate) program_counter: u16,
    pub(crate) index_register: u16,
    pub(crate) stack: Vec<u16>,
    pub(crate) delay_timer: u8,
    pub(crate) sound_timer: u8,
    pub(crate) registers: [u8; REGISTER_COUNT],
    pub(crate) quirk_config: QuirkConfig,
    pub(crate) keypad: [bool; KEY_COUNT],
    pub(crate) last_keypad: [bool; KEY_COUNT],
    pub(crate) waiting_vblank: bool,
    pub(crate) draw_flag: bool,
}

impl View for Chip8 {
    type V = Chip8View;

    closed spec fn view(&self) -> Chip8View {
        Chip8View {
            memory: self.memory@,
            framebuffer: self.framebuffer@,
            pc: self.program_counter,
            index: self.index_register,
            stack: self.stack@,
            delay_timer: self.delay_timer,
            sound_timer: self.sound_timer,
            registers: self.registers@,
            quirks: self.quirk_config,
            keypad: self.keypad@,
            last_keypad: self.last_keypad@,
            waiting_vblank: self.waiting_vblank,
            draw_flag: self.draw_flag,
        }
    }
}

/// The font sprites as bytes.
fn fontset() -> (r: [u8; 80])
    ensures
        r@ == font_sprites(),
{
    let r: [u8; 80] = [
        0xF0, 0x90, 0x90, 0x90, 0xF0, // 0
        0x20, 0x60, 0x20, 0x20, 0x70, // 1
        0xF0, 0x10, 0xF0, 0x80, 0xF0, // 2
        0xF0, 0x10, 0xF0, 0x10, 0xF0, // 3
        0x90, 0x90, 0xF0, 0x10, 0x10, // 4
        0xF0, 0x80, 0xF0, 0x10, 0xF0, // 5
        0xF0, 0x80, 0xF0, 0x90, 0xF0, // 6
        0xF0, 0x10, 0x20, 0x40, 0x40, // 7
        0xF0, 0x90, 0xF0, 0x90, 0xF0, // 8
        0xF0, 0x90, 0xF0, 0x10, 0xF0, // 9
        0xF0, 0x90, 0xF0, 0x90, 0x90, // A
        0xE0, 0x90, 0xE0, 0x90, 0xE0, // B
        0xF0, 0x80, 0x80, 0x80, 0xF0, // C
        0xE0, 0x90, 0x90, 0x90, 0xE0, // D
        0xF0, 0x80, 0xF0, 0x80, 0xF0, // E
        0xF0, 0x80, 0xF0, 0x80, 0x80, // F
    ];
    assert(r@ =~= font_sprites());
    r
}

impl Default for Chip8 {
    /// Same as `Chip8::new`.
    fn default() -> (r: Self)
        ensures
            r@ == initial_state(default_quirks()),
    {
        Self::new()
    }
}

impl Chip8 {
    /// The sequences of the view have the sizes of the arrays behind them.
    pub proof fn lemma_view_wf(&self)
        ensures
            self@.wf(),
    {
    }

    /// A machine at power-on with every quirk switched off.
    pub fn new() -> (r: Self)
        ensures
            r@ == initial_state(default_quirks()),
    {
        Self::with_config(QuirkConfig::default())
    }

    /// A machine at power-on with the given quirks.
    pub fn with_config(quirk_config: QuirkConfig) -> (r: Self)
        ensures
            r@ == initial_state(quirk_config),
    {
        let mut memory = [0u8; MEMORY_BYTES];
        let font = fontset();
        for i in 0..80
            invariant
                font@ == font_sprites(),
                forall|k: int|
                    #![trigger memory@[k]]
                    0 <= k < MEMORY_BYTES ==> memory@[k] == if FONTSET_START_ADDRESS <= k
                        < FONTSET_START_ADDRESS + i {
                        font_sprites()[k - FONTSET_START_ADDRESS]
                    } else {
                        0u8
                    },
        {
            memory[FONTSET_START_ADDRESS + i] = font[i];
        }
        let r = Self {
            memory,
            framebuffer: [false; FRAMEBUFFER_LEN],
            program_counter: PROGRAM_COUNTER_START_ADDRESS as u16,
            index_register: 0,
            stack: Vec::new(),
            delay_timer: 0,
            sound_timer: 0,
            registers: [0; REGISTER_COUNT],
            quirk_config,
            keypad: [false; KEY_COUNT],
            last_keypad: [false; KEY_COUNT],
            waiting_vblank: false,
            draw_flag: false,
        };
        assert(r@ =~= initial_state(quirk_config));
        r
    }

    /// Copies `rom` to the program start address.
    ///
    /// Fails with `RomTooLarge`, leaving the machine unchanged, when the ROM is
    /// longer than the memory above the program start address.
    pub fn load_rom(&mut self, rom: &[u8]) -> (r: Result<()>)
        ensures
            rom@.len() > rom_capacity() ==> r == Err::<(), Chip8Error>(
                Chip8Error::RomTooLarge { rom_size: rom@.len() as usize, available: rom_capacity() as usize },
            ) && final(self)@ == old(self)@,
            rom@.len() <= rom_capacity() ==> r == Ok::<(), Chip8Error>(())
                && final(self)@ == with_rom(old(self)@, rom@),
            rom@.len() <= rom_capacity() ==> forall|k: int|
                0 <= k < rom@.len() ==> #[trigger] final(self)@.memory[PROGRAM_COUNTER_START_ADDRESS
                    + k] == rom@[k],
            rom@.len() <= rom_capacity() ==> forall|a: int|
                0 <= a < MEMORY_BYTES && !(PROGRAM_COUNTER_START_ADDRESS <= a
                    < PROGRAM_COUNTER_START_ADDRESS + rom@.len()) ==> #[trigger] final(self)@.memory[a]
                    == old(self)@.memory[a],
    {
        let available_memory = MEMORY_BYTES - PROGRAM_COUNTER_START_ADDRESS;
        if rom.len() > available_memory {
            return Err(Chip8Error::RomTooLarge { rom_size: rom.len(), available: available_memory });
        }
        let ghost s0 = self@;
        for i in 0..rom.len()
            invariant
                rom@.len() <= rom_capacity(),
                self@ == (Chip8View { memory: self@.memory, ..s0 }),
                self@.memory.len() == MEMORY_BYTES,
                forall|k: int|
                    #![trigger self@.memory[k]]
                    0 <= k < MEMORY_BYTES ==> self@.memory[k] == if PROGRAM_COUNTER_START_ADDRESS
                        <= k < PROGRAM_COUNTER_START_ADDRESS + i {
                        rom@[k - PROGRAM_COUNTER_START_ADDRESS]
                    } else {
                        s0.memory[k]
                    },
        {
            self.memory[PROGRAM_COUNTER_START_ADDRESS + i] = rom[i];
        }
        assert(self@ =~= with_rom(s0, rom@));
        Ok(())
    }

    /// One 60 Hz timer tick: counts both timers down and ends the wait for the
    /// vertical blank that `DXYN` started.
    pub fn tick_timers(&mut self)
        ensures
            final(self)@ == timers_ticked(old(self)@),
    {
        self.waiting_vblank = false;
        if self.delay_timer > 0 {
            self.delay_timer -= 1;
        }
        if self.sound_timer > 0 {
            self.sound_timer -= 1;
        }
    }

    /// Whether the display changed since the flag was last cleared.
    pub fn draw_flag(&self) -> (r: bool)
        ensures
            r == self@.draw_flag,
    {
        self.draw_flag
    }

    /// Clears the flag that `draw_flag` reports.
    pub fn clear_draw_flag(&mut self)
        ensures
            final(self)@ == (Chip8View { draw_flag: false, ..old(self)@ }),
    {
        self.draw_flag = false;
    }

    /// Whether the buzzer should sound: the sound timer is running.
    pub fn should_beep(&self) -> (r: bool)
        ensures
            r == (self@.sound_timer > 0),
    {
        self.sound_timer > 0
    }

    /// The display, row-major, `true` meaning lit.
    pub fn get_framebuffer(&self) -> (r: &[bool; FRAMEBUFFER_LEN])
        ensures
            r@ == self@.framebuffer,
    {
        &self.framebuffer
    }

    /// Records the current keypad state; the previous one is kept for `FX0A`.
    pub fn set_keys(&mut self, keys: &[bool; 16])
        ensures
            final(self)@ == with_keys(old(self)@, keys@),
    {
        self.last_keypad = self.keypad;
        self.keypad = *keys;
    }

    /// Runs one fetch-decode-execute cycle.
    ///
    /// Returns `StackUnderflow` for `00EE` on an empty stack and `UnknownOpcode`
    /// for a word that is no instruction; the program counter has then already
    /// moved past it. `CXNN` draws its byte from the thread-local generator.
    pub fn step(&mut self) -> (r: Result<()>)
        requires
            step_defined(old(self)@),
        ensures
            exists|random_byte: u8| final(self)@ == step_state(old(self)@, random_byte),
            r == step_outcome(old(self)@),
    {
        let opcode = self.fetch();
        self.program_counter += 2;
        let ghost advanced_state = self@;
        assert(advanced_state == advanced(old(self)@));
        let r = self.execute(opcode);
        proof {
            let random_byte = choose|random_byte: u8|
                self@ == next_state(advanced_state, decode_spec(opcode), random_byte);
            assert(self@ == step_state(old(self)@, random_byte));
        }
        r
    }

    /// `step` with `random_byte` as the byte that `CXNN` masks.
    pub fn step_with_random(&mut self, random_byte: u8) -> (r: Result<()>)
        requires
            step_defined(old(self)@),
        ensures
            final(self)@ == step_state(old(self)@, random_byte),
            r == step_outcome(old(self)@),
    {
        let opcode = self.fetch();
        self.program_counter += 2;
        let ins = decode(opcode);
        self.execute_instruction(ins, random_byte)
    }

    /// Whether `step` is defined here: the opcode lies inside memory and executing
    /// it neither reads past memory, nor indexes the keypad past its end, nor
    /// overflows the program counter or `I`.
    pub fn can_step(&self) -> (r: bool)
        ensures
            r == step_defined(self@),
    {
        proof {
            self.lemma_view_wf();
        }
        if self.program_counter as usize + 1 >= MEMORY_BYTES {
            return false;
        }
        let ins = decode(self.fetch());
        self.execute_is_defined_at(self.program_counter + 2, ins)
    }

    /// The opcode at the program counter.
    pub(crate) fn fetch(&self) -> (r: u16)
        requires
            self@.pc + 1 < MEMORY_BYTES,
        ensures
            r == fetched(self@),
    {
        let hi = self.memory[self.program_counter as usize] as u16;
        let lo = self.memory[(self.program_counter + 1) as usize] as u16;
        let r = hi << 8 | lo;
        assert(r == hi * 256 + lo) by (bit_vector)
            requires
                hi < 256,
                lo < 256,
                r == hi << 8 | lo,
        ;
        r
    }

    /// Decodes and executes `opcode`; `CXNN` draws its byte from the thread-local generator.
    pub(crate) fn execute(&mut self, opcode: u16) -> (r: Result<()>)
        requires
            execute_defined(old(self)@, decode_spec(opcode)),
        ensures
            exists|random_byte: u8|
                final(self)@ == next_state(old(self)@, decode_spec(opcode), random_byte),
            r == outcome(old(self)@, decode_spec(opcode)),
    {
        let ins = decode(opcode);
        let random = match ins {
            Instruction::Random(_, _) => random_byte(),
            _ => 0,
        };
        self.execute_instruction(ins, random)
    }

    /// The lowest key released since the previous `set_keys`, or `KEY_COUNT`.
    fn first_released_key(&self) -> (r: usize)
        ensures
            r == first_released_from(self@, 0),
    {
        proof {
            self.lemma_view_wf();
        }
        for i in 0..KEY_COUNT
            invariant
                self@.wf(),
                first_released_from(self@, 0) == first_released_from(self@, i as int),
        {
            if self.last_keypad[i] && !self.keypad[i] {
                assert(key_released(self@, i as int));
                return i;
            }
        }
        KEY_COUNT
    }

    /// Whether executing `ins` with the program counter at `pc` is defined.
    fn execute_is_defined_at(&self, pc: u16, ins: Instruction) -> (r: bool)
        requires
            ins.wf(),
        ensures
            r == execute_defined(self@.with_pc(pc as int), ins),
    {
        proof {
            self.lemma_view_wf();
        }
        let can_skip = pc <= u16::MAX - 2;
        match ins {
            Instruction::SkipEqImm(x, nn) => self.registers[x] != nn || can_skip,
            Instruction::SkipNeImm(x, nn) => self.registers[x] == nn || can_skip,
            Instruction::SkipEqReg(x, y) => self.registers[x] != self.registers[y] || can_skip,
            Instruction::SkipNeReg(x, y) => self.registers[x] == self.registers[y] || can_skip,
            Instruction::Draw(_, y, n) => if self.waiting_vblank {
                pc >= 2
            } else {
                let y_coord = self.registers[y] as usize % SCREEN_HEIGHT;
                let rows = if n < SCREEN_HEIGHT - y_coord { n } else { SCREEN_HEIGHT - y_coord };
                rows == 0 || self.index_register as usize + rows <= MEMORY_BYTES
            },
            Instruction::SkipKeyDown(x) => {
                let key = self.registers[x] as usize;
                key < KEY_COUNT && (!self.keypad[key] || can_skip)
            },
            Instruction::SkipKeyUp(x) => {
                let key = self.registers[x] as usize;
                key < KEY_COUNT && (self.keypad[key] || can_skip)
            },
            Instruction::WaitKey(_) => {
                proof {
                    lemma_first_released_keys_only(self@, self@.with_pc(pc as int), 0);
                }
                self.first_released_key() < KEY_COUNT || pc >= 2
            },
            Instruction::AddIndex(x) => self.index_register as usize + self.registers[x] as usize
                <= u16::MAX as usize,
            Instruction::StoreBcd(_) => (self.index_register as usize) + 2 < MEMORY_BYTES,
            Instruction::StoreRegs(x) => (self.index_register as usize) + x < MEMORY_BYTES,
            Instruction::LoadRegs(x) => (self.index_register as usize) + x < MEMORY_BYTES,
            _ => true,
        }
    }
}

} // verus!
