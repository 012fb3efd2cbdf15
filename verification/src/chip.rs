use crate::error::ChipError;
use crate::font::{glyph_address, with_font, FONT_LENGTH, FONT_SPRITES, FONT_START, GLYPH_SIZE};
use crate::instruction::{decode, decode_spec, Instruction};
use crate::keypad::lookup_key;
use crate::random::random_byte;
use crate::state::{
    outcome, sprite_bit, wrap16, ChipState, DISPLAY_LENGTH, HEIGHT, MEMORY_SIZE, PROGRAM_START,
    REGISTER_COUNT, STACK_DEPTH, WIDTH,
};
use vstd::prelude::*;

verus! {

/// The machine: memory, registers, stack, timers, key latch and display.
///
/// Its fields are private; [`ChipState`] is what a value stands for, and the
/// contracts of the methods speak of that view alone.
pub struct Chip {
    mem: [u8; 4096],
    registers: [u8; 16],
    index: u16,
    pc: u16,
    stack: [u16; 16],
    sp: usize,
    delay_timer: u8,
    sound_timer: u8,
    keys_pressed: Option<u8>,
    display: [u16; 2048],
    instr: u16,
}

/// The cells that are lit: those that hold anything but zero.
pub open spec fn lit_cells(cells: Seq<u16>) -> Seq<bool> {
    Seq::new(cells.len(), |k: int| cells[k] != 0)
}

impl View for Chip {
    type V = ChipState;

    closed spec fn view(&self) -> ChipState {
        ChipState {
            memory: self.mem@,
            registers: self.registers@,
            index: self.index,
            program_counter: self.pc,
            stack: self.stack@.take(self.sp as int),
            delay_timer: self.delay_timer,
            sound_timer: self.sound_timer,
            key: self.keys_pressed,
            display: lit_cells(self.display@),
            instruction: self.instr,
        }
    }
}

impl Chip {
    /// The stack pointer stays within the stack, a latched key is one of the
    /// sixteen, and a display cell holds 0 or 1.
    #[verifier::type_invariant]
    spec fn inv(self) -> bool {
        &&& self.sp <= STACK_DEPTH
        &&& (self.keys_pressed matches Some(k) ==> k < 16)
        &&& forall|k: int| 0 <= k < DISPLAY_LENGTH ==> self.display@[k] <= 1
    }

    /// A machine with memory, registers, stack, timers and display zeroed,
    /// the font installed in the reserved region, the program counter at the
    /// load address and no key latched.
    pub fn new() -> (chip: Chip)
        ensures
            chip@ == ChipState::initial(),
            chip@.wf(),
    {
        let mut chip = Chip {
            mem: [0; 4096],
            registers: [0; 16],
            index: 0,
            pc: PROGRAM_START,
            stack: [0; 16],
            sp: 0,
            delay_timer: 0,
            sound_timer: 0,
            keys_pressed: None,
            display: [0; 2048],
            instr: 0,
        };
        assert(chip@.memory =~= Seq::new(MEMORY_SIZE as nat, |a: int| 0u8));
        assert(chip@.registers =~= Seq::new(REGISTER_COUNT as nat, |i: int| 0u8));
        assert(chip@.display =~= Seq::new(DISPLAY_LENGTH as nat, |k: int| false));
        assert(chip@.stack =~= Seq::empty());
        chip.init();
        chip
    }

    /// Writes the sixteen built-in glyphs into the reserved region of memory.
    pub fn init(&mut self)
        ensures
            final(self)@ == old(self)@.install_fonts(),
            final(self)@.wf(),
    {
        proof {
            use_type_invariant(&*self);
        }
        let mut i: usize = 0;
        while i < FONT_LENGTH
            invariant
                i <= FONT_LENGTH,
                self.mem@.len() == MEMORY_SIZE,
                forall|a: int|
                    0 <= a < MEMORY_SIZE ==> self.mem@[a] == if FONT_START <= a < FONT_START + i {
                        FONT_SPRITES@[a - FONT_START]
                    } else {
                        old(self).mem@[a]
                    },
                self.same_but_memory(*old(self)),
            decreases FONT_LENGTH - i,
        {
            proof {
                use_type_invariant(&*self);
            }
            self.mem[FONT_START as usize + i] = FONT_SPRITES[i];
            i += 1;
        }
        assert(self@.memory =~= with_font(old(self)@.memory));
    }

    /// Copies a program into memory from the load address on.
    ///
    /// A program that would run past the top of memory is refused with
    /// `RomTooLarge`, and memory is left as it was; one that ends exactly at
    /// the top is accepted.
    pub fn load_program(&mut self, bytes: &[u8]) -> (result: Result<(), ChipError>)
        ensures
            outcome(old(self)@, final(self)@, result, old(self)@.load_program(bytes@)),
            final(self)@.wf(),
    {
        proof {
            use_type_invariant(&*self);
        }
        let length = bytes.len();
        if length > MEMORY_SIZE - PROGRAM_START as usize {
            return Err(ChipError::RomTooLarge);
        }
        let mut i: usize = 0;
        while i < length
            invariant
                i <= length,
                length == bytes@.len(),
                PROGRAM_START + length <= MEMORY_SIZE,
                self.mem@.len() == MEMORY_SIZE,
                forall|a: int|
                    0 <= a < MEMORY_SIZE ==> self.mem@[a] == if PROGRAM_START <= a < PROGRAM_START
                        + i {
                        bytes@[a - PROGRAM_START]
                    } else {
                        old(self).mem@[a]
                    },
                self.same_but_memory(*old(self)),
            decreases length - i,
        {
            proof {
                use_type_invariant(&*self);
            }
            self.mem[PROGRAM_START as usize + i] = bytes[i];
            i += 1;
        }
        assert(self@.memory =~= old(self)@.load_program(bytes@).unwrap().memory);
        Ok(())
    }

    /// Forgets the latched key.
    pub fn clear_input(&mut self)
        ensures
            final(self)@ == old(self)@.clear_input(),
            final(self)@.wf(),
    {
        proof {
            use_type_invariant(&*self);
        }
        self.keys_pressed = None;
    }

    /// Latches the key that `keycode` stands for. A key code that stands for
    /// none of the sixteen keys leaves no key latched.
    pub fn feed_input(&mut self, keycode: i32)
        ensures
            final(self)@ == old(self)@.feed_input(keycode),
            final(self)@.wf(),
    {
        proof {
            use_type_invariant(&*self);
        }
        self.keys_pressed = lookup_key(keycode);
    }

    /// Reads the instruction word at the program counter, high byte first,
    /// and moves the program counter past it.
    ///
    /// Where either byte lies beyond the top of memory it fails with
    /// `AddressOutOfRange` and changes nothing.
    pub fn fetch(&mut self) -> (result: Result<(), ChipError>)
        ensures
            outcome(old(self)@, final(self)@, result, old(self)@.fetch()),
            final(self)@.wf(),
    {
        proof {
            use_type_invariant(&*self);
        }
        let pc = self.pc as usize;
        if pc + 1 >= MEMORY_SIZE {
            return Err(ChipError::AddressOutOfRange);
        }
        let high = self.mem[pc];
        let low = self.mem[pc + 1];
        proof {
            lemma_big_endian(high, low);
        }
        self.instr = ((high as u16) << 8) | low as u16;
        self.pc += 2;
        Ok(())
    }

    /// Moves the delay timer and the sound timer one step towards zero; a
    /// timer at zero stays there.
    pub fn decrement_delay_timer(&mut self)
        ensures
            final(self)@ == old(self)@.tick(),
            final(self)@.wf(),
    {
        proof {
            use_type_invariant(&*self);
        }
        if self.delay_timer > 0 {
            self.delay_timer -= 1;
        }
        if self.sound_timer > 0 {
            self.sound_timer -= 1;
        }
    }

    /// Decodes and executes the instruction that was fetched last.
    ///
    /// The `Random` instruction draws a byte from the random number
    /// generator, so what it leaves in its register is one of the values that
    /// [`Chip::execute_with`] computes, for some byte. Every other
    /// instruction does exactly what `execute_with` does, whatever byte that
    /// is given.
    pub fn execute(&mut self) -> (result: Result<(), ChipError>)
        ensures
            exists|random: u8|
                outcome(old(self)@, final(self)@, result, #[trigger] old(self)@.execute(random)),
            !(decode_spec(old(self)@.instruction) is Random) ==> forall|random: u8|
                outcome(old(self)@, final(self)@, result, #[trigger] old(self)@.execute(random)),
            final(self)@.wf(),
    {
        let random = match decode(self.instr) {
            Instruction::Random { .. } => random_byte(),
            _ => 0,
        };
        self.execute_with(random)
    }

    /// Decodes and executes the instruction that was fetched last, with
    /// `random` as the byte that a `Random` instruction draws.
    ///
    /// A return with an empty stack fails with `StackUnderflow`, a call with
    /// a full stack with `StackOverflow`, and an instruction that would read
    /// or write memory beyond its top with `AddressOutOfRange`. A failed
    /// instruction changes nothing. A word that encodes no instruction does
    /// nothing and succeeds.
    pub fn execute_with(&mut self, random: u8) -> (result: Result<(), ChipError>)
        ensures
            outcome(old(self)@, final(self)@, result, old(self)@.execute(random)),
            final(self)@.wf(),
    {
        let result = match decode(self.instr) {
            Instruction::ClearDisplay => {
                self.cls_00e0();
                Ok(())
            },
            Instruction::Return => self.ret_00ee(),
            Instruction::Jump { address } => {
                self.jmp_1nnn(address);
                Ok(())
            },
            Instruction::Call { address } => self.call_2nnn(address),
            Instruction::SkipEqualConst { x, value } => {
                self.se_3xkk(x, value);
                Ok(())
            },
            Instruction::SkipNotEqualConst { x, value } => {
                self.sne_4xkk(x, value);
                Ok(())
            },
            Instruction::SkipEqualReg { x, y } => {
                self.se_5xy0(x, y);
                Ok(())
            },
            Instruction::LoadConst { x, value } => {
                self.ld_6xkk(x, value);
                Ok(())
            },
            Instruction::AddConst { x, value } => {
                self.add_7xkk(x, value);
                Ok(())
            },
            Instruction::CopyReg { x, y } => {
                self.ld_8xy0(x, y);
                Ok(())
            },
            Instruction::Or { x, y } => {
                self.or_8xy1(x, y);
                Ok(())
            },
            Instruction::And { x, y } => {
                self.and_8xy2(x, y);
                Ok(())
            },
            Instruction::Xor { x, y } => {
                self.xor_8xy3(x, y);
                Ok(())
            },
            Instruction::AddReg { x, y } => {
                self.add_8xy4(x, y);
                Ok(())
            },
            Instruction::SubReg { x, y } => {
                self.sub_8xy5(x, y);
                Ok(())
            },
            Instruction::ShiftRight { x, y } => {
                self.shr_8xy6(x, y);
                Ok(())
            },
            Instruction::SubRegReversed { x, y } => {
                self.sub_8xy7(x, y);
                Ok(())
            },
            Instruction::ShiftLeft { x, y } => {
                self.shl_8xye(x, y);
                Ok(())
            },
            Instruction::SkipNotEqualReg { x, y } => {
                self.sne_9xy0(x, y);
                Ok(())
            },
            Instruction::LoadIndex { address } => {
                self.ld_annn(address);
                Ok(())
            },
            Instruction::JumpOffset { address } => {
                self.jp_bnnn(address);
                Ok(())
            },
            Instruction::Random { x, mask } => {
                self.rnd_cxnn(x, mask, random);
                Ok(())
            },
            Instruction::Draw { x, y, rows } => self.drw_dxyn(x, y, rows),
            Instruction::SkipKey { x } => {
                self.skp_ex9e(x);
                Ok(())
            },
            Instruction::SkipNotKey { x } => {
                self.sknp_exa1(x);
                Ok(())
            },
            Instruction::ReadDelay { x } => {
                self.ld_fx07(x);
                Ok(())
            },
            Instruction::WaitKey { x } => {
                self.ld_fx0a(x);
                Ok(())
            },
            Instruction::SetDelay { x } => {
                self.ld_fx15(x);
                Ok(())
            },
            Instruction::SetSound { x } => {
                self.ld_fx18(x);
                Ok(())
            },
            Instruction::AddIndex { x } => {
                self.add_fx1e(x);
                Ok(())
            },
            Instruction::FontGlyph { x } => {
                self.ld_fx29(x);
                Ok(())
            },
            Instruction::Bcd { x } => self.ld_fx33(x),
            Instruction::StoreRegisters { x } => self.ld_fx55(x),
            Instruction::LoadRegisters { x } => self.ld_fx65(x),
            Instruction::Unknown => Ok(()),
        };
        proof {
            use_type_invariant(&*self);
        }
        result
    }

    /// `00E0`: clears the display.
    fn cls_00e0(&mut self)
        ensures
            final(self)@ == old(self)@.clear_display(),
    {
        proof {
            use_type_invariant(&*self);
        }
        self.display = [0; 2048];
        assert(self@.display =~= old(self)@.clear_display().display);
    }

    /// `00EE`: returns from a subroutine, or reports an empty stack.
    fn ret_00ee(&mut self) -> (result: Result<(), ChipError>)
        ensures
            outcome(old(self)@, final(self)@, result, old(self)@.ret()),
    {
        proof {
            use_type_invariant(&*self);
        }
        if self.sp == 0 {
            return Err(ChipError::StackUnderflow);
        }
        self.sp -= 1;
        self.pc = self.stack[self.sp];
        assert(self@.stack =~= old(self)@.stack.drop_last());
        Ok(())
    }

    /// `2NNN`: calls a subroutine, or reports a full stack.
    fn call_2nnn(&mut self, nnn: u16) -> (result: Result<(), ChipError>)
        ensures
            outcome(old(self)@, final(self)@, result, old(self)@.call(nnn)),
    {
        proof {
            use_type_invariant(&*self);
        }
        if self.sp >= STACK_DEPTH {
            return Err(ChipError::StackOverflow);
        }
        self.stack[self.sp] = self.pc;
        self.sp += 1;
        self.pc = nnn;
        assert(self@.stack =~= old(self)@.stack.push(old(self)@.program_counter));
        Ok(())
    }

    /// Moves the program counter past one instruction, modulo 65536.
    fn skip(&mut self)
        ensures
            final(self)@ == old(self)@.skip_if(true),
    {
        proof {
            use_type_invariant(&*self);
        }
        self.pc = self.pc.wrapping_add(2);
    }

    /// `3XNN`: skips if register `x` equals `kk`.
    fn se_3xkk(&mut self, x: u8, kk: u8)
        requires
            x < 16,
        ensures
            final(self)@ == old(self)@.skip_if(old(self)@.registers[x as int] == kk),
    {
        if self.registers[x as usize] == kk {
            self.skip();
        }
    }

    /// `4XNN`: skips if register `x` differs from `kk`.
    fn sne_4xkk(&mut self, x: u8, kk: u8)
        requires
            x < 16,
        ensures
            final(self)@ == old(self)@.skip_if(old(self)@.registers[x as int] != kk),
    {
        if self.registers[x as usize] != kk {
            self.skip();
        }
    }

    /// `5XY0`: skips if registers `x` and `y` are equal.
    fn se_5xy0(&mut self, x: u8, y: u8)
        requires
            x < 16,
            y < 16,
        ensures
            final(self)@ == old(self)@.skip_if(
                old(self)@.registers[x as int] == old(self)@.registers[y as int],
            ),
    {
        if self.registers[x as usize] == self.registers[y as usize] {
            self.skip();
        }
    }

    /// `9XY0`: skips if registers `x` and `y` differ.
    fn sne_9xy0(&mut self, x: u8, y: u8)
        requires
            x < 16,
            y < 16,
        ensures
            final(self)@ == old(self)@.skip_if(
                old(self)@.registers[x as int] != old(self)@.registers[y as int],
            ),
    {
        if self.registers[x as usize] != self.registers[y as usize] {
            self.skip();
        }
    }

    /// `1NNN`: jumps to `nnn`.
    fn jmp_1nnn(&mut self, nnn: u16)
        ensures
            final(self)@ == (ChipState { program_counter: nnn, ..old(self)@ }),
    {
        proof {
            use_type_invariant(&*self);
        }
        self.pc = nnn;
    }

    /// Stores `value` in register `x`.
    fn set_register(&mut self, x: u8, value: u8)
        requires
            x < 16,
        ensures
            final(self)@ == old(self)@.with_register(x as int, value),
    {
        proof {
            use_type_invariant(&*self);
        }
        self.registers[x as usize] = value;
    }

    /// `6XNN`: loads `kk` into register `x`.
    fn ld_6xkk(&mut self, x: u8, kk: u8)
        requires
            x < 16,
        ensures
            final(self)@ == old(self)@.with_register(x as int, kk),
    {
        self.set_register(x, kk);
    }

    /// `7XNN`: adds `kk` to register `x`, modulo 256. The flag register is
    /// not written.
    fn add_7xkk(&mut self, x: u8, kk: u8)
        requires
            x < 16,
        ensures
            final(self)@ == old(self)@.add_constant(x as int, kk),
    {
        let sum = self.registers[x as usize].wrapping_add(kk);
        self.set_register(x, sum);
    }

    /// `8XY0`: copies register `y` into register `x`.
    fn ld_8xy0(&mut self, x: u8, y: u8)
        requires
            x < 16,
            y < 16,
        ensures
            final(self)@ == old(self)@.with_register(x as int, old(self)@.registers[y as int]),
    {
        let value = self.registers[y as usize];
        self.set_register(x, value);
    }

    /// `8XY1`: ORs register `y` into register `x`.
    fn or_8xy1(&mut self, x: u8, y: u8)
        requires
            x < 16,
            y < 16,
        ensures
            final(self)@ == old(self)@.with_register(
                x as int,
                old(self)@.registers[x as int] | old(self)@.registers[y as int],
            ),
    {
        let value = self.registers[x as usize] | self.registers[y as usize];
        self.set_register(x, value);
    }

    /// `8XY2`: ANDs register `y` into register `x`.
    fn and_8xy2(&mut self, x: u8, y: u8)
        requires
            x < 16,
            y < 16,
        ensures
            final(self)@ == old(self)@.with_register(
                x as int,
                old(self)@.registers[x as int] & old(self)@.registers[y as int],
            ),
    {
        let value = self.registers[x as usize] & self.registers[y as usize];
        self.set_register(x, value);
    }

    /// `8XY3`: XORs register `y` into register `x`.
    fn xor_8xy3(&mut self, x: u8, y: u8)
        requires
            x < 16,
            y < 16,
        ensures
            final(self)@ == old(self)@.with_register(
                x as int,
                old(self)@.registers[x as int] ^ old(self)@.registers[y as int],
            ),
    {
        let value = self.registers[x as usize] ^ self.registers[y as usize];
        self.set_register(x, value);
    }

    /// `8XY4`: adds register `y` into register `x`, then writes the carry of
    /// the two old values to the flag register.
    fn add_8xy4(&mut self, x: u8, y: u8)
        requires
            x < 16,
            y < 16,
        ensures
            final(self)@ == old(self)@.add_reg(x as int, y as int),
    {
        let vx = self.registers[x as usize];
        let vy = self.registers[y as usize];
        self.set_register(x, vx.wrapping_add(vy));
        match vx.checked_add(vy) {
            Some(_) => {
                self.set_register(0xF, 0);
            },
            None => {
                self.set_register(0xF, 1);
            },
        }
    }

    /// `8XY5`: subtracts register `y` from register `x`, then writes 1 to
    /// the flag register if the old values needed no borrow, else 0.
    fn sub_8xy5(&mut self, x: u8, y: u8)
        requires
            x < 16,
            y < 16,
        ensures
            final(self)@ == old(self)@.sub_reg(x as int, y as int),
    {
        let vx = self.registers[x as usize];
        let vy = self.registers[y as usize];
        self.set_register(x, vx.wrapping_sub(vy));
        match vx.checked_sub(vy) {
            Some(_) => {
                self.set_register(0xF, 1);
            },
            None => {
                self.set_register(0xF, 0);
            },
        }
    }

    /// `8XY7`: register `x` becomes register `y` minus register `x`, then 1
    /// is written to the flag register if the old values needed no borrow,
    /// else 0.
    fn sub_8xy7(&mut self, x: u8, y: u8)
        requires
            x < 16,
            y < 16,
        ensures
            final(self)@ == old(self)@.sub_reg_reversed(x as int, y as int),
    {
        let vx = self.registers[x as usize];
        let vy = self.registers[y as usize];
        self.set_register(x, vy.wrapping_sub(vx));
        match vy.checked_sub(vx) {
            Some(_) => {
                self.set_register(0xF, 1);
            },
            None => {
                self.set_register(0xF, 0);
            },
        }
    }

    /// `8XY6`: copies register `y` into `x`, writes the bit that the shift
    /// drops to the flag register, and shifts register `x` right by one.
    fn shr_8xy6(&mut self, x: u8, y: u8)
        requires
            x < 16,
            y < 16,
        ensures
            final(self)@ == old(self)@.shift_right(x as int, y as int),
    {
        let value = self.registers[y as usize];
        self.set_register(x, value);
        self.set_register(0xF, value & 1);
        let flagged = self.registers[x as usize];
        self.set_register(x, flagged >> 1);
        proof {
            lemma_shift_bits(value);
            lemma_shift_bits(flagged);
        }
    }

    /// `8XYE`: copies register `y` into `x`, writes the bit that the shift
    /// drops to the flag register, and shifts register `x` left by one.
    fn shl_8xye(&mut self, x: u8, y: u8)
        requires
            x < 16,
            y < 16,
        ensures
            final(self)@ == old(self)@.shift_left(x as int, y as int),
    {
        let value = self.registers[y as usize];
        self.set_register(x, value);
        self.set_register(0xF, (value >> 7) & 1);
        let flagged = self.registers[x as usize];
        self.set_register(x, flagged << 1);
        proof {
            lemma_shift_bits(value);
            lemma_shift_bits(flagged);
        }
    }

    /// `ANNN`: loads `nnn` into the index register.
    fn ld_annn(&mut self, nnn: u16)
        ensures
            final(self)@ == (ChipState { index: nnn, ..old(self)@ }),
    {
        proof {
            use_type_invariant(&*self);
        }
        self.index = nnn;
    }

    /// `BNNN`: jumps to `nnn` plus register 0.
    fn jp_bnnn(&mut self, nnn: u16)
        requires
            nnn < 0x1000,
        ensures
            final(self)@ == (ChipState {
                program_counter: wrap16(nnn + old(self)@.registers[0]),
                ..old(self)@
            }),
    {
        proof {
            use_type_invariant(&*self);
        }
        self.pc = nnn + self.registers[0x0] as u16;
    }

    /// `CXNN`: register `x` becomes the byte `random` OR-ed with the nibble
    /// `n`.
    fn rnd_cxnn(&mut self, x: u8, n: u8, random: u8)
        requires
            x < 16,
        ensures
            final(self)@ == old(self)@.with_register(x as int, random | n),
    {
        self.set_register(x, random | n);
    }

    /// `DXYN`: XORs the sprite of `n` rows at the index register into the
    /// display, with its top left corner at the cell that registers `x` and
    /// `y` name, each taken modulo the display's size. Bit 7 of a row is its
    /// leftmost cell. Cells beyond the right or the lower edge are dropped.
    /// The flag register is not written.
    ///
    /// Where a row that falls on the display lies beyond the top of memory,
    /// it fails with `AddressOutOfRange` before any cell is changed.
    fn drw_dxyn(&mut self, x: u8, y: u8, n: u8) -> (result: Result<(), ChipError>)
        requires
            x < 16,
            y < 16,
            n < 16,
        ensures
            outcome(old(self)@, final(self)@, result, old(self)@.draw(x as int, y as int, n as int)),
    {
        proof {
            use_type_invariant(&*self);
        }
        let width = WIDTH as usize;
        let height = HEIGHT as usize;
        let x0 = self.registers[x as usize] as usize % width;
        let y0 = self.registers[y as usize] as usize % height;
        let visible = if n as usize <= height - y0 {
            n as usize
        } else {
            height - y0
        };
        let at = self.index as usize;
        if at + visible > MEMORY_SIZE {
            return Err(ChipError::AddressOutOfRange);
        }
        let ghost before = old(self)@;
        let mut i: usize = 0;
        while i < n as usize
            invariant
                i <= n,
                n < 16,
                width == WIDTH,
                height == HEIGHT,
                x0 < width,
                y0 < height,
                x0 == before.origin_column(x as int),
                y0 == before.origin_row(y as int),
                visible == ChipState::visible_rows(y0 as int, n as int),
                at == old(self).index,
                at + visible <= MEMORY_SIZE,
                before == old(self)@,
                self.same_but_display(*old(self)),
                forall|k: int|
                    0 <= k < DISPLAY_LENGTH ==> (self.display@[k] != 0) == before.drawn_cell(
                        x0 as int,
                        y0 as int,
                        i as int,
                        k,
                    ),
            decreases n - i,
        {
            let mut j: usize = 0;
            while j < 8
                invariant
                    j <= 8,
                    i < n,
                    n < 16,
                    width == WIDTH,
                    height == HEIGHT,
                    x0 < width,
                    y0 < height,
                    visible == ChipState::visible_rows(y0 as int, n as int),
                    at == old(self).index,
                    at + visible <= MEMORY_SIZE,
                    before == old(self)@,
                    self.same_but_display(*old(self)),
                    forall|k: int|
                        0 <= k < DISPLAY_LENGTH ==> (self.display@[k] != 0) == drawn_so_far(
                            before,
                            x0 as int,
                            y0 as int,
                            i as int,
                            j as int,
                            k,
                        ),
                decreases 8 - j,
            {
                if y0 + i < height && x0 + j < width {
                    proof {
                        use_type_invariant(&*self);
                    }
                    let idx = (y0 + i) * width + x0 + j;
                    let row = self.mem[at + i];
                    let cell = self.display[idx];
                    let bit = (row as u16 >> (7 - j)) & 1;
                    proof {
                        lemma_xor_cell(cell, row, j as u8, (7 - j) as u8);
                    }
                    self.display[idx] = cell ^ bit;
                }
                j += 1;
            }
            i += 1;
        }
        assert(self@.display =~= old(self)@.draw(x as int, y as int, n as int).unwrap().display);
        Ok(())
    }

    /// `EX9E`: skips if the key in register `x` is the latched one.
    fn skp_ex9e(&mut self, x: u8)
        requires
            x < 16,
        ensures
            final(self)@ == old(self)@.skip_if(
                old(self)@.key == Some(old(self)@.registers[x as int]),
            ),
    {
        let wanted = self.registers[x as usize];
        match self.keys_pressed {
            Some(key) => {
                if key == wanted {
                    self.skip();
                }
            },
            None => {},
        }
    }

    /// `EXA1`: skips unless the key in register `x` is the latched one.
    fn sknp_exa1(&mut self, x: u8)
        requires
            x < 16,
        ensures
            final(self)@ == old(self)@.skip_if(
                old(self)@.key != Some(old(self)@.registers[x as int]),
            ),
    {
        let wanted = self.registers[x as usize];
        match self.keys_pressed {
            Some(key) => {
                if key != wanted {
                    self.skip();
                }
            },
            None => {
                self.skip();
            },
        }
    }

    /// `FX07`: reads the delay timer into register `x`.
    fn ld_fx07(&mut self, x: u8)
        requires
            x < 16,
        ensures
            final(self)@ == old(self)@.with_register(x as int, old(self)@.delay_timer),
    {
        let value = self.delay_timer;
        self.set_register(x, value);
    }

    /// `FX15`: sets the delay timer from register `x`.
    fn ld_fx15(&mut self, x: u8)
        requires
            x < 16,
        ensures
            final(self)@ == (ChipState {
                delay_timer: old(self)@.registers[x as int],
                ..old(self)@
            }),
    {
        proof {
            use_type_invariant(&*self);
        }
        self.delay_timer = self.registers[x as usize];
    }

    /// `FX18`: sets the sound timer from register `x`.
    fn ld_fx18(&mut self, x: u8)
        requires
            x < 16,
        ensures
            final(self)@ == (ChipState {
                sound_timer: old(self)@.registers[x as int],
                ..old(self)@
            }),
    {
        proof {
            use_type_invariant(&*self);
        }
        self.sound_timer = self.registers[x as usize];
    }

    /// `FX1E`: adds register `x` to the index register, modulo 65536.
    fn add_fx1e(&mut self, x: u8)
        requires
            x < 16,
        ensures
            final(self)@ == (ChipState {
                index: wrap16(old(self)@.index + old(self)@.registers[x as int]),
                ..old(self)@
            }),
    {
        proof {
            use_type_invariant(&*self);
        }
        self.index = self.index.wrapping_add(self.registers[x as usize] as u16);
    }

    /// `FX0A`: stores the latched key in register `x`; with no key latched
    /// it moves the program counter back over this instruction, so that the
    /// next cycle runs it again.
    fn ld_fx0a(&mut self, x: u8)
        requires
            x < 16,
        ensures
            final(self)@ == old(self)@.wait_key(x as int),
    {
        proof {
            use_type_invariant(&*self);
        }
        match self.keys_pressed {
            None => {
                self.pc = self.pc.wrapping_sub(2);
            },
            Some(key) => {
                self.set_register(x, key);
            },
        }
    }

    /// `FX29`: points the index register at the glyph for the low nibble of
    /// register `x`.
    fn ld_fx29(&mut self, x: u8)
        requires
            x < 16,
        ensures
            final(self)@ == (ChipState {
                index: glyph_address(old(self)@.registers[x as int]),
                ..old(self)@
            }),
    {
        proof {
            use_type_invariant(&*self);
        }
        let digit = self.registers[x as usize] & 0x0F;
        proof {
            lemma_low_nibble(self.registers[x as int]);
        }
        self.index = FONT_START + digit as u16 * GLYPH_SIZE;
    }

    /// `FX33`: stores the hundreds, tens and ones of register `x` at the
    /// index register and the two cells after it.
    fn ld_fx33(&mut self, x: u8) -> (result: Result<(), ChipError>)
        requires
            x < 16,
        ensures
            outcome(old(self)@, final(self)@, result, old(self)@.bcd(x as int)),
    {
        proof {
            use_type_invariant(&*self);
        }
        let at = self.index as usize;
        if at + 2 >= MEMORY_SIZE {
            return Err(ChipError::AddressOutOfRange);
        }
        let r = self.registers[x as usize];
        self.mem[at] = r / 100;
        self.mem[at + 1] = r % 100 / 10;
        self.mem[at + 2] = r % 10;
        Ok(())
    }

    /// `FX55`: stores registers `0..=x` in memory from the index register on.
    fn ld_fx55(&mut self, x: u8) -> (result: Result<(), ChipError>)
        requires
            x < 16,
        ensures
            outcome(old(self)@, final(self)@, result, old(self)@.store_registers(x as int)),
    {
        proof {
            use_type_invariant(&*self);
        }
        let at = self.index as usize;
        if at + x as usize >= MEMORY_SIZE {
            return Err(ChipError::AddressOutOfRange);
        }
        let mut i: usize = 0;
        while i <= x as usize
            invariant
                i <= x + 1,
                x < 16,
                at == old(self).index,
                at + x < MEMORY_SIZE,
                self.mem@.len() == MEMORY_SIZE,
                forall|a: int|
                    0 <= a < MEMORY_SIZE ==> self.mem@[a] == if at <= a < at + i {
                        old(self).registers@[a - at]
                    } else {
                        old(self).mem@[a]
                    },
                self.same_but_memory(*old(self)),
            decreases x + 1 - i,
        {
            proof {
                use_type_invariant(&*self);
            }
            self.mem[at + i] = self.registers[i];
            i += 1;
        }
        assert(self@.memory =~= old(self)@.store_registers(x as int).unwrap().memory);
        Ok(())
    }

    /// `FX65`: loads registers `0..=x` from memory from the index register
    /// on.
    fn ld_fx65(&mut self, x: u8) -> (result: Result<(), ChipError>)
        requires
            x < 16,
        ensures
            outcome(old(self)@, final(self)@, result, old(self)@.load_registers(x as int)),
    {
        proof {
            use_type_invariant(&*self);
        }
        let at = self.index as usize;
        if at + x as usize >= MEMORY_SIZE {
            return Err(ChipError::AddressOutOfRange);
        }
        let mut i: usize = 0;
        while i <= x as usize
            invariant
                i <= x + 1,
                x < 16,
                at == old(self).index,
                at + x < MEMORY_SIZE,
                self.registers@.len() == REGISTER_COUNT,
                forall|k: int|
                    0 <= k < REGISTER_COUNT ==> self.registers@[k] == if k < i {
                        old(self).mem@[at + k]
                    } else {
                        old(self).registers@[k]
                    },
                self.same_but_registers(*old(self)),
            decreases x + 1 - i,
        {
            proof {
                use_type_invariant(&*self);
            }
            self.registers[i] = self.mem[at + i];
            i += 1;
        }
        assert(self@.registers =~= old(self)@.load_registers(x as int).unwrap().registers);
        Ok(())
    }

    /// Every field but the registers is as in `before`.
    spec fn same_but_registers(self, before: Chip) -> bool {
        &&& self.mem == before.mem
        &&& self.index == before.index
        &&& self.pc == before.pc
        &&& self.stack == before.stack
        &&& self.sp == before.sp
        &&& self.delay_timer == before.delay_timer
        &&& self.sound_timer == before.sound_timer
        &&& self.keys_pressed == before.keys_pressed
        &&& self.display == before.display
        &&& self.instr == before.instr
    }

    /// The memory.
    pub fn memory(&self) -> (bytes: &[u8; 4096])
        ensures
            bytes@ == self@.memory,
    {
        &self.mem
    }

    /// The general-purpose registers.
    pub fn registers(&self) -> (values: &[u8; 16])
        ensures
            values@ == self@.registers,
    {
        &self.registers
    }

    /// The index register.
    pub fn index(&self) -> (index: u16)
        ensures
            index == self@.index,
    {
        self.index
    }

    /// The address of the next instruction to fetch.
    pub fn program_counter(&self) -> (pc: u16)
        ensures
            pc == self@.program_counter,
    {
        self.pc
    }

    /// The number of return addresses on the stack.
    pub fn stack_pointer(&self) -> (depth: usize)
        ensures
            depth == self@.stack.len(),
            depth <= STACK_DEPTH,
    {
        proof {
            use_type_invariant(self);
        }
        self.sp
    }

    /// The delay timer.
    pub fn delay_timer(&self) -> (timer: u8)
        ensures
            timer == self@.delay_timer,
    {
        self.delay_timer
    }

    /// The sound timer.
    pub fn sound_timer(&self) -> (timer: u8)
        ensures
            timer == self@.sound_timer,
    {
        self.sound_timer
    }

    /// The latched key, if any.
    pub fn key_pressed(&self) -> (key: Option<u8>)
        ensures
            key == self@.key,
            key matches Some(k) ==> k < 16,
    {
        proof {
            use_type_invariant(self);
        }
        self.keys_pressed
    }

    /// The instruction word that was fetched last.
    pub fn instruction(&self) -> (word: u16)
        ensures
            word == self@.instruction,
    {
        self.instr
    }

    /// The display, one integer per cell, row by row: 1 for a lit cell and
    /// 0 for a dark one.
    pub fn display(&self) -> (cells: &[u16; 2048])
        ensures
            lit_cells(cells@) == self@.display,
            forall|k: int| 0 <= k < DISPLAY_LENGTH ==> cells@[k] <= 1,
    {
        proof {
            use_type_invariant(self);
        }
        &self.display
    }

    /// Every field but the display is as in `before`.
    spec fn same_but_display(self, before: Chip) -> bool {
        &&& self.mem == before.mem
        &&& self.registers == before.registers
        &&& self.index == before.index
        &&& self.pc == before.pc
        &&& self.stack == before.stack
        &&& self.sp == before.sp
        &&& self.delay_timer == before.delay_timer
        &&& self.sound_timer == before.sound_timer
        &&& self.keys_pressed == before.keys_pressed
        &&& self.instr == before.instr
    }

    /// Every field but the memory is as in `before`.
    spec fn same_but_memory(self, before: Chip) -> bool {
        &&& self.registers == before.registers
        &&& self.index == before.index
        &&& self.pc == before.pc
        &&& self.stack == before.stack
        &&& self.sp == before.sp
        &&& self.delay_timer == before.delay_timer
        &&& self.sound_timer == before.sound_timer
        &&& self.keys_pressed == before.keys_pressed
        &&& self.display == before.display
        &&& self.instr == before.instr
    }
}

/// Cell `k` while a sprite is being drawn: the rows before `row` are done,
/// and of row `row` the columns before `column`.
spec fn drawn_so_far(
    before: ChipState,
    column0: int,
    row0: int,
    row: int,
    column: int,
    k: int,
) -> bool {
    let c = k % (WIDTH as int) - column0;
    let r = k / (WIDTH as int) - row0;
    if r == row && 0 <= c < column {
        before.display[k] != sprite_bit(before.memory[before.index + row], c)
    } else {
        before.drawn_cell(column0, row0, row, k)
    }
}

/// XOR-ing bit `7 - column` of a sprite row into a cell that holds 0 or 1
/// leaves 0 or 1 there, and flips the cell exactly where the bit is set.
proof fn lemma_xor_cell(cell: u16, row: u8, column: u8, shift: u8)
    by (bit_vector)
    requires
        cell <= 1,
        column < 8,
        shift == 7 - column,
    ensures
        cell ^ ((row as u16 >> shift) & 1) <= 1,
        (cell ^ ((row as u16 >> shift) & 1) != 0) == ((cell != 0) != (row & (0x80u8 >> column)
            != 0)),
{
}

/// What the shifts and masks of the shift instructions compute.
proof fn lemma_shift_bits(value: u8)
    by (bit_vector)
    ensures
        value & 1 == value % 2,
        value >> 1 == value / 2,
        (value >> 7) & 1 == value / 128,
        value << 1 == (value % 128) * 2,
{
}

/// Masking with `0x0F` keeps the low nibble.
proof fn lemma_low_nibble(value: u8)
    by (bit_vector)
    ensures
        value & 0x0F == value % 16,
{
}

/// Two bytes joined by shift and OR make the word `256 * high + low`.
proof fn lemma_big_endian(high: u8, low: u8)
    by (bit_vector)
    ensures
        ((high as u16) << 8) | low as u16 == high * 0x100 + low,
{
}

} // verus!
