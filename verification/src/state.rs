use crate::error::ChipError;
use crate::font::{glyph_address, with_font};
use crate::instruction::{decode_spec, Instruction};
use crate::keypad::key_index;
use vstd::prelude::*;

verus! {

/// The number of bytes of memory.
pub const MEMORY_SIZE: usize = 4096;

/// The address at which a program is loaded and at which execution starts.
pub const PROGRAM_START: u16 = 0x200;

/// The number of general-purpose registers.
pub const REGISTER_COUNT: usize = 16;

/// The index of the flag register.
pub const FLAG_REGISTER: usize = 0xF;

/// The number of return addresses that the stack holds.
pub const STACK_DEPTH: usize = 16;

/// The number of display cells in a row.
pub const WIDTH: u32 = 64;

/// The number of rows of display cells.
pub const HEIGHT: u32 = 32;

/// The side of the square, in pixels, that a renderer draws for one cell.
pub const SCALE: u32 = 20;

/// The number of display cells.
pub const DISPLAY_LENGTH: usize = 2048;

/// The mathematical model of the machine: what a `Chip` stands for.
#[verifier::ext_equal]
pub struct ChipState {
    /// The 4096 bytes of memory.
    pub memory: Seq<u8>,
    /// The sixteen general-purpose registers; register 15 is the flag.
    pub registers: Seq<u8>,
    /// The index register.
    pub index: u16,
    /// The address of the next instruction to fetch.
    pub program_counter: u16,
    /// The return addresses, oldest first.
    pub stack: Seq<u16>,
    /// The delay timer.
    pub delay_timer: u8,
    /// The sound timer.
    pub sound_timer: u8,
    /// The latched key, if any.
    pub key: Option<u8>,
    /// The display cells, row by row; `true` is lit.
    pub display: Seq<bool>,
    /// The instruction word that was fetched last.
    pub instruction: u16,
}

/// `value` reduced to sixteen bits.
pub open spec fn wrap16(value: int) -> u16 {
    (value % 0x1_0000) as u16
}

/// `value` reduced to eight bits.
pub open spec fn wrap8(value: int) -> u8 {
    (value % 0x100) as u8
}

/// The instruction word whose high byte is at address `at` of `memory` and
/// whose low byte follows it.
pub open spec fn word_at(memory: Seq<u8>, at: int) -> u16 {
    (memory[at] * 0x100 + memory[at + 1]) as u16
}

/// Bit `column` of a sprite row, counted from the most significant bit.
pub open spec fn sprite_bit(row: u8, column: int) -> bool {
    row & (0x80u8 >> (column as u8)) != 0
}

/// What a call that was owed `expected` has done, if it left `after` behind
/// and returned `result`: on success the state is the expected one, on
/// failure the error is the expected one and the state is untouched.
pub open spec fn outcome(
    before: ChipState,
    after: ChipState,
    result: Result<(), ChipError>,
    expected: Result<ChipState, ChipError>,
) -> bool {
    match expected {
        Ok(state) => result is Ok && after == state,
        Err(error) => result == Err::<(), ChipError>(error) && after == before,
    }
}

impl ChipState {
    /// The sizes of the parts are those of the machine.
    pub open spec fn wf(self) -> bool {
        &&& self.memory.len() == MEMORY_SIZE
        &&& self.registers.len() == REGISTER_COUNT
        &&& self.stack.len() <= STACK_DEPTH
        &&& self.display.len() == DISPLAY_LENGTH
        &&& (self.key matches Some(k) ==> k < 16)
    }

    /// The machine before the first instruction: everything zero, the font
    /// installed, the program counter at the load address, no key latched.
    pub open spec fn initial() -> ChipState {
        ChipState {
            memory: with_font(Seq::new(MEMORY_SIZE as nat, |a: int| 0u8)),
            registers: Seq::new(REGISTER_COUNT as nat, |i: int| 0u8),
            index: 0,
            program_counter: PROGRAM_START,
            stack: Seq::empty(),
            delay_timer: 0,
            sound_timer: 0,
            key: None,
            display: Seq::new(DISPLAY_LENGTH as nat, |k: int| false),
            instruction: 0,
        }
    }

    /// The font written into the reserved region.
    pub open spec fn install_fonts(self) -> ChipState {
        ChipState { memory: with_font(self.memory), ..self }
    }

    /// The program `bytes` copied to the load address.
    pub open spec fn load_program(self, bytes: Seq<u8>) -> Result<ChipState, ChipError> {
        if PROGRAM_START + bytes.len() > MEMORY_SIZE {
            Err(ChipError::RomTooLarge)
        } else {
            Ok(
                ChipState {
                    memory: Seq::new(
                        self.memory.len(),
                        |a: int|
                            if PROGRAM_START <= a < PROGRAM_START + bytes.len() {
                                bytes[a - PROGRAM_START]
                            } else {
                                self.memory[a]
                            },
                    ),
                    ..self
                },
            )
        }
    }

    /// No key latched.
    pub open spec fn clear_input(self) -> ChipState {
        ChipState { key: None, ..self }
    }

    /// The key that `keycode` stands for latched, or none where it stands for
    /// no key.
    pub open spec fn feed_input(self, keycode: i32) -> ChipState {
        ChipState { key: key_index(keycode), ..self }
    }

    /// Both timers one step closer to zero.
    pub open spec fn tick(self) -> ChipState {
        ChipState {
            delay_timer: if self.delay_timer > 0 {
                (self.delay_timer - 1) as u8
            } else {
                0
            },
            sound_timer: if self.sound_timer > 0 {
                (self.sound_timer - 1) as u8
            } else {
                0
            },
            ..self
        }
    }

    /// The word at the program counter, high byte first, and the program
    /// counter moved past it.
    pub open spec fn fetch(self) -> Result<ChipState, ChipError> {
        let pc = self.program_counter as int;
        if pc + 1 >= MEMORY_SIZE {
            Err(ChipError::AddressOutOfRange)
        } else {
            Ok(
                ChipState {
                    instruction: word_at(self.memory, pc),
                    program_counter: (pc + 2) as u16,
                    ..self
                },
            )
        }
    }

    /// Register `x` holding `value`.
    pub open spec fn with_register(self, x: int, value: u8) -> ChipState {
        ChipState { registers: self.registers.update(x, value), ..self }
    }

    /// The program counter moved past one instruction if `condition` holds.
    pub open spec fn skip_if(self, condition: bool) -> ChipState {
        if condition {
            ChipState { program_counter: wrap16(self.program_counter + 2), ..self }
        } else {
            self
        }
    }

    /// Every display cell off.
    pub open spec fn clear_display(self) -> ChipState {
        ChipState { display: Seq::new(DISPLAY_LENGTH as nat, |k: int| false), ..self }
    }

    /// The newest return address popped into the program counter.
    pub open spec fn ret(self) -> Result<ChipState, ChipError> {
        if self.stack.len() == 0 {
            Err(ChipError::StackUnderflow)
        } else {
            Ok(
                ChipState {
                    program_counter: self.stack.last(),
                    stack: self.stack.drop_last(),
                    ..self
                },
            )
        }
    }

    /// The program counter pushed, and execution moved to `address`.
    pub open spec fn call(self, address: u16) -> Result<ChipState, ChipError> {
        if self.stack.len() >= STACK_DEPTH {
            Err(ChipError::StackOverflow)
        } else {
            Ok(
                ChipState {
                    program_counter: address,
                    stack: self.stack.push(self.program_counter),
                    ..self
                },
            )
        }
    }

    /// Register `x` plus the constant `value`, modulo 256. No other register
    /// changes, so the flag is unaffected.
    pub open spec fn add_constant(self, x: int, value: u8) -> ChipState {
        self.with_register(x, wrap8(self.registers[x] + value))
    }

    /// Register `x` plus register `y`, modulo 256; then the flag is 1 if the
    /// sum of the two old values passed 255, else 0.
    pub open spec fn add_reg(self, x: int, y: int) -> ChipState {
        let sum = self.registers[x] + self.registers[y];
        let carry = if sum > 255 {
            1u8
        } else {
            0u8
        };
        ChipState {
            registers: self.registers.update(x, wrap8(sum)).update(FLAG_REGISTER as int, carry),
            ..self
        }
    }

    /// Register `x` minus register `y`, modulo 256; then the flag is 1 if
    /// the old `x` was at least the old `y` (no borrow), else 0.
    pub open spec fn sub_reg(self, x: int, y: int) -> ChipState {
        let difference = self.registers[x] - self.registers[y];
        let no_borrow = if self.registers[x] >= self.registers[y] {
            1u8
        } else {
            0u8
        };
        ChipState {
            registers: self.registers.update(x, wrap8(difference)).update(
                FLAG_REGISTER as int,
                no_borrow,
            ),
            ..self
        }
    }

    /// Register `x` becomes register `y` minus register `x`, modulo 256; then
    /// the flag is 1 if the old `y` was at least the old `x` (no borrow),
    /// else 0.
    pub open spec fn sub_reg_reversed(self, x: int, y: int) -> ChipState {
        let difference = self.registers[y] - self.registers[x];
        let no_borrow = if self.registers[y] >= self.registers[x] {
            1u8
        } else {
            0u8
        };
        ChipState {
            registers: self.registers.update(x, wrap8(difference)).update(
                FLAG_REGISTER as int,
                no_borrow,
            ),
            ..self
        }
    }

    /// Register `y` copied into `x`; the flag set to the lowest bit of that
    /// value, the bit that the shift drops; then register `x` halved.
    pub open spec fn shift_right(self, x: int, y: int) -> ChipState {
        let value = self.registers[y];
        let flagged = self.registers.update(x, value).update(FLAG_REGISTER as int, value % 2);
        ChipState { registers: flagged.update(x, flagged[x] / 2), ..self }
    }

    /// Register `y` copied into `x`; the flag set to the highest bit of that
    /// value, the bit that the shift drops; then register `x` doubled, modulo
    /// 256.
    pub open spec fn shift_left(self, x: int, y: int) -> ChipState {
        let value = self.registers[y];
        let flagged = self.registers.update(x, value).update(FLAG_REGISTER as int, value / 128);
        ChipState { registers: flagged.update(x, wrap8(flagged[x] * 2)), ..self }
    }

    /// The column of the display at which a sprite is drawn from register `x`.
    pub open spec fn origin_column(self, x: int) -> int {
        self.registers[x] as int % WIDTH as int
    }

    /// The row of the display at which a sprite is drawn from register `y`.
    pub open spec fn origin_row(self, y: int) -> int {
        self.registers[y] as int % HEIGHT as int
    }

    /// The number of sprite rows, out of `rows`, that fall on the display
    /// when the sprite is drawn from row `origin_row`.
    pub open spec fn visible_rows(origin_row: int, rows: int) -> int {
        if rows <= HEIGHT - origin_row {
            rows
        } else {
            HEIGHT - origin_row
        }
    }

    /// Cell `k` of the display after a sprite of `rows` rows was drawn with
    /// its top left corner at column `column0` and row `row0`: a cell under
    /// the sprite is flipped where the sprite's bit is set, and every other
    /// cell is as before. What falls beyond the right or the lower edge is
    /// dropped.
    pub open spec fn drawn_cell(self, column0: int, row0: int, rows: int, k: int) -> bool {
        let column = k % (WIDTH as int) - column0;
        let row = k / (WIDTH as int) - row0;
        if 0 <= row < rows && 0 <= column < 8 {
            self.display[k] != sprite_bit(self.memory[self.index + row], column)
        } else {
            self.display[k]
        }
    }

    /// The sprite of `rows` rows at the index register drawn at the cell that
    /// registers `x` and `y` name. The registers, the flag among them, stay
    /// as they are. It fails where a row that falls on the display lies
    /// beyond the top of memory.
    pub open spec fn draw(self, x: int, y: int, rows: int) -> Result<ChipState, ChipError> {
        let column0 = self.origin_column(x);
        let row0 = self.origin_row(y);
        if self.index + Self::visible_rows(row0, rows) > MEMORY_SIZE {
            Err(ChipError::AddressOutOfRange)
        } else {
            Ok(
                ChipState {
                    display: Seq::new(
                        DISPLAY_LENGTH as nat,
                        |k: int| self.drawn_cell(column0, row0, rows, k),
                    ),
                    ..self
                },
            )
        }
    }

    /// The latched key stored in register `x`; with no key latched, the
    /// program counter moved back by one instruction instead, so that the
    /// same instruction is fetched again.
    pub open spec fn wait_key(self, x: int) -> ChipState {
        match self.key {
            Some(key) => self.with_register(x, key),
            None => ChipState { program_counter: wrap16(self.program_counter - 2), ..self },
        }
    }

    /// The hundreds, tens and ones of register `x` stored at the index
    /// register and the two cells after it.
    pub open spec fn bcd(self, x: int) -> Result<ChipState, ChipError> {
        let value = self.registers[x];
        let at = self.index as int;
        if at + 2 >= MEMORY_SIZE {
            Err(ChipError::AddressOutOfRange)
        } else {
            Ok(
                ChipState {
                    memory: self.memory.update(at, value / 100).update(
                        at + 1,
                        (value / 10) % 10,
                    ).update(at + 2, value % 10),
                    ..self
                },
            )
        }
    }

    /// Registers `0..=x` stored in memory from the index register on.
    pub open spec fn store_registers(self, x: int) -> Result<ChipState, ChipError> {
        let at = self.index as int;
        if at + x >= MEMORY_SIZE {
            Err(ChipError::AddressOutOfRange)
        } else {
            Ok(
                ChipState {
                    memory: Seq::new(
                        self.memory.len(),
                        |a: int|
                            if at <= a <= at + x {
                                self.registers[a - at]
                            } else {
                                self.memory[a]
                            },
                    ),
                    ..self
                },
            )
        }
    }

    /// Registers `0..=x` loaded from memory from the index register on.
    pub open spec fn load_registers(self, x: int) -> Result<ChipState, ChipError> {
        let at = self.index as int;
        if at + x >= MEMORY_SIZE {
            Err(ChipError::AddressOutOfRange)
        } else {
            Ok(
                ChipState {
                    registers: Seq::new(
                        self.registers.len(),
                        |i: int|
                            if i <= x {
                                self.memory[at + i]
                            } else {
                                self.registers[i]
                            },
                    ),
                    ..self
                },
            )
        }
    }

    /// The effect of one instruction, where `random` is the byte drawn for
    /// `Random`. No other instruction reads it.
    pub open spec fn apply(self, instruction: Instruction, random: u8) -> Result<
        ChipState,
        ChipError,
    > {
        let r = self.registers;
        match instruction {
            Instruction::ClearDisplay => Ok(self.clear_display()),
            Instruction::Return => self.ret(),
            Instruction::Jump { address } => Ok(ChipState { program_counter: address, ..self }),
            Instruction::Call { address } => self.call(address),
            Instruction::SkipEqualConst { x, value } => Ok(self.skip_if(r[x as int] == value)),
            Instruction::SkipNotEqualConst { x, value } => Ok(self.skip_if(r[x as int] != value)),
            Instruction::SkipEqualReg { x, y } => Ok(self.skip_if(r[x as int] == r[y as int])),
            Instruction::LoadConst { x, value } => Ok(self.with_register(x as int, value)),
            Instruction::AddConst { x, value } => Ok(self.add_constant(x as int, value)),
            Instruction::CopyReg { x, y } => Ok(self.with_register(x as int, r[y as int])),
            Instruction::Or { x, y } => Ok(self.with_register(x as int, r[x as int] | r[y as int])),
            Instruction::And { x, y } => Ok(
                self.with_register(x as int, r[x as int] & r[y as int]),
            ),
            Instruction::Xor { x, y } => Ok(
                self.with_register(x as int, r[x as int] ^ r[y as int]),
            ),
            Instruction::AddReg { x, y } => Ok(self.add_reg(x as int, y as int)),
            Instruction::SubReg { x, y } => Ok(self.sub_reg(x as int, y as int)),
            Instruction::ShiftRight { x, y } => Ok(self.shift_right(x as int, y as int)),
            Instruction::SubRegReversed { x, y } => Ok(self.sub_reg_reversed(x as int, y as int)),
            Instruction::ShiftLeft { x, y } => Ok(self.shift_left(x as int, y as int)),
            Instruction::SkipNotEqualReg { x, y } => Ok(self.skip_if(r[x as int] != r[y as int])),
            Instruction::LoadIndex { address } => Ok(ChipState { index: address, ..self }),
            Instruction::JumpOffset { address } => Ok(
                ChipState { program_counter: wrap16(address + r[0]), ..self },
            ),
            Instruction::Random { x, mask } => Ok(self.with_register(x as int, random | mask)),
            Instruction::Draw { x, y, rows } => self.draw(x as int, y as int, rows as int),
            Instruction::SkipKey { x } => Ok(self.skip_if(self.key == Some(r[x as int]))),
            Instruction::SkipNotKey { x } => Ok(self.skip_if(self.key != Some(r[x as int]))),
            Instruction::ReadDelay { x } => Ok(self.with_register(x as int, self.delay_timer)),
            Instruction::WaitKey { x } => Ok(self.wait_key(x as int)),
            Instruction::SetDelay { x } => Ok(ChipState { delay_timer: r[x as int], ..self }),
            Instruction::SetSound { x } => Ok(ChipState { sound_timer: r[x as int], ..self }),
            Instruction::AddIndex { x } => Ok(
                ChipState { index: wrap16(self.index + r[x as int]), ..self },
            ),
            Instruction::FontGlyph { x } => Ok(
                ChipState { index: glyph_address(r[x as int]), ..self },
            ),
            Instruction::Bcd { x } => self.bcd(x as int),
            Instruction::StoreRegisters { x } => self.store_registers(x as int),
            Instruction::LoadRegisters { x } => self.load_registers(x as int),
            Instruction::Unknown => Ok(self),
        }
    }

    /// The effect of the instruction that was fetched last.
    pub open spec fn execute(self, random: u8) -> Result<ChipState, ChipError> {
        self.apply(decode_spec(self.instruction), random)
    }

    /// One fetch followed by one execution; an error of either ends the
    /// cycle.
    pub open spec fn cycle(self, random: u8) -> Result<ChipState, ChipError> {
        match self.fetch() {
            Ok(fetched) => fetched.execute(random),
            Err(error) => Err(error),
        }
    }
}

} // verus!
