use vstd::prelude::*;

verus! {

/// One decoded instruction word.
///
/// Register operands are indices `0..16`; addresses are twelve bits wide.
#[derive(Clone, Copy, Debug, PartialEq, Eq, Structural)]
pub enum Instruction {
    /// `00E0`: switch every display cell off.
    ClearDisplay,
    /// `00EE`: return from a subroutine.
    Return,
    /// `1NNN`: jump to `address`.
    Jump { address: u16 },
    /// `2NNN`: call the subroutine at `address`.
    Call { address: u16 },
    /// `3XNN`: skip the next instruction if register `x` equals `value`.
    SkipEqualConst { x: u8, value: u8 },
    /// `4XNN`: skip the next instruction if register `x` differs from `value`.
    SkipNotEqualConst { x: u8, value: u8 },
    /// `5XY0`: skip the next instruction if registers `x` and `y` are equal.
    SkipEqualReg { x: u8, y: u8 },
    /// `6XNN`: load `value` into register `x`.
    LoadConst { x: u8, value: u8 },
    /// `7XNN`: add `value` to register `x`, modulo 256.
    AddConst { x: u8, value: u8 },
    /// `8XY0`: copy register `y` into register `x`.
    CopyReg { x: u8, y: u8 },
    /// `8XY1`: bitwise OR of register `y` into register `x`.
    Or { x: u8, y: u8 },
    /// `8XY2`: bitwise AND of register `y` into register `x`.
    And { x: u8, y: u8 },
    /// `8XY3`: bitwise XOR of register `y` into register `x`.
    Xor { x: u8, y: u8 },
    /// `8XY4`: add register `y` into register `x`; the flag is the carry.
    AddReg { x: u8, y: u8 },
    /// `8XY5`: subtract register `y` from register `x`; the flag is "no borrow".
    SubReg { x: u8, y: u8 },
    /// `8XY6`: copy register `y` into `x` and shift it right by one.
    ShiftRight { x: u8, y: u8 },
    /// `8XY7`: register `x` becomes `y - x`; the flag is "no borrow".
    SubRegReversed { x: u8, y: u8 },
    /// `8XYE`: copy register `y` into `x` and shift it left by one.
    ShiftLeft { x: u8, y: u8 },
    /// `9XY0`: skip the next instruction if registers `x` and `y` differ.
    SkipNotEqualReg { x: u8, y: u8 },
    /// `ANNN`: load `address` into the index register.
    LoadIndex { address: u16 },
    /// `BNNN`: jump to `address` plus register 0.
    JumpOffset { address: u16 },
    /// `CXNN`: register `x` becomes a random byte OR-ed with `mask`, the low
    /// nibble of the word.
    Random { x: u8, mask: u8 },
    /// `DXYN`: draw a sprite of `rows` rows at the cell named by registers
    /// `x` and `y`.
    Draw { x: u8, y: u8, rows: u8 },
    /// `EX9E`: skip the next instruction if the key in register `x` is latched.
    SkipKey { x: u8 },
    /// `EXA1`: skip the next instruction unless the key in register `x` is
    /// latched.
    SkipNotKey { x: u8 },
    /// `FX07`: read the delay timer into register `x`.
    ReadDelay { x: u8 },
    /// `FX0A`: wait for a key and store it in register `x`.
    WaitKey { x: u8 },
    /// `FX15`: set the delay timer from register `x`.
    SetDelay { x: u8 },
    /// `FX18`: set the sound timer from register `x`.
    SetSound { x: u8 },
    /// `FX1E`: add register `x` to the index register.
    AddIndex { x: u8 },
    /// `FX29`: point the index register at the glyph for register `x`.
    FontGlyph { x: u8 },
    /// `FX33`: store the three decimal digits of register `x` at the index.
    Bcd { x: u8 },
    /// `FX55`: store registers `0..=x` at the index.
    StoreRegisters { x: u8 },
    /// `FX65`: load registers `0..=x` from the index.
    LoadRegisters { x: u8 },
    /// Any other word: it does nothing.
    Unknown,
}

/// The opcode family: the high nibble of the word.
pub open spec fn family(word: u16) -> int {
    word as int / 0x1000
}

/// The second nibble: the register index X.
pub open spec fn field_x(word: u16) -> u8 {
    ((word as int / 0x100) % 16) as u8
}

/// The third nibble: the register index Y.
pub open spec fn field_y(word: u16) -> u8 {
    ((word as int / 0x10) % 16) as u8
}

/// The low nibble: the constant N.
pub open spec fn field_n(word: u16) -> u8 {
    (word as int % 16) as u8
}

/// The low byte: the constant NN.
pub open spec fn field_nn(word: u16) -> u8 {
    (word as int % 0x100) as u8
}

/// The low twelve bits: the address NNN.
pub open spec fn field_nnn(word: u16) -> u16 {
    (word as int % 0x1000) as u16
}

/// The instruction of family 8 that `word` encodes, selected by its low nibble.
pub open spec fn decode_8xxk_spec(word: u16) -> Instruction {
    let x = field_x(word);
    let y = field_y(word);
    let k = field_n(word);
    if k == 0x0 {
        Instruction::CopyReg { x, y }
    } else if k == 0x1 {
        Instruction::Or { x, y }
    } else if k == 0x2 {
        Instruction::And { x, y }
    } else if k == 0x3 {
        Instruction::Xor { x, y }
    } else if k == 0x4 {
        Instruction::AddReg { x, y }
    } else if k == 0x5 {
        Instruction::SubReg { x, y }
    } else if k == 0x6 {
        Instruction::ShiftRight { x, y }
    } else if k == 0x7 {
        Instruction::SubRegReversed { x, y }
    } else if k == 0xE {
        Instruction::ShiftLeft { x, y }
    } else {
        Instruction::Unknown
    }
}

/// The instruction of family E that `word` encodes, selected by its low byte.
pub open spec fn decode_exxk_spec(word: u16) -> Instruction {
    let x = field_x(word);
    let kk = field_nn(word);
    if kk == 0x9E {
        Instruction::SkipKey { x }
    } else if kk == 0xA1 {
        Instruction::SkipNotKey { x }
    } else {
        Instruction::Unknown
    }
}

/// The instruction of family F that `word` encodes, selected by its low byte.
pub open spec fn decode_fxxk_spec(word: u16) -> Instruction {
    let x = field_x(word);
    let kk = field_nn(word);
    if kk == 0x07 {
        Instruction::ReadDelay { x }
    } else if kk == 0x0A {
        Instruction::WaitKey { x }
    } else if kk == 0x15 {
        Instruction::SetDelay { x }
    } else if kk == 0x18 {
        Instruction::SetSound { x }
    } else if kk == 0x1E {
        Instruction::AddIndex { x }
    } else if kk == 0x29 {
        Instruction::FontGlyph { x }
    } else if kk == 0x33 {
        Instruction::Bcd { x }
    } else if kk == 0x55 {
        Instruction::StoreRegisters { x }
    } else if kk == 0x65 {
        Instruction::LoadRegisters { x }
    } else {
        Instruction::Unknown
    }
}

/// The instruction that `word` encodes.
///
/// The family selects the operation; families 8, E and F select it by a
/// second field. A word that matches no row of the table is `Unknown`.
pub open spec fn decode_spec(word: u16) -> Instruction {
    let f = family(word);
    let x = field_x(word);
    let y = field_y(word);
    let n = field_n(word);
    let nn = field_nn(word);
    let nnn = field_nnn(word);
    if word == 0x00E0 {
        Instruction::ClearDisplay
    } else if word == 0x00EE {
        Instruction::Return
    } else if f == 0x1 {
        Instruction::Jump { address: nnn }
    } else if f == 0x2 {
        Instruction::Call { address: nnn }
    } else if f == 0x3 {
        Instruction::SkipEqualConst { x, value: nn }
    } else if f == 0x4 {
        Instruction::SkipNotEqualConst { x, value: nn }
    } else if f == 0x5 && n == 0 {
        Instruction::SkipEqualReg { x, y }
    } else if f == 0x6 {
        Instruction::LoadConst { x, value: nn }
    } else if f == 0x7 {
        Instruction::AddConst { x, value: nn }
    } else if f == 0x8 {
        decode_8xxk_spec(word)
    } else if f == 0x9 && n == 0 {
        Instruction::SkipNotEqualReg { x, y }
    } else if f == 0xA {
        Instruction::LoadIndex { address: nnn }
    } else if f == 0xB {
        Instruction::JumpOffset { address: nnn }
    } else if f == 0xC {
        Instruction::Random { x, mask: n }
    } else if f == 0xD {
        Instruction::Draw { x, y, rows: n }
    } else if f == 0xE {
        decode_exxk_spec(word)
    } else if f == 0xF {
        decode_fxxk_spec(word)
    } else {
        Instruction::Unknown
    }
}

impl Instruction {
    /// Every register operand is below 16, every address below 4096, and a
    /// nibble operand below 16.
    pub open spec fn wf(self) -> bool {
        match self {
            Instruction::ClearDisplay | Instruction::Return | Instruction::Unknown => true,
            Instruction::Jump { address }
            | Instruction::Call { address }
            | Instruction::LoadIndex { address }
            | Instruction::JumpOffset { address } => address < 0x1000,
            Instruction::SkipEqualConst { x, .. }
            | Instruction::SkipNotEqualConst { x, .. }
            | Instruction::LoadConst { x, .. }
            | Instruction::AddConst { x, .. } => x < 16,
            Instruction::SkipEqualReg { x, y }
            | Instruction::CopyReg { x, y }
            | Instruction::Or { x, y }
            | Instruction::And { x, y }
            | Instruction::Xor { x, y }
            | Instruction::AddReg { x, y }
            | Instruction::SubReg { x, y }
            | Instruction::ShiftRight { x, y }
            | Instruction::SubRegReversed { x, y }
            | Instruction::ShiftLeft { x, y }
            | Instruction::SkipNotEqualReg { x, y } => x < 16 && y < 16,
            Instruction::Random { x, mask } => x < 16 && mask < 16,
            Instruction::Draw { x, y, rows } => x < 16 && y < 16 && rows < 16,
            Instruction::SkipKey { x }
            | Instruction::SkipNotKey { x }
            | Instruction::ReadDelay { x }
            | Instruction::WaitKey { x }
            | Instruction::SetDelay { x }
            | Instruction::SetSound { x }
            | Instruction::AddIndex { x }
            | Instruction::FontGlyph { x }
            | Instruction::Bcd { x }
            | Instruction::StoreRegisters { x }
            | Instruction::LoadRegisters { x } => x < 16,
        }
    }
}

/// Whatever the word, the operands of its instruction are in range.
pub proof fn lemma_decode_wf(word: u16)
    ensures
        decode_spec(word).wf(),
{
}

/// The word made of four nibbles, the family first.
pub open spec fn word_of(family: u8, x: u8, y: u8, n: u8) -> u16 {
    (0x1000 * family + 0x100 * x + 0x10 * y + n) as u16
}

/// The fields of a word are the nibbles that it was made of.
pub proof fn lemma_fields_of_word(f: u8, x: u8, y: u8, n: u8)
    requires
        f < 16,
        x < 16,
        y < 16,
        n < 16,
    ensures
        family(word_of(f, x, y, n)) == f,
        field_x(word_of(f, x, y, n)) == x,
        field_y(word_of(f, x, y, n)) == y,
        field_n(word_of(f, x, y, n)) == n,
        field_nn(word_of(f, x, y, n)) == 0x10 * y + n,
        field_nnn(word_of(f, x, y, n)) == 0x100 * x + 0x10 * y + n,
{
    let word = 0x1000 * f + 0x100 * x + 0x10 * y + n;
    assert(0 <= word < 0x1_0000);
    assert(word / 0x1000 == f);
    assert(word / 0x100 == 0x10 * f + x);
    assert(word / 0x10 == 0x100 * f + 0x10 * x + y);
    assert(word % 0x10 == n);
    assert(word % 0x100 == 0x10 * y + n);
    assert(word % 0x1000 == 0x100 * x + 0x10 * y + n);
}

/// The masks and shifts of the decoder extract the fields of the word.
proof fn lemma_fields(word: u16)
    by (bit_vector)
    ensures
        (word >> 12) == word / 0x1000,
        ((word & 0x0F00) >> 8) == (word / 0x100) % 16,
        ((word & 0x00F0) >> 4) == (word / 0x10) % 16,
        (word & 0x000F) == word % 16,
        (word & 0x00FF) == word % 0x100,
        (word & 0x0FFF) == word % 0x1000,
{
}

/// Second-level decoding of family 8, by the low nibble.
fn match_8xxk(word: u16) -> (ins: Instruction)
    ensures
        ins == decode_8xxk_spec(word),
{
    proof {
        lemma_fields(word);
    }
    let x: u8 = ((word & 0x0F00) >> 8) as u8;
    let y: u8 = ((word & 0x00F0) >> 4) as u8;
    let k: u8 = (word & 0x000F) as u8;
    match k {
        0x0 => Instruction::CopyReg { x, y },
        0x1 => Instruction::Or { x, y },
        0x2 => Instruction::And { x, y },
        0x3 => Instruction::Xor { x, y },
        0x4 => Instruction::AddReg { x, y },
        0x5 => Instruction::SubReg { x, y },
        0x6 => Instruction::ShiftRight { x, y },
        0x7 => Instruction::SubRegReversed { x, y },
        0xE => Instruction::ShiftLeft { x, y },
        _ => Instruction::Unknown,
    }
}

/// Second-level decoding of family E, by the low byte.
fn match_exxk(word: u16) -> (ins: Instruction)
    ensures
        ins == decode_exxk_spec(word),
{
    proof {
        lemma_fields(word);
    }
    let x: u8 = ((word & 0x0F00) >> 8) as u8;
    let kk: u8 = (word & 0x00FF) as u8;
    match kk {
        0x9E => Instruction::SkipKey { x },
        0xA1 => Instruction::SkipNotKey { x },
        _ => Instruction::Unknown,
    }
}

/// Second-level decoding of family F, by the low byte.
fn match_fxxk(word: u16) -> (ins: Instruction)
    ensures
        ins == decode_fxxk_spec(word),
{
    proof {
        lemma_fields(word);
    }
    let x: u8 = ((word & 0x0F00) >> 8) as u8;
    let kk: u8 = (word & 0x00FF) as u8;
    match kk {
        0x07 => Instruction::ReadDelay { x },
        0x0A => Instruction::WaitKey { x },
        0x15 => Instruction::SetDelay { x },
        0x18 => Instruction::SetSound { x },
        0x1E => Instruction::AddIndex { x },
        0x29 => Instruction::FontGlyph { x },
        0x33 => Instruction::Bcd { x },
        0x55 => Instruction::StoreRegisters { x },
        0x65 => Instruction::LoadRegisters { x },
        _ => Instruction::Unknown,
    }
}

/// Splits an instruction word into its fields and names the operation.
///
/// Decoding is pure: it reads nothing but the word.
pub fn decode(word: u16) -> (ins: Instruction)
    ensures
        ins == decode_spec(word),
        ins.wf(),
{
    proof {
        lemma_fields(word);
    }
    let v: u8 = (word >> 12) as u8;
    let x: u8 = ((word & 0x0F00) >> 8) as u8;
    let y: u8 = ((word & 0x00F0) >> 4) as u8;
    let n: u8 = (word & 0x000F) as u8;
    let nn: u8 = (word & 0x00FF) as u8;
    let nnn: u16 = word & 0x0FFF;
    if word == 0x00E0 {
        Instruction::ClearDisplay
    } else if word == 0x00EE {
        Instruction::Return
    } else {
        match v {
            0x1 => Instruction::Jump { address: nnn },
            0x2 => Instruction::Call { address: nnn },
            0x3 => Instruction::SkipEqualConst { x, value: nn },
            0x4 => Instruction::SkipNotEqualConst { x, value: nn },
            0x5 => if n == 0 {
                Instruction::SkipEqualReg { x, y }
            } else {
                Instruction::Unknown
            },
            0x6 => Instruction::LoadConst { x, value: nn },
            0x7 => Instruction::AddConst { x, value: nn },
            0x8 => match_8xxk(word),
            0x9 => if n == 0 {
                Instruction::SkipNotEqualReg { x, y }
            } else {
                Instruction::Unknown
            },
            0xA => Instruction::LoadIndex { address: nnn },
            0xB => Instruction::JumpOffset { address: nnn },
            0xC => Instruction::Random { x, mask: n },
            0xD => Instruction::Draw { x, y, rows: n },
            0xE => match_exxk(word),
            0xF => match_fxxk(word),
            _ => Instruction::Unknown,
        }
    }
}

} // verus!
