use crate::error::ChipError;
use crate::instruction::{decode_spec, lemma_decode_wf, lemma_fields_of_word, Instruction};
use crate::state::{word_at, ChipState, DISPLAY_LENGTH, MEMORY_SIZE, STACK_DEPTH};
use vstd::prelude::*;

verus! {

/// The state after the instructions of `program` were applied in turn, where
/// an instruction that fails changes nothing.
pub open spec fn run(s: ChipState, program: Seq<Instruction>, random: u8) -> ChipState
    decreases program.len(),
{
    if program.len() == 0 {
        s
    } else {
        let before = run(s, program.drop_last(), random);
        match before.apply(program.last(), random) {
            Ok(after) => after,
            Err(_) => before,
        }
    }
}

/// An instruction keeps the machine well formed: the memory, the registers
/// and the display keep their sizes, the stack holds at most sixteen return
/// addresses, and a latched key is one of the sixteen.
pub proof fn lemma_apply_preserves_wf(s: ChipState, instruction: Instruction, random: u8)
    requires
        s.wf(),
        instruction.wf(),
    ensures
        s.apply(instruction, random) matches Ok(t) ==> t.wf(),
{
}

/// Executing any word keeps the machine well formed.
pub proof fn lemma_execute_preserves_wf(s: ChipState, random: u8)
    requires
        s.wf(),
    ensures
        s.execute(random) matches Ok(t) ==> t.wf(),
{
    lemma_decode_wf(s.instruction);
    lemma_apply_preserves_wf(s, decode_spec(s.instruction), random);
}

/// Only the `Random` instruction reads the random byte.
pub proof fn lemma_only_random_reads_random(
    s: ChipState,
    instruction: Instruction,
    first: u8,
    second: u8,
)
    requires
        !(instruction is Random),
    ensures
        s.apply(instruction, first) == s.apply(instruction, second),
{
}

/// Adding a constant is addition modulo 256: the word `7XNN` leaves
/// `(r + k) mod 256` in register `x`, where `r` was there before, and
/// changes nothing else, so the flag register is unaffected.
pub proof fn lemma_add_constant_wraps(s: ChipState, x: u8, k: u8, random: u8)
    requires
        s.wf(),
        x < 16,
        s.instruction == 0x7000 + 0x100 * x + k,
    ensures
        s.execute(random) == Ok::<ChipState, ChipError>(s.add_constant(x as int, k)),
        s.execute(random).unwrap().registers[x as int] == (s.registers[x as int] + k) % 256,
        forall|i: int|
            0 <= i < 16 && i != x ==> s.execute(random).unwrap().registers[i] == s.registers[i],
        s.execute(random).unwrap() == (ChipState {
            registers: s.execute(random).unwrap().registers,
            ..s
        }),
{
    lemma_fields_of_word(7, x, k / 16, k % 16);
    assert(decode_spec(s.instruction) == Instruction::AddConst { x, value: k });
}

/// The word `8XY4` sets the flag register to 1 if the two registers add up
/// to more than 255 and to 0 otherwise, and leaves their sum modulo 256 in
/// register `x` whatever the flag is. Where `x` is the flag register itself
/// the flag is written last and stays.
pub proof fn lemma_add_registers_sets_carry(s: ChipState, x: u8, y: u8, random: u8)
    requires
        s.wf(),
        x < 16,
        y < 16,
        s.instruction == 0x8004 + 0x100 * x + 0x10 * y,
    ensures
        s.execute(random) is Ok,
        s.execute(random).unwrap().registers[0xF] == (if s.registers[x as int] + s.registers[y as int]
            > 255 {
            1u8
        } else {
            0u8
        }),
        x != 0xF ==> s.execute(random).unwrap().registers[x as int] == (s.registers[x as int]
            + s.registers[y as int]) % 256,
        forall|i: int|
            0 <= i < 0xF && i != x ==> s.execute(random).unwrap().registers[i] == s.registers[i],
        s.execute(random).unwrap() == (ChipState {
            registers: s.execute(random).unwrap().registers,
            ..s
        }),
{
    lemma_fields_of_word(8, x, y, 4);
    assert(decode_spec(s.instruction) == Instruction::AddReg { x, y });
}

/// The word `8XY5` sets the flag register to 1 if register `x` is at least
/// register `y`, so that the subtraction needs no borrow, and to 0
/// otherwise, and leaves the difference modulo 256 in register `x`. Where
/// `x` is the flag register itself the flag is written last and stays.
pub proof fn lemma_sub_registers_sets_no_borrow(s: ChipState, x: u8, y: u8, random: u8)
    requires
        s.wf(),
        x < 16,
        y < 16,
        s.instruction == 0x8005 + 0x100 * x + 0x10 * y,
    ensures
        s.execute(random) is Ok,
        s.execute(random).unwrap().registers[0xF] == (if s.registers[x as int]
            >= s.registers[y as int] {
            1u8
        } else {
            0u8
        }),
        x != 0xF ==> s.execute(random).unwrap().registers[x as int] == (s.registers[x as int]
            - s.registers[y as int]) % 256,
        forall|i: int|
            0 <= i < 0xF && i != x ==> s.execute(random).unwrap().registers[i] == s.registers[i],
        s.execute(random).unwrap() == (ChipState {
            registers: s.execute(random).unwrap().registers,
            ..s
        }),
{
    lemma_fields_of_word(8, x, y, 5);
    assert(decode_spec(s.instruction) == Instruction::SubReg { x, y });
}

/// Clearing the display, drawing any sequence of sprites and clearing again
/// leaves every cell dark; and clearing twice is clearing once.
pub proof fn lemma_clear_after_draws(s: ChipState, draws: Seq<Instruction>, random: u8)
    requires
        forall|i: int| 0 <= i < draws.len() ==> draws[i] is Draw,
    ensures
        run(s.clear_display(), draws, random).clear_display().display == Seq::new(
            DISPLAY_LENGTH as nat,
            |k: int| false,
        ),
        s.clear_display().clear_display() == s.clear_display(),
        s.apply(Instruction::ClearDisplay, random) == Ok::<ChipState, ChipError>(
            s.clear_display(),
        ),
{
}

/// Drawing is its own inverse: a sprite drawn twice from the same registers
/// leaves the machine, and so the display, exactly as it was. This holds of
/// every draw that succeeds, whether or not the display's edge cuts the
/// sprite.
pub proof fn lemma_draw_twice_restores(s: ChipState, x: u8, y: u8, rows: u8, random: u8)
    requires
        s.wf(),
        x < 16,
        y < 16,
        rows < 16,
        s.apply(Instruction::Draw { x, y, rows }, random) is Ok,
    ensures
        s.apply(Instruction::Draw { x, y, rows }, random).unwrap().apply(
            Instruction::Draw { x, y, rows },
            random,
        ) == Ok::<ChipState, ChipError>(s),
{
    let once = s.draw(x as int, y as int, rows as int).unwrap();
    let twice = once.draw(x as int, y as int, rows as int).unwrap();
    assert(twice.display =~= s.display);
}

/// A call followed by a return restores the machine: the program counter is
/// again what it was when the call was executed, and the stack is as deep as
/// before. It needs a free stack slot for the call.
pub proof fn lemma_call_then_return(s: ChipState, address: u16, random: u8)
    requires
        s.wf(),
        s.stack.len() < STACK_DEPTH,
    ensures
        s.apply(Instruction::Call { address }, random) is Ok,
        s.apply(Instruction::Call { address }, random).unwrap().apply(
            Instruction::Return,
            random,
        ) == Ok::<ChipState, ChipError>(s),
{
    let called = s.call(address).unwrap();
    assert(called.stack.drop_last() =~= s.stack);
}

/// Where memory holds the word `2NNN` at the program counter and the word
/// `00EE` at `NNN`, two cycles bring the program counter to the instruction
/// immediately after the call, with the stack as it was.
pub proof fn lemma_call_cycle_then_return_cycle(s: ChipState, address: u16, random: u8)
    requires
        s.wf(),
        s.stack.len() < STACK_DEPTH,
        s.program_counter + 1 < MEMORY_SIZE,
        address + 1 < MEMORY_SIZE,
        word_at(s.memory, s.program_counter as int) == 0x2000 + address,
        word_at(s.memory, address as int) == 0x00EE,
    ensures
        s.cycle(random) is Ok,
        s.cycle(random).unwrap().cycle(random) == Ok::<ChipState, ChipError>(
            ChipState {
                program_counter: (s.program_counter + 2) as u16,
                instruction: 0x00EE,
                ..s
            },
        ),
{
    let fetched = s.fetch().unwrap();
    lemma_fields_of_word(2, (address / 256) as u8, ((address / 16) % 16) as u8, (address % 16) as u8);
    assert(decode_spec(fetched.instruction) == Instruction::Call { address });
    lemma_call_then_return(fetched, address, random);
    let called = fetched.call(address).unwrap();
    assert(called.stack.drop_last() =~= s.stack);
}

/// With no key latched the word `FX0A` stalls: after the cycle the program
/// counter is where it was, so the next cycle fetches the same instruction.
pub proof fn lemma_wait_key_stalls(s: ChipState, x: u8, random: u8)
    requires
        s.wf(),
        x < 16,
        s.key is None,
        s.program_counter + 1 < MEMORY_SIZE,
        word_at(s.memory, s.program_counter as int) == 0xF00A + 0x100 * x,
    ensures
        s.cycle(random) == Ok::<ChipState, ChipError>(
            ChipState { instruction: (0xF00A + 0x100 * x) as u16, ..s },
        ),
{
    lemma_fields_of_word(0xF, x, 0x0, 0xA);
    assert(decode_spec(s.fetch().unwrap().instruction) == Instruction::WaitKey { x });
}

} // verus!
