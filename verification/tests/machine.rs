use chippy::{Chip, ChipError};

/// A machine with `rom` loaded at 0x200.
fn machine(rom: &[u8]) -> Chip {
    let mut chip = Chip::new();
    chip.load_program(rom).unwrap();
    chip
}

/// Runs `cycles` fetch/execute cycles, each of which must succeed.
fn run(chip: &mut Chip, cycles: usize) {
    for _ in 0..cycles {
        chip.fetch().unwrap();
        chip.execute().unwrap();
    }
}

#[test]
fn new_machine_is_zeroed_with_fonts() {
    let chip = Chip::new();
    assert_eq!(chip.program_counter(), 0x200);
    assert_eq!(chip.index(), 0);
    assert_eq!(chip.stack_pointer(), 0);
    assert_eq!(chip.delay_timer(), 0);
    assert_eq!(chip.sound_timer(), 0);
    assert_eq!(chip.key_pressed(), None);
    assert_eq!(chip.instruction(), 0);
    assert_eq!(chip.registers(), &[0u8; 16]);
    assert!(chip.display().iter().all(|&cell| cell == 0));
    let memory = chip.memory();
    assert!(memory[..0x50].iter().all(|&byte| byte == 0));
    assert_eq!(&memory[0x50..0x55], &[0xF0, 0x90, 0x90, 0x90, 0xF0]);
    assert_eq!(&memory[0x55..0x5A], &[0x20, 0x60, 0x20, 0x20, 0x70]);
    assert_eq!(&memory[0x9B..0xA0], &[0xF0, 0x80, 0xF0, 0x80, 0x80]);
    assert_eq!(&memory[0x50..0xA0], &chippy::font::FONT_SPRITES[..]);
    assert!(memory[0xA0..].iter().all(|&byte| byte == 0));
}

#[test]
fn init_reinstalls_the_font() {
    let mut chip = machine(&[0x60, 0xFF, 0xA0, 0x50, 0xF0, 0x55]);
    run(&mut chip, 3);
    assert_eq!(chip.memory()[0x50], 0xFF);
    chip.init();
    assert_eq!(&chip.memory()[0x50..0xA0], &chippy::font::FONT_SPRITES[..]);
    assert_eq!(chip.registers()[0], 0xFF);
    assert_eq!(chip.program_counter(), 0x206);
    assert_eq!(&chip.memory()[0x200..0x206], &[0x60, 0xFF, 0xA0, 0x50, 0xF0, 0x55]);
}

#[test]
fn load_program_copies_bytes_to_0x200() {
    let chip = machine(&[0x12, 0x34, 0x56]);
    let memory = chip.memory();
    assert_eq!(&memory[0x200..0x203], &[0x12, 0x34, 0x56]);
    assert_eq!(memory[0x1FF], 0);
    assert_eq!(memory[0x203], 0);
    assert_eq!(&memory[0x50..0x55], &[0xF0, 0x90, 0x90, 0x90, 0xF0]);
}

#[test]
fn load_program_accepts_rom_that_ends_at_top_of_memory() {
    let rom = vec![0xAB; 4096 - 0x200];
    let mut chip = Chip::new();
    assert_eq!(chip.load_program(&rom), Ok(()));
    assert_eq!(chip.memory()[0x200], 0xAB);
    assert_eq!(chip.memory()[0xFFF], 0xAB);
    assert_eq!(chip.memory()[0x1FF], 0);
}

#[test]
fn load_program_rejects_rom_too_large() {
    let rom = vec![0xAB; 4096 - 0x200 + 1];
    let mut chip = Chip::new();
    assert_eq!(chip.load_program(&rom), Err(ChipError::RomTooLarge));
    assert!(chip.memory()[0x200..].iter().all(|&byte| byte == 0));
}

#[test]
fn load_program_accepts_empty_rom() {
    let mut chip = Chip::new();
    assert_eq!(chip.load_program(&[]), Ok(()));
    assert!(chip.memory()[0x200..].iter().all(|&byte| byte == 0));
}

#[test]
fn fetch_reads_big_endian_and_advances() {
    let mut chip = machine(&[0xAB, 0xCD, 0x12, 0x34]);
    assert_eq!(chip.fetch(), Ok(()));
    assert_eq!(chip.instruction(), 0xABCD);
    assert_eq!(chip.program_counter(), 0x202);
    assert_eq!(chip.fetch(), Ok(()));
    assert_eq!(chip.instruction(), 0x1234);
    assert_eq!(chip.program_counter(), 0x204);
}

#[test]
fn fetch_at_last_byte_is_out_of_range() {
    // 1FFF jumps to 0xFFF, whose second byte would lie at 0x1000.
    let mut chip = machine(&[0x1F, 0xFF]);
    run(&mut chip, 1);
    assert_eq!(chip.program_counter(), 0xFFF);
    assert_eq!(chip.fetch(), Err(ChipError::AddressOutOfRange));
    assert_eq!(chip.program_counter(), 0xFFF);
    assert_eq!(chip.instruction(), 0x1FFF);
}

#[test]
fn fetch_at_last_word_succeeds() {
    let mut chip = machine(&[0x1F, 0xFE]);
    run(&mut chip, 1);
    assert_eq!(chip.fetch(), Ok(()));
    assert_eq!(chip.instruction(), 0x0000);
    assert_eq!(chip.program_counter(), 0x1000);
    assert_eq!(chip.fetch(), Err(ChipError::AddressOutOfRange));
}

#[test]
fn fetch_beyond_memory_after_jump_offset_is_out_of_range() {
    // V0 = 0xFF, then B FFF jumps to 0xFFF + 0xFF.
    let mut chip = machine(&[0x60, 0xFF, 0xBF, 0xFF]);
    run(&mut chip, 2);
    assert_eq!(chip.program_counter(), 0x10FE);
    assert_eq!(chip.fetch(), Err(ChipError::AddressOutOfRange));
}

#[test]
fn scenario_clear_load_add_then_return_underflows() {
    let mut chip = machine(&[0x00, 0xE0, 0x60, 0x0A, 0x70, 0x05, 0x00, 0xEE]);
    run(&mut chip, 3);
    assert_eq!(chip.registers()[0], 0x0F);
    assert!(chip.display().iter().all(|&cell| cell == 0));
    assert_eq!(chip.fetch(), Ok(()));
    assert_eq!(chip.execute(), Err(ChipError::StackUnderflow));
    assert_eq!(chip.program_counter(), 0x208);
    assert_eq!(chip.stack_pointer(), 0);
    assert_eq!(chip.registers()[0], 0x0F);
}

#[test]
fn scenario_wait_key_without_key_stalls() {
    let mut chip = machine(&[0xF3, 0x0A]);
    let before = chip.program_counter();
    run(&mut chip, 1);
    assert_eq!(chip.program_counter(), before);
    assert_eq!(chip.registers()[3], 0);
    run(&mut chip, 1);
    assert_eq!(chip.program_counter(), before);
    assert_eq!(chip.instruction(), 0xF30A);
}

#[test]
fn wait_key_with_key_stores_it_and_goes_on() {
    let mut chip = machine(&[0xF3, 0x0A]);
    chip.feed_input(119); // w: key 5
    run(&mut chip, 1);
    assert_eq!(chip.program_counter(), 0x202);
    assert_eq!(chip.registers()[3], 5);
}

#[test]
fn scenario_bcd_of_157() {
    // V4 = 157, I = 0x300, FX33.
    let mut chip = machine(&[0x64, 0x9D, 0xA3, 0x00, 0xF4, 0x33]);
    run(&mut chip, 3);
    assert_eq!(&chip.memory()[0x300..0x303], &[1, 5, 7]);
    assert_eq!(chip.memory()[0x2FF], 0);
    assert_eq!(chip.memory()[0x303], 0);
    assert_eq!(chip.index(), 0x300);
}

#[test]
fn bcd_of_small_and_large_values() {
    let mut chip = machine(&[0x60, 0x07, 0xA3, 0x00, 0xF0, 0x33, 0x60, 0xFF, 0xF0, 0x33]);
    run(&mut chip, 3);
    assert_eq!(&chip.memory()[0x300..0x303], &[0, 0, 7]);
    run(&mut chip, 2);
    assert_eq!(&chip.memory()[0x300..0x303], &[2, 5, 5]);
}

#[test]
fn bcd_beyond_memory_is_out_of_range() {
    // I = 0xFFE: the ones digit would lie at 0x1000.
    let mut chip = machine(&[0x60, 0x7B, 0xAF, 0xFE, 0xF0, 0x33]);
    run(&mut chip, 2);
    chip.fetch().unwrap();
    assert_eq!(chip.execute(), Err(ChipError::AddressOutOfRange));
    assert_eq!(&chip.memory()[0xFFE..], &[0, 0]);
}

#[test]
fn bcd_at_top_of_memory_succeeds() {
    let mut chip = machine(&[0x60, 0x7B, 0xAF, 0xFD, 0xF0, 0x33]);
    run(&mut chip, 3);
    assert_eq!(&chip.memory()[0xFFD..], &[1, 2, 3]);
}

#[test]
fn unknown_words_do_nothing() {
    for word in [0x0000u16, 0x0123, 0x5121, 0x512F, 0x8128, 0x812F, 0x9121, 0xE100, 0xE19F, 0xF100, 0xF1FF] {
        let rom = [(word >> 8) as u8, word as u8];
        let mut chip = machine(&rom);
        chip.fetch().unwrap();
        let registers = *chip.registers();
        let memory = *chip.memory();
        assert_eq!(chip.execute(), Ok(()));
        assert_eq!(chip.program_counter(), 0x202);
        assert_eq!(chip.registers(), &registers);
        assert_eq!(chip.memory(), &memory);
        assert_eq!(chip.index(), 0);
        assert_eq!(chip.stack_pointer(), 0);
        assert!(chip.display().iter().all(|&cell| cell == 0));
    }
}

#[test]
fn timers_count_down_and_stop_at_zero() {
    // V1 = 2, delay = V1, V2 = 1, sound = V2.
    let mut chip = machine(&[0x61, 0x02, 0xF1, 0x15, 0x62, 0x01, 0xF2, 0x18]);
    run(&mut chip, 4);
    assert_eq!(chip.delay_timer(), 2);
    assert_eq!(chip.sound_timer(), 1);
    chip.decrement_delay_timer();
    assert_eq!(chip.delay_timer(), 1);
    assert_eq!(chip.sound_timer(), 0);
    chip.decrement_delay_timer();
    assert_eq!(chip.delay_timer(), 0);
    assert_eq!(chip.sound_timer(), 0);
    chip.decrement_delay_timer();
    assert_eq!(chip.delay_timer(), 0);
    assert_eq!(chip.sound_timer(), 0);
}

#[test]
fn delay_timer_is_read_into_register() {
    let mut chip = machine(&[0x61, 0x2A, 0xF1, 0x15, 0xF7, 0x07]);
    run(&mut chip, 2);
    chip.decrement_delay_timer();
    run(&mut chip, 1);
    assert_eq!(chip.registers()[7], 0x29);
}

#[test]
fn feed_input_maps_key_codes_to_key_indices() {
    let codes = [49, 50, 51, 52, 113, 119, 101, 114, 97, 115, 100, 102, 122, 120, 99, 118];
    let mut chip = Chip::new();
    for (index, code) in codes.iter().enumerate() {
        chip.feed_input(*code);
        assert_eq!(chip.key_pressed(), Some(index as u8));
    }
}

#[test]
fn feed_input_of_unmapped_key_latches_nothing() {
    let mut chip = Chip::new();
    chip.feed_input(113);
    assert_eq!(chip.key_pressed(), Some(4));
    chip.feed_input(27);
    assert_eq!(chip.key_pressed(), None);
    chip.feed_input(-1);
    assert_eq!(chip.key_pressed(), None);
    chip.feed_input(0);
    assert_eq!(chip.key_pressed(), None);
}

#[test]
fn clear_input_forgets_the_key() {
    let mut chip = Chip::new();
    chip.feed_input(118);
    assert_eq!(chip.key_pressed(), Some(15));
    chip.clear_input();
    assert_eq!(chip.key_pressed(), None);
}
