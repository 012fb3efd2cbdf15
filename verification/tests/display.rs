use chippy::{Chip, ChipError, CellRect, HEIGHT, SCALE, WIDTH};

/// A machine with `rom` loaded at 0x200.
fn machine(rom: &[u8]) -> Chip {
    let mut chip = Chip::new();
    chip.load_program(rom).unwrap();
    chip
}

/// Runs `cycles` fetch/execute cycles, each of which must succeed.
fn run(chip: &mut Chip, cycles: usize) {
    for _ in 0..cycles {
        chip.fetch().unwrap();
        chip.execute().unwrap();
    }
}

/// The cells that are lit, as (column, row) pairs in display order.
fn lit(chip: &Chip) -> Vec<(usize, usize)> {
    let mut cells = Vec::new();
    for (k, &cell) in chip.display().iter().enumerate() {
        assert!(cell <= 1);
        if cell != 0 {
            cells.push((k % 64, k / 64));
        }
    }
    cells
}

#[test]
fn display_has_64_by_32_cells() {
    assert_eq!(WIDTH, 64);
    assert_eq!(HEIGHT, 32);
    assert_eq!(Chip::new().display().len(), 64 * 32);
}

#[test]
fn draw_glyph_zero_at_origin() {
    // I = glyph 0 (F0 90 90 90 F0), draw 5 rows at (V0, V1) = (0, 0).
    let mut chip = machine(&[0xA0, 0x50, 0xD0, 0x15]);
    run(&mut chip, 2);
    let expected = vec![
        (0, 0), (1, 0), (2, 0), (3, 0),
        (0, 1), (3, 1),
        (0, 2), (3, 2),
        (0, 3), (3, 3),
        (0, 4), (1, 4), (2, 4), (3, 4),
    ];
    assert_eq!(lit(&chip), expected);
}

#[test]
fn draw_places_the_most_significant_bit_leftmost() {
    // Sprite row 0x81 at 0x300 (stored from V0), drawn at (10, 7).
    let rom = [0x60, 0x81, 0xA3, 0x00, 0xF0, 0x55, 0x61, 0x0A, 0x62, 0x07, 0xD1, 0x21];
    let mut chip = machine(&rom);
    run(&mut chip, 6);
    assert_eq!(lit(&chip), vec![(10, 7), (17, 7)]);
    assert_eq!(chip.display()[7 * 64 + 10], 1);
    assert_eq!(chip.display()[7 * 64 + 17], 1);
}

#[test]
fn draw_does_not_touch_the_flag_register() {
    // Draw glyph 0 twice: the second draw erases lit cells and the flag stays.
    let mut chip = machine(&[0x6F, 0x09, 0xA0, 0x50, 0xD0, 0x15, 0xD0, 0x15]);
    run(&mut chip, 3);
    assert_eq!(chip.registers()[0xF], 9);
    run(&mut chip, 1);
    assert_eq!(chip.registers()[0xF], 9);
}

#[test]
fn draw_twice_restores_the_display() {
    // Glyph 3 at (5, 9), then glyph 0 at (6, 10) twice.
    let rom = [
        0x61, 0x05, 0x62, 0x09, 0x63, 0x03, 0xF3, 0x29, 0xD1, 0x25, 0x61, 0x06, 0x62, 0x0A, 0xA0,
        0x50, 0xD1, 0x25, 0xD1, 0x25,
    ];
    let mut chip = machine(&rom);
    run(&mut chip, 5);
    let before = *chip.display();
    assert!(before.iter().any(|&cell| cell != 0));
    run(&mut chip, 4);
    assert_ne!(chip.display(), &before);
    run(&mut chip, 1);
    assert_eq!(chip.display(), &before);
}

#[test]
fn draw_twice_restores_a_clipped_sprite_too() {
    let rom = [0x61, 0x3E, 0x62, 0x1E, 0xA0, 0x50, 0xD1, 0x25, 0xD1, 0x25];
    let mut chip = machine(&rom);
    run(&mut chip, 4);
    assert_eq!(lit(&chip), vec![(62, 30), (63, 30), (62, 31)]);
    run(&mut chip, 1);
    assert!(lit(&chip).is_empty());
}

#[test]
fn draw_overlapping_sprites_xors_the_cells() {
    // Glyph 0 at (0, 0), then glyph 1 (20 60 20 20 70) at (0, 0).
    let rom = [0xA0, 0x50, 0xD0, 0x05, 0xA0, 0x55, 0xD0, 0x05];
    let mut chip = machine(&rom);
    run(&mut chip, 4);
    // F0^20 = D0, 90^60 = F0, 90^20 = B0, 90^20 = B0, F0^70 = 80.
    let expected = vec![
        (0, 0), (1, 0), (3, 0),
        (0, 1), (1, 1), (2, 1), (3, 1),
        (0, 2), (2, 2), (3, 2),
        (0, 3), (2, 3), (3, 3),
        (0, 4),
    ];
    assert_eq!(lit(&chip), expected);
}

#[test]
fn draw_drops_columns_beyond_the_right_edge() {
    // Row 0xFF drawn at column 60: only four cells fit, and none wraps.
    let rom = [0x60, 0xFF, 0xA3, 0x00, 0xF0, 0x55, 0x61, 0x3C, 0x62, 0x02, 0xD1, 0x21];
    let mut chip = machine(&rom);
    run(&mut chip, 6);
    assert_eq!(lit(&chip), vec![(60, 2), (61, 2), (62, 2), (63, 2)]);
}

#[test]
fn draw_drops_rows_beyond_the_lower_edge() {
    // Glyph 0 at row 30: two of its five rows fit.
    let rom = [0x61, 0x00, 0x62, 0x1E, 0xA0, 0x50, 0xD1, 0x25];
    let mut chip = machine(&rom);
    run(&mut chip, 4);
    assert_eq!(lit(&chip), vec![(0, 30), (1, 30), (2, 30), (3, 30), (0, 31), (3, 31)]);
}

#[test]
fn draw_takes_the_origin_modulo_the_display_size() {
    // (V1, V2) = (64 + 3, 32 + 4) is the cell (3, 4); (0xFF, 0xFF) is (63, 31).
    let rom = [0x60, 0x80, 0xA3, 0x00, 0xF0, 0x55, 0x61, 0x43, 0x62, 0x24, 0xD1, 0x21];
    let mut chip = machine(&rom);
    run(&mut chip, 6);
    assert_eq!(lit(&chip), vec![(3, 4)]);
    let rom = [0x60, 0x80, 0xA3, 0x00, 0xF0, 0x55, 0x61, 0xFF, 0x62, 0xFF, 0xD1, 0x21];
    let mut chip = machine(&rom);
    run(&mut chip, 6);
    assert_eq!(lit(&chip), vec![(63, 31)]);
}

#[test]
fn draw_of_zero_rows_changes_nothing() {
    let mut chip = machine(&[0xA0, 0x50, 0xD0, 0x10]);
    run(&mut chip, 2);
    assert!(lit(&chip).is_empty());
}

#[test]
fn draw_beyond_memory_is_out_of_range() {
    // I = 0xFFE, three rows at row 0: the third row would lie at 0x1000.
    let mut chip = machine(&[0xAF, 0xFE, 0xD0, 0x03]);
    run(&mut chip, 1);
    chip.fetch().unwrap();
    assert_eq!(chip.execute(), Err(ChipError::AddressOutOfRange));
    assert!(lit(&chip).is_empty());
}

#[test]
fn draw_reads_only_the_rows_that_fall_on_the_display() {
    // I = 0xFFE, three rows at row 30: only two rows are read, and they fit.
    let rom = [0x62, 0x1E, 0xAF, 0xFE, 0xD1, 0x23];
    let mut chip = machine(&rom);
    run(&mut chip, 3);
    assert!(lit(&chip).is_empty());
    // With fifteen rows at row 31 a single row is read.
    let rom = [0x62, 0x1F, 0xAF, 0xFF, 0xD1, 0x2F];
    let mut chip = machine(&rom);
    run(&mut chip, 3);
    assert!(lit(&chip).is_empty());
}

#[test]
fn clear_display_darkens_every_cell() {
    let mut chip = machine(&[0xA0, 0x50, 0xD0, 0x15, 0x00, 0xE0]);
    run(&mut chip, 2);
    assert!(!lit(&chip).is_empty());
    run(&mut chip, 1);
    assert!(chip.display().iter().all(|&cell| cell == 0));
}

#[test]
fn clear_draw_draw_clear_is_all_zero() {
    let rom = [
        0x00, 0xE0, 0xA0, 0x50, 0xD0, 0x15, 0x61, 0x3E, 0xD1, 0x1F, 0xA0, 0x5A, 0xD1, 0x05, 0x00,
        0xE0, 0x00, 0xE0,
    ];
    let mut chip = machine(&rom);
    run(&mut chip, 7);
    assert!(!lit(&chip).is_empty());
    run(&mut chip, 1);
    assert!(chip.display().iter().all(|&cell| cell == 0));
    run(&mut chip, 1);
    assert!(chip.display().iter().all(|&cell| cell == 0));
}

#[test]
fn clear_display_changes_nothing_else() {
    let mut chip = machine(&[0x61, 0x07, 0xA1, 0x23, 0x00, 0xE0]);
    run(&mut chip, 3);
    assert_eq!(chip.registers()[1], 7);
    assert_eq!(chip.index(), 0x123);
    assert_eq!(chip.program_counter(), 0x206);
}

#[test]
fn cell_rect_scales_cells_to_pixels() {
    let chip = Chip::new();
    assert_eq!(SCALE, 20);
    assert_eq!(
        chip.cell_rect(0),
        Some(CellRect { x: 0, y: 0, width: 20, height: 20, lit: false })
    );
    assert_eq!(
        chip.cell_rect(1),
        Some(CellRect { x: 20, y: 0, width: 20, height: 20, lit: false })
    );
    assert_eq!(
        chip.cell_rect(63),
        Some(CellRect { x: 1260, y: 0, width: 20, height: 20, lit: false })
    );
    assert_eq!(
        chip.cell_rect(64),
        Some(CellRect { x: 0, y: 20, width: 20, height: 20, lit: false })
    );
    assert_eq!(
        chip.cell_rect(2047),
        Some(CellRect { x: 1260, y: 620, width: 20, height: 20, lit: false })
    );
    assert_eq!(chip.cell_rect(2048), None);
    assert_eq!(chip.cell_rect(usize::MAX), None);
}

#[test]
fn cell_rect_reports_lit_cells() {
    let mut chip = machine(&[0xA0, 0x50, 0xD0, 0x15]);
    run(&mut chip, 2);
    assert_eq!(
        chip.cell_rect(3),
        Some(CellRect { x: 60, y: 0, width: 20, height: 20, lit: true })
    );
    assert_eq!(
        chip.cell_rect(4),
        Some(CellRect { x: 80, y: 0, width: 20, height: 20, lit: false })
    );
    assert_eq!(
        chip.cell_rect(64 + 1),
        Some(CellRect { x: 20, y: 20, width: 20, height: 20, lit: false })
    );
    assert_eq!(
        chip.cell_rect(4 * 64 + 2),
        Some(CellRect { x: 40, y: 80, width: 20, height: 20, lit: true })
    );
}
