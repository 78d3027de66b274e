use chip8_rs::display::Display;
use chip8_rs::error::Chip8Error;
use chip8_rs::state::Quirks;
use chip8_rs::Chip8;

fn after(program: &[u16]) -> Chip8 {
    let mut chip8 = Chip8::new();
    for word in program {
        chip8.execute_with(*word, 0).unwrap();
    }
    chip8
}

fn after_with(quirks: Quirks, program: &[u16]) -> Chip8 {
    let mut chip8 = Chip8::with_quirks(quirks);
    for word in program {
        chip8.execute_with(*word, 0).unwrap();
    }
    chip8
}

fn lit_cells(display: &Display) -> Vec<(usize, usize)> {
    let mut cells = Vec::new();
    for y in 0..32 {
        for x in 0..64 {
            if display.pixel(x, y) {
                cells.push((x, y));
            }
        }
    }
    cells
}

fn cycling(program: &[u16]) -> Chip8 {
    let mut bytes = Vec::new();
    for word in program {
        bytes.push((word >> 8) as u8);
        bytes.push((word & 0xFF) as u8);
    }
    let mut chip8 = Chip8::new();
    chip8.load_cartridge(&bytes).unwrap();
    chip8
}

#[test]
fn clear_screen_clears_a_screen_that_was_not_empty() {
    let mut chip8 = after(&[0xA050, 0xD005, 0x6108, 0xD105]);
    assert!(!lit_cells(chip8.display()).is_empty());
    assert_eq!(chip8.execute_with(0x00E0, 0), Ok(()));
    assert!(lit_cells(chip8.display()).is_empty());
    assert_eq!(chip8.i(), 0x050);
    assert_eq!(chip8.registers()[1], 8);
}

#[test]
fn jump_sets_the_program_counter_and_nothing_else() {
    let mut chip8 = after(&[0x6011, 0x6F22, 0xA333, 0xF015, 0xF018, 0x2400]);
    let memory = *chip8.memory();
    let registers = *chip8.registers();
    assert_eq!(chip8.execute_with(0x1ABC, 0), Ok(()));
    assert_eq!(chip8.pc(), 0xABC);
    assert_eq!(chip8.registers(), &registers);
    assert_eq!(chip8.memory(), &memory);
    assert_eq!(chip8.i(), 0x333);
    assert_eq!(chip8.stack_depth(), 1);
    assert_eq!(chip8.delay_timer(), 0x11);
    assert_eq!(chip8.sound_timer(), 0x11);
    assert!(lit_cells(chip8.display()).is_empty());
}

#[test]
fn call_then_return_comes_back_behind_the_call() {
    let mut program = vec![0x6001u16, 0x2300];
    program.resize((0x300 - 0x200) / 2, 0x6000);
    program.push(0x00EE);
    let mut chip8 = cycling(&program);
    chip8.cycle().unwrap();
    assert_eq!(chip8.pc(), 0x202);
    let depth = chip8.stack_depth();
    chip8.cycle().unwrap();
    assert_eq!(chip8.pc(), 0x300);
    assert_eq!(chip8.stack_depth(), depth + 1);
    chip8.cycle().unwrap();
    assert_eq!(chip8.pc(), 0x204);
    assert_eq!(chip8.stack_depth(), depth);
}

#[test]
fn nested_calls_return_in_reverse_order() {
    let mut chip8 = Chip8::new();
    chip8.execute_with(0x2300, 0).unwrap();
    chip8.execute_with(0x2400, 0).unwrap();
    assert_eq!(chip8.pc(), 0x400);
    assert_eq!(chip8.stack_depth(), 2);
    chip8.execute_with(0x00EE, 0).unwrap();
    assert_eq!(chip8.pc(), 0x300);
    chip8.execute_with(0x00EE, 0).unwrap();
    assert_eq!(chip8.pc(), 0x200);
    assert_eq!(chip8.stack_depth(), 0);
}

#[test]
fn add_byte_wraps_and_leaves_the_flag_alone() {
    let chip8 = after(&[0x63FF, 0x7302]);
    assert_eq!(chip8.registers()[3], 0x01);
    assert_eq!(chip8.registers()[0xF], 0x00);
    let chip8 = after(&[0x6F07, 0x63FF, 0x7302]);
    assert_eq!(chip8.registers()[3], 0x01);
    assert_eq!(chip8.registers()[0xF], 0x07);
}

#[test]
fn add_sets_the_flag_on_a_carry() {
    let chip8 = after(&[0x63FF, 0x6402, 0x8344]);
    assert_eq!(chip8.registers()[3], 0x01);
    assert_eq!(chip8.registers()[4], 0x02);
    assert_eq!(chip8.registers()[0xF], 1);
}

#[test]
fn add_clears_the_flag_without_a_carry() {
    let chip8 = after(&[0x6F09, 0x6301, 0x6402, 0x8344]);
    assert_eq!(chip8.registers()[3], 0x03);
    assert_eq!(chip8.registers()[0xF], 0);
}

#[test]
fn add_of_255_and_0_does_not_carry() {
    let chip8 = after(&[0x63FF, 0x6400, 0x8344]);
    assert_eq!(chip8.registers()[3], 0xFF);
    assert_eq!(chip8.registers()[0xF], 0);
    let chip8 = after(&[0x63FF, 0x6401, 0x8344]);
    assert_eq!(chip8.registers()[3], 0x00);
    assert_eq!(chip8.registers()[0xF], 1);
}

#[test]
fn the_flag_wins_where_the_target_is_the_flag_register() {
    let chip8 = after(&[0x6FFF, 0x6102, 0x8F14]);
    assert_eq!(chip8.registers()[0xF], 1);
    let chip8 = after(&[0x6F01, 0x6102, 0x8F14]);
    assert_eq!(chip8.registers()[0xF], 0);
}

#[test]
fn decimal_writes_hundreds_tens_and_ones() {
    let chip8 = after(&[0x65EA, 0xA300, 0xF533]);
    assert_eq!(&chip8.memory()[0x300..0x303], &[2, 3, 4]);
    assert_eq!(chip8.memory()[0x2FF], 0);
    assert_eq!(chip8.memory()[0x303], 0);
    assert_eq!(chip8.i(), 0x300);
    let chip8 = after(&[0x6507, 0xA300, 0xF533]);
    assert_eq!(&chip8.memory()[0x300..0x303], &[0, 0, 7]);
    let chip8 = after(&[0x65FF, 0xA300, 0xF533]);
    assert_eq!(&chip8.memory()[0x300..0x303], &[2, 5, 5]);
}

#[test]
fn decimal_at_the_end_of_memory() {
    let chip8 = after(&[0x657B, 0xAFFD, 0xF533]);
    assert_eq!(&chip8.memory()[0xFFD..0x1000], &[1, 2, 3]);
    let mut chip8 = after(&[0x657B, 0xAFFE]);
    assert_eq!(chip8.execute_with(0xF533, 0), Err(Chip8Error::OutOfBounds));
    assert_eq!(&chip8.memory()[0xFFE..0x1000], &[0, 0]);
}

#[test]
fn store_then_restore_gives_the_registers_back() {
    let mut chip8 = after(&[0x6011, 0x6122, 0x6233, 0x6344, 0xA400]);
    let before = *chip8.registers();
    chip8.execute_with(0xF255, 0).unwrap();
    assert_eq!(&chip8.memory()[0x400..0x404], &[0x11, 0x22, 0x33, 0x00]);
    assert_eq!(chip8.i(), 0x400);
    chip8.execute_with(0xF265, 0).unwrap();
    assert_eq!(chip8.registers(), &before);
    assert_eq!(chip8.i(), 0x400);
}

#[test]
fn restore_reads_registers_up_to_x_only() {
    let mut chip8 = after(&[0x6011, 0x6122, 0x6233, 0x6344, 0xA400, 0xF355]);
    for word in [0x6000u16, 0x6100, 0x6200, 0x6300] {
        chip8.execute_with(word, 0).unwrap();
    }
    chip8.execute_with(0xF165, 0).unwrap();
    assert_eq!(&chip8.registers()[0..4], &[0x11, 0x22, 0x00, 0x00]);
}

#[test]
fn store_of_all_registers() {
    let mut chip8 = Chip8::new();
    for x in 0..16u16 {
        chip8.execute_with(0x6000 | (x << 8) | (x + 1), 0).unwrap();
    }
    chip8.execute_with(0xA500, 0).unwrap();
    chip8.execute_with(0xFF55, 0).unwrap();
    for x in 0..16usize {
        assert_eq!(chip8.memory()[0x500 + x], x as u8 + 1);
    }
    assert_eq!(chip8.memory()[0x510], 0);
}

#[test]
fn store_and_restore_at_the_end_of_memory() {
    let mut chip8 = after(&[0x60AA, 0x61BB, 0xAFFF]);
    assert_eq!(chip8.execute_with(0xF055, 0), Ok(()));
    assert_eq!(chip8.memory()[0xFFF], 0xAA);
    assert_eq!(chip8.execute_with(0xF155, 0), Err(Chip8Error::OutOfBounds));
    assert_eq!(chip8.execute_with(0xF165, 0), Err(Chip8Error::OutOfBounds));
    assert_eq!(chip8.execute_with(0xF065, 0), Ok(()));
    assert_eq!(chip8.registers()[0], 0xAA);
    assert_eq!(chip8.registers()[1], 0xBB);
}

#[test]
fn the_seventeenth_call_overflows_the_stack() {
    let mut chip8 = Chip8::new();
    for depth in 0..16 {
        assert_eq!(chip8.stack_depth(), depth);
        assert_eq!(chip8.execute_with(0x2300, 0), Ok(()));
    }
    assert_eq!(chip8.stack_depth(), 16);
    chip8.execute_with(0x1234, 0).unwrap();
    assert_eq!(chip8.execute_with(0x2300, 0), Err(Chip8Error::StackOverflow));
    assert_eq!(chip8.stack_depth(), 16);
    assert_eq!(chip8.pc(), 0x234);
}

#[test]
fn calling_to_depth_seventeen_in_cycles_overflows() {
    let mut chip8 = cycling(&[0x2200]);
    for _ in 0..16 {
        assert_eq!(chip8.cycle(), Ok(()));
        assert_eq!(chip8.pc(), 0x200);
    }
    assert_eq!(chip8.stack_depth(), 16);
    assert_eq!(chip8.cycle(), Err(Chip8Error::StackOverflow));
    assert_eq!(chip8.stack_depth(), 16);
    assert_eq!(chip8.pc(), 0x200);
}

#[test]
fn a_return_with_an_empty_stack_underflows() {
    let mut chip8 = Chip8::new();
    assert_eq!(chip8.execute_with(0x00EE, 0), Err(Chip8Error::StackUnderflow));
    assert_eq!(chip8.pc(), 0x200);
    assert_eq!(chip8.stack_depth(), 0);
    let mut chip8 = cycling(&[0x00EE]);
    assert_eq!(chip8.cycle(), Err(Chip8Error::StackUnderflow));
    assert_eq!(chip8.pc(), 0x200);
}

#[test]
fn skip_if_equal_compares_with_the_byte() {
    let chip8 = after(&[0x6A42, 0x3A42]);
    assert_eq!(chip8.pc(), 0x202);
    let chip8 = after(&[0x6A42, 0x3A43]);
    assert_eq!(chip8.pc(), 0x200);
}

#[test]
fn skip_if_not_equal_compares_with_the_byte() {
    let chip8 = after(&[0x6A42, 0x4A42]);
    assert_eq!(chip8.pc(), 0x200);
    let chip8 = after(&[0x6A42, 0x4A43]);
    assert_eq!(chip8.pc(), 0x202);
}

#[test]
fn skips_compare_two_registers() {
    let chip8 = after(&[0x6A42, 0x6B42, 0x5AB0]);
    assert_eq!(chip8.pc(), 0x202);
    let chip8 = after(&[0x6A42, 0x6B43, 0x5AB0]);
    assert_eq!(chip8.pc(), 0x200);
    let chip8 = after(&[0x6A42, 0x6B42, 0x9AB0]);
    assert_eq!(chip8.pc(), 0x200);
    let chip8 = after(&[0x6A42, 0x6B43, 0x9AB0]);
    assert_eq!(chip8.pc(), 0x202);
}

#[test]
fn a_skip_in_a_cycle_moves_past_two_instructions() {
    let mut chip8 = cycling(&[0x3000, 0x6011, 0x6122]);
    assert_eq!(chip8.cycle(), Ok(()));
    assert_eq!(chip8.pc(), 0x204);
    assert_eq!(chip8.cycle(), Ok(()));
    assert_eq!(chip8.registers()[0], 0);
    assert_eq!(chip8.registers()[1], 0x22);
}

#[test]
fn copy_and_the_bitwise_instructions() {
    let chip8 = after(&[0x61CC, 0x62AA, 0x8120]);
    assert_eq!(chip8.registers()[1], 0xAA);
    let chip8 = after(&[0x61CC, 0x62AA, 0x8121]);
    assert_eq!(chip8.registers()[1], 0xEE);
    let chip8 = after(&[0x61CC, 0x62AA, 0x8122]);
    assert_eq!(chip8.registers()[1], 0x88);
    let chip8 = after(&[0x61CC, 0x62AA, 0x8123]);
    assert_eq!(chip8.registers()[1], 0x66);
    assert_eq!(chip8.registers()[2], 0xAA);
    assert_eq!(chip8.registers()[0xF], 0);
}

#[test]
fn subtract_sets_the_flag_when_nothing_is_borrowed() {
    let chip8 = after(&[0x6105, 0x6203, 0x8125]);
    assert_eq!(chip8.registers()[1], 2);
    assert_eq!(chip8.registers()[0xF], 1);
    let chip8 = after(&[0x6103, 0x6205, 0x8125]);
    assert_eq!(chip8.registers()[1], 0xFE);
    assert_eq!(chip8.registers()[0xF], 0);
    let chip8 = after(&[0x6105, 0x6205, 0x8125]);
    assert_eq!(chip8.registers()[1], 0);
    assert_eq!(chip8.registers()[0xF], 1);
}

#[test]
fn subtract_from_takes_the_difference_the_other_way() {
    let chip8 = after(&[0x6103, 0x6205, 0x8127]);
    assert_eq!(chip8.registers()[1], 2);
    assert_eq!(chip8.registers()[2], 5);
    assert_eq!(chip8.registers()[0xF], 1);
    let chip8 = after(&[0x6105, 0x6203, 0x8127]);
    assert_eq!(chip8.registers()[1], 0xFE);
    assert_eq!(chip8.registers()[0xF], 0);
}

#[test]
fn shifts_work_in_place_and_keep_the_bit_shifted_out() {
    let chip8 = after(&[0x6105, 0x62F0, 0x8126]);
    assert_eq!(chip8.registers()[1], 0x02);
    assert_eq!(chip8.registers()[2], 0xF0);
    assert_eq!(chip8.registers()[0xF], 1);
    let chip8 = after(&[0x6104, 0x8126]);
    assert_eq!(chip8.registers()[1], 0x02);
    assert_eq!(chip8.registers()[0xF], 0);
    let chip8 = after(&[0x6181, 0x6203, 0x812E]);
    assert_eq!(chip8.registers()[1], 0x02);
    assert_eq!(chip8.registers()[2], 0x03);
    assert_eq!(chip8.registers()[0xF], 1);
    let chip8 = after(&[0x6141, 0x812E]);
    assert_eq!(chip8.registers()[1], 0x82);
    assert_eq!(chip8.registers()[0xF], 0);
}

#[test]
fn shifts_read_the_other_register_with_the_quirk() {
    let quirks = Quirks { shift_uses_vy: true, wrap_rows: false };
    let chip8 = after_with(quirks, &[0x6105, 0x62F0, 0x8126]);
    assert_eq!(chip8.registers()[1], 0x78);
    assert_eq!(chip8.registers()[2], 0xF0);
    assert_eq!(chip8.registers()[0xF], 0);
    let chip8 = after_with(quirks, &[0x6105, 0x62F1, 0x812E]);
    assert_eq!(chip8.registers()[1], 0xE2);
    assert_eq!(chip8.registers()[0xF], 1);
}

#[test]
fn load_index_and_jump_with_offset() {
    let chip8 = after(&[0xAFFF]);
    assert_eq!(chip8.i(), 0xFFF);
    let chip8 = after(&[0x6010, 0xB300]);
    assert_eq!(chip8.pc(), 0x310);
    let chip8 = after(&[0x60FF, 0xBFFF]);
    assert_eq!(chip8.pc(), 0x10FE);
}

#[test]
fn add_index_wraps_at_sixteen_bits() {
    let chip8 = after(&[0xA123, 0x6010, 0xF01E]);
    assert_eq!(chip8.i(), 0x133);
    let mut chip8 = after(&[0xAFFF, 0x60FF]);
    for _ in 0..241 {
        chip8.execute_with(0xF01E, 0).unwrap();
    }
    assert_eq!(chip8.i(), ((0xFFFu32 + 241 * 255) % 0x10000) as u16);
    assert_eq!(chip8.i(), 0x000E);
    assert_eq!(chip8.registers()[0xF], 0);
}

#[test]
fn glyph_points_at_the_digit() {
    let chip8 = after(&[0x6000, 0xF029]);
    assert_eq!(chip8.i(), 0x050);
    let chip8 = after(&[0x600A, 0xF029]);
    assert_eq!(chip8.i(), 0x050 + 50);
    assert_eq!(&chip8.memory()[0x082..0x087], &[0xF0, 0x90, 0xF0, 0x90, 0x90]);
    let chip8 = after(&[0x60FF, 0xF029]);
    assert_eq!(chip8.i(), 0x050 + 5 * 255);
}

#[test]
fn timers_are_set_from_a_register() {
    let chip8 = after(&[0x6033, 0x6144, 0xF015, 0xF118]);
    assert_eq!(chip8.delay_timer(), 0x33);
    assert_eq!(chip8.sound_timer(), 0x44);
    let chip8 = after(&[0x6033, 0xF015, 0xF207]);
    assert_eq!(chip8.registers()[2], 0x33);
}

#[test]
fn draw_a_glyph_and_erase_it() {
    let mut chip8 = after(&[0x6F07, 0x6003, 0x6102, 0xA050, 0xD015]);
    assert_eq!(
        lit_cells(chip8.display()),
        vec![
            (3, 2), (4, 2), (5, 2), (6, 2),
            (3, 3), (6, 3),
            (3, 4), (6, 4),
            (3, 5), (6, 5),
            (3, 6), (4, 6), (5, 6), (6, 6),
        ]
    );
    assert_eq!(chip8.registers()[0xF], 0);
    assert!(chip8.display().needs_update());
    chip8.execute_with(0xD015, 0).unwrap();
    assert!(lit_cells(chip8.display()).is_empty());
    assert_eq!(chip8.registers()[0xF], 1);
}

#[test]
fn draw_wraps_columns_and_clips_rows() {
    let chip8 = after(&[0x603E, 0x611E, 0xA050, 0xD015]);
    assert_eq!(
        lit_cells(chip8.display()),
        vec![(0, 30), (1, 30), (62, 30), (63, 30), (1, 31), (62, 31)]
    );
    assert_eq!(chip8.registers()[0xF], 0);
    let chip8 = after(&[0x6000, 0x6120, 0xA050, 0xD015]);
    assert!(lit_cells(chip8.display()).is_empty());
    assert!(chip8.display().needs_update());
}

#[test]
fn draw_wraps_rows_with_the_quirk() {
    let quirks = Quirks { shift_uses_vy: false, wrap_rows: true };
    let chip8 = after_with(quirks, &[0x6000, 0x611E, 0xA050, 0xD015]);
    assert_eq!(
        lit_cells(chip8.display()),
        vec![
            (0, 0), (3, 0),
            (0, 1), (3, 1),
            (0, 2), (1, 2), (2, 2), (3, 2),
            (0, 30), (1, 30), (2, 30), (3, 30),
            (0, 31), (3, 31),
        ]
    );
    let chip8 = after_with(quirks, &[0x6000, 0x6121, 0xA050, 0xD011]);
    assert_eq!(lit_cells(chip8.display()), vec![(0, 1), (1, 1), (2, 1), (3, 1)]);
}

#[test]
fn draw_reads_its_place_before_it_resets_the_flag() {
    let chip8 = after(&[0x6F05, 0x6000, 0xA050, 0xDF01]);
    assert_eq!(lit_cells(chip8.display()), vec![(5, 0), (6, 0), (7, 0), (8, 0)]);
    assert_eq!(chip8.registers()[0xF], 0);
}

#[test]
fn draw_of_no_rows_resets_the_flag_and_asks_for_a_frame() {
    let chip8 = after(&[0x6F05, 0xAFFF, 0xF01E, 0xD000]);
    assert!(lit_cells(chip8.display()).is_empty());
    assert_eq!(chip8.registers()[0xF], 0);
    assert!(chip8.display().needs_update());
}

#[test]
fn draw_past_the_end_of_memory_is_out_of_bounds() {
    let mut chip8 = after(&[0x6F05, 0xAFFF]);
    assert_eq!(chip8.execute_with(0xD001, 0), Ok(()));
    assert_eq!(chip8.execute_with(0xD002, 0), Err(Chip8Error::OutOfBounds));
    assert_eq!(chip8.execute_with(0xD00F, 0), Err(Chip8Error::OutOfBounds));
    let mut chip8 = after(&[0x6F05, 0xAFFF, 0x6001, 0xF01E]);
    assert_eq!(chip8.i(), 0x1000);
    assert_eq!(chip8.execute_with(0xD111, 0), Err(Chip8Error::OutOfBounds));
    assert_eq!(chip8.registers()[0xF], 5);
    assert!(!chip8.display().needs_update());
}

#[test]
fn key_skips_follow_the_keypad() {
    let mut held = [false; 16];
    held[0xA] = true;
    let mut chip8 = after(&[0x630A, 0x640B]);
    chip8.set_keys(held, None);
    chip8.execute_with(0xE39E, 0).unwrap();
    assert_eq!(chip8.pc(), 0x202);
    chip8.execute_with(0xE3A1, 0).unwrap();
    assert_eq!(chip8.pc(), 0x202);
    chip8.execute_with(0xE49E, 0).unwrap();
    assert_eq!(chip8.pc(), 0x202);
    chip8.execute_with(0xE4A1, 0).unwrap();
    assert_eq!(chip8.pc(), 0x204);
}

#[test]
fn a_key_code_past_the_keypad_is_out_of_bounds() {
    let mut chip8 = after(&[0x6310]);
    assert_eq!(chip8.execute_with(0xE39E, 0), Err(Chip8Error::OutOfBounds));
    assert_eq!(chip8.execute_with(0xE3A1, 0), Err(Chip8Error::OutOfBounds));
    assert_eq!(chip8.pc(), 0x200);
    let mut chip8 = after(&[0x630F]);
    assert_eq!(chip8.execute_with(0xE3A1, 0), Ok(()));
    assert_eq!(chip8.pc(), 0x202);
}

#[test]
fn wait_key_runs_again_until_a_key_is_pressed() {
    let mut chip8 = cycling(&[0x6107, 0xF10A, 0x6201]);
    chip8.cycle().unwrap();
    for _ in 0..5 {
        assert_eq!(chip8.cycle(), Ok(()));
        assert_eq!(chip8.pc(), 0x202);
        assert_eq!(chip8.registers()[1], 7);
    }
    chip8.set_keys([false; 16], Some(0xC));
    assert_eq!(chip8.cycle(), Ok(()));
    assert_eq!(chip8.pc(), 0x204);
    assert_eq!(chip8.registers()[1], 0xC);
}

#[test]
fn wait_key_still_counts_the_timers_down() {
    let mut chip8 = cycling(&[0x6005, 0xF015, 0xF10A]);
    chip8.cycle().unwrap();
    chip8.cycle().unwrap();
    assert_eq!(chip8.delay_timer(), 4);
    chip8.cycle().unwrap();
    chip8.cycle().unwrap();
    assert_eq!(chip8.delay_timer(), 2);
    assert_eq!(chip8.pc(), 0x204);
}

#[test]
fn execute_opcode_does_what_execute_with_does() {
    let mut one = Chip8::new();
    let mut other = Chip8::new();
    for word in [0x6105u16, 0x62F0, 0x8124, 0xA050, 0xD125, 0x2400, 0xF133] {
        assert_eq!(one.execute_opcode(word), other.execute_with(word, 0x5A));
    }
    assert_eq!(one.registers(), other.registers());
    assert_eq!(one.memory(), other.memory());
    assert_eq!(one.pc(), other.pc());
    assert_eq!(one.i(), other.i());
    assert_eq!(lit_cells(one.display()), lit_cells(other.display()));
}

#[test]
fn execute_with_masks_the_random_byte() {
    let mut chip8 = Chip8::new();
    chip8.execute_with(0xC73C, 0xFF).unwrap();
    assert_eq!(chip8.registers()[7], 0x3C);
    chip8.execute_with(0xC7FF, 0x5A).unwrap();
    assert_eq!(chip8.registers()[7], 0x5A);
    chip8.execute_with(0xC700, 0x5A).unwrap();
    assert_eq!(chip8.registers()[7], 0x00);
}

#[test]
fn execute_opcode_keeps_a_random_byte_under_its_mask() {
    let mut chip8 = Chip8::new();
    for _ in 0..200 {
        chip8.execute_opcode(0xC803).unwrap();
        assert!(chip8.registers()[8] <= 3);
    }
}

#[test]
fn the_program_counter_wraps_at_sixteen_bits() {
    let mut chip8 = after(&[0x1000]);
    assert_eq!(chip8.pc(), 0x000);
    chip8.execute_with(0xF00A, 0).unwrap();
    assert_eq!(chip8.pc(), 0xFFFE);
    chip8.execute_with(0x3000, 0).unwrap();
    assert_eq!(chip8.pc(), 0x0000);
    chip8.execute_with(0x3001, 0).unwrap();
    assert_eq!(chip8.pc(), 0x0000);
}

#[test]
fn a_cycle_far_outside_memory_is_out_of_bounds() {
    let mut chip8 = after(&[0x1000, 0xF00A]);
    assert_eq!(chip8.pc(), 0xFFFE);
    assert_eq!(chip8.cycle(), Err(Chip8Error::OutOfBounds));
    assert_eq!(chip8.cycle_with(7), Err(Chip8Error::OutOfBounds));
    assert_eq!(chip8.pc(), 0xFFFE);
}
