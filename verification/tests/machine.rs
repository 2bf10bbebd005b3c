//! Tests of the interpreter: instruction semantics, halting conditions,
//! the key wait, and the timer cadence.

use chirp::Chip8;

/// Build a program image from a list of big-endian instruction words.
fn rom_words(words: &[u16]) -> Vec<u8> {
    let mut rom = Vec::new();
    for w in words {
        rom.push((w >> 8) as u8);
        rom.push((w & 0xFF) as u8);
    }
    rom
}

/// Boot a machine and run `steps` deterministic steps with entropy zero.
fn run(words: &[u16], steps: usize) -> Chip8 {
    let mut c = Chip8::new(&rom_words(words));
    for _ in 0..steps {
        c.step_with(0);
    }
    c
}

#[test]
fn ld_imm_sets_register() {
    let c = run(&[0x612A], 1);
    assert_eq!(c.register(1), 0x2A);
    assert_eq!(c.program_counter(), 0x202);
    assert!(!c.halted());
}

#[test]
fn add_imm_wraps_without_flag() {
    // V0 := 250; V0 += 16 wraps to 10; VF stays 0.
    let c = run(&[0x60FA, 0x7010], 2);
    assert_eq!(c.register(0), 10);
    assert_eq!(c.register(15), 0);
}

#[test]
fn ld_reg_copies() {
    let c = run(&[0x6137, 0x8010], 2);
    assert_eq!(c.register(0), 0x37);
}

#[test]
fn or_and_xor() {
    let c = run(&[0x60F0, 0x610F, 0x8011], 3);
    assert_eq!(c.register(0), 0xFF);
    let c = run(&[0x60F0, 0x613C, 0x8012], 3);
    assert_eq!(c.register(0), 0x30);
    let c = run(&[0x60F0, 0x613C, 0x8013], 3);
    assert_eq!(c.register(0), 0xCC);
}

#[test]
fn add_reg_sets_carry() {
    // 255 + 1 wraps to 0 with carry.
    let c = run(&[0x60FF, 0x6101, 0x8014], 3);
    assert_eq!(c.register(0), 0);
    assert_eq!(c.register(15), 1);
}

#[test]
fn add_reg_without_carry() {
    let c = run(&[0x600A, 0x6114, 0x8014], 3);
    assert_eq!(c.register(0), 30);
    assert_eq!(c.register(15), 0);
}

#[test]
fn sub_reg_no_borrow_sets_flag() {
    // 10 - 5 = 5, no borrow: VF = 1.
    let c = run(&[0x600A, 0x6105, 0x8015], 3);
    assert_eq!(c.register(0), 5);
    assert_eq!(c.register(15), 1);
}

#[test]
fn sub_reg_borrow_clears_flag() {
    // 5 - 10 wraps to 251, borrow: VF = 0.
    let c = run(&[0x6005, 0x610A, 0x8015], 3);
    assert_eq!(c.register(0), 251);
    assert_eq!(c.register(15), 0);
}

#[test]
fn subn_reg_reversed_operands() {
    // V0 := V1 - V0 = 10 - 5 = 5, no borrow: VF = 1.
    let c = run(&[0x6005, 0x610A, 0x8017], 3);
    assert_eq!(c.register(0), 5);
    assert_eq!(c.register(15), 1);
}

#[test]
fn shr_captures_low_bit() {
    // Shifting 0x01 right yields 0 with flag 1.
    let c = run(&[0x6001, 0x8006], 2);
    assert_eq!(c.register(0), 0);
    assert_eq!(c.register(15), 1);
}

#[test]
fn shl_keeps_raw_high_bit() {
    // Shifting 0x80 left yields 0 with the raw masked bit 0x80, not 1.
    let c = run(&[0x6080, 0x800E], 2);
    assert_eq!(c.register(0), 0);
    assert_eq!(c.register(15), 0x80);
}

#[test]
fn shl_low_value_clears_flag() {
    let c = run(&[0x6021, 0x800E], 2);
    assert_eq!(c.register(0), 0x42);
    assert_eq!(c.register(15), 0);
}

#[test]
fn jump_sets_pc() {
    let c = run(&[0x1208], 1);
    assert_eq!(c.program_counter(), 0x208);
}

#[test]
fn jump_v0_adds_register() {
    let c = run(&[0x6004, 0xB204], 2);
    assert_eq!(c.program_counter(), 0x208);
}

#[test]
fn skip_if_equal_immediate() {
    let c = run(&[0x6007, 0x3007], 2);
    assert_eq!(c.program_counter(), 0x206);
    let c = run(&[0x6007, 0x3008], 2);
    assert_eq!(c.program_counter(), 0x204);
}

#[test]
fn skip_if_not_equal_immediate() {
    let c = run(&[0x6007, 0x4008], 2);
    assert_eq!(c.program_counter(), 0x206);
    let c = run(&[0x6007, 0x4007], 2);
    assert_eq!(c.program_counter(), 0x204);
}

#[test]
fn skip_on_register_compare() {
    let c = run(&[0x6005, 0x6105, 0x5010], 3);
    assert_eq!(c.program_counter(), 0x208);
    let c = run(&[0x6005, 0x6106, 0x9010], 3);
    assert_eq!(c.program_counter(), 0x208);
    let c = run(&[0x6005, 0x6105, 0x9010], 3);
    assert_eq!(c.program_counter(), 0x206);
}

#[test]
fn load_index_register() {
    let c = run(&[0xA123], 1);
    assert_eq!(c.index_register(), 0x123);
}

#[test]
fn add_to_index() {
    let c = run(&[0xA100, 0x60FF, 0xF01E], 3);
    assert_eq!(c.index_register(), 0x1FF);
}

#[test]
fn add_to_index_saturates() {
    // I := 0xFFF, then add 255 in a loop: I sticks at the top of u16
    // instead of wrapping back into the address space.
    let mut c = Chip8::new(&rom_words(&[0xAFFF, 0x60FF, 0xF01E, 0x1204]));
    for _ in 0..600 {
        c.step_with(0);
    }
    assert_eq!(c.index_register(), 0xFFFF);
    assert!(!c.halted());
}

#[test]
fn random_is_masked() {
    // With injected entropy 0xAB and mask 0x0F only the low nibble stays.
    let c = run(&[0xC00F], 1);
    assert_eq!(c.register(0), 0);
    let mut c = Chip8::new(&rom_words(&[0xC00F]));
    c.step_with(0xAB);
    assert_eq!(c.register(0), 0x0B);
}

#[test]
fn random_with_zero_mask_is_zero() {
    // Through the real generator: any byte masked with zero is zero.
    let mut c = Chip8::new(&rom_words(&[0x60FF, 0xC000]));
    c.step();
    c.step();
    assert_eq!(c.register(0), 0);
}

#[test]
fn bcd_decomposes_255() {
    let c = run(&[0x60FF, 0xA300, 0xF033], 3);
    assert_eq!(c.memory_at(0x300), 2);
    assert_eq!(c.memory_at(0x301), 5);
    assert_eq!(c.memory_at(0x302), 5);
}

#[test]
fn bcd_decomposes_zero() {
    let c = run(&[0x6000, 0xA300, 0xF033], 3);
    assert_eq!(c.memory_at(0x300), 0);
    assert_eq!(c.memory_at(0x301), 0);
    assert_eq!(c.memory_at(0x302), 0);
}

#[test]
fn store_registers_advances_index() {
    let c = run(&[0x6011, 0x6122, 0x6233, 0xA300, 0xF255], 5);
    assert_eq!(c.memory_at(0x300), 0x11);
    assert_eq!(c.memory_at(0x301), 0x22);
    assert_eq!(c.memory_at(0x302), 0x33);
    assert_eq!(c.index_register(), 0x303);
}

#[test]
fn store_then_load_round_trip() {
    // Store V0..=V2, clobber them, reset I, load them back: the registers
    // return and I advances by three in both operations.
    let c = run(
        &[
            0x6011, 0x6122, 0x6233, // V0..V2 := 11 22 33
            0xA300, 0xF255, // store at 0x300, I ends at 0x303
            0x6000, 0x6100, 0x6200, // clobber
            0xA300, 0xF265, // load back
        ],
        10,
    );
    assert_eq!(c.register(0), 0x11);
    assert_eq!(c.register(1), 0x22);
    assert_eq!(c.register(2), 0x33);
    assert_eq!(c.index_register(), 0x303);
}

#[test]
fn font_address_and_table() {
    // I points at the five-byte glyph for the digit in V0.
    let c = run(&[0x6004, 0xF029], 2);
    assert_eq!(c.index_register(), 20);
    assert_eq!(c.memory_at(20), 0x90);
    assert_eq!(c.memory_at(0), 0xF0);
    assert_eq!(c.memory_at(79), 0x80);
}

#[test]
fn delay_timer_set_and_read() {
    let c = run(&[0x6005, 0xF015, 0xF107], 3);
    assert_eq!(c.delay_timer(), 5);
    assert_eq!(c.register(1), 5);
}

#[test]
fn timers_decay_to_zero_and_stop() {
    // delay := 5, sound := 3; each second bookkeeping call ticks once.
    let mut c = run(&[0x6005, 0xF015, 0x6103, 0xF118], 4);
    assert_eq!(c.delay_timer(), 5);
    assert_eq!(c.sound_timer(), 3);
    assert!(c.tone_active());
    for _ in 0..6 {
        c.update_timers();
    }
    assert_eq!(c.delay_timer(), 2);
    assert_eq!(c.sound_timer(), 0);
    assert!(!c.tone_active());
    for _ in 0..20 {
        c.update_timers();
    }
    assert_eq!(c.delay_timer(), 0);
    assert_eq!(c.sound_timer(), 0);
}

#[test]
fn skip_if_key_pressed() {
    let mut c = Chip8::new(&rom_words(&[0x6005, 0xE09E]));
    c.key_down(5);
    c.step_with(0);
    c.step_with(0);
    assert_eq!(c.program_counter(), 0x206);
}

#[test]
fn no_skip_when_key_not_pressed() {
    let mut c = Chip8::new(&rom_words(&[0x6005, 0xE09E, 0x0000]));
    c.step_with(0);
    c.step_with(0);
    assert_eq!(c.program_counter(), 0x204);
}

#[test]
fn skip_if_key_not_pressed() {
    let mut c = Chip8::new(&rom_words(&[0x6005, 0xE0A1]));
    c.step_with(0);
    c.step_with(0);
    assert_eq!(c.program_counter(), 0x206);
    let mut c = Chip8::new(&rom_words(&[0x6005, 0xE0A1]));
    c.key_down(5);
    c.step_with(0);
    c.step_with(0);
    assert_eq!(c.program_counter(), 0x204);
}

#[test]
fn key_test_above_fifteen_halts() {
    let c = run(&[0x6010, 0xE09E], 2);
    assert!(c.halted());
}

#[test]
fn wait_for_key_blocks_until_press() {
    let mut c = Chip8::new(&rom_words(&[0xF00A, 0x6105]));
    c.step_with(0);
    assert!(c.is_waiting());
    let pc = c.program_counter();
    c.step_with(0);
    assert!(c.is_waiting());
    assert_eq!(c.program_counter(), pc);
    c.key_down(7);
    c.step_with(0);
    assert!(!c.is_waiting());
    assert_eq!(c.register(0), 7);
    c.step_with(0);
    assert_eq!(c.register(1), 5);
}

#[test]
fn wait_for_key_ignores_earlier_press() {
    // A key pressed before the wait began does not end it: the latch is
    // cleared when the wait starts.
    let mut c = Chip8::new(&rom_words(&[0xF00A]));
    c.key_down(3);
    c.step_with(0);
    assert!(c.is_waiting());
    c.step_with(0);
    assert!(c.is_waiting());
}

#[test]
fn wait_for_key_ends_on_quit() {
    let mut c = Chip8::new(&rom_words(&[0xF00A]));
    c.step_with(0);
    assert!(c.is_waiting());
    c.set_quit();
    assert!(c.quit_requested());
    c.step_with(0);
    assert!(!c.is_waiting());
    assert_eq!(c.register(0), 0);
}

#[test]
fn call_and_return_round_trip() {
    // Call 0x206, then return: the counter comes back to the instruction
    // after the call.
    let c = run(&[0x2206, 0x0000, 0x0000, 0x00EE], 1);
    assert_eq!(c.program_counter(), 0x206);
    let c = run(&[0x2206, 0x0000, 0x0000, 0x00EE], 2);
    assert_eq!(c.program_counter(), 0x202);
    assert!(!c.halted());
}

#[test]
fn seventeenth_call_halts() {
    // Sixteen nested calls fit; one more overflows the stack region.
    let mut words = Vec::new();
    for k in 0..18u16 {
        words.push(0x2200 + 2 * (k + 1));
    }
    let mut c = Chip8::new(&rom_words(&words));
    for _ in 0..16 {
        c.step_with(0);
    }
    assert!(!c.halted());
    c.step_with(0);
    assert!(c.halted());
}

#[test]
fn return_without_call_halts() {
    let c = run(&[0x00EE], 1);
    assert!(c.halted());
}

#[test]
fn unknown_opcode_halts_and_freezes() {
    // 5xy1 matches no instruction: the machine halts and a further step
    // changes nothing.
    let mut c = Chip8::new(&rom_words(&[0x6042, 0x5121]));
    c.step_with(0);
    c.step_with(0);
    assert!(c.halted());
    let pc = c.program_counter();
    c.step_with(0);
    assert!(c.halted());
    assert_eq!(c.program_counter(), pc);
    assert_eq!(c.register(0), 0x42);
}

#[test]
fn system_call_halts() {
    let c = run(&[0x0000], 1);
    assert!(c.halted());
    let c = run(&[0x0123], 1);
    assert!(c.halted());
}

#[test]
fn fetch_outside_memory_halts() {
    // B jumps to V0 + 0xFFF, past the last fetchable address.
    let c = run(&[0x60FF, 0xBFFF], 3);
    assert!(c.halted());
}

#[test]
fn draw_sets_pixels_and_collision_flag() {
    // Draw the glyph for 0 at (0, 0): first draw reports no toggle-off,
    // drawing again reports one and restores the blank screen.
    let mut c = Chip8::new(&rom_words(&[0x6000, 0xF029, 0xD005, 0xD005]));
    c.step_with(0);
    c.step_with(0);
    c.step_with(0);
    assert_eq!(c.register(15), 0);
    assert!(c.pixel(0, 0));
    assert!(c.pixel(3, 0));
    assert!(!c.pixel(4, 0));
    assert!(c.pixel(0, 4));
    assert!(!c.pixel(1, 1));
    c.step_with(0);
    assert_eq!(c.register(15), 1);
    for x in 0..8 {
        for y in 0..5 {
            assert!(!c.pixel(x, y));
        }
    }
}

#[test]
fn draw_past_memory_end_halts() {
    let c = run(&[0xAFFF, 0xD002], 2);
    assert!(c.halted());
    let c = run(&[0xAFFF, 0xD001], 2);
    assert!(!c.halted());
}

#[test]
fn clear_screen_blanks_and_marks_dirty() {
    let mut c = Chip8::new(&rom_words(&[0x6000, 0xF029, 0xD005, 0x00E0]));
    for _ in 0..3 {
        c.step_with(0);
    }
    assert!(c.pixel(0, 0));
    c.mark_presented();
    assert!(!c.needs_presenting());
    c.step_with(0);
    assert!(c.needs_presenting());
    assert!(!c.pixel(0, 0));
}

#[test]
fn bcd_past_memory_end_halts() {
    let c = run(&[0x60FF, 0xAFFE, 0xF033], 3);
    assert!(c.halted());
    let c = run(&[0x60FF, 0xAFFD, 0xF033], 3);
    assert!(!c.halted());
    assert_eq!(c.memory_at(0xFFD), 2);
    assert_eq!(c.memory_at(0xFFF), 5);
}

#[test]
fn store_registers_past_memory_end_halts() {
    // Two registers fit exactly at the last two bytes; three do not.
    let c = run(&[0x6011, 0x6122, 0xAFFE, 0xF155], 4);
    assert!(!c.halted());
    assert_eq!(c.memory_at(0xFFE), 0x11);
    assert_eq!(c.memory_at(0xFFF), 0x22);
    let c = run(&[0x6011, 0x6122, 0xAFFE, 0xF255], 4);
    assert!(c.halted());
}

#[test]
fn load_registers_past_memory_end_halts() {
    let c = run(&[0xAFFE, 0xF265], 2);
    assert!(c.halted());
    let c = run(&[0xAFFE, 0xF165], 2);
    assert!(!c.halted());
    assert_eq!(c.index_register(), 0x1000);
}

#[test]
fn rom_bytes_land_at_program_start() {
    let c = Chip8::new(&vec![0xDE, 0xAD, 0xBE, 0xEF]);
    assert_eq!(c.memory_at(0x200), 0xDE);
    assert_eq!(c.memory_at(0x203), 0xEF);
    assert_eq!(c.memory_at(0x204), 0);
    assert_eq!(c.program_counter(), 0x200);
}
