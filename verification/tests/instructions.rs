use chip8::emulator::{initEmulator, Emulator};
use chip8::keypad::{Key, Keypad};
use chip8::state::{Config, Fault, Outcome, Status};

fn load(rom: &[u8]) -> Emulator {
    initEmulator(rom.to_vec()).unwrap()
}

fn load_with(rom: &[u8], config: Config) -> Emulator {
    Emulator::new(rom, config).unwrap()
}

fn steps(emulator: &mut Emulator, count: usize) -> Outcome {
    let keys = Keypad::new();
    let mut outcome = Outcome::Executed;
    for _ in 0..count {
        outcome = emulator.step(&keys, 0);
    }
    outcome
}

#[test]
fn load_immediate_sets_register_and_advances() {
    let mut emulator = load(&[0x6A, 0x02]);
    assert_eq!(emulator.pc(), 0x200);
    let outcome = steps(&mut emulator, 1);
    assert_eq!(outcome, Outcome::Executed);
    assert_eq!(emulator.register(0xA), 0x02);
    assert_eq!(emulator.pc(), 0x202);
    for x in 0u8..16 {
        if x != 0xA {
            assert_eq!(emulator.register(x), 0);
        }
    }
}

#[test]
fn add_with_carry_wraps_and_sets_flag() {
    let mut emulator = load(&[0x61, 0xFF, 0x62, 0x01, 0x81, 0x24]);
    steps(&mut emulator, 3);
    assert_eq!(emulator.register(1), 0x00);
    assert_eq!(emulator.register(2), 0x01);
    assert_eq!(emulator.register(0xF), 1);
    assert_eq!(emulator.pc(), 0x206);
}

#[test]
fn add_without_carry_clears_flag() {
    let mut emulator = load(&[0x6F, 0x01, 0x61, 0x10, 0x62, 0x20, 0x81, 0x24]);
    steps(&mut emulator, 4);
    assert_eq!(emulator.register(1), 0x30);
    assert_eq!(emulator.register(0xF), 0);
}

#[test]
fn add_at_the_edge_of_a_byte() {
    let mut emulator = load(&[0x61, 0xFF, 0x62, 0x00, 0x81, 0x24]);
    steps(&mut emulator, 3);
    assert_eq!(emulator.register(1), 0xFF);
    assert_eq!(emulator.register(0xF), 0);
    let mut emulator = load(&[0x61, 0xFF, 0x62, 0xFF, 0x81, 0x24]);
    steps(&mut emulator, 3);
    assert_eq!(emulator.register(1), 0xFE);
    assert_eq!(emulator.register(0xF), 1);
}

#[test]
fn add_into_flag_register_keeps_the_flag() {
    let mut emulator = load(&[0x6F, 0xFF, 0x61, 0x01, 0x8F, 0x14]);
    steps(&mut emulator, 3);
    assert_eq!(emulator.register(0xF), 1);
    let mut emulator = load(&[0x6F, 0x02, 0x61, 0x03, 0x8F, 0x14]);
    steps(&mut emulator, 3);
    assert_eq!(emulator.register(0xF), 0);
}

#[test]
fn subtract_sets_flag_when_no_borrow() {
    let mut emulator = load(&[0x61, 0x20, 0x62, 0x10, 0x81, 0x25]);
    steps(&mut emulator, 3);
    assert_eq!(emulator.register(1), 0x10);
    assert_eq!(emulator.register(0xF), 1);
}

#[test]
fn subtract_wraps_and_clears_flag_on_borrow() {
    let mut emulator = load(&[0x61, 0x10, 0x62, 0x20, 0x81, 0x25]);
    steps(&mut emulator, 3);
    assert_eq!(emulator.register(1), 0xF0);
    assert_eq!(emulator.register(0xF), 0);
}

#[test]
fn subtract_equal_values_sets_flag() {
    let mut emulator = load(&[0x61, 0x33, 0x62, 0x33, 0x81, 0x25]);
    steps(&mut emulator, 3);
    assert_eq!(emulator.register(1), 0x00);
    assert_eq!(emulator.register(0xF), 1);
}

#[test]
fn reverse_subtract_takes_vx_from_vy() {
    let mut emulator = load(&[0x61, 0x10, 0x62, 0x25, 0x81, 0x27]);
    steps(&mut emulator, 3);
    assert_eq!(emulator.register(1), 0x15);
    assert_eq!(emulator.register(0xF), 1);
    let mut emulator = load(&[0x61, 0x25, 0x62, 0x10, 0x81, 0x27]);
    steps(&mut emulator, 3);
    assert_eq!(emulator.register(1), 0xEB);
    assert_eq!(emulator.register(0xF), 0);
    let mut emulator = load(&[0x61, 0x25, 0x62, 0x25, 0x81, 0x27]);
    steps(&mut emulator, 3);
    assert_eq!(emulator.register(1), 0x00);
    assert_eq!(emulator.register(0xF), 1);
}

#[test]
fn copy_or_and_xor() {
    let mut emulator = load(&[0x61, 0x0C, 0x62, 0x0A, 0x81, 0x20]);
    steps(&mut emulator, 3);
    assert_eq!(emulator.register(1), 0x0A);
    let mut emulator = load(&[0x61, 0x0C, 0x62, 0x0A, 0x81, 0x21]);
    steps(&mut emulator, 3);
    assert_eq!(emulator.register(1), 0x0E);
    let mut emulator = load(&[0x61, 0x0C, 0x62, 0x0A, 0x81, 0x22]);
    steps(&mut emulator, 3);
    assert_eq!(emulator.register(1), 0x08);
    let mut emulator = load(&[0x61, 0x0C, 0x62, 0x0A, 0x81, 0x23]);
    steps(&mut emulator, 3);
    assert_eq!(emulator.register(1), 0x06);
    assert_eq!(emulator.register(2), 0x0A);
    assert_eq!(emulator.register(0xF), 0);
}

#[test]
fn shift_right_reads_vy_and_flags_low_bit_of_vx() {
    let mut emulator = load(&[0x61, 0x05, 0x62, 0x08, 0x81, 0x26]);
    steps(&mut emulator, 3);
    assert_eq!(emulator.register(1), 0x04);
    assert_eq!(emulator.register(2), 0x08);
    assert_eq!(emulator.register(0xF), 1);
    let mut emulator = load(&[0x61, 0x04, 0x62, 0x09, 0x81, 0x26]);
    steps(&mut emulator, 3);
    assert_eq!(emulator.register(1), 0x04);
    assert_eq!(emulator.register(0xF), 0);
}

#[test]
fn shift_left_reads_vy_and_flags_its_high_bit() {
    let mut emulator = load(&[0x61, 0x01, 0x62, 0x81, 0x81, 0x2E]);
    steps(&mut emulator, 3);
    assert_eq!(emulator.register(1), 0x02);
    assert_eq!(emulator.register(2), 0x81);
    assert_eq!(emulator.register(0xF), 1);
    let mut emulator = load(&[0x61, 0x80, 0x62, 0x41, 0x81, 0x2E]);
    steps(&mut emulator, 3);
    assert_eq!(emulator.register(1), 0x82);
    assert_eq!(emulator.register(0xF), 0);
}

#[test]
fn shifts_in_place_when_configured() {
    let mut config = Config::new();
    config.shift_in_place = true;
    let mut emulator = load_with(&[0x61, 0x05, 0x62, 0x08, 0x81, 0x26], config);
    steps(&mut emulator, 3);
    assert_eq!(emulator.register(1), 0x02);
    assert_eq!(emulator.register(0xF), 1);
    let mut emulator = load_with(&[0x61, 0x81, 0x62, 0x01, 0x81, 0x2E], config);
    steps(&mut emulator, 3);
    assert_eq!(emulator.register(1), 0x02);
    assert_eq!(emulator.register(0xF), 1);
    let mut emulator = load_with(&[0x61, 0x01, 0x62, 0x81, 0x81, 0x2E], config);
    steps(&mut emulator, 3);
    assert_eq!(emulator.register(1), 0x02);
    assert_eq!(emulator.register(0xF), 0);
}

#[test]
fn add_immediate_wraps_without_flag() {
    let mut emulator = load(&[0x6F, 0x07, 0x61, 0xFF, 0x71, 0x02]);
    steps(&mut emulator, 3);
    assert_eq!(emulator.register(1), 0x01);
    assert_eq!(emulator.register(0xF), 0x07);
}

#[test]
fn jump_sets_program_counter() {
    let mut emulator = load(&[0x1A, 0xBC]);
    assert_eq!(steps(&mut emulator, 1), Outcome::Executed);
    assert_eq!(emulator.pc(), 0xABC);
    assert_eq!(emulator.stack_depth(), 0);
}

#[test]
fn jump_b_ignores_register_zero() {
    let mut emulator = load(&[0x60, 0x10, 0xB3, 0x00]);
    steps(&mut emulator, 2);
    assert_eq!(emulator.pc(), 0x300);
}

#[test]
fn skip_on_equal_immediate() {
    let mut emulator = load(&[0x61, 0x42, 0x31, 0x42]);
    steps(&mut emulator, 2);
    assert_eq!(emulator.pc(), 0x206);
    let mut emulator = load(&[0x61, 0x42, 0x31, 0x43]);
    steps(&mut emulator, 2);
    assert_eq!(emulator.pc(), 0x204);
}

#[test]
fn skip_on_unequal_immediate() {
    let mut emulator = load(&[0x61, 0x42, 0x41, 0x43]);
    steps(&mut emulator, 2);
    assert_eq!(emulator.pc(), 0x206);
    let mut emulator = load(&[0x61, 0x42, 0x41, 0x42]);
    steps(&mut emulator, 2);
    assert_eq!(emulator.pc(), 0x204);
}

#[test]
fn skip_on_equal_registers() {
    let mut emulator = load(&[0x61, 0x07, 0x62, 0x07, 0x51, 0x20]);
    steps(&mut emulator, 3);
    assert_eq!(emulator.pc(), 0x208);
    let mut emulator = load(&[0x61, 0x07, 0x62, 0x08, 0x51, 0x20]);
    steps(&mut emulator, 3);
    assert_eq!(emulator.pc(), 0x206);
}

#[test]
fn skip_on_unequal_registers() {
    let mut emulator = load(&[0x61, 0x07, 0x62, 0x08, 0x91, 0x20]);
    steps(&mut emulator, 3);
    assert_eq!(emulator.pc(), 0x208);
    let mut emulator = load(&[0x61, 0x07, 0x62, 0x07, 0x91, 0x20]);
    steps(&mut emulator, 3);
    assert_eq!(emulator.pc(), 0x206);
}

#[test]
fn set_index_register() {
    let mut emulator = load(&[0xA1, 0x23]);
    steps(&mut emulator, 1);
    assert_eq!(emulator.index(), 0x123);
    assert_eq!(emulator.pc(), 0x202);
}

#[test]
fn add_to_index_wraps_past_memory() {
    let mut emulator = load(&[0xAF, 0xFF, 0x63, 0x02, 0xF3, 0x1E]);
    steps(&mut emulator, 3);
    assert_eq!(emulator.index(), 0x0001);
    assert_eq!(emulator.register(0xF), 1);
    assert_eq!(emulator.register(3), 0x02);
}

#[test]
fn add_to_index_without_overflow() {
    let mut emulator = load(&[0x6F, 0x09, 0xA1, 0x00, 0x63, 0x02, 0xF3, 0x1E]);
    steps(&mut emulator, 4);
    assert_eq!(emulator.index(), 0x0102);
    assert_eq!(emulator.register(0xF), 0);
    let mut emulator = load(&[0xAF, 0xFE, 0x63, 0x01, 0xF3, 0x1E]);
    steps(&mut emulator, 3);
    assert_eq!(emulator.index(), 0x0FFF);
    assert_eq!(emulator.register(0xF), 0);
}

#[test]
fn random_byte_is_masked() {
    let keys = Keypad::new();
    let mut emulator = load(&[0xC1, 0x0F]);
    assert_eq!(emulator.step(&keys, 0xAB), Outcome::Executed);
    assert_eq!(emulator.register(1), 0x0B);
    assert_eq!(emulator.pc(), 0x202);
    let mut emulator = load(&[0xC1, 0xF0]);
    emulator.step(&keys, 0xAB);
    assert_eq!(emulator.register(1), 0xA0);
}

#[test]
fn run_masks_the_generated_byte() {
    let keys = Keypad::new();
    let mut rom: Vec<u8> = Vec::new();
    for _ in 0..200 {
        rom.push(0xC1);
        rom.push(0x0F);
    }
    let mut emulator = load(&rom);
    for i in 0u16..200 {
        assert_eq!(emulator.run(&keys), Outcome::Executed);
        assert!(emulator.register(1) <= 0x0F);
        assert_eq!(emulator.pc(), 0x202 + 2 * i);
    }
    let mut emulator = load(&[0xC1, 0x00]);
    emulator.run(&keys);
    assert_eq!(emulator.register(1), 0);
}

#[test]
fn run_executes_other_instructions_exactly() {
    let keys = Keypad::new();
    let mut emulator = load(&[0x6A, 0x02, 0x7A, 0x03]);
    assert_eq!(emulator.run(&keys), Outcome::Executed);
    assert_eq!(emulator.run(&keys), Outcome::Executed);
    assert_eq!(emulator.register(0xA), 0x05);
    assert_eq!(emulator.pc(), 0x204);
}

#[test]
fn skip_if_key_held() {
    let mut keys = Keypad::new();
    keys.set_held(Key::Key5, true);
    let mut emulator = load(&[0x61, 0x05, 0xE1, 0x9E]);
    emulator.step(&keys, 0);
    emulator.step(&keys, 0);
    assert_eq!(emulator.pc(), 0x206);
    let mut emulator = load(&[0x61, 0x06, 0xE1, 0x9E]);
    emulator.step(&keys, 0);
    emulator.step(&keys, 0);
    assert_eq!(emulator.pc(), 0x204);
}

#[test]
fn skip_if_key_not_held() {
    let mut keys = Keypad::new();
    keys.set_held(Key::C, true);
    let mut emulator = load(&[0x61, 0x0C, 0xE1, 0xA1]);
    emulator.step(&keys, 0);
    emulator.step(&keys, 0);
    assert_eq!(emulator.pc(), 0x204);
    let mut emulator = load(&[0x61, 0x0D, 0xE1, 0xA1]);
    emulator.step(&keys, 0);
    emulator.step(&keys, 0);
    assert_eq!(emulator.pc(), 0x206);
}

#[test]
fn key_code_above_keypad_asks_for_escape() {
    let mut keys = Keypad::new();
    keys.set_held(Key::Escape, true);
    let mut emulator = load(&[0x61, 0x20, 0xE1, 0x9E]);
    emulator.step(&keys, 0);
    emulator.step(&keys, 0);
    assert_eq!(emulator.pc(), 0x206);
}

#[test]
fn timers_are_set_and_read() {
    let mut emulator = load(&[0x61, 0x2A, 0xF1, 0x15, 0xF1, 0x18, 0xF2, 0x07]);
    steps(&mut emulator, 4);
    assert_eq!(emulator.delay_timer(), 0x2A);
    assert_eq!(emulator.sound_timer(), 0x2A);
    assert_eq!(emulator.register(2), 0x2A);
    assert_eq!(emulator.pc(), 0x208);
}

#[test]
fn font_address_uses_low_nibble() {
    let mut emulator = load(&[0x61, 0x0A, 0xF1, 0x29]);
    steps(&mut emulator, 2);
    assert_eq!(emulator.index(), 0x50 + 50);
    let mut emulator = load(&[0x61, 0x1A, 0xF1, 0x29]);
    steps(&mut emulator, 2);
    assert_eq!(emulator.index(), 0x50 + 50);
    let mut emulator = load(&[0x61, 0x00, 0xF1, 0x29]);
    steps(&mut emulator, 2);
    assert_eq!(emulator.index(), 0x50);
}

#[test]
fn font_address_follows_configured_base() {
    let mut config = Config::new();
    config.font_base = 0x100;
    let mut emulator = load_with(&[0x61, 0x0F, 0xF1, 0x29], config);
    steps(&mut emulator, 2);
    assert_eq!(emulator.index(), 0x100 + 75);
    assert_eq!(emulator.memory_at(0x100 + 75), 0xF0);
    assert_eq!(emulator.memory_at(0x100 + 76), 0x80);
}

#[test]
fn decimal_digits_go_to_memory() {
    let mut emulator = load(&[0x61, 0xFE, 0xA3, 0x00, 0xF1, 0x33]);
    steps(&mut emulator, 3);
    assert_eq!(emulator.memory_at(0x300), 2);
    assert_eq!(emulator.memory_at(0x301), 5);
    assert_eq!(emulator.memory_at(0x302), 4);
    assert_eq!(emulator.memory_at(0x303), 0);
    assert_eq!(emulator.index(), 0x300);
    let mut emulator = load(&[0x61, 0x07, 0xA3, 0x00, 0xF1, 0x33]);
    steps(&mut emulator, 3);
    assert_eq!(emulator.memory_at(0x300), 0);
    assert_eq!(emulator.memory_at(0x301), 0);
    assert_eq!(emulator.memory_at(0x302), 7);
}

#[test]
fn registers_are_stored_to_memory() {
    let rom: [u8; 10] = [0x60, 0x01, 0x61, 0x02, 0x62, 0x03, 0xA3, 0x00, 0xF1, 0x55];
    let mut emulator = load(&rom);
    steps(&mut emulator, 5);
    assert_eq!(emulator.memory_at(0x300), 1);
    assert_eq!(emulator.memory_at(0x301), 2);
    assert_eq!(emulator.memory_at(0x302), 0);
    assert_eq!(emulator.index(), 0x300);
    assert_eq!(emulator.pc(), 0x20A);
}

#[test]
fn registers_are_filled_from_memory() {
    let mut emulator = load(&[0x63, 0x77, 0xA2, 0x06, 0xF2, 0x65, 0x11, 0x22, 0x33, 0x44]);
    steps(&mut emulator, 3);
    assert_eq!(emulator.register(0), 0x11);
    assert_eq!(emulator.register(1), 0x22);
    assert_eq!(emulator.register(2), 0x33);
    assert_eq!(emulator.register(3), 0x77);
    assert_eq!(emulator.index(), 0x206);
}

#[test]
fn block_copies_advance_index_when_configured() {
    let mut config = Config::new();
    config.advance_index = true;
    let rom: [u8; 10] = [0x60, 0x01, 0x61, 0x02, 0x62, 0x03, 0xA3, 0x00, 0xF2, 0x55];
    let mut emulator = load_with(&rom, config);
    steps(&mut emulator, 5);
    assert_eq!(emulator.memory_at(0x302), 3);
    assert_eq!(emulator.index(), 0x303);
    let mut emulator = load_with(&[0xA2, 0x04, 0xF1, 0x65, 0x11, 0x22, 0x33], config);
    steps(&mut emulator, 2);
    assert_eq!(emulator.register(0), 0x11);
    assert_eq!(emulator.register(1), 0x22);
    assert_eq!(emulator.register(2), 0x00);
    assert_eq!(emulator.index(), 0x206);
}

#[test]
fn store_of_all_registers_at_the_end_of_memory() {
    let mut emulator = load(&[0x6F, 0x09, 0xAF, 0xF0, 0xFF, 0x55]);
    assert_eq!(steps(&mut emulator, 3), Outcome::Executed);
    assert_eq!(emulator.memory_at(0xFFF), 0x09);
    assert_eq!(emulator.status(), Status::Running);
}

#[test]
fn wait_for_key_parks_until_key_down() {
    let mut emulator = load(&[0xF3, 0x0A, 0x61, 0x01]);
    assert_eq!(steps(&mut emulator, 1), Outcome::WaitingForKey);
    assert_eq!(emulator.status(), Status::WaitingForKey { register: 3 });
    assert_eq!(emulator.pc(), 0x202);
    assert_eq!(steps(&mut emulator, 3), Outcome::WaitingForKey);
    assert_eq!(emulator.pc(), 0x202);
    assert_eq!(emulator.register(1), 0);
    assert!(!emulator.key_down(Key::Escape));
    assert_eq!(emulator.status(), Status::WaitingForKey { register: 3 });
    assert!(emulator.key_down(Key::B));
    assert_eq!(emulator.status(), Status::Running);
    assert_eq!(emulator.register(3), 0x0B);
    assert_eq!(steps(&mut emulator, 1), Outcome::Executed);
    assert_eq!(emulator.register(1), 1);
    assert_eq!(emulator.pc(), 0x204);
}

#[test]
fn key_down_is_ignored_by_a_running_machine() {
    let mut emulator = load(&[0x61, 0x01]);
    assert!(!emulator.key_down(Key::Key7));
    assert_eq!(emulator.status(), Status::Running);
    assert_eq!(emulator.register(0), 0);
    assert_eq!(emulator.pc(), 0x200);
}

#[test]
fn unrecognized_words_are_counted_and_passed_over() {
    let rom: [u8; 12] = [0x01, 0x23, 0x51, 0x21, 0x81, 0x28, 0x91, 0x21, 0xE1, 0x00, 0xF1, 0xFF];
    let mut emulator = load(&rom);
    assert_eq!(steps(&mut emulator, 1), Outcome::Unrecognized { word: 0x0123 });
    assert_eq!(emulator.unrecognized_count(), 1);
    assert_eq!(emulator.pc(), 0x202);
    assert_eq!(steps(&mut emulator, 1), Outcome::Unrecognized { word: 0x5121 });
    assert_eq!(steps(&mut emulator, 1), Outcome::Unrecognized { word: 0x8128 });
    assert_eq!(steps(&mut emulator, 1), Outcome::Unrecognized { word: 0x9121 });
    assert_eq!(steps(&mut emulator, 1), Outcome::Unrecognized { word: 0xE100 });
    assert_eq!(steps(&mut emulator, 1), Outcome::Unrecognized { word: 0xF1FF });
    assert_eq!(emulator.unrecognized_count(), 6);
    assert_eq!(emulator.pc(), 0x20C);
    assert_eq!(emulator.status(), Status::Running);
    assert_eq!(emulator.stack_depth(), 0);
    for x in 0u8..16 {
        assert_eq!(emulator.register(x), 0);
    }
}

#[test]
fn zero_word_is_unrecognized() {
    let mut emulator = load(&[]);
    assert_eq!(steps(&mut emulator, 1), Outcome::Unrecognized { word: 0x0000 });
    assert_eq!(emulator.pc(), 0x202);
}

#[test]
fn decimal_at_the_end_of_memory_faults() {
    let mut emulator = load(&[0x61, 0x7B, 0xAF, 0xFE, 0xF1, 0x33]);
    let outcome = steps(&mut emulator, 3);
    assert_eq!(outcome, Outcome::Halted { fault: Fault::MemoryOutOfBounds });
    assert_eq!(emulator.status(), Status::Halted { fault: Fault::MemoryOutOfBounds });
    assert_eq!(emulator.pc(), 0x204);
    assert_eq!(emulator.memory_at(0xFFE), 0);
    assert_eq!(emulator.memory_at(0xFFF), 0);
    let mut emulator = load(&[0x61, 0x7B, 0xAF, 0xFD, 0xF1, 0x33]);
    assert_eq!(steps(&mut emulator, 3), Outcome::Executed);
    assert_eq!(emulator.memory_at(0xFFD), 1);
    assert_eq!(emulator.memory_at(0xFFE), 2);
    assert_eq!(emulator.memory_at(0xFFF), 3);
}

#[test]
fn block_copy_past_memory_faults() {
    let mut emulator = load(&[0x60, 0x55, 0xAF, 0xFF, 0xF1, 0x55]);
    assert_eq!(steps(&mut emulator, 3), Outcome::Halted { fault: Fault::MemoryOutOfBounds });
    assert_eq!(emulator.memory_at(0xFFF), 0);
    assert_eq!(emulator.pc(), 0x204);
    let mut emulator = load(&[0x60, 0x55, 0xAF, 0xFF, 0xF1, 0x65]);
    assert_eq!(steps(&mut emulator, 3), Outcome::Halted { fault: Fault::MemoryOutOfBounds });
    assert_eq!(emulator.register(0), 0x55);
    let mut emulator = load(&[0x60, 0x55, 0xAF, 0xFF, 0xF0, 0x55]);
    assert_eq!(steps(&mut emulator, 3), Outcome::Executed);
    assert_eq!(emulator.memory_at(0xFFF), 0x55);
}

#[test]
fn fetch_past_memory_faults() {
    let mut emulator = load(&[0x1F, 0xFF]);
    assert_eq!(steps(&mut emulator, 1), Outcome::Executed);
    assert_eq!(emulator.pc(), 0xFFF);
    assert_eq!(steps(&mut emulator, 1), Outcome::Halted { fault: Fault::MemoryOutOfBounds });
    assert_eq!(emulator.pc(), 0xFFF);
    assert_eq!(steps(&mut emulator, 5), Outcome::Halted { fault: Fault::MemoryOutOfBounds });
    assert_eq!(emulator.status(), Status::Halted { fault: Fault::MemoryOutOfBounds });
}

#[test]
fn running_off_the_end_of_memory_faults() {
    let mut emulator = load(&[0x1F, 0xFE]);
    steps(&mut emulator, 1);
    assert_eq!(steps(&mut emulator, 1), Outcome::Unrecognized { word: 0x0000 });
    assert_eq!(emulator.pc(), 0x1000);
    assert_eq!(steps(&mut emulator, 1), Outcome::Halted { fault: Fault::MemoryOutOfBounds });
}
