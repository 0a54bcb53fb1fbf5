use chip8::machine::{Chip8, Chip8Error, MEMORY_SIZE, MEMORY_START, VIDEO_WIDTH, VIDEO_HEIGHT};
use chip8::opcode::{decode_opcode, Opcode};

fn machine_with(program: &[u8]) -> Chip8 {
    let mut m = Chip8::new();
    m.load_rom(program).unwrap();
    m
}

fn run(m: &mut Chip8, cycles: usize) {
    for _ in 0..cycles {
        m.cycle(0).unwrap();
    }
}

fn lit(m: &Chip8, x: usize, y: usize) -> bool {
    m.get_video()[y * VIDEO_WIDTH + x]
}

#[test]
fn decode_known_forms() {
    assert_eq!(decode_opcode(0x00E0), Opcode::ClearScreen);
    assert_eq!(decode_opcode(0x00EE), Opcode::Return);
    assert_eq!(decode_opcode(0x1ABC), Opcode::Jump(0xABC));
    assert_eq!(decode_opcode(0x2ABC), Opcode::Call(0xABC));
    assert_eq!(decode_opcode(0x3A12), Opcode::SkipEqualByte(0xA, 0x12));
    assert_eq!(decode_opcode(0x8124), Opcode::Add(1, 2));
    assert_eq!(decode_opcode(0x8127), Opcode::SubN(1, 2));
    assert_eq!(decode_opcode(0x812E), Opcode::ShiftLeft(1));
    assert_eq!(decode_opcode(0xD125), Opcode::Draw(1, 2, 5));
    assert_eq!(decode_opcode(0xE39E), Opcode::SkipKeyPress(3));
    assert_eq!(decode_opcode(0xF40A), Opcode::LoadKeyPress(4));
    assert_eq!(decode_opcode(0xF565), Opcode::LoadRegisters(5));
}

#[test]
fn decode_unknown_forms_are_invalid() {
    assert_eq!(decode_opcode(0x0123), Opcode::Invalid(0x0123));
    assert_eq!(decode_opcode(0x8128), Opcode::Invalid(0x8128));
    assert_eq!(decode_opcode(0xE19F), Opcode::Invalid(0xE19F));
    assert_eq!(decode_opcode(0xF0FF), Opcode::Invalid(0xF0FF));
}

#[test]
fn decode_is_total_over_all_words() {
    let mut invalid = 0u32;
    for w in 0..=u16::MAX {
        let op = decode_opcode(w);
        assert_eq!(op, decode_opcode(w));
        if let Opcode::Invalid(v) = op {
            assert_eq!(v, w);
            invalid += 1;
        }
    }
    // group 0: 4094, group 8: 7 * 256, group E: 254 * 16, group F: 247 * 16
    assert_eq!(invalid, 4094 + 7 * 256 + 254 * 16 + 247 * 16);
}

#[test]
fn power_on_state() {
    let m = Chip8::new();
    assert_eq!(m.pc(), MEMORY_START as u16);
    assert_eq!(m.index(), 0);
    assert_eq!(m.stack_depth(), 0);
    assert_eq!(m.delay_timer(), 0);
    assert_eq!(m.sound_timer(), 0);
    assert_eq!(m.memory(0x50), 0xF0);
    assert_eq!(m.memory(0x55), 0x20);
    assert_eq!(m.memory(0x9F), 0x80);
    assert_eq!(m.memory(0x4F), 0);
    assert_eq!(m.memory(0xA0), 0);
    assert!(m.get_video().iter().all(|p| !p));
    assert_eq!(m.get_video().len(), VIDEO_WIDTH * VIDEO_HEIGHT);
}

#[test]
fn load_rom_places_program() {
    let m = machine_with(&[0x12, 0x34, 0x56]);
    assert_eq!(m.memory(0x200), 0x12);
    assert_eq!(m.memory(0x201), 0x34);
    assert_eq!(m.memory(0x202), 0x56);
    assert_eq!(m.memory(0x203), 0);
}

#[test]
fn load_rom_too_large() {
    let mut m = Chip8::new();
    let big = vec![0xAAu8; MEMORY_SIZE - MEMORY_START + 1];
    assert_eq!(m.load_rom(&big), Err(Chip8Error::ProgramTooLarge(3585)));
    assert_eq!(m.memory(0x200), 0);
    let fits = vec![0xAAu8; MEMORY_SIZE - MEMORY_START];
    assert_eq!(m.load_rom(&fits), Ok(()));
    assert_eq!(m.memory(MEMORY_SIZE - 1), 0xAA);
}

#[test]
fn add_with_carry_example() {
    let mut m = machine_with(&[0x60, 0xFF, 0x61, 0x01, 0x80, 0x14]);
    run(&mut m, 3);
    assert_eq!(m.register(0), 0x00);
    assert_eq!(m.register(0xF), 1);
}

#[test]
fn add_without_carry() {
    let mut m = machine_with(&[0x60, 0x10, 0x61, 0x20, 0x6F, 0x07, 0x80, 0x14]);
    run(&mut m, 4);
    assert_eq!(m.register(0), 0x30);
    assert_eq!(m.register(0xF), 0);
}

#[test]
fn add_immediate_wraps_without_flag() {
    let mut m = machine_with(&[0x60, 0xFF, 0x6F, 0x05, 0x70, 0x03]);
    run(&mut m, 3);
    assert_eq!(m.register(0), 0x02);
    assert_eq!(m.register(0xF), 0x05);
}

#[test]
fn sub_with_borrow_example() {
    let mut m = machine_with(&[0x60, 0x05, 0x61, 0x0A, 0x80, 0x15]);
    run(&mut m, 3);
    assert_eq!(m.register(0), 0xFB);
    assert_eq!(m.register(0xF), 0);
}

#[test]
fn sub_equal_operands_sets_flag() {
    let mut m = machine_with(&[0x60, 0x07, 0x61, 0x07, 0x80, 0x15]);
    run(&mut m, 3);
    assert_eq!(m.register(0), 0);
    assert_eq!(m.register(0xF), 1);
}

#[test]
fn subn_reverses_operands() {
    let mut m = machine_with(&[0x60, 0x05, 0x61, 0x0A, 0x80, 0x17]);
    run(&mut m, 3);
    assert_eq!(m.register(0), 0x05);
    assert_eq!(m.register(0xF), 1);
}

#[test]
fn shift_left_example() {
    let mut m = machine_with(&[0x60, 0x81, 0x80, 0x0E]);
    run(&mut m, 2);
    assert_eq!(m.register(0), 0x02);
    assert_eq!(m.register(0xF), 1);
}

#[test]
fn shift_right_sets_low_bit() {
    let mut m = machine_with(&[0x60, 0x81, 0x61, 0x00, 0x80, 0x16]);
    run(&mut m, 3);
    assert_eq!(m.register(0), 0x40);
    assert_eq!(m.register(0xF), 1);
    let mut m = machine_with(&[0x60, 0x80, 0x80, 0x06]);
    run(&mut m, 2);
    assert_eq!(m.register(0), 0x40);
    assert_eq!(m.register(0xF), 0);
}

#[test]
fn bitwise_and_copy() {
    let mut m = machine_with(&[
        0x60, 0xF0, 0x61, 0x3C, 0x62, 0x00, 0x63, 0x00, 0x80, 0x11, 0x82, 0x10, 0x82, 0x12,
        0x83, 0x13,
    ]);
    run(&mut m, 8);
    assert_eq!(m.register(0), 0xFC);
    assert_eq!(m.register(2), 0x3C);
    assert_eq!(m.register(3), 0x3C);
}

#[test]
fn draw_twice_collides_and_clears() {
    // I = 0x208; draw at (V0, V1) = (0, 0) twice; sprite row 0xF0 at 0x208
    let mut m = machine_with(&[0xA2, 0x08, 0xD0, 0x11, 0xD0, 0x11, 0x12, 0x06, 0xF0]);
    run(&mut m, 2);
    assert_eq!(m.register(0xF), 0);
    for x in 0..4 {
        assert!(lit(&m, x, 0));
    }
    assert!(!lit(&m, 4, 0));
    run(&mut m, 1);
    assert_eq!(m.register(0xF), 1);
    assert!(m.get_video().iter().all(|p| !p));
}

#[test]
fn draw_wraps_coordinates() {
    let mut m = machine_with(&[0x60, 0x3F, 0x61, 0x1F, 0xA2, 0x08, 0xD0, 0x11, 0xFF]);
    run(&mut m, 4);
    assert!(lit(&m, 63, 31));
    for x in 0..7 {
        assert!(lit(&m, x, 31));
    }
    assert!(!lit(&m, 7, 31));
    assert_eq!(m.get_video().iter().filter(|p| **p).count(), 8);
    assert_eq!(m.register(0xF), 0);
}

#[test]
fn draw_wraps_vertically_per_row() {
    // two rows at y = 31: the second lands on row 0
    let mut m = machine_with(&[0x60, 0x00, 0x61, 0x1F, 0xA2, 0x08, 0xD0, 0x12, 0x80, 0x80]);
    run(&mut m, 4);
    assert!(lit(&m, 0, 31));
    assert!(lit(&m, 0, 0));
    assert_eq!(m.get_video().iter().filter(|p| **p).count(), 2);
}

#[test]
fn draw_out_of_memory() {
    let mut m = machine_with(&[0xAF, 0xFF, 0xD0, 0x02]);
    run(&mut m, 1);
    assert_eq!(m.cycle(0), Err(Chip8Error::AddressOutOfRange(0x1000)));
    assert_eq!(m.pc(), 0x204);
}

#[test]
fn clear_screen_and_spin() {
    let mut m = machine_with(&[0x00, 0xE0, 0x12, 0x02]);
    assert_eq!(m.cycle(0), Ok(()));
    assert!(m.get_video().iter().all(|p| !p));
    for k in 0..1000u32 {
        assert_eq!(m.cycle((k % 256) as u8), Ok(()));
    }
    assert_eq!(m.pc(), 0x202);
    assert!(m.get_video().iter().all(|p| !p));
}

#[test]
fn clear_screen_clears_lit_pixels() {
    let mut m = machine_with(&[0xA2, 0x06, 0xD0, 0x11, 0x00, 0xE0, 0xFF]);
    run(&mut m, 2);
    assert!(lit(&m, 0, 0));
    run(&mut m, 1);
    assert!(m.get_video().iter().all(|p| !p));
}

#[test]
fn bcd_example() {
    let mut m = machine_with(&[0x60, 0xEA, 0xA3, 0x00, 0xF0, 0x33]);
    run(&mut m, 3);
    assert_eq!(m.memory(0x300), 2);
    assert_eq!(m.memory(0x301), 3);
    assert_eq!(m.memory(0x302), 4);
}

#[test]
fn bcd_out_of_memory() {
    let mut m = machine_with(&[0xAF, 0xFE, 0xF0, 0x33]);
    run(&mut m, 1);
    assert_eq!(m.cycle(0), Err(Chip8Error::AddressOutOfRange(0x1000)));
}

#[test]
fn key_wait_blocks_then_takes_lowest_key() {
    let mut m = machine_with(&[0xF3, 0x0A]);
    run(&mut m, 1);
    assert_eq!(m.pc(), 0x200);
    run(&mut m, 1);
    assert_eq!(m.pc(), 0x200);
    m.set_keypad(9, true);
    m.set_keypad(5, true);
    run(&mut m, 1);
    assert_eq!(m.register(3), 5);
    assert_eq!(m.pc(), 0x202);
}

#[test]
fn skip_on_key() {
    let mut m = machine_with(&[0x60, 0x04, 0xE0, 0x9E, 0x61, 0x01, 0xE0, 0xA1, 0x62, 0x01]);
    m.set_keypad(4, true);
    run(&mut m, 4);
    // the first skip is taken, the second is not
    assert_eq!(m.register(1), 0);
    assert_eq!(m.register(2), 1);
}

#[test]
fn skip_on_key_out_of_range() {
    let mut m = machine_with(&[0x60, 0x20, 0xE0, 0x9E]);
    run(&mut m, 1);
    assert_eq!(m.cycle(0), Err(Chip8Error::InvalidKey(0x20)));
}

#[test]
fn skips_on_registers() {
    let mut m = machine_with(&[
        0x60, 0x05, 0x30, 0x05, 0x61, 0x01, 0x40, 0x05, 0x62, 0x01, 0x50, 0x00, 0x63, 0x01,
        0x90, 0x00, 0x64, 0x01,
    ]);
    run(&mut m, 7);
    assert_eq!(m.register(1), 0);
    assert_eq!(m.register(2), 1);
    assert_eq!(m.register(3), 0);
    assert_eq!(m.register(4), 1);
}

#[test]
fn timers_tick_once_per_cycle() {
    let mut m = machine_with(&[0x60, 0x3C, 0xF0, 0x15, 0x61, 0x00, 0x61, 0x00, 0xF2, 0x07]);
    run(&mut m, 2);
    assert_eq!(m.delay_timer(), 59);
    assert_eq!(m.sound_timer(), 0);
    run(&mut m, 2);
    assert_eq!(m.delay_timer(), 57);
    assert_eq!(m.sound_timer(), 0);
    run(&mut m, 1);
    assert_eq!(m.register(2), 57);
    assert_eq!(m.delay_timer(), 56);
}

#[test]
fn sound_timer_ticks_to_zero() {
    let mut m = machine_with(&[0x60, 0x02, 0xF0, 0x18, 0x12, 0x04]);
    run(&mut m, 2);
    assert_eq!(m.sound_timer(), 1);
    run(&mut m, 1);
    assert_eq!(m.sound_timer(), 0);
    run(&mut m, 1);
    assert_eq!(m.sound_timer(), 0);
}

#[test]
fn call_and_return() {
    let mut m = machine_with(&[0x22, 0x06, 0x61, 0x07, 0x12, 0x04, 0x60, 0x09, 0x00, 0xEE]);
    run(&mut m, 1);
    assert_eq!(m.pc(), 0x206);
    assert_eq!(m.stack_depth(), 1);
    run(&mut m, 3);
    assert_eq!(m.register(0), 9);
    assert_eq!(m.register(1), 7);
    assert_eq!(m.stack_depth(), 0);
    assert_eq!(m.pc(), 0x204);
}

#[test]
fn return_on_empty_stack() {
    let mut m = machine_with(&[0x00, 0xEE]);
    assert_eq!(m.cycle(0), Err(Chip8Error::StackUnderflow));
}

#[test]
fn call_on_full_stack() {
    let mut m = machine_with(&[0x22, 0x00]);
    run(&mut m, 16);
    assert_eq!(m.stack_depth(), 16);
    assert_eq!(m.cycle(0), Err(Chip8Error::StackOverflow));
    assert_eq!(m.stack_depth(), 16);
}

#[test]
fn invalid_instruction_is_reported() {
    let mut m = machine_with(&[0x60, 0x01, 0x01, 0x23]);
    run(&mut m, 1);
    assert_eq!(m.cycle(0), Err(Chip8Error::InvalidInstruction(0x0123, 0x202)));
    assert_eq!(m.pc(), 0x204);
}

#[test]
fn invalid_instruction_does_not_tick_timers() {
    let mut m = machine_with(&[0x60, 0x05, 0xF0, 0x15, 0xFF, 0xFF]);
    run(&mut m, 2);
    assert_eq!(m.delay_timer(), 4);
    assert!(m.cycle(0).is_err());
    assert_eq!(m.delay_timer(), 4);
}

#[test]
fn fetch_beyond_memory() {
    let mut m = machine_with(&[0x1F, 0xFF]);
    run(&mut m, 1);
    assert_eq!(m.fetch_opcode(), Err(Chip8Error::AddressOutOfRange(0x1000)));
    assert_eq!(m.cycle(0), Err(Chip8Error::AddressOutOfRange(0x1000)));
    assert_eq!(m.pc(), 0xFFF);
}

#[test]
fn fetch_is_big_endian() {
    let m = machine_with(&[0xAB, 0xCD]);
    assert_eq!(m.fetch_opcode(), Ok(0xABCD));
}

#[test]
fn random_is_masked() {
    let mut m = machine_with(&[0xC0, 0xF0, 0xC1, 0x0F]);
    m.cycle(0xAB).unwrap();
    m.cycle(0xAB).unwrap();
    assert_eq!(m.register(0), 0xA0);
    assert_eq!(m.register(1), 0x0B);
}

#[test]
fn index_instructions() {
    let mut m = machine_with(&[0x60, 0x07, 0xF0, 0x29, 0x61, 0x10, 0xF1, 0x1E]);
    run(&mut m, 2);
    assert_eq!(m.index(), 0x50 + 7 * 5);
    run(&mut m, 2);
    assert_eq!(m.index(), 0x50 + 7 * 5 + 0x10);
    assert_eq!(m.register(0xF), 0);
}

#[test]
fn add_to_index_wraps() {
    // I = 0xFFF, then F01E (I += 0xFF) and a jump back to it, forever
    let mut m = machine_with(&[0x60, 0xFF, 0xAF, 0xFF, 0xF0, 0x1E, 0x12, 0x04]);
    run(&mut m, 2);
    run(&mut m, 2 * 241);
    assert_eq!(m.index(), ((0xFFFu32 + 241 * 0xFF) % 0x10000) as u16);
    assert_eq!(m.register(0xF), 0);
}

#[test]
fn jump_plus_v0() {
    let mut m = machine_with(&[0x60, 0x04, 0xB2, 0x02, 0x61, 0x01, 0x62, 0x02]);
    run(&mut m, 3);
    assert_eq!(m.register(1), 0);
    assert_eq!(m.register(2), 2);
}

#[test]
fn store_and_load_registers() {
    let mut m = machine_with(&[
        0x60, 0x11, 0x61, 0x22, 0x62, 0x33, 0xA3, 0x00, 0xF1, 0x55, 0x60, 0x00, 0x61, 0x00,
        0xF1, 0x65,
    ]);
    run(&mut m, 5);
    assert_eq!(m.memory(0x300), 0x11);
    assert_eq!(m.memory(0x301), 0x22);
    assert_eq!(m.memory(0x302), 0);
    assert_eq!(m.index(), 0x300);
    run(&mut m, 3);
    assert_eq!(m.register(0), 0x11);
    assert_eq!(m.register(1), 0x22);
    assert_eq!(m.register(2), 0x33);
}

#[test]
fn store_registers_out_of_memory() {
    let mut m = machine_with(&[0xAF, 0xFE, 0xF2, 0x55]);
    run(&mut m, 1);
    assert_eq!(m.cycle(0), Err(Chip8Error::AddressOutOfRange(0x1000)));
    assert_eq!(m.memory(0xFFE), 0);
}

#[test]
fn keypad_is_read_only_to_the_core() {
    let mut m = machine_with(&[0xF0, 0x0A]);
    m.set_keypad(2, true);
    run(&mut m, 1);
    assert_eq!(m.register(0), 2);
    m.set_keypad(2, false);
    assert_eq!(m.pc(), 0x202);
}
