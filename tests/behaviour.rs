use chip8::instruction::{decode, Instruction};
use chip8::keymap::key_map;
use chip8::machine::{
    Chip8, CycleError, Fault, CHAR_SPRITES, DISPLAY_HEIGHT, DISPLAY_SIZE, DISPLAY_WIDTH,
    KEYBOARD_SIZE, MEMORY_SIZE, MEMORY_START, STACK_SIZE,
};

fn pixel(x: usize, y: usize) -> usize {
    x + y * DISPLAY_WIDTH
}

#[test]
fn new_holds_digit_sprites() {
    let chip8 = Chip8::new();
    assert_eq!(&chip8.memory[..80], &CHAR_SPRITES[..]);
    assert!(chip8.memory[80..].iter().all(|b| *b == 0));
    assert!(!chip8.is_drawing);
}

#[test]
fn two_instruction_program_runs() {
    let mut chip8 = Chip8::new();
    chip8.load_rom(&[0x60, 0x05, 0x70, 0x03]);
    chip8.run_cycle().unwrap();
    chip8.run_cycle().unwrap();
    assert_eq!(chip8.v[0], 8);
    assert_eq!(chip8.pc, MEMORY_START as u16 + 4);
}

#[test]
fn add_registers_sets_carry() {
    let mut chip8 = Chip8::new();
    chip8.v[2] = 250;
    chip8.v[3] = 10;
    chip8.process_opcode(0x8234).unwrap();
    assert_eq!(chip8.v[2], 4);
    assert_eq!(chip8.v[0xF], 1);
    chip8.v[2] = 245;
    chip8.process_opcode(0x8234).unwrap();
    assert_eq!(chip8.v[2], 255);
    assert_eq!(chip8.v[0xF], 0);
}

#[test]
fn decimal_digits_stored_at_index() {
    let mut chip8 = Chip8::new();
    chip8.v[4] = 205;
    chip8.i = 0x300;
    chip8.process_opcode(0xF433).unwrap();
    assert_eq!(chip8.memory[0x300], 2);
    assert_eq!(chip8.memory[0x301], 0);
    assert_eq!(chip8.memory[0x302], 5);
}

#[test]
fn clear_twice_is_clear_once() {
    let mut chip8 = Chip8::new();
    chip8.display = [true; DISPLAY_SIZE];
    chip8.process_opcode(0x00E0).unwrap();
    let once = chip8.display;
    chip8.is_drawing = false;
    chip8.process_opcode(0x00E0).unwrap();
    assert_eq!(chip8.display, once);
    assert_eq!(chip8.display, [false; DISPLAY_SIZE]);
    assert!(chip8.is_drawing);
}

#[test]
fn store_zero_load_round_trip() {
    let mut chip8 = Chip8::new();
    for k in 0..16 {
        chip8.v[k] = (k as u8) * 7 + 3;
    }
    let before = chip8.v;
    chip8.i = 0x400;
    chip8.process_opcode(0xF955).unwrap();
    for k in 0..=9 {
        chip8.v[k] = 0;
    }
    chip8.process_opcode(0xF965).unwrap();
    assert_eq!(chip8.v, before);
}

#[test]
fn add_immediate_wraps_without_flag() {
    let mut chip8 = Chip8::new();
    chip8.v[5] = 200;
    chip8.v[0xF] = 7;
    chip8.process_opcode(0x7564).unwrap();
    assert_eq!(chip8.v[5], 44);
    assert_eq!(chip8.v[0xF], 7);
}

#[test]
fn draw_wraps_both_axes() {
    let mut chip8 = Chip8::new();
    // digit 0: rows F0 90 90 90 F0
    chip8.i = 0;
    chip8.v[0] = 62;
    chip8.v[1] = 30;
    chip8.process_opcode(0xD015).unwrap();
    // row 0 (y = 30): columns 62, 63, 0, 1
    assert!(chip8.display[pixel(62, 30)]);
    assert!(chip8.display[pixel(63, 30)]);
    assert!(chip8.display[pixel(0, 30)]);
    assert!(chip8.display[pixel(1, 30)]);
    assert!(!chip8.display[pixel(2, 30)]);
    // row 2 wraps to y = 0: columns 62 and 1 only
    assert!(chip8.display[pixel(62, 0)]);
    assert!(!chip8.display[pixel(63, 0)]);
    assert!(!chip8.display[pixel(0, 0)]);
    assert!(chip8.display[pixel(1, 0)]);
    // row 4 lands on y = 2
    assert!(chip8.display[pixel(62, 2)]);
    assert!(chip8.display[pixel(1, 2)]);
    let lit = chip8.display.iter().filter(|p| **p).count();
    assert_eq!(lit, 14);
    assert_eq!(chip8.v[0xF], 0);
    assert!(chip8.is_drawing);
}

#[test]
fn draw_twice_restores_screen() {
    let mut chip8 = Chip8::new();
    chip8.display[pixel(10, 10)] = true;
    let before = chip8.display;
    chip8.i = 5 * 8;
    chip8.v[2] = 60;
    chip8.v[3] = 29;
    chip8.process_opcode(0xD235).unwrap();
    assert_eq!(chip8.v[0xF], 0);
    chip8.process_opcode(0xD235).unwrap();
    assert_eq!(chip8.v[0xF], 1);
    assert_eq!(chip8.display, before);
}

#[test]
fn draw_collision_flag_covers_whole_sprite() {
    let mut chip8 = Chip8::new();
    chip8.i = 0;
    chip8.display[pixel(0, 0)] = true;
    chip8.process_opcode(0xD015).unwrap();
    assert_eq!(chip8.v[0xF], 1);
    assert!(!chip8.display[pixel(0, 0)]);
}

#[test]
fn wait_key_blocks_without_key() {
    let mut chip8 = Chip8::new();
    chip8.load_rom(&[0xF3, 0x0A]);
    for _ in 0..5 {
        chip8.run_cycle().unwrap();
        assert_eq!(chip8.pc, MEMORY_START as u16);
    }
    chip8.process_opcode(0xF30A).unwrap();
    assert_eq!(chip8.pc, MEMORY_START as u16 - 2);
}

#[test]
fn wait_key_takes_lowest_key_and_releases() {
    let mut chip8 = Chip8::new();
    chip8.load_rom(&[0xF3, 0x0A]);
    chip8.set_key(9);
    chip8.set_key(5);
    chip8.run_cycle().unwrap();
    assert_eq!(chip8.v[3], 5);
    assert_eq!(chip8.pc, MEMORY_START as u16 + 2);
    assert_eq!(chip8.keyboard, [false; KEYBOARD_SIZE]);
}

#[test]
fn skip_not_pressed_releases_keys_when_pressed() {
    let mut chip8 = Chip8::new();
    chip8.set_key(4);
    chip8.set_key(7);
    chip8.v[1] = 4;
    chip8.process_opcode(0xE1A1).unwrap();
    assert_eq!(chip8.pc, MEMORY_START as u16);
    assert_eq!(chip8.keyboard, [false; KEYBOARD_SIZE]);
}

#[test]
fn set_and_reset_keys() {
    let mut chip8 = Chip8::new();
    chip8.set_key(0xF);
    assert!(chip8.keyboard[0xF]);
    assert!(!chip8.keyboard[0xE]);
    chip8.reset_all_keys();
    assert_eq!(chip8.keyboard, [false; KEYBOARD_SIZE]);
}

#[test]
fn timers_tick_once_per_cycle_and_stop_at_zero() {
    let mut chip8 = Chip8::new();
    chip8.load_rom(&[0x60, 0x01, 0x60, 0x02]);
    chip8.dt = 1;
    chip8.st = 3;
    chip8.run_cycle().unwrap();
    assert_eq!((chip8.dt, chip8.st), (0, 2));
    chip8.run_cycle().unwrap();
    assert_eq!((chip8.dt, chip8.st), (0, 1));
    chip8.update_timers();
    assert_eq!((chip8.dt, chip8.st), (0, 0));
}

#[test]
fn subtract_and_shift_flags() {
    let mut chip8 = Chip8::new();
    chip8.v[0] = 5;
    chip8.v[1] = 10;
    chip8.process_opcode(0x8015).unwrap();
    assert_eq!((chip8.v[0], chip8.v[0xF]), (251, 0));
    chip8.v[0] = 5;
    chip8.process_opcode(0x8017).unwrap();
    assert_eq!((chip8.v[0], chip8.v[0xF]), (5, 1));
    chip8.v[0] = 0x81;
    chip8.process_opcode(0x800E).unwrap();
    assert_eq!((chip8.v[0], chip8.v[0xF]), (0x02, 1));
    chip8.v[0] = 0x80;
    chip8.process_opcode(0x8006).unwrap();
    assert_eq!((chip8.v[0], chip8.v[0xF]), (0x40, 0));
}

#[test]
fn index_and_jump_arithmetic() {
    let mut chip8 = Chip8::new();
    chip8.i = 0xFFFF;
    chip8.v[0] = 2;
    chip8.process_opcode(0xF01E).unwrap();
    assert_eq!(chip8.i, 1);
    chip8.v[0] = 0xF;
    chip8.process_opcode(0xF029).unwrap();
    assert_eq!(chip8.i, 75);
    chip8.v[0] = 0xFF;
    chip8.process_opcode(0xBFFF).unwrap();
    assert_eq!(chip8.pc, 0x10FE);
    chip8.process_opcode(0x0123).unwrap();
    assert_eq!(chip8.pc, 0x0123);
}

#[test]
fn random_byte_is_masked() {
    let mut chip8 = Chip8::new();
    chip8.execute(Instruction::Rnd { x: 6, kk: 0x0F }, 0xAB).unwrap();
    assert_eq!(chip8.v[6], 0x0B);
    for _ in 0..20 {
        chip8.process_opcode(0xC60F).unwrap();
        assert!(chip8.v[6] <= 0x0F);
    }
}

#[test]
fn decode_fields() {
    assert_eq!(decode(0x00E0), Some(Instruction::Cls));
    assert_eq!(decode(0x00EE), Some(Instruction::Ret));
    assert_eq!(decode(0x0ABC), Some(Instruction::Sys { nnn: 0xABC }));
    assert_eq!(decode(0x8AB4), Some(Instruction::AddReg { x: 0xA, y: 0xB }));
    assert_eq!(decode(0xD7C9), Some(Instruction::Drw { x: 7, y: 0xC, n: 9 }));
    assert_eq!(decode(0xC3F0), Some(Instruction::Rnd { x: 3, kk: 0xF0 }));
    assert_eq!(decode(0x800F), None);
    assert_eq!(decode(0xE0A2), None);
    assert_eq!(decode(0xF0FF), None);
}

#[test]
fn invalid_opcode_is_reported() {
    let mut chip8 = Chip8::new();
    assert_eq!(chip8.process_opcode(0x8AB8), Err(Fault::InvalidOpcode));
    chip8.load_rom(&[0xE1, 0x00]);
    let before = chip8.memory;
    assert_eq!(
        chip8.run_cycle(),
        Err(CycleError { fault: Fault::InvalidOpcode, pc: 0x200, opcode: Some(0xE100) })
    );
    assert_eq!(chip8.pc, 0x200);
    assert_eq!(chip8.memory, before);
}

#[test]
fn stack_faults() {
    let mut chip8 = Chip8::new();
    assert_eq!(chip8.process_opcode(0x00EE), Err(Fault::StackUnderflow));
    for k in 0..STACK_SIZE {
        chip8.process_opcode(0x2300).unwrap();
        assert_eq!(chip8.sp as usize, k + 1);
    }
    assert_eq!(chip8.process_opcode(0x2300), Err(Fault::StackOverflow));
    assert_eq!(chip8.sp as usize, STACK_SIZE);
    chip8.process_opcode(0x00EE).unwrap();
    assert_eq!(chip8.pc, 0x300);
    assert_eq!(chip8.sp as usize, STACK_SIZE - 1);
}

#[test]
fn memory_faults_leave_machine_unchanged() {
    let mut chip8 = Chip8::new();
    chip8.i = (MEMORY_SIZE - 2) as u16;
    chip8.v[0] = 99;
    assert_eq!(chip8.process_opcode(0xF033), Err(Fault::MemoryOutOfRange));
    assert_eq!(chip8.memory[MEMORY_SIZE - 2], 0);
    assert_eq!(chip8.process_opcode(0xF255), Err(Fault::MemoryOutOfRange));
    assert_eq!(chip8.process_opcode(0xF265), Err(Fault::MemoryOutOfRange));
    assert_eq!(chip8.v[0], 99);
    assert_eq!(chip8.process_opcode(0xD013), Err(Fault::MemoryOutOfRange));
    assert_eq!(chip8.display, [false; DISPLAY_SIZE]);
    chip8.pc = (MEMORY_SIZE - 1) as u16;
    assert_eq!(
        chip8.run_cycle(),
        Err(CycleError { fault: Fault::MemoryOutOfRange, pc: (MEMORY_SIZE - 1) as u16, opcode: None })
    );
}

#[test]
fn key_out_of_range_is_reported() {
    let mut chip8 = Chip8::new();
    chip8.v[2] = 16;
    assert_eq!(chip8.process_opcode(0xE29E), Err(Fault::KeyOutOfRange));
    assert_eq!(chip8.process_opcode(0xE2A1), Err(Fault::KeyOutOfRange));
    assert_eq!(chip8.pc, MEMORY_START as u16);
}

#[test]
fn display_data_is_row_major() {
    let mut chip8 = Chip8::new();
    chip8.display[pixel(3, 2)] = true;
    let data = chip8.get_display_data();
    assert_eq!(data.len(), DISPLAY_WIDTH * DISPLAY_HEIGHT);
    assert!(data[2 * DISPLAY_WIDTH + 3]);
    assert_eq!(data.iter().filter(|p| **p).count(), 1);
}

#[test]
fn keyboard_block_maps_onto_keypad() {
    let rows = ["1234", "qwer", "asdf", "zxcv"];
    let keys = [[0x1, 0x2, 0x3, 0xC], [0x4, 0x5, 0x6, 0xD], [0x7, 0x8, 0x9, 0xE], [0xA, 0x0, 0xB, 0xF]];
    for (row, expected) in rows.iter().zip(keys.iter()) {
        for (c, k) in row.chars().zip(expected.iter()) {
            assert_eq!(key_map(c), Some(*k));
        }
    }
    assert_eq!(key_map('5'), None);
    assert_eq!(key_map('Q'), None);
}
