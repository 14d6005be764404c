use chip8::error::Chip8Error;
use chip8::machine::Chip8;
use chip8::model::{PIXELS, PROGRAM_START, RAM_SIZE, WIDTH};
use chip8::opcode::decode;
use chip8::stack::CallStack;

fn put(instance: &mut Chip8, addr: usize, opcode: u16) {
    instance.memory[addr] = (opcode >> 8) as u8;
    instance.memory[addr + 1] = (opcode & 0xFF) as u8;
}

fn lit_pixels(instance: &Chip8) -> usize {
    instance.display.iter().filter(|p| **p).count()
}

#[test]
fn new_machine_holds_font_and_starts_at_0x200() {
    let instance = Chip8::new();
    assert_eq!(instance.pc, 0x200);
    assert_eq!(&instance.memory[0..5], &[0xF0, 0x90, 0x90, 0x90, 0xF0]);
    assert_eq!(&instance.memory[75..80], &[0xF0, 0x80, 0xF0, 0x80, 0x80]);
    assert!(instance.memory[80..].iter().all(|b| *b == 0));
    assert_eq!(instance.v, [0; 16]);
    assert_eq!(instance.i, 0);
    assert_eq!(instance.stack.len(), 0);
    assert_eq!(lit_pixels(&instance), 0);
    assert!(!instance.draw);
}

#[test]
fn decode_splits_fields() {
    let d = decode(0xD12A);
    assert_eq!((d.high, d.x, d.y, d.n), (0xD, 0x1, 0x2, 0xA));
    assert_eq!(d.kk, 0x2A);
    assert_eq!(d.nnn, 0x12A);
}

#[test]
fn add_registers_overflow_sets_carry() {
    let mut instance = Chip8::new();
    put(&mut instance, 0x200, 0x6AFF);
    put(&mut instance, 0x202, 0x6BCA);
    put(&mut instance, 0x204, 0x8AB4);
    for _ in 0..3 {
        instance.cycle().unwrap();
    }
    assert_eq!(instance.v[0xF], 1);
    assert_eq!(instance.v[0xA], 0xC9);
    assert_eq!(instance.pc, 0x206);
}

#[test]
fn add_registers_without_overflow_clears_carry() {
    let mut instance = Chip8::new();
    instance.v[0xF] = 1;
    instance.v[1] = 0x10;
    instance.v[2] = 0x20;
    put(&mut instance, 0x200, 0x8124);
    instance.cycle().unwrap();
    assert_eq!(instance.v[1], 0x30);
    assert_eq!(instance.v[0xF], 0);
}

#[test]
fn subtract_sets_flag_from_values_before() {
    let mut instance = Chip8::new();
    instance.v[0xA] = 0xFF;
    instance.v[0xB] = 0xCA;
    put(&mut instance, 0x200, 0x8AB5);
    instance.cycle().unwrap();
    assert_eq!(instance.v[0xF], 1);
    assert_eq!(instance.v[0xA], 0x35);
}

#[test]
fn subtract_with_borrow_wraps_and_clears_flag() {
    let mut instance = Chip8::new();
    instance.v[1] = 0x01;
    instance.v[2] = 0x02;
    put(&mut instance, 0x200, 0x8125);
    instance.cycle().unwrap();
    assert_eq!(instance.v[1], 0xFF);
    assert_eq!(instance.v[0xF], 0);
}

#[test]
fn subtract_reversed_with_borrow() {
    let mut instance = Chip8::new();
    instance.v[1] = 0x05;
    instance.v[2] = 0x03;
    put(&mut instance, 0x200, 0x8127);
    instance.cycle().unwrap();
    assert_eq!(instance.v[1], 0xFE);
    assert_eq!(instance.v[0xF], 0);
}

#[test]
fn shift_right_keeps_low_bit_in_vf() {
    let mut instance = Chip8::new();
    instance.v[3] = 0x05;
    put(&mut instance, 0x200, 0x8306);
    instance.cycle().unwrap();
    assert_eq!(instance.v[3], 0x02);
    assert_eq!(instance.v[0xF], 1);
}

#[test]
fn add_immediate_wraps_without_flag() {
    let mut instance = Chip8::new();
    instance.v[4] = 0xFF;
    instance.v[0xF] = 7;
    put(&mut instance, 0x200, 0x7402);
    instance.cycle().unwrap();
    assert_eq!(instance.v[4], 0x01);
    assert_eq!(instance.v[0xF], 7);
}

#[test]
fn call_then_return_restores_pc_and_stack() {
    let mut instance = Chip8::new();
    put(&mut instance, 0x200, 0x213F);
    put(&mut instance, 0x13F, 0x00EE);
    instance.cycle().unwrap();
    assert_eq!(instance.pc, 0x13F);
    assert_eq!(instance.stack.get(0), Some(0x202));
    assert_eq!(instance.stack.len(), 1);
    instance.cycle().unwrap();
    assert_eq!(instance.pc, 0x202);
    assert_eq!(instance.stack.len(), 0);
    assert_eq!(instance.stack.get(0), None);
}

#[test]
fn seventeenth_call_overflows_and_changes_nothing() {
    let mut instance = Chip8::new();
    for k in 0..17usize {
        let addr = 0x200 + 2 * k;
        put(&mut instance, addr, 0x2000 | (addr as u16 + 2));
    }
    instance.delay_timer = 40;
    for k in 0..16usize {
        assert_eq!(instance.cycle(), Ok(()));
        assert_eq!(instance.stack.len(), k + 1);
    }
    assert_eq!(instance.stack.len(), 16);
    assert!(instance.stack.is_full());
    let pc = instance.pc;
    let delay = instance.delay_timer;
    let memory = instance.memory;
    assert_eq!(instance.cycle(), Err(Chip8Error::StackOverflow));
    assert_eq!(instance.pc, pc);
    assert_eq!(instance.delay_timer, delay);
    assert_eq!(instance.stack.len(), 16);
    assert_eq!(instance.stack.get(15), Some(0x220));
    assert_eq!(instance.memory, memory);
}

#[test]
fn return_with_empty_stack_underflows() {
    let mut instance = Chip8::new();
    put(&mut instance, 0x200, 0x00EE);
    assert_eq!(instance.cycle(), Err(Chip8Error::StackUnderflow));
    assert_eq!(instance.pc, 0x200);
}

#[test]
fn unknown_opcode_is_reported_and_timers_hold() {
    let mut instance = Chip8::new();
    instance.delay_timer = 3;
    put(&mut instance, 0x200, 0x0123);
    assert_eq!(instance.cycle(), Err(Chip8Error::UnknownOpcode(0x0123)));
    assert_eq!(instance.pc, 0x200);
    assert_eq!(instance.delay_timer, 3);
    put(&mut instance, 0x200, 0x8008);
    assert_eq!(instance.cycle(), Err(Chip8Error::UnknownOpcode(0x8008)));
    put(&mut instance, 0x200, 0xF0FF);
    assert_eq!(instance.cycle(), Err(Chip8Error::UnknownOpcode(0xF0FF)));
}

#[test]
fn bcd_of_145() {
    let mut instance = Chip8::new();
    instance.v[0x7] = 0x91;
    instance.i = 0x300;
    put(&mut instance, 0x200, 0xF733);
    instance.cycle().unwrap();
    assert_eq!(&instance.memory[0x300..0x303], &[1, 4, 5]);
    assert_eq!(instance.pc, 0x202);
}

#[test]
fn draw_same_sprite_twice_restores_and_collides() {
    let mut instance = Chip8::new();
    // glyph "0" from the font, five rows, at (10, 4)
    instance.i = 0;
    instance.v[1] = 10;
    instance.v[2] = 4;
    put(&mut instance, 0x200, 0xD125);
    put(&mut instance, 0x202, 0xD125);
    instance.cycle().unwrap();
    assert!(instance.draw);
    assert_eq!(instance.v[0xF], 0);
    assert_eq!(lit_pixels(&instance), 14);
    assert!(instance.display[4 * WIDTH + 10]);
    assert!(instance.display[4 * WIDTH + 13]);
    assert!(!instance.display[4 * WIDTH + 14]);
    assert!(!instance.display[5 * WIDTH + 11]);
    instance.draw = false;
    instance.cycle().unwrap();
    assert!(instance.draw);
    assert_eq!(instance.v[0xF], 1);
    assert_eq!(lit_pixels(&instance), 0);
}

#[test]
fn draw_at_edge_clips_instead_of_wrapping() {
    let mut instance = Chip8::new();
    instance.memory[0x300] = 0xFF;
    instance.i = 0x300;
    instance.v[0] = 62;
    instance.v[1] = 31;
    put(&mut instance, 0x200, 0xD012);
    instance.cycle().unwrap();
    assert_eq!(lit_pixels(&instance), 2);
    assert!(instance.display[31 * WIDTH + 62]);
    assert!(instance.display[31 * WIDTH + 63]);
    assert!(!instance.display[0]);
}

#[test]
fn clear_display_unsets_every_pixel() {
    let mut instance = Chip8::new();
    instance.display = [true; PIXELS];
    put(&mut instance, 0x200, 0x00E0);
    instance.cycle().unwrap();
    assert_eq!(lit_pixels(&instance), 0);
    assert_eq!(instance.pc, 0x202);
}

#[test]
fn timers_count_down_to_zero_and_stop() {
    let mut instance = Chip8::new();
    instance.delay_timer = 5;
    instance.sound_timer = 2;
    for k in 0..4usize {
        put(&mut instance, 0x200 + 2 * k, 0x6000);
    }
    for _ in 0..4 {
        instance.cycle().unwrap();
    }
    assert_eq!(instance.delay_timer, 1);
    assert_eq!(instance.sound_timer, 0);
}

#[test]
fn set_timers_from_register() {
    let mut instance = Chip8::new();
    instance.v[3] = 9;
    put(&mut instance, 0x200, 0xF315);
    put(&mut instance, 0x202, 0xF318);
    instance.cycle().unwrap();
    assert_eq!(instance.delay_timer, 8);
    instance.cycle().unwrap();
    assert_eq!(instance.sound_timer, 8);
    assert_eq!(instance.delay_timer, 7);
}

#[test]
fn skip_if_key_not_pressed() {
    let mut instance = Chip8::new();
    instance.keyboard[0] = true;
    put(&mut instance, 0x200, 0xE0A1);
    instance.cycle().unwrap();
    assert_eq!(instance.pc, 0x202);

    let mut other = Chip8::new();
    put(&mut other, 0x200, 0xE0A1);
    other.cycle().unwrap();
    assert_eq!(other.pc, 0x204);
}

#[test]
fn key_skips_treat_indices_past_f_as_released() {
    let mut instance = Chip8::new();
    instance.keyboard = [true; 16];
    instance.v[0] = 0x20;
    put(&mut instance, 0x200, 0xE09E);
    instance.cycle().unwrap();
    assert_eq!(instance.pc, 0x202);
}

#[test]
fn skip_equal_immediate_not_taken() {
    let mut instance = Chip8::new();
    instance.v[2] = 0x0B;
    put(&mut instance, 0x200, 0x320A);
    instance.cycle().unwrap();
    assert_eq!(instance.pc, 0x202);
}

#[test]
fn wait_for_key_stays_until_a_key_is_held() {
    let mut instance = Chip8::new();
    put(&mut instance, 0x200, 0xF50A);
    instance.cycle().unwrap();
    assert_eq!(instance.pc, 0x200);
    instance.keyboard[7] = true;
    instance.keyboard[3] = true;
    instance.cycle().unwrap();
    assert_eq!(instance.v[5], 3);
    assert_eq!(instance.pc, 0x202);
}

#[test]
fn random_byte_is_masked() {
    let mut instance = Chip8::new();
    put(&mut instance, 0x200, 0xC3F0);
    put(&mut instance, 0x202, 0xC400);
    assert_eq!(instance.step(0xAB), Ok(()));
    assert_eq!(instance.v[3], 0xA0);
    instance.v[4] = 0x55;
    instance.cycle().unwrap();
    assert_eq!(instance.v[4], 0);
    assert_eq!(instance.pc, 0x204);
}

#[test]
fn font_sprite_address() {
    let mut instance = Chip8::new();
    instance.v[2] = 0xA;
    put(&mut instance, 0x200, 0xF229);
    instance.cycle().unwrap();
    assert_eq!(instance.i, 50);
}

#[test]
fn register_dump_and_load_round_trip() {
    let mut instance = Chip8::new();
    for r in 0..16u8 {
        instance.v[r as usize] = r * 3;
    }
    instance.i = 0x400;
    put(&mut instance, 0x200, 0xF355);
    instance.cycle().unwrap();
    assert_eq!(&instance.memory[0x400..0x405], &[0, 3, 6, 9, 0]);
    assert_eq!(instance.i, 0x400);
    instance.memory[0x401] = 0x77;
    instance.v[1] = 0;
    instance.v[4] = 0x44;
    put(&mut instance, 0x202, 0xF265);
    instance.cycle().unwrap();
    assert_eq!(&instance.v[0..5], &[0, 0x77, 6, 9, 0x44]);
}

#[test]
fn index_add_and_jump_with_offset() {
    let mut instance = Chip8::new();
    instance.i = 0xFFFF;
    instance.v[1] = 2;
    put(&mut instance, 0x200, 0xF11E);
    instance.cycle().unwrap();
    assert_eq!(instance.i, 1);
    instance.v[0] = 0xFF;
    put(&mut instance, 0x202, 0xBFFF);
    instance.cycle().unwrap();
    assert_eq!(instance.pc, 0x10FE);
}

#[test]
fn load_rom_copies_bytes_at_0x200() {
    let mut instance = Chip8::new();
    let rom = vec![0x12, 0x34, 0x56];
    assert_eq!(instance.load_rom(&rom), Ok(()));
    assert_eq!(&instance.memory[0x200..0x203], &[0x12, 0x34, 0x56]);
    assert_eq!(instance.memory[0x203], 0);
    assert_eq!(instance.memory[0], 0xF0);
}

#[test]
fn load_rom_fills_memory_to_the_end() {
    let mut instance = Chip8::new();
    let rom = vec![0xAB; RAM_SIZE - PROGRAM_START];
    assert_eq!(instance.load_rom(&rom), Ok(()));
    assert_eq!(instance.memory[RAM_SIZE - 1], 0xAB);
    assert_eq!(instance.memory[PROGRAM_START - 1], 0);
}

#[test]
fn load_rom_too_large_is_refused() {
    let mut instance = Chip8::new();
    let rom = vec![0xAB; RAM_SIZE - PROGRAM_START + 1];
    assert_eq!(instance.load_rom(&rom), Err(Chip8Error::RomTooLarge));
    assert!(instance.memory[PROGRAM_START..].iter().all(|b| *b == 0));
}

#[test]
fn call_stack_push_and_pop() {
    let mut stack = CallStack::new();
    assert!(stack.is_empty());
    stack.push(0x300);
    stack.push(0x402);
    assert_eq!(stack.len(), 2);
    assert_eq!(stack.get(1), Some(0x402));
    assert_eq!(stack.pop(), 0x402);
    assert_eq!(stack.pop(), 0x300);
    assert!(stack.is_empty());
}
