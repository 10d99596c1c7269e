use chip8::{Chip8, Instruction, MachineFault, Outcome, ResourceFault, decode, FLAG, MEMORY_SIZE, START_ADDRESS};

fn machine_with(program: &[u16], data: &[u8]) -> Chip8 {
    let mut rom: Vec<u8> = Vec::new();
    for op in program {
        rom.push((op >> 8) as u8);
        rom.push((op & 0xFF) as u8);
    }
    rom.extend_from_slice(data);
    let mut m = Chip8::new();
    assert_eq!(m.load_and_init(&rom), Ok(()));
    m
}

fn run(m: &mut Chip8, cycles: usize) {
    for _ in 0..cycles {
        assert_eq!(m.emulate_cycle_with(0), Ok(Outcome::Executed));
    }
}

#[test]
fn load_immediate_sets_every_register() {
    for x in 0..16u16 {
        let mut m = machine_with(&[0x6000 | (x << 8) | 0xA5], &[]);
        run(&mut m, 1);
        assert_eq!(m.register(x as usize), 0xA5);
        for other in 0..16usize {
            if other != x as usize {
                assert_eq!(m.register(other), 0);
            }
        }
    }
}

#[test]
fn add_registers_sets_carry() {
    let mut m = machine_with(&[0x61FF, 0x6201, 0x8124], &[]);
    run(&mut m, 3);
    assert_eq!(m.register(1), 0x00);
    assert_eq!(m.register(FLAG), 1);

    let mut m = machine_with(&[0x6101, 0x6201, 0x8124], &[]);
    run(&mut m, 3);
    assert_eq!(m.register(1), 0x02);
    assert_eq!(m.register(FLAG), 0);
}

#[test]
fn subtract_registers_sets_no_borrow() {
    let mut m = machine_with(&[0x6105, 0x6203, 0x8125], &[]);
    run(&mut m, 3);
    assert_eq!(m.register(1), 0x02);
    assert_eq!(m.register(FLAG), 1);

    let mut m = machine_with(&[0x6103, 0x6205, 0x8125], &[]);
    run(&mut m, 3);
    assert_eq!(m.register(1), 0xFE);
    assert_eq!(m.register(FLAG), 0);
}

#[test]
fn subtract_reverse_and_shifts() {
    let mut m = machine_with(&[0x6105, 0x6203, 0x8127], &[]);
    run(&mut m, 3);
    assert_eq!(m.register(1), 0xFE);
    assert_eq!(m.register(FLAG), 0);

    let mut m = machine_with(&[0x6103, 0x8106], &[]);
    run(&mut m, 2);
    assert_eq!(m.register(1), 0x01);
    assert_eq!(m.register(FLAG), 1);

    let mut m = machine_with(&[0x6181, 0x810E], &[]);
    run(&mut m, 2);
    assert_eq!(m.register(1), 0x02);
    assert_eq!(m.register(FLAG), 1);

    let mut m = machine_with(&[0x6141, 0x810E], &[]);
    run(&mut m, 2);
    assert_eq!(m.register(1), 0x82);
    assert_eq!(m.register(FLAG), 0);
}

#[test]
fn add_immediate_wraps_without_flag() {
    let mut m = machine_with(&[0x61FF, 0x7102], &[]);
    run(&mut m, 2);
    assert_eq!(m.register(1), 0x01);
    assert_eq!(m.register(FLAG), 0);
}

#[test]
fn bitwise_operations() {
    let mut m = machine_with(&[0x610C, 0x620A, 0x630C, 0x640C, 0x8121, 0x8322, 0x8423, 0x8520], &[]);
    run(&mut m, 8);
    assert_eq!(m.register(1), 0x0E);
    assert_eq!(m.register(3), 0x08);
    assert_eq!(m.register(4), 0x06);
    assert_eq!(m.register(5), 0x0A);
}

#[test]
fn clear_screen_blanks_every_pixel() {
    let mut m = machine_with(&[0xA20A, 0x6000, 0x6100, 0xD015, 0x00E0], &[0xFF, 0xFF, 0xFF, 0xFF, 0xFF]);
    run(&mut m, 4);
    assert!(m.media.display.get_screen_pixel_state(0, 0));
    m.media.display.set_drawflag(false);
    run(&mut m, 1);
    for y in 0..32 {
        for x in 0..64 {
            assert!(!m.media.display.get_screen_pixel_state(x, y));
        }
    }
    assert!(m.is_drawflag_set());
}

#[test]
fn draw_twice_toggles_back_with_collision() {
    let mut m = machine_with(&[0x6000, 0x6100, 0xA20A, 0xD011, 0xD011], &[0xFF]);
    run(&mut m, 4);
    for x in 0..8 {
        assert!(m.media.display.get_screen_pixel_state(x, 0));
    }
    assert!(!m.media.display.get_screen_pixel_state(8, 0));
    assert_eq!(m.register(FLAG), 0);
    assert!(m.is_drawflag_set());
    run(&mut m, 1);
    for x in 0..8 {
        assert!(!m.media.display.get_screen_pixel_state(x, 0));
    }
    assert_eq!(m.register(FLAG), 1);
}

#[test]
fn draw_wraps_around_the_edges() {
    // corner at (62, 31): the row wraps to columns 0..6 and stays on row 31;
    // the second row lands on row 0
    let mut m = machine_with(&[0x603E, 0x611F, 0xA20A, 0xD012, 0x1208], &[0xFF, 0x80]);
    run(&mut m, 4);
    assert!(m.media.display.get_screen_pixel_state(62, 31));
    assert!(m.media.display.get_screen_pixel_state(63, 31));
    assert!(m.media.display.get_screen_pixel_state(0, 31));
    assert!(m.media.display.get_screen_pixel_state(5, 31));
    assert!(!m.media.display.get_screen_pixel_state(6, 31));
    assert!(m.media.display.get_screen_pixel_state(62, 0));
    assert!(!m.media.display.get_screen_pixel_state(63, 0));
}

#[test]
fn call_then_return_comes_back() {
    let mut m = machine_with(&[0x2206, 0x1202, 0x0000, 0x00EE], &[]);
    run(&mut m, 1);
    assert_eq!(m.pc(), 0x206);
    assert_eq!(m.stack_depth(), 1);
    run(&mut m, 1);
    assert_eq!(m.pc(), 0x202);
    assert_eq!(m.stack_depth(), 0);
}

#[test]
fn return_on_empty_stack_faults() {
    let mut m = machine_with(&[0x00EE], &[]);
    assert_eq!(m.emulate_cycle_with(0), Err(MachineFault::StackUnderflow));
    assert_eq!(m.stack_depth(), 0);
}

#[test]
fn seventeenth_nested_call_faults() {
    let mut m = machine_with(&[0x2200], &[]);
    run(&mut m, 16);
    assert_eq!(m.stack_depth(), 16);
    assert_eq!(m.emulate_cycle_with(0), Err(MachineFault::StackOverflow));
    assert_eq!(m.stack_depth(), 16);
}

#[test]
fn pc_outside_program_faults() {
    let mut m = Chip8::new();
    assert_eq!(m.emulate_cycle_with(0), Err(MachineFault::PcOutOfRange));
    assert_eq!(m.pc(), 0);

    let mut m = machine_with(&[0x1FFF], &[]);
    run(&mut m, 1);
    assert_eq!(m.pc(), 0xFFF);
    assert_eq!(m.emulate_cycle_with(0), Err(MachineFault::PcOutOfRange));
    assert_eq!(m.fetch_instr(), None);
}

#[test]
fn memory_access_past_the_end_faults() {
    let mut m = machine_with(&[0xAFFE, 0xF033], &[]);
    run(&mut m, 1);
    assert_eq!(m.emulate_cycle_with(0), Err(MachineFault::AddressOutOfRange));
    let mut m = machine_with(&[0xAFFF, 0xD012], &[]);
    run(&mut m, 1);
    assert_eq!(m.emulate_cycle_with(0), Err(MachineFault::AddressOutOfRange));
    let mut m = machine_with(&[0xAFFF, 0xF155], &[]);
    run(&mut m, 1);
    assert_eq!(m.emulate_cycle_with(0), Err(MachineFault::AddressOutOfRange));
}

#[test]
fn bcd_of_234() {
    let mut m = machine_with(&[0x60EA, 0xA300, 0xF033], &[]);
    run(&mut m, 3);
    assert_eq!(m.memory_at(0x300), 2);
    assert_eq!(m.memory_at(0x301), 3);
    assert_eq!(m.memory_at(0x302), 4);
}

#[test]
fn store_and_load_registers() {
    let mut m = machine_with(&[0x6011, 0x6122, 0x6233, 0xA300, 0xF155, 0x6000, 0x6100, 0x6200, 0xF265], &[]);
    run(&mut m, 5);
    assert_eq!(m.memory_at(0x300), 0x11);
    assert_eq!(m.memory_at(0x301), 0x22);
    assert_eq!(m.memory_at(0x302), 0);
    run(&mut m, 4);
    assert_eq!(m.register(0), 0x11);
    assert_eq!(m.register(1), 0x22);
    assert_eq!(m.register(2), 0);
    assert_eq!(m.index(), 0x300);
}

#[test]
fn font_glyph_address() {
    let mut m = machine_with(&[0x610A, 0xF129], &[]);
    run(&mut m, 2);
    assert_eq!(m.index(), 50);
    assert_eq!(m.memory_at(50), 0xF0);
    assert_eq!(m.memory_at(51), 0x90);
}

#[test]
fn index_arithmetic_and_offset_jump() {
    let mut m = machine_with(&[0xA123, 0x6105, 0xF11E], &[]);
    run(&mut m, 3);
    assert_eq!(m.index(), 0x128);
    let mut m = machine_with(&[0x6002, 0xB300], &[]);
    run(&mut m, 2);
    assert_eq!(m.pc(), 0x302);
}

#[test]
fn skips() {
    // 3XKK taken, 4XKK not taken, 5XY0 taken, 9XY0 not taken
    let mut m = machine_with(&[0x6107, 0x6207, 0x3107, 0x0000, 0x4107, 0x5120, 0x0000, 0x9120], &[]);
    run(&mut m, 3);
    assert_eq!(m.pc(), 0x208);
    run(&mut m, 1);
    assert_eq!(m.pc(), 0x20A);
    run(&mut m, 1);
    assert_eq!(m.pc(), 0x20E);
    run(&mut m, 1);
    assert_eq!(m.pc(), 0x210);
    let mut m = machine_with(&[0x4108], &[]);
    run(&mut m, 1);
    assert_eq!(m.pc(), 0x204);
}

#[test]
fn key_skips() {
    let mut m = machine_with(&[0x6105, 0xE19E, 0xE1A1], &[]);
    m.media.keypad.set_key(5, true);
    run(&mut m, 2);
    assert_eq!(m.pc(), 0x206);
    let mut m = machine_with(&[0x6105, 0xE1A1], &[]);
    run(&mut m, 2);
    assert_eq!(m.pc(), 0x206);
    // a register value past the keypad names no key: never down
    let mut m = machine_with(&[0x6120, 0xE19E], &[]);
    run(&mut m, 2);
    assert_eq!(m.pc(), 0x204);
}

#[test]
fn wait_key_blocks_then_takes_lowest() {
    let mut m = machine_with(&[0xF30A, 0x1202], &[]);
    for _ in 0..3 {
        run(&mut m, 1);
        assert_eq!(m.pc(), 0x200);
    }
    m.media.keypad.set_key(9, true);
    m.media.keypad.set_key(5, true);
    run(&mut m, 1);
    assert_eq!(m.register(3), 5);
    assert_eq!(m.pc(), 0x202);
    run(&mut m, 1);
    assert_eq!(m.pc(), 0x202);
}

#[test]
fn sound_timer_stops_once() {
    let mut m = machine_with(&[0x6001, 0xF018], &[]);
    run(&mut m, 1);
    assert_eq!(m.emulate_cycle_with(0), Ok(Outcome::SoundStarted));
    assert_eq!(m.sound_timer(), 1);
    assert!(m.update_timers());
    assert_eq!(m.sound_timer(), 0);
    assert!(!m.update_timers());
    assert_eq!(m.sound_timer(), 0);
}

#[test]
fn sound_timer_set_to_zero_stops() {
    let mut m = machine_with(&[0x6003, 0xF018, 0x6000, 0xF018], &[]);
    run(&mut m, 1);
    assert_eq!(m.emulate_cycle_with(0), Ok(Outcome::SoundStarted));
    run(&mut m, 1);
    assert_eq!(m.emulate_cycle_with(0), Ok(Outcome::SoundStopped));
}

#[test]
fn delay_timer_round_trip() {
    let mut m = machine_with(&[0x6005, 0xF015, 0xF107], &[]);
    run(&mut m, 3);
    assert_eq!(m.register(1), 5);
    assert!(!m.update_timers());
    assert_eq!(m.delay_timer(), 4);
}

#[test]
fn random_is_masked() {
    let mut m = machine_with(&[0xC10F], &[]);
    assert_eq!(m.emulate_cycle_with(0xAB), Ok(Outcome::Executed));
    assert_eq!(m.register(1), 0x0B);
    let mut m = machine_with(&[0xC100, 0xC20F], &[]);
    assert_eq!(m.emulate_cycle(), Ok(Outcome::Executed));
    assert_eq!(m.register(1), 0);
    assert_eq!(m.emulate_cycle(), Ok(Outcome::Executed));
    assert!(m.register(2) <= 0x0F);
}

#[test]
fn unknown_opcode_warns_and_does_nothing() {
    let mut m = machine_with(&[0x5121, 0x8128, 0xE1FF], &[]);
    assert_eq!(m.emulate_cycle_with(0), Ok(Outcome::DecodeWarning { opcode: 0x5121 }));
    assert_eq!(m.pc(), 0x202);
    assert_eq!(m.emulate_cycle_with(0), Ok(Outcome::DecodeWarning { opcode: 0x8128 }));
    assert_eq!(m.emulate_cycle_with(0), Ok(Outcome::DecodeWarning { opcode: 0xE1FF }));
}

#[test]
fn decode_splits_operands() {
    assert_eq!(decode(0x8AB4), Instruction::AddReg { x: 10, y: 11 });
    assert_eq!(decode(0xD3F7), Instruction::Draw { x: 3, y: 15, n: 7 });
    assert_eq!(decode(0x2ABC), Instruction::Call { nnn: 0xABC });
    assert_eq!(decode(0x00E0), Instruction::ClearScreen);
    assert_eq!(decode(0x00EE), Instruction::Return);
    assert_eq!(decode(0x0123), Instruction::Unknown { opcode: 0x0123 });
    assert_eq!(decode(0xF265), Instruction::LoadRegs { x: 2 });
}

#[test]
fn oversized_rom_is_refused() {
    let mut m = Chip8::new();
    let rom = vec![0xAA; MEMORY_SIZE - START_ADDRESS + 1];
    assert_eq!(m.load_and_init(&rom), Err(ResourceFault::RomTooLarge));
    for addr in 0..MEMORY_SIZE {
        assert_eq!(m.memory_at(addr), 0);
    }
    assert_eq!(m.pc(), 0);

    let rom = vec![0xAA; MEMORY_SIZE - START_ADDRESS];
    assert_eq!(m.load_and_init(&rom), Ok(()));
    assert_eq!(m.memory_at(MEMORY_SIZE - 1), 0xAA);
    assert_eq!(m.memory_at(0), 0xF0);
    assert_eq!(m.pc(), 0x200);
}

#[test]
fn load_rom_at_offset() {
    let mut m = Chip8::new();
    assert_eq!(m.load_rom(&vec![1, 2, 3], 0x300), Ok(()));
    assert_eq!(m.memory_at(0x300), 1);
    assert_eq!(m.memory_at(0x302), 3);
    assert_eq!(m.load_rom(&vec![1, 2], MEMORY_SIZE - 1), Err(ResourceFault::RomTooLarge));
    assert_eq!(m.memory_at(MEMORY_SIZE - 1), 0);
    assert_eq!(m.load_rom(&vec![], MEMORY_SIZE + 1), Err(ResourceFault::RomTooLarge));
}
