use chip8_core::decode::{decode, Instruction};
use chip8_core::emu::{Chip8, StepFault};

/// Write one two-byte instruction at `addr`.
fn put(emulator: &mut Chip8, addr: usize, hi: u8, lo: u8) {
    emulator.memory_mut().set_byte(addr, hi);
    emulator.memory_mut().set_byte(addr + 1, lo);
}

#[test]
fn add_sets_carry_and_wraps() {
    let mut c = Chip8::new();
    c.set_register(0, 200);
    c.set_register(1, 100);
    put(&mut c, 0x200, 0x80, 0x14); // ADD V1 into V0
    c.emulate_cycle().unwrap();
    assert_eq!(c.register(0), 44); // (200 + 100) mod 256
    assert_eq!(c.register(0xF), 1);

    let mut c = Chip8::new();
    c.set_register(0, 1);
    c.set_register(1, 2);
    put(&mut c, 0x200, 0x80, 0x14);
    c.emulate_cycle().unwrap();
    assert_eq!(c.register(0), 3);
    assert_eq!(c.register(0xF), 0);
}

#[test]
fn sub_sets_not_borrow_and_wraps() {
    let mut c = Chip8::new();
    c.set_register(0, 5);
    c.set_register(1, 7);
    put(&mut c, 0x200, 0x80, 0x15); // SUB V1 from V0
    c.emulate_cycle().unwrap();
    assert_eq!(c.register(0), 254); // (5 - 7) mod 256
    assert_eq!(c.register(0xF), 0);

    let mut c = Chip8::new();
    c.set_register(0, 7);
    c.set_register(1, 7);
    put(&mut c, 0x200, 0x80, 0x15);
    c.emulate_cycle().unwrap();
    assert_eq!(c.register(0), 0);
    assert_eq!(c.register(0xF), 1); // not-borrow: Vx >= Vy
}

#[test]
fn shift_right_copies_vy_and_extracts_low_bit() {
    let mut c = Chip8::new();
    c.set_register(0, 0xFF); // destination is overwritten, not shifted
    c.set_register(1, 5);
    put(&mut c, 0x200, 0x80, 0x16); // SHR: V0 = V1 >> 1
    c.emulate_cycle().unwrap();
    assert_eq!(c.register(0), 2);
    assert_eq!(c.register(0xF), 1);
    assert_eq!(c.register(1), 5); // source register keeps its value
}

#[test]
fn shift_left_copies_vy_and_extracts_high_bit() {
    let mut c = Chip8::new();
    c.set_register(1, 0xBC); // 0b1011_1100
    put(&mut c, 0x200, 0x80, 0x1E); // SHL: V0 = V1 << 1
    c.emulate_cycle().unwrap();
    assert_eq!(c.register(0), 0x78);
    assert_eq!(c.register(0xF), 1);
    assert_eq!(c.register(1), 0xBC); // source register keeps its value
}

#[test]
fn shift_flag_lands_in_vf_even_when_x_is_vf() {
    let mut c = Chip8::new();
    c.set_register(1, 4); // low bit 0
    put(&mut c, 0x200, 0x8F, 0x16); // SHR with VF as destination
    c.emulate_cycle().unwrap();
    assert_eq!(c.register(0xF), 0); // the flag, not the shifted value 2
}

#[test]
fn bcd_of_157() {
    let mut c = Chip8::new();
    c.set_register(4, 157);
    put(&mut c, 0x200, 0xA4, 0x00); // I = 0x400
    put(&mut c, 0x202, 0xF4, 0x33); // BCD of V4
    c.emulate_cycle().unwrap();
    c.emulate_cycle().unwrap();
    assert_eq!(c.memory_mut().read_slice_at(0x400, 3), [1, 5, 7]);
}

#[test]
fn scenario_add_v1_into_v0() {
    let mut c = Chip8::new();
    put(&mut c, 0x200, 0x60, 0x00); // V0 = 0x00
    put(&mut c, 0x202, 0x61, 0x03); // V1 = 0x03
    put(&mut c, 0x204, 0x80, 0x14); // ADD V1 into V0
    c.emulate_cycle().unwrap();
    c.emulate_cycle().unwrap();
    c.emulate_cycle().unwrap();
    assert_eq!(c.register(0), 0x03);
    assert_eq!(c.register(0xF), 0x00);
}

#[test]
fn jump_sets_pc_regardless_of_prior_pc() {
    let mut c = Chip8::new();
    put(&mut c, 0x200, 0x13, 0x00); // JP 0x300
    c.emulate_cycle().unwrap();
    assert_eq!(c.pc(), 0x300);

    let mut c = Chip8::new();
    put(&mut c, 0x250, 0x13, 0x00);
    c.set_pc(0x250);
    c.emulate_cycle().unwrap();
    assert_eq!(c.pc(), 0x300);
}

#[test]
fn call_pushes_return_address_and_return_pops_it() {
    let mut c = Chip8::new();
    put(&mut c, 0x200, 0x24, 0x00); // CALL 0x400; pushes 0x202
    put(&mut c, 0x400, 0x00, 0xEE); // RET
    c.emulate_cycle().unwrap();
    assert_eq!(c.pc(), 0x400);
    assert_eq!(c.stack_len(), 1);
    c.emulate_cycle().unwrap();
    assert_eq!(c.pc(), 0x202);
    assert_eq!(c.stack_len(), 0);
}

#[test]
fn draw_twice_clears_and_collides() {
    let mut c = Chip8::new();
    c.memory_mut().set_byte(0x300, 0xFF); // one sprite row, all bits set
    c.set_register(0, 8);
    c.set_register(1, 3);
    put(&mut c, 0x200, 0xA3, 0x00); // I = 0x300
    put(&mut c, 0x202, 0xD0, 0x11); // DRW V0, V1, 1
    put(&mut c, 0x204, 0xD0, 0x11); // same draw again
    c.emulate_cycle().unwrap();
    c.emulate_cycle().unwrap();
    assert_eq!(c.register(0xF), 0); // first draw: nothing was set
    for col in 8..16 {
        assert_eq!(c.display_mut().get_pixel(col, 3), 1);
    }
    c.emulate_cycle().unwrap();
    assert_eq!(c.register(0xF), 1); // second draw: every pixel collided
    for col in 8..16 {
        assert_eq!(c.display_mut().get_pixel(col, 3), 0);
    }
}

#[test]
fn draw_wraps_past_right_edge() {
    let mut c = Chip8::new();
    c.memory_mut().set_byte(0x300, 0xFF);
    c.set_register(0, 63);
    c.set_register(1, 0);
    put(&mut c, 0x200, 0xA3, 0x00); // I = 0x300
    put(&mut c, 0x202, 0xD0, 0x11); // DRW V0, V1, 1 at column 63
    c.emulate_cycle().unwrap();
    c.emulate_cycle().unwrap();
    assert_eq!(c.display_mut().get_pixel(63, 0), 1);
    for col in 0..7 {
        assert_eq!(c.display_mut().get_pixel(col, 0), 1); // wrapped bits
    }
    assert_eq!(c.display_mut().get_pixel(7, 0), 0);
}

#[test]
fn clear_screen_clears_every_pixel() {
    let mut c = Chip8::new();
    c.memory_mut().set_byte(0x300, 0xFF);
    put(&mut c, 0x200, 0xA3, 0x00);
    put(&mut c, 0x202, 0xD0, 0x11);
    put(&mut c, 0x204, 0x00, 0xE0); // CLS
    c.emulate_cycle().unwrap();
    c.emulate_cycle().unwrap();
    assert_eq!(c.display_mut().get_pixel(0, 0), 1);
    c.emulate_cycle().unwrap();
    for col in 0..8 {
        assert_eq!(c.display_mut().get_pixel(col, 0), 0);
    }
}

#[test]
fn reset_twice_equals_reset_once() {
    let snapshot = |c: &mut Chip8| {
        let mut pixels = Vec::new();
        for col in 0..8 {
            pixels.push(c.display_mut().get_pixel(col, 0));
        }
        (
            c.pc(),
            c.index_register(),
            c.register(0),
            c.register(0xF),
            c.stack_len(),
            c.delay_timer(),
            c.sound_timer(),
            pixels,
            c.key_mut().get_keys(),
        )
    };

    let mut c = Chip8::new();
    // Disturb every entity, then reset once.
    c.memory_mut().set_byte(0x300, 0xFF);
    c.set_register(0, 7);
    c.set_register(0xF, 9);
    put(&mut c, 0x200, 0x24, 0x00); // CALL 0x400
    c.emulate_cycle().unwrap();
    c.key_mut().handle_key_press(3);
    c.reset();
    let once = snapshot(&mut c);

    c.reset();
    let twice = snapshot(&mut c);
    assert_eq!(once, twice);
    assert_eq!(twice.0, 0x200);
    assert_eq!(twice.4, 0);
}

#[test]
fn unknown_opcode_reports_word_and_pc_and_continues() {
    let mut c = Chip8::new();
    put(&mut c, 0x200, 0xB1, 0x23); // no such pattern
    put(&mut c, 0x202, 0x60, 0x44); // V0 = 0x44
    let r = c.emulate_cycle();
    assert_eq!(
        r,
        Err(StepFault::UnknownOpcode { word: 0xB123, pc: 0x200 })
    );
    assert_eq!(c.pc(), 0x202); // already advanced past it
    c.emulate_cycle().unwrap(); // execution continues
    assert_eq!(c.register(0), 0x44);
}

#[test]
fn call_beyond_sixteen_frames_faults() {
    let mut c = Chip8::new();
    put(&mut c, 0x200, 0x22, 0x00); // CALL 0x200: calls itself forever
    for _ in 0..16 {
        c.emulate_cycle().unwrap();
    }
    assert_eq!(c.stack_len(), 16);
    let r = c.emulate_cycle();
    assert_eq!(r, Err(StepFault::StackOverflow));
    assert_eq!(c.stack_len(), 16);
    assert_eq!(c.pc(), 0x202); // advanced past the call, nothing pushed
}

#[test]
fn return_from_empty_stack_goes_to_zero_by_default() {
    let mut c = Chip8::new();
    put(&mut c, 0x200, 0x00, 0xEE);
    c.emulate_cycle().unwrap();
    assert_eq!(c.pc(), 0);
}

#[test]
fn return_from_empty_stack_faults_when_flag_off() {
    let mut c = Chip8::new();
    c.set_empty_stack_return_to_zero(false);
    put(&mut c, 0x200, 0x00, 0xEE);
    let r = c.emulate_cycle();
    assert_eq!(r, Err(StepFault::StackUnderflow));
    assert_eq!(c.pc(), 0x202);
}

#[test]
fn key_skip_with_code_above_fifteen_faults() {
    let mut c = Chip8::new();
    c.set_register(0, 0x10);
    put(&mut c, 0x200, 0xE0, 0x9E);
    let r = c.emulate_cycle();
    assert_eq!(r, Err(StepFault::InvalidKey { key: 0x10 }));
}

#[test]
fn fetch_past_end_of_memory_faults() {
    let mut c = Chip8::new();
    c.set_pc(0xFFF);
    let r = c.emulate_cycle();
    assert_eq!(r, Err(StepFault::AddressOutOfRange));
    assert_eq!(c.pc(), 0xFFF); // untouched
}

#[test]
fn draw_past_end_of_memory_faults() {
    let mut c = Chip8::new();
    put(&mut c, 0x200, 0xAF, 0xFF); // I = 0xFFF
    put(&mut c, 0x202, 0xD0, 0x12); // DRW with 2 rows: 0xFFF + 2 > 0x1000
    c.emulate_cycle().unwrap();
    let r = c.emulate_cycle();
    assert_eq!(r, Err(StepFault::AddressOutOfRange));
}

#[test]
fn skip_equal_immediate() {
    let mut c = Chip8::new();
    c.set_register(2, 0x42);
    put(&mut c, 0x200, 0x32, 0x42); // SE V2, 0x42: taken
    c.emulate_cycle().unwrap();
    assert_eq!(c.pc(), 0x204);

    let mut c = Chip8::new();
    c.set_register(2, 0x41);
    put(&mut c, 0x200, 0x32, 0x42); // not taken
    c.emulate_cycle().unwrap();
    assert_eq!(c.pc(), 0x202);
}

#[test]
fn skip_key_pressed_and_not_pressed() {
    let mut c = Chip8::new();
    c.set_register(0, 7);
    c.key_mut().handle_key_press(7);
    put(&mut c, 0x200, 0xE0, 0x9E); // SKP V0: taken
    c.emulate_cycle().unwrap();
    assert_eq!(c.pc(), 0x204);

    put(&mut c, 0x204, 0xE0, 0xA1); // SKNP V0: not taken
    c.emulate_cycle().unwrap();
    assert_eq!(c.pc(), 0x206);

    c.key_mut().handle_key_release(7);
    put(&mut c, 0x206, 0xE0, 0xA1); // SKNP V0: taken now
    c.emulate_cycle().unwrap();
    assert_eq!(c.pc(), 0x20A);
}

#[test]
fn wait_key_rolls_back_until_a_release_resolves_it() {
    let mut c = Chip8::new();
    put(&mut c, 0x200, 0xF3, 0x0A); // LD V3, K
    c.emulate_cycle().unwrap();
    assert_eq!(c.pc(), 0x200); // rolled back: re-executes next cycle
    c.emulate_cycle().unwrap();
    assert_eq!(c.pc(), 0x200); // still waiting

    c.key_mut().handle_key_press(0xA);
    c.emulate_cycle().unwrap();
    assert_eq!(c.pc(), 0x200); // a press alone does not resolve the wait

    c.key_mut().handle_key_release(0xA);
    c.emulate_cycle().unwrap();
    assert_eq!(c.pc(), 0x202); // resolved
    assert_eq!(c.register(3), 0xA);
}

#[test]
fn delay_timer_saturates_at_zero() {
    let mut c = Chip8::new();
    c.set_register(0, 2);
    put(&mut c, 0x200, 0xF0, 0x15); // DT = V0
    put(&mut c, 0x202, 0xF1, 0x07); // V1 = DT
    c.emulate_cycle().unwrap();
    assert_eq!(c.delay_timer(), 2);
    c.delay_timer_tick();
    c.delay_timer_tick();
    c.delay_timer_tick();
    assert_eq!(c.delay_timer(), 0);
    c.emulate_cycle().unwrap();
    assert_eq!(c.register(1), 0);
}

#[test]
fn sound_timer_loads_and_saturates() {
    let mut c = Chip8::new();
    c.set_register(0, 1);
    put(&mut c, 0x200, 0xF0, 0x18); // ST = V0
    c.emulate_cycle().unwrap();
    assert_eq!(c.sound_timer(), 1);
    c.sound_timer_tick();
    c.sound_timer_tick();
    assert_eq!(c.sound_timer(), 0);
}

#[test]
fn add_index_wraps_at_sixteen_bits() {
    let mut c = Chip8::new();
    c.set_register(0, 0x05);
    put(&mut c, 0x200, 0xAF, 0xFF); // I = 0xFFF
    put(&mut c, 0x202, 0xF0, 0x1E); // I += V0
    c.emulate_cycle().unwrap();
    c.emulate_cycle().unwrap();
    assert_eq!(c.index_register(), 0x1004);
}

#[test]
fn store_and_load_registers_advance_index_by_default() {
    let mut c = Chip8::new();
    c.set_register(0, 0xAA);
    c.set_register(1, 0xBB);
    c.set_register(2, 0xCC);
    put(&mut c, 0x200, 0xA5, 0x00); // I = 0x500
    put(&mut c, 0x202, 0xF2, 0x55); // store V0..=V2 at I
    c.emulate_cycle().unwrap();
    c.emulate_cycle().unwrap();
    assert_eq!(c.memory_mut().read_slice_at(0x500, 3), [0xAA, 0xBB, 0xCC]);
    assert_eq!(c.index_register(), 0x503); // the documented quirk

    put(&mut c, 0x204, 0xA5, 0x00); // I = 0x500 again
    put(&mut c, 0x206, 0x63, 0x00); // V3 = 0 (so the load below overwrites it)
    put(&mut c, 0x208, 0xF2, 0x65); // load V0..=V2 from I
    c.set_register(0, 0);
    c.set_register(1, 0);
    c.set_register(2, 0);
    c.emulate_cycle().unwrap();
    c.emulate_cycle().unwrap();
    c.emulate_cycle().unwrap();
    assert_eq!(c.register(0), 0xAA);
    assert_eq!(c.register(1), 0xBB);
    assert_eq!(c.register(2), 0xCC);
    assert_eq!(c.index_register(), 0x503);
}

#[test]
fn store_registers_keeps_index_when_flag_off() {
    let mut c = Chip8::new();
    c.set_index_advance_on_transfer(false);
    c.set_register(0, 0x11);
    put(&mut c, 0x200, 0xA5, 0x00); // I = 0x500
    put(&mut c, 0x202, 0xF0, 0x55); // store V0 at I
    c.emulate_cycle().unwrap();
    c.emulate_cycle().unwrap();
    assert_eq!(c.memory_mut().get_byte(0x500), 0x11);
    assert_eq!(c.index_register(), 0x500);
}

#[test]
fn load_rom_places_image_at_program_start() {
    let mut c = Chip8::new();
    c.load_rom(&[0x60, 0x2A, 0x12, 0x00]);
    assert_eq!(c.memory_mut().get_byte(0x200), 0x60);
    assert_eq!(c.memory_mut().get_byte(0x203), 0x00);
    c.emulate_cycle().unwrap();
    assert_eq!(c.register(0), 0x2A);
}

#[test]
fn register_alu_moves_and_bitwise() {
    let mut c = Chip8::new();
    c.set_register(0, 0b1100);
    c.set_register(1, 0b1010);
    put(&mut c, 0x200, 0x82, 0x10); // V2 = V1
    put(&mut c, 0x202, 0x80, 0x11); // V0 |= V1
    c.emulate_cycle().unwrap();
    c.emulate_cycle().unwrap();
    assert_eq!(c.register(2), 0b1010);
    assert_eq!(c.register(0), 0b1110);

    let mut c = Chip8::new();
    c.set_register(0, 0b1100);
    c.set_register(1, 0b1010);
    put(&mut c, 0x200, 0x80, 0x12); // V0 &= V1
    c.emulate_cycle().unwrap();
    assert_eq!(c.register(0), 0b1000);

    let mut c = Chip8::new();
    c.set_register(0, 0b1100);
    c.set_register(1, 0b1010);
    put(&mut c, 0x200, 0x80, 0x13); // V0 ^= V1
    c.emulate_cycle().unwrap();
    assert_eq!(c.register(0), 0b0110);
}

#[test]
fn subn_stores_vy_minus_vx() {
    let mut c = Chip8::new();
    c.set_register(0, 3);
    c.set_register(1, 10);
    put(&mut c, 0x200, 0x80, 0x17); // V0 = V1 - V0
    c.emulate_cycle().unwrap();
    assert_eq!(c.register(0), 7);
    assert_eq!(c.register(0xF), 1);

    let mut c = Chip8::new();
    c.set_register(0, 10);
    c.set_register(1, 3);
    put(&mut c, 0x200, 0x80, 0x17);
    c.emulate_cycle().unwrap();
    assert_eq!(c.register(0), 249); // (3 - 10) mod 256
    assert_eq!(c.register(0xF), 0);
}

#[test]
fn decode_recognizes_each_family() {
    assert_eq!(decode(0x00E0), Some(Instruction::ClearScreen));
    assert_eq!(decode(0x00EE), Some(Instruction::Return));
    assert_eq!(decode(0x1ABC), Some(Instruction::Jump(0xABC)));
    assert_eq!(decode(0x2ABC), Some(Instruction::Call(0xABC)));
    assert_eq!(decode(0x3A42), Some(Instruction::SkipEqImm(0xA, 0x42)));
    assert_eq!(decode(0x4A42), Some(Instruction::SkipNeImm(0xA, 0x42)));
    assert_eq!(decode(0x5AB0), Some(Instruction::SkipEqReg(0xA, 0xB)));
    assert_eq!(decode(0x6A42), Some(Instruction::LoadImm(0xA, 0x42)));
    assert_eq!(decode(0x7A42), Some(Instruction::AddImm(0xA, 0x42)));
    assert_eq!(decode(0x8AB0), Some(Instruction::Move(0xA, 0xB)));
    assert_eq!(decode(0x8AB4), Some(Instruction::Add(0xA, 0xB)));
    assert_eq!(decode(0x8ABE), Some(Instruction::ShiftLeft(0xA, 0xB)));
    assert_eq!(decode(0x9AB0), Some(Instruction::SkipNeReg(0xA, 0xB)));
    assert_eq!(decode(0xAABC), Some(Instruction::SetIndex(0xABC)));
    assert_eq!(decode(0xDAB5), Some(Instruction::Draw(0xA, 0xB, 5)));
    assert_eq!(decode(0xEA9E), Some(Instruction::SkipKeyPressed(0xA)));
    assert_eq!(decode(0xEAA1), Some(Instruction::SkipKeyNotPressed(0xA)));
    assert_eq!(decode(0xFA33), Some(Instruction::StoreDigits(0xA)));
    assert_eq!(decode(0xB123), None);
    assert_eq!(decode(0xC123), None);
    assert_eq!(decode(0x8AB8), None);
    assert_eq!(decode(0xFA29), None);
}
