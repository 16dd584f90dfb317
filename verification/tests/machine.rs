use chip8::chip::{
    remaining_frame_time, Chip, ChipError, KeyWait, FONT_POS_START, MEMSIZE, PROG_POS_START,
};
use chip8::screen::{Headless, Interface};

fn new_chip() -> Chip<Headless> {
    Chip::new(PROG_POS_START, <Headless as Interface>::new())
}

/// Place the two-byte word `w` at `addr` and point the counter at it.
fn load_word(c: &mut Chip<Headless>, addr: u16, w: u16) {
    c.set_byte(addr, (w >> 8) as u8).unwrap();
    c.set_byte(addr + 1, (w & 0xFF) as u8).unwrap();
    c.set_pc(addr);
}

fn step_word(c: &mut Chip<Headless>, w: u16) -> Result<(), ChipError> {
    load_word(c, 0x200, w);
    c.execute_inst()
}

#[test]
fn set_get_roundtrip_all_registers_and_values() {
    let mut c = new_chip();
    for r in 0u16..16 {
        for v in 0u16..256 {
            c.registers.set_reg_v(r as u8, v as u8).unwrap();
            assert_eq!(c.registers.get_reg_v(r as u8).unwrap(), v as u8);
        }
    }
}

#[test]
fn register_index_above_fifteen_is_refused() {
    let mut c = new_chip();
    assert_eq!(
        c.registers.set_reg_v(0x10, 1),
        Err(ChipError::InvalidRegisterIndex)
    );
    assert_eq!(
        c.registers.get_reg_v(0xFF),
        Err(ChipError::InvalidRegisterIndex)
    );
}

#[test]
fn add_imm_wraps_and_leaves_flag_untouched() {
    let mut c = new_chip();
    c.registers.set_reg_v(1, 0x10).unwrap();
    c.registers.set_reg_v(0xF, 0xAA).unwrap();
    step_word(&mut c, 0x71F5).unwrap();
    assert_eq!(c.registers.get_reg_v(1).unwrap(), 0x05);
    assert_eq!(c.registers.get_reg_v(0xF).unwrap(), 0xAA);
    assert_eq!(c.pc, 0x202);
}

#[test]
fn add_reg_sets_carry_iff_sum_exceeds_255() {
    let mut c = new_chip();
    c.registers.set_reg_v(1, 200).unwrap();
    c.registers.set_reg_v(2, 100).unwrap();
    step_word(&mut c, 0x8124).unwrap();
    assert_eq!(c.registers.get_reg_v(1).unwrap(), 44);
    assert_eq!(c.registers.get_reg_v(0xF).unwrap(), 1);

    c.registers.set_reg_v(1, 1).unwrap();
    c.registers.set_reg_v(2, 2).unwrap();
    step_word(&mut c, 0x8124).unwrap();
    assert_eq!(c.registers.get_reg_v(1).unwrap(), 3);
    assert_eq!(c.registers.get_reg_v(0xF).unwrap(), 0);
}

#[test]
fn sub_sets_flag_iff_no_borrow() {
    let mut c = new_chip();
    c.registers.set_reg_v(1, 7).unwrap();
    c.registers.set_reg_v(2, 7).unwrap();
    step_word(&mut c, 0x8125).unwrap();
    assert_eq!(c.registers.get_reg_v(1).unwrap(), 0);
    assert_eq!(c.registers.get_reg_v(0xF).unwrap(), 1);

    c.registers.set_reg_v(1, 3).unwrap();
    c.registers.set_reg_v(2, 5).unwrap();
    step_word(&mut c, 0x8125).unwrap();
    assert_eq!(c.registers.get_reg_v(1).unwrap(), 254);
    assert_eq!(c.registers.get_reg_v(0xF).unwrap(), 0);
}

#[test]
fn subn_mirrors_sub_with_operands_reversed() {
    let mut c = new_chip();
    c.registers.set_reg_v(1, 3).unwrap();
    c.registers.set_reg_v(2, 5).unwrap();
    step_word(&mut c, 0x8127).unwrap();
    assert_eq!(c.registers.get_reg_v(1).unwrap(), 2);
    assert_eq!(c.registers.get_reg_v(0xF).unwrap(), 1);

    c.registers.set_reg_v(1, 5).unwrap();
    c.registers.set_reg_v(2, 3).unwrap();
    step_word(&mut c, 0x8127).unwrap();
    assert_eq!(c.registers.get_reg_v(1).unwrap(), 254);
    assert_eq!(c.registers.get_reg_v(0xF).unwrap(), 0);
}

#[test]
fn shr_stores_evicted_low_bit_in_flag() {
    let mut c = new_chip();
    c.registers.set_reg_v(2, 0x0B).unwrap();
    step_word(&mut c, 0x8126).unwrap();
    assert_eq!(c.registers.get_reg_v(1).unwrap(), 0x05);
    assert_eq!(c.registers.get_reg_v(0xF).unwrap(), 1);

    c.registers.set_reg_v(2, 0x0A).unwrap();
    step_word(&mut c, 0x8126).unwrap();
    assert_eq!(c.registers.get_reg_v(1).unwrap(), 0x05);
    assert_eq!(c.registers.get_reg_v(0xF).unwrap(), 0);
}

#[test]
fn shl_stores_evicted_high_bit_in_flag() {
    let mut c = new_chip();
    c.registers.set_reg_v(2, 0x81).unwrap();
    step_word(&mut c, 0x812E).unwrap();
    assert_eq!(c.registers.get_reg_v(1).unwrap(), 0x02);
    assert_eq!(c.registers.get_reg_v(0xF).unwrap(), 1);

    c.registers.set_reg_v(2, 0x41).unwrap();
    step_word(&mut c, 0x812E).unwrap();
    assert_eq!(c.registers.get_reg_v(1).unwrap(), 0x82);
    assert_eq!(c.registers.get_reg_v(0xF).unwrap(), 0);
}

#[test]
fn or_and_xor_reset_flag_register() {
    let mut c = new_chip();
    c.registers.set_reg_v(1, 0b1100).unwrap();
    c.registers.set_reg_v(2, 0b1010).unwrap();
    c.registers.set_reg_v(0xF, 7).unwrap();
    step_word(&mut c, 0x8121).unwrap();
    assert_eq!(c.registers.get_reg_v(1).unwrap(), 0b1110);
    assert_eq!(c.registers.get_reg_v(0xF).unwrap(), 0);

    c.registers.set_reg_v(1, 0b1100).unwrap();
    c.registers.set_reg_v(0xF, 7).unwrap();
    step_word(&mut c, 0x8122).unwrap();
    assert_eq!(c.registers.get_reg_v(1).unwrap(), 0b1000);
    assert_eq!(c.registers.get_reg_v(0xF).unwrap(), 0);

    c.registers.set_reg_v(1, 0b1100).unwrap();
    c.registers.set_reg_v(0xF, 7).unwrap();
    step_word(&mut c, 0x8123).unwrap();
    assert_eq!(c.registers.get_reg_v(1).unwrap(), 0b0110);
    assert_eq!(c.registers.get_reg_v(0xF).unwrap(), 0);
}

#[test]
fn bcd_store_writes_decimal_digits() {
    let mut c = new_chip();
    c.registers.set_reg_v(3, 157).unwrap();
    c.registers.i = 0x300;
    step_word(&mut c, 0xF333).unwrap();
    assert_eq!(c.get_addr(0x300).unwrap(), 1);
    assert_eq!(c.get_addr(0x301).unwrap(), 5);
    assert_eq!(c.get_addr(0x302).unwrap(), 7);
}

#[test]
fn bulk_store_load_roundtrip_restores_registers_and_advances_i() {
    let mut c = new_chip();
    for r in 0u8..4 {
        c.registers.set_reg_v(r, 10 + r).unwrap();
    }
    c.registers.i = 0x400;
    step_word(&mut c, 0xF355).unwrap();
    assert_eq!(c.registers.i, 0x404);
    for r in 0u8..4 {
        assert_eq!(c.get_addr(0x400 + r as u16).unwrap(), 10 + r);
    }
    for r in 0u8..4 {
        c.registers.set_reg_v(r, 0xEE).unwrap();
    }
    c.registers.i = 0x400;
    step_word(&mut c, 0xF365).unwrap();
    assert_eq!(c.registers.i, 0x404);
    for r in 0u8..4 {
        assert_eq!(c.registers.get_reg_v(r).unwrap(), 10 + r);
    }
}

#[test]
fn skip_eq_imm_advances_four_when_equal_else_two() {
    let mut c = new_chip();
    c.registers.set_reg_v(1, 0x42).unwrap();
    step_word(&mut c, 0x3142).unwrap();
    assert_eq!(c.pc, 0x204);
    step_word(&mut c, 0x3141).unwrap();
    assert_eq!(c.pc, 0x202);
}

#[test]
fn skip_ne_imm_advances_four_when_not_equal_else_two() {
    let mut c = new_chip();
    c.registers.set_reg_v(1, 0x42).unwrap();
    step_word(&mut c, 0x4142).unwrap();
    assert_eq!(c.pc, 0x202);
    step_word(&mut c, 0x4141).unwrap();
    assert_eq!(c.pc, 0x204);
}

#[test]
fn skip_on_register_comparison() {
    let mut c = new_chip();
    c.registers.set_reg_v(1, 9).unwrap();
    c.registers.set_reg_v(2, 9).unwrap();
    step_word(&mut c, 0x5120).unwrap();
    assert_eq!(c.pc, 0x204);
    step_word(&mut c, 0x9120).unwrap();
    assert_eq!(c.pc, 0x202);
    c.registers.set_reg_v(2, 8).unwrap();
    step_word(&mut c, 0x5120).unwrap();
    assert_eq!(c.pc, 0x202);
    step_word(&mut c, 0x9120).unwrap();
    assert_eq!(c.pc, 0x204);
}

#[test]
fn timer_at_zero_stays_at_zero() {
    let mut c = new_chip();
    assert_eq!(c.delay_timer, 0);
    for _ in 0..5 {
        c.tick_timers();
        assert_eq!(c.delay_timer, 0);
        assert_eq!(c.sound_timer, 0);
    }
    c.delay_timer = 2;
    c.sound_timer = 1;
    c.tick_timers();
    assert_eq!(c.delay_timer, 1);
    assert_eq!(c.sound_timer, 0);
    c.tick_timers();
    assert_eq!(c.delay_timer, 0);
    assert_eq!(c.sound_timer, 0);
}

#[test]
fn unknown_opcode_raises_illegal_instruction() {
    let mut c = new_chip();
    let old_pc = 0x200;
    assert_eq!(
        step_word(&mut c, 0x5001),
        Err(ChipError::IllegalInstruction(0x5001))
    );
    assert_eq!(c.pc, old_pc);
    assert_eq!(
        step_word(&mut c, 0x8008),
        Err(ChipError::IllegalInstruction(0x8008))
    );
    assert_eq!(
        step_word(&mut c, 0x9005),
        Err(ChipError::IllegalInstruction(0x9005))
    );
    assert_eq!(
        step_word(&mut c, 0xE0FF),
        Err(ChipError::IllegalInstruction(0xE0FF))
    );
    assert_eq!(
        step_word(&mut c, 0xF0FF),
        Err(ChipError::IllegalInstruction(0xF0FF))
    );
}

#[test]
fn jump_and_jump_with_offset() {
    let mut c = new_chip();
    step_word(&mut c, 0x1234).unwrap();
    assert_eq!(c.pc, 0x234);
    c.registers.set_reg_v(0, 0x10).unwrap();
    step_word(&mut c, 0xB234).unwrap();
    assert_eq!(c.pc, 0x244);
}

#[test]
fn call_pushes_and_ret_pops_plus_two() {
    let mut c = new_chip();
    step_word(&mut c, 0x2345).unwrap();
    assert_eq!(c.pc, 0x345);
    assert_eq!(c.stackpointer, 1);
    assert_eq!(c.stack[0], 0x200);
    load_word(&mut c, 0x346, 0x00EE);
    c.execute_inst().unwrap();
    assert_eq!(c.pc, 0x202);
    assert_eq!(c.stackpointer, 0);
}

#[test]
fn ret_with_empty_stack_underflows() {
    let mut c = new_chip();
    assert_eq!(step_word(&mut c, 0x00EE), Err(ChipError::StackUnderflow));
}

#[test]
fn call_with_full_stack_overflows() {
    let mut c = new_chip();
    c.stackpointer = 16;
    assert_eq!(step_word(&mut c, 0x2345), Err(ChipError::StackOverflow));
}

#[test]
fn fetch_beyond_memory_is_out_of_bounds() {
    let mut c = new_chip();
    c.set_pc(0x0FFF);
    assert_eq!(c.execute_inst(), Err(ChipError::OutOfBoundsMemoryAccess));
    c.set_pc(0x2000);
    assert_eq!(c.execute_inst(), Err(ChipError::OutOfBoundsMemoryAccess));
}

#[test]
fn memory_accessors_check_bounds() {
    let mut c = new_chip();
    c.set_byte(0x123, 0xAB).unwrap();
    assert_eq!(c.get_addr(0x123).unwrap(), 0xAB);
    assert_eq!(
        c.set_byte(MEMSIZE as u16, 1),
        Err(ChipError::OutOfBoundsMemoryAccess)
    );
    assert_eq!(
        c.get_addr(5000),
        Err(ChipError::OutOfBoundsMemoryAccess)
    );
}

#[test]
fn bcd_near_end_of_memory_is_out_of_bounds() {
    let mut c = new_chip();
    c.registers.i = 0x0FFE;
    assert_eq!(
        step_word(&mut c, 0xF033),
        Err(ChipError::OutOfBoundsMemoryAccess)
    );
}

#[test]
fn bulk_store_near_end_of_memory_is_out_of_bounds() {
    let mut c = new_chip();
    c.registers.i = 0x0FFE;
    assert_eq!(
        step_word(&mut c, 0xF355),
        Err(ChipError::OutOfBoundsMemoryAccess)
    );
    assert_eq!(
        step_word(&mut c, 0xF365),
        Err(ChipError::OutOfBoundsMemoryAccess)
    );
}

#[test]
fn load_prog_copies_image_at_load_offset() {
    let mut c = new_chip();
    c.load_prog(vec![0xDE, 0xAD, 0xBE]).unwrap();
    assert_eq!(c.get_addr(0x200).unwrap(), 0xDE);
    assert_eq!(c.get_addr(0x201).unwrap(), 0xAD);
    assert_eq!(c.get_addr(0x202).unwrap(), 0xBE);
    assert_eq!(c.get_addr(0x203).unwrap(), 0x00);
}

#[test]
fn load_prog_refuses_an_image_that_does_not_fit() {
    let mut c = new_chip();
    let too_long = vec![0u8; MEMSIZE - PROG_POS_START as usize + 1];
    assert_eq!(
        c.load_prog(too_long),
        Err(ChipError::OutOfBoundsMemoryAccess)
    );
    let just_fits = vec![7u8; MEMSIZE - PROG_POS_START as usize];
    c.load_prog(just_fits).unwrap();
    assert_eq!(c.get_addr(0x0FFF).unwrap(), 7);
}

#[test]
fn font_table_is_loaded_and_indexed_by_fx29() {
    let mut c = new_chip();
    assert_eq!(c.get_addr(FONT_POS_START).unwrap(), 0xF0);
    assert_eq!(c.get_addr(FONT_POS_START + 5).unwrap(), 0x20);
    c.registers.set_reg_v(0, 2).unwrap();
    step_word(&mut c, 0xF029).unwrap();
    assert_eq!(c.registers.i, FONT_POS_START + 10);
}

#[test]
fn timer_instructions_get_and_set() {
    let mut c = new_chip();
    c.registers.set_reg_v(1, 33).unwrap();
    step_word(&mut c, 0xF115).unwrap();
    assert_eq!(c.delay_timer, 33);
    step_word(&mut c, 0xF118).unwrap();
    assert_eq!(c.sound_timer, 33);
    step_word(&mut c, 0xF207).unwrap();
    assert_eq!(c.registers.get_reg_v(2).unwrap(), 33);
}

#[test]
fn load_i_and_add_i_with_wraparound() {
    let mut c = new_chip();
    step_word(&mut c, 0xA123).unwrap();
    assert_eq!(c.registers.i, 0x123);
    c.registers.i = 0xFFFF;
    c.registers.set_reg_v(0, 2).unwrap();
    step_word(&mut c, 0xF01E).unwrap();
    assert_eq!(c.registers.i, 1);
}

#[test]
fn rand_with_zero_mask_loads_zero() {
    let mut c = new_chip();
    c.registers.set_reg_v(1, 0xEE).unwrap();
    step_word(&mut c, 0xC100).unwrap();
    assert_eq!(c.registers.get_reg_v(1).unwrap(), 0);
    assert_eq!(c.pc, 0x202);
    step_word(&mut c, 0xC1FF).unwrap();
    assert_eq!(c.pc, 0x202);
}

#[test]
fn sprite_draw_collision_on_second_draw() {
    let mut c = new_chip();
    c.set_byte(0x300, 0xFF).unwrap();
    c.registers.i = 0x300;
    c.registers.set_reg_v(0, 0).unwrap();
    c.registers.set_reg_v(1, 0).unwrap();
    step_word(&mut c, 0xD011).unwrap();
    assert_eq!(c.registers.get_reg_v(0xF).unwrap(), 0);
    assert!(c.interface.pixel_at(0, 0));
    assert!(c.interface.pixel_at(7, 0));
    assert!(!c.interface.pixel_at(8, 0));
    step_word(&mut c, 0xD011).unwrap();
    assert_eq!(c.registers.get_reg_v(0xF).unwrap(), 1);
    assert!(!c.interface.pixel_at(0, 0));
}

#[test]
fn draw_out_of_memory_range_is_refused() {
    let mut c = new_chip();
    c.registers.i = 0x0FFF;
    assert_eq!(
        step_word(&mut c, 0xD012),
        Err(ChipError::OutOfBoundsMemoryAccess)
    );
}

#[test]
fn clear_screen_turns_every_pixel_off() {
    let mut c = new_chip();
    c.set_byte(0x300, 0xFF).unwrap();
    c.registers.i = 0x300;
    step_word(&mut c, 0xD011).unwrap();
    assert!(c.interface.pixel_at(0, 0));
    step_word(&mut c, 0x00E0).unwrap();
    assert!(!c.interface.pixel_at(0, 0));
    assert_eq!(c.pc, 0x202);
}

#[test]
fn skip_key_instructions_follow_key_state() {
    let mut c = new_chip();
    c.registers.set_reg_v(1, 7).unwrap();
    step_word(&mut c, 0xE19E).unwrap();
    assert_eq!(c.pc, 0x202);
    step_word(&mut c, 0xE1A1).unwrap();
    assert_eq!(c.pc, 0x204);
    c.interface.press_key(7);
    step_word(&mut c, 0xE19E).unwrap();
    assert_eq!(c.pc, 0x204);
    step_word(&mut c, 0xE1A1).unwrap();
    assert_eq!(c.pc, 0x202);
}

#[test]
fn wait_key_latches_press_then_release() {
    let mut c = new_chip();
    // No key pressed: the counter does not move.
    step_word(&mut c, 0xF50A).unwrap();
    assert_eq!(c.pc, 0x200);
    assert_eq!(c.key_wait, KeyWait::Idle);
    // A key goes down: it is stored, but the counter still does not move.
    c.interface.press_key(7);
    c.execute_inst().unwrap();
    assert_eq!(c.registers.get_reg_v(5).unwrap(), 7);
    assert_eq!(c.key_wait, KeyWait::AwaitingRelease(7));
    assert_eq!(c.pc, 0x200);
    // Still held: no progress.
    c.execute_inst().unwrap();
    assert_eq!(c.pc, 0x200);
    // Released: the instruction completes and the counter advances.
    c.interface.release_key(7);
    c.execute_inst().unwrap();
    assert_eq!(c.pc, 0x202);
    assert_eq!(c.key_wait, KeyWait::Idle);
}

#[test]
fn sys_word_is_a_no_op_that_advances() {
    let mut c = new_chip();
    step_word(&mut c, 0x0123).unwrap();
    assert_eq!(c.pc, 0x202);
}

#[test]
fn load_and_assign_registers() {
    let mut c = new_chip();
    step_word(&mut c, 0x6A42).unwrap();
    assert_eq!(c.registers.get_reg_v(0xA).unwrap(), 0x42);
    step_word(&mut c, 0x8BA0).unwrap();
    assert_eq!(c.registers.get_reg_v(0xB).unwrap(), 0x42);
}

#[test]
fn run_frame_executes_batch_and_ticks_timers() {
    let mut c = new_chip();
    // Memory holds zero words: ten no-ops per frame.
    c.delay_timer = 5;
    c.sound_timer = 1;
    c.run_frame().unwrap();
    assert_eq!(c.pc, 0x200 + 20);
    assert_eq!(c.delay_timer, 4);
    assert_eq!(c.sound_timer, 0);
    c.run_frame().unwrap();
    assert_eq!(c.sound_timer, 0);
}

#[test]
fn new_machine_is_zeroed_with_the_counter_at_the_load_offset() {
    let c = new_chip();
    assert!(!c.running);
    assert_eq!(c.pc, PROG_POS_START);
    assert_eq!(c.stackpointer, 0);
    assert_eq!(c.registers.i, 0);
    for r in 0..16 {
        assert_eq!(c.registers.get_reg_v(r).unwrap(), 0);
    }
    assert_eq!(c.get_addr(0x000).unwrap(), 0);
    assert_eq!(c.get_addr(0x200).unwrap(), 0);
    assert_eq!(c.get_addr(0x09F).unwrap(), 0x80);
    c.init_interface();
    c.stop_interface();
}

#[test]
fn remaining_frame_time_floors_at_zero() {
    assert_eq!(remaining_frame_time(16, 5), 11);
    assert_eq!(remaining_frame_time(16, 16), 0);
    assert_eq!(remaining_frame_time(16, 40), 0);
    assert_eq!(remaining_frame_time(0, 0), 0);
}

#[test]
fn sprite_rows_hand_out_the_bytes_at_the_base() {
    let mut c = new_chip();
    c.set_byte(0x300, 0xAB).unwrap();
    c.set_byte(0x301, 0xCD).unwrap();
    c.set_byte(0x302, 0xEF).unwrap();
    assert_eq!(c.sprite_rows(0x300, 3), vec![0xAB, 0xCD, 0xEF]);
    assert_eq!(c.sprite_rows(0x300, 0), Vec::<u8>::new());
}

#[test]
fn run_frame_propagates_the_first_error() {
    let mut c = new_chip();
    load_word(&mut c, 0x200, 0x5001);
    c.set_pc(0x200);
    assert_eq!(
        c.run_frame(),
        Err(ChipError::IllegalInstruction(0x5001))
    );
}
