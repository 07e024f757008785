use chip8::cpu::CPU;
use chip8::error::Chip8Error;
use chip8::opcode::Opcode;
use chip8::state::{DISPLAY_SIZE, MAX_PROGRAM_SIZE, PROGRAM_START};

fn run(cpu: &mut CPU, op: Opcode) {
    assert_eq!(cpu.execute_opcode(op), Ok(()));
}

fn loaded(program: &[u8]) -> CPU {
    let mut cpu = CPU::new();
    assert_eq!(cpu.load_to_memory(program), Ok(()));
    cpu
}

#[test]
fn new_machine_is_zeroed() {
    let cpu = CPU::new();
    assert_eq!(cpu.pc(), 0x200);
    assert_eq!(cpu.index_register(), 0);
    assert_eq!(cpu.stack_pointer(), 0);
    assert_eq!(cpu.delay_timer(), 0);
    assert_eq!(cpu.sound_timer(), 0);
    for x in 0..16 {
        assert_eq!(cpu.register(x), 0);
        assert!(!cpu.key(x));
    }
    assert!(cpu.display().iter().all(|&c| !c));
}

#[test]
fn add_ff_plus_one_wraps_and_sets_carry() {
    let mut cpu = CPU::new();
    run(&mut cpu, Opcode::LD_Vx_byte(0, 0xFF));
    run(&mut cpu, Opcode::LD_Vx_byte(1, 0x01));
    run(&mut cpu, Opcode::ADD_Vx_Vy(0, 1));
    assert_eq!(cpu.register(0), 0x00);
    assert_eq!(cpu.register(0xF), 1);
}

#[test]
fn add_without_overflow_clears_carry() {
    let mut cpu = CPU::new();
    run(&mut cpu, Opcode::LD_Vx_byte(0xF, 1));
    run(&mut cpu, Opcode::LD_Vx_byte(0, 0x10));
    run(&mut cpu, Opcode::LD_Vx_byte(1, 0x20));
    run(&mut cpu, Opcode::ADD_Vx_Vy(0, 1));
    assert_eq!(cpu.register(0), 0x30);
    assert_eq!(cpu.register(0xF), 0);
}

#[test]
fn sub_with_borrow_wraps_and_clears_flag() {
    let mut cpu = CPU::new();
    run(&mut cpu, Opcode::LD_Vx_byte(2, 0x05));
    run(&mut cpu, Opcode::LD_Vx_byte(3, 0x0A));
    run(&mut cpu, Opcode::SUB_Vx_Vy(2, 3));
    assert_eq!(cpu.register(2), 0xFB);
    assert_eq!(cpu.register(0xF), 0);
}

#[test]
fn sub_without_borrow_sets_flag() {
    let mut cpu = CPU::new();
    run(&mut cpu, Opcode::LD_Vx_byte(2, 0x0A));
    run(&mut cpu, Opcode::LD_Vx_byte(3, 0x0A));
    run(&mut cpu, Opcode::SUB_Vx_Vy(2, 3));
    assert_eq!(cpu.register(2), 0x00);
    assert_eq!(cpu.register(0xF), 1);
}

#[test]
fn reverse_subtract_uses_swapped_operands() {
    let mut cpu = CPU::new();
    run(&mut cpu, Opcode::LD_Vx_byte(2, 0x05));
    run(&mut cpu, Opcode::LD_Vx_byte(3, 0x0A));
    run(&mut cpu, Opcode::SUBN_Vx_Vy(2, 3));
    assert_eq!(cpu.register(2), 0x05);
    assert_eq!(cpu.register(0xF), 1);
    run(&mut cpu, Opcode::LD_Vx_byte(3, 0x01));
    run(&mut cpu, Opcode::SUBN_Vx_Vy(2, 3));
    assert_eq!(cpu.register(2), 0xFC);
    assert_eq!(cpu.register(0xF), 0);
}

#[test]
fn shifts_put_the_lost_bit_in_the_flag() {
    let mut cpu = CPU::new();
    run(&mut cpu, Opcode::LD_Vx_byte(4, 0b1000_0011));
    run(&mut cpu, Opcode::SHR_Vx(4));
    assert_eq!(cpu.register(4), 0b0100_0001);
    assert_eq!(cpu.register(0xF), 1);
    run(&mut cpu, Opcode::SHL_Vx(4));
    assert_eq!(cpu.register(4), 0b1000_0010);
    assert_eq!(cpu.register(0xF), 0);
    run(&mut cpu, Opcode::SHL_Vx(4));
    assert_eq!(cpu.register(4), 0b0000_0100);
    assert_eq!(cpu.register(0xF), 1);
}

#[test]
fn logic_and_immediate_operations() {
    let mut cpu = CPU::new();
    run(&mut cpu, Opcode::LD_Vx_byte(0, 0b1100));
    run(&mut cpu, Opcode::LD_Vx_byte(1, 0b1010));
    run(&mut cpu, Opcode::OR_Vx_Vy(0, 1));
    assert_eq!(cpu.register(0), 0b1110);
    run(&mut cpu, Opcode::AND_Vx_Vy(0, 1));
    assert_eq!(cpu.register(0), 0b1010);
    run(&mut cpu, Opcode::XOR_Vx_Vy(0, 1));
    assert_eq!(cpu.register(0), 0);
    run(&mut cpu, Opcode::LD_Vx_Vy(0, 1));
    assert_eq!(cpu.register(0), 0b1010);
    run(&mut cpu, Opcode::ADD_Vx_byte(0, 0xFF));
    assert_eq!(cpu.register(0), 0b1001);
    assert_eq!(cpu.register(0xF), 0);
}

#[test]
fn skips_move_the_counter_one_more_instruction() {
    let mut cpu = CPU::new();
    run(&mut cpu, Opcode::LD_Vx_byte(0, 7));
    run(&mut cpu, Opcode::SE_Vx_byte(0, 7));
    assert_eq!(cpu.pc(), 0x202);
    run(&mut cpu, Opcode::SE_Vx_byte(0, 8));
    assert_eq!(cpu.pc(), 0x202);
    run(&mut cpu, Opcode::SNE_Vx_byte(0, 8));
    assert_eq!(cpu.pc(), 0x204);
    run(&mut cpu, Opcode::SE_Vx_Vy(0, 1));
    assert_eq!(cpu.pc(), 0x204);
    run(&mut cpu, Opcode::SNE_Vx_Vy(0, 1));
    assert_eq!(cpu.pc(), 0x206);
}

#[test]
fn clear_display_step_blanks_and_advances_by_two() {
    let mut cpu = loaded(&[0x00, 0xE0]);
    for cell in 0..DISPLAY_SIZE {
        cpu.display[cell] = cell % 3 == 0;
    }
    assert_eq!(cpu.execute_cycle(), Ok(()));
    assert!(cpu.display().iter().all(|&c| !c));
    assert_eq!(cpu.pc(), PROGRAM_START + 2);
}

#[test]
fn draw_twice_erases_and_reports_collision() {
    let mut cpu = CPU::new();
    run(&mut cpu, Opcode::CLS);
    run(&mut cpu, Opcode::LD_Vx_byte(0, 10));
    run(&mut cpu, Opcode::LD_Vx_byte(1, 5));
    run(&mut cpu, Opcode::LD_Vx_byte(2, 0xF0));
    run(&mut cpu, Opcode::LD_Vx_byte(3, 0x90));
    run(&mut cpu, Opcode::LD_I_addr(0x300));
    run(&mut cpu, Opcode::LD_I_Vx(3));
    run(&mut cpu, Opcode::LD_I_addr(0x302));
    run(&mut cpu, Opcode::DRW_Vx_Vy_nibble(0, 1, 2));
    assert_eq!(cpu.register(0xF), 0);
    let on: Vec<usize> = (0..DISPLAY_SIZE).filter(|&c| cpu.display[c]).collect();
    assert_eq!(on, vec![5 * 64 + 10, 5 * 64 + 11, 5 * 64 + 12, 5 * 64 + 13, 6 * 64 + 10, 6 * 64 + 13]);
    run(&mut cpu, Opcode::DRW_Vx_Vy_nibble(0, 1, 2));
    assert_eq!(cpu.register(0xF), 1);
    assert!(cpu.display().iter().all(|&c| !c));
}

#[test]
fn draw_wraps_around_both_edges() {
    let mut cpu = CPU::new();
    run(&mut cpu, Opcode::LD_Vx_byte(0, 0xFF));
    run(&mut cpu, Opcode::LD_I_addr(0x300));
    run(&mut cpu, Opcode::LD_I_Vx(0));
    run(&mut cpu, Opcode::LD_I_Vx(0));
    run(&mut cpu, Opcode::LD_I_addr(0x300));
    run(&mut cpu, Opcode::LD_Vx_byte(1, 62));
    run(&mut cpu, Opcode::LD_Vx_byte(2, 31));
    run(&mut cpu, Opcode::DRW_Vx_Vy_nibble(1, 2, 1));
    let on: Vec<usize> = (0..DISPLAY_SIZE).filter(|&c| cpu.display[c]).collect();
    assert_eq!(
        on,
        vec![31 * 64, 31 * 64 + 1, 31 * 64 + 2, 31 * 64 + 3, 31 * 64 + 4, 31 * 64 + 5, 31 * 64 + 62, 31 * 64 + 63]
    );
    run(&mut cpu, Opcode::LD_Vx_byte(1, 100));
    run(&mut cpu, Opcode::LD_Vx_byte(2, 40));
    run(&mut cpu, Opcode::DRW_Vx_Vy_nibble(1, 2, 1));
    let on: Vec<usize> = (0..DISPLAY_SIZE).filter(|&c| cpu.display[c]).collect();
    assert_eq!(on.len(), 8 + 8);
    assert!(on.contains(&(8 * 64 + 36)) && on.contains(&(8 * 64 + 43)));
    assert_eq!(cpu.register(0xF), 0);
}

#[test]
fn empty_sprite_redraw_reports_no_collision() {
    let mut cpu = CPU::new();
    run(&mut cpu, Opcode::LD_I_addr(0x300));
    run(&mut cpu, Opcode::DRW_Vx_Vy_nibble(0, 1, 3));
    run(&mut cpu, Opcode::DRW_Vx_Vy_nibble(0, 1, 3));
    assert_eq!(cpu.register(0xF), 0);
    assert!(cpu.display().iter().all(|&c| !c));
}

#[test]
fn sixteen_calls_fit_and_the_seventeenth_overflows() {
    let mut cpu = CPU::new();
    for depth in 0..16u8 {
        assert_eq!(cpu.execute_opcode(Opcode::CALL(0x300 + depth as u16 * 2)), Ok(()));
        assert_eq!(cpu.stack_pointer(), depth + 1);
    }
    assert_eq!(cpu.pc(), 0x31E);
    assert_eq!(cpu.execute_opcode(Opcode::CALL(0x400)), Err(Chip8Error::StackOverflow));
    assert_eq!(cpu.stack_pointer(), 16);
    assert_eq!(cpu.pc(), 0x31E);
}

#[test]
fn return_with_empty_stack_underflows() {
    let mut cpu = CPU::new();
    assert_eq!(cpu.execute_opcode(Opcode::RET), Err(Chip8Error::StackUnderflow));
    assert_eq!(cpu.pc(), 0x200);
}

#[test]
fn call_then_return_resumes_after_the_call() {
    let mut cpu = loaded(&[0x23, 0x00]);
    assert_eq!(cpu.execute_cycle(), Ok(()));
    assert_eq!(cpu.pc(), 0x300);
    assert_eq!(cpu.stack_pointer(), 1);
    run(&mut cpu, Opcode::RET);
    assert_eq!(cpu.pc(), 0x202);
    assert_eq!(cpu.stack_pointer(), 0);
}

#[test]
fn decimal_store_of_255_writes_two_five_five() {
    let mut cpu = CPU::new();
    run(&mut cpu, Opcode::LD_Vx_byte(6, 255));
    run(&mut cpu, Opcode::LD_I_addr(0x400));
    run(&mut cpu, Opcode::LD_B_Vx(6));
    assert_eq!(cpu.memory_at(0x400), 2);
    assert_eq!(cpu.memory_at(0x401), 5);
    assert_eq!(cpu.memory_at(0x402), 5);
    assert_eq!(cpu.index_register(), 0x400);
}

#[test]
fn decimal_store_of_small_value() {
    let mut cpu = CPU::new();
    run(&mut cpu, Opcode::LD_Vx_byte(6, 7));
    run(&mut cpu, Opcode::LD_I_addr(0x400));
    run(&mut cpu, Opcode::LD_B_Vx(6));
    assert_eq!([cpu.memory_at(0x400), cpu.memory_at(0x401), cpu.memory_at(0x402)], [0, 0, 7]);
}

#[test]
fn load_of_largest_image_succeeds() {
    let program = vec![0xAB; MAX_PROGRAM_SIZE];
    assert_eq!(MAX_PROGRAM_SIZE, 4096 - 0x200);
    let cpu = loaded(&program);
    assert_eq!(cpu.memory_at(0x1FF), 0);
    assert_eq!(cpu.memory_at(0x200), 0xAB);
    assert_eq!(cpu.memory_at(0xFFF), 0xAB);
}

#[test]
fn load_of_image_one_byte_too_large_fails() {
    let mut cpu = CPU::new();
    let program = vec![0xAB; MAX_PROGRAM_SIZE + 1];
    assert_eq!(cpu.load_to_memory(&program), Err(Chip8Error::ProgramTooLarge(MAX_PROGRAM_SIZE + 1)));
    assert_eq!(cpu.memory_at(0x200), 0);
}

#[test]
fn load_resets_the_machine() {
    let mut cpu = loaded(&[0x61, 0x05, 0x12, 0x00]);
    assert_eq!(cpu.execute_cycle(), Ok(()));
    assert_eq!(cpu.register(1), 5);
    assert_eq!(cpu.load_to_memory(&[0x00, 0xE0]), Ok(()));
    assert_eq!(cpu.register(1), 0);
    assert_eq!(cpu.pc(), 0x200);
    assert_eq!(cpu.memory_at(0x202), 0);
}

#[test]
fn program_runs_step_by_step() {
    // V0 = 2; V1 = 3; V0 += V1; I = 0x300; store V0..V1; jump to self
    let mut cpu = loaded(&[0x60, 0x02, 0x61, 0x03, 0x80, 0x14, 0xA3, 0x00, 0xF1, 0x55, 0x12, 0x0A]);
    for _ in 0..6 {
        assert_eq!(cpu.execute_cycle(), Ok(()));
    }
    assert_eq!(cpu.memory_at(0x300), 5);
    assert_eq!(cpu.memory_at(0x301), 3);
    assert_eq!(cpu.pc(), 0x20A);
    assert_eq!(cpu.index_register(), 0x300);
}

#[test]
fn bulk_transfer_is_inclusive_and_keeps_the_address_register() {
    let mut cpu = CPU::new();
    for x in 0..4u8 {
        run(&mut cpu, Opcode::LD_Vx_byte(x, 10 + x));
    }
    run(&mut cpu, Opcode::LD_I_addr(0x500));
    run(&mut cpu, Opcode::LD_I_Vx(2));
    assert_eq!(cpu.index_register(), 0x500);
    assert_eq!(
        [cpu.memory_at(0x500), cpu.memory_at(0x501), cpu.memory_at(0x502), cpu.memory_at(0x503)],
        [10, 11, 12, 0]
    );
    for x in 0..4u8 {
        run(&mut cpu, Opcode::LD_Vx_byte(x, 0));
    }
    run(&mut cpu, Opcode::LD_Vx_I(1));
    assert_eq!([cpu.register(0), cpu.register(1), cpu.register(2)], [10, 11, 0]);
}

#[test]
fn key_wait_stalls_until_a_key_is_pressed() {
    let mut cpu = loaded(&[0xF3, 0x0A]);
    assert_eq!(cpu.execute_cycle(), Ok(()));
    assert_eq!(cpu.pc(), 0x200);
    assert_eq!(cpu.execute_cycle(), Ok(()));
    assert_eq!(cpu.pc(), 0x200);
    cpu.set_key(9, true);
    cpu.set_key(4, true);
    assert_eq!(cpu.execute_cycle(), Ok(()));
    assert_eq!(cpu.pc(), 0x202);
    assert_eq!(cpu.register(3), 4);
}

#[test]
fn set_key_ignores_out_of_range_index() {
    let mut cpu = CPU::new();
    cpu.set_key(16, true);
    for k in 0..16 {
        assert!(!cpu.key(k));
    }
    cpu.set_key(15, true);
    assert!(cpu.key(15));
    cpu.set_key(15, false);
    assert!(!cpu.key(15));
}

#[test]
fn key_skips_follow_the_keypad() {
    let mut cpu = CPU::new();
    run(&mut cpu, Opcode::LD_Vx_byte(0, 0xA));
    run(&mut cpu, Opcode::SKP_Vx(0));
    assert_eq!(cpu.pc(), 0x200);
    run(&mut cpu, Opcode::SKNP_Vx(0));
    assert_eq!(cpu.pc(), 0x202);
    cpu.set_key(0xA, true);
    run(&mut cpu, Opcode::SKP_Vx(0));
    assert_eq!(cpu.pc(), 0x204);
    run(&mut cpu, Opcode::SKNP_Vx(0));
    assert_eq!(cpu.pc(), 0x204);
}

#[test]
fn timers_are_set_read_and_count_down_to_zero() {
    let mut cpu = CPU::new();
    run(&mut cpu, Opcode::LD_Vx_byte(0, 2));
    run(&mut cpu, Opcode::LD_DT_Vx(0));
    run(&mut cpu, Opcode::LD_Vx_byte(0, 1));
    run(&mut cpu, Opcode::LD_ST_Vx(0));
    assert_eq!((cpu.delay_timer(), cpu.sound_timer()), (2, 1));
    cpu.decrement_timers();
    assert_eq!((cpu.delay_timer(), cpu.sound_timer()), (1, 0));
    cpu.decrement_timers();
    cpu.decrement_timers();
    assert_eq!((cpu.delay_timer(), cpu.sound_timer()), (0, 0));
    run(&mut cpu, Opcode::LD_Vx_DT(5));
    assert_eq!(cpu.register(5), 0);
}

#[test]
fn step_does_not_touch_the_timers() {
    let mut cpu = loaded(&[0x00, 0xE0]);
    run(&mut cpu, Opcode::LD_Vx_byte(0, 9));
    run(&mut cpu, Opcode::LD_DT_Vx(0));
    assert_eq!(cpu.execute_cycle(), Ok(()));
    assert_eq!(cpu.delay_timer(), 9);
}

#[test]
fn address_register_operations() {
    let mut cpu = CPU::new();
    run(&mut cpu, Opcode::LD_Vx_byte(0, 0xC));
    run(&mut cpu, Opcode::LD_F_Vx(0));
    assert_eq!(cpu.index_register(), 60);
    run(&mut cpu, Opcode::LD_I_addr(0xFFF0));
    run(&mut cpu, Opcode::LD_Vx_byte(0, 0x20));
    run(&mut cpu, Opcode::ADD_I_Vx(0));
    assert_eq!(cpu.index_register(), 0x0010);
    assert_eq!(cpu.register(0xF), 0);
}

#[test]
fn jumps_set_the_counter() {
    let mut cpu = CPU::new();
    run(&mut cpu, Opcode::JP(0x345));
    assert_eq!(cpu.pc(), 0x345);
    run(&mut cpu, Opcode::LD_Vx_byte(0, 0x10));
    run(&mut cpu, Opcode::JP_V0_addr(0x300));
    assert_eq!(cpu.pc(), 0x310);
    run(&mut cpu, Opcode::SYS(0x123));
    assert_eq!(cpu.pc(), 0x310);
}

#[test]
fn random_byte_is_masked() {
    let mut cpu = CPU::new();
    for _ in 0..32 {
        run(&mut cpu, Opcode::RND_Vx_byte(2, 0x0F));
        assert!(cpu.register(2) <= 0x0F);
        run(&mut cpu, Opcode::RND_Vx_byte(3, 0x00));
        assert_eq!(cpu.register(3), 0);
    }
    assert_eq!(cpu.rnd_vx_byte_from(4, 0x3C, 0xA5), Ok(()));
    assert_eq!(cpu.register(4), 0x24);
}

#[test]
fn invalid_word_is_a_fault() {
    let mut cpu = loaded(&[0xFF, 0xFF]);
    assert_eq!(cpu.execute_cycle(), Err(Chip8Error::InvalidOpcode(0xFFFF)));
    assert_eq!(cpu.pc(), 0x202);
}

#[test]
fn fetch_past_the_end_is_a_fault() {
    let mut cpu = CPU::new();
    run(&mut cpu, Opcode::JP(0xFFF));
    assert_eq!(cpu.execute_cycle(), Err(Chip8Error::InvalidMemoryAccess(0xFFF)));
    assert_eq!(cpu.pc(), 0xFFF);
}

#[test]
fn out_of_range_addresses_are_faults() {
    let mut cpu = CPU::new();
    run(&mut cpu, Opcode::LD_Vx_byte(0, 0xFF));
    assert_eq!(
        cpu.execute_opcode(Opcode::JP_V0_addr(0xF80)),
        Err(Chip8Error::InvalidMemoryAccess(0xF80 + 0xFF))
    );
    assert_eq!(cpu.execute_opcode(Opcode::JP(0x1000)), Err(Chip8Error::InvalidMemoryAccess(0x1000)));
    assert_eq!(cpu.execute_opcode(Opcode::CALL(0x1000)), Err(Chip8Error::InvalidMemoryAccess(0x1000)));
    run(&mut cpu, Opcode::LD_I_addr(0xFFE));
    assert_eq!(cpu.execute_opcode(Opcode::LD_B_Vx(0)), Err(Chip8Error::InvalidMemoryAccess(0x1000)));
    assert_eq!(cpu.execute_opcode(Opcode::LD_I_Vx(2)), Err(Chip8Error::InvalidMemoryAccess(0x1000)));
    assert_eq!(cpu.execute_opcode(Opcode::LD_Vx_I(3)), Err(Chip8Error::InvalidMemoryAccess(0x1001)));
    assert_eq!(
        cpu.execute_opcode(Opcode::DRW_Vx_Vy_nibble(0, 0, 4)),
        Err(Chip8Error::InvalidMemoryAccess(0x1001))
    );
    assert_eq!(cpu.memory_at(0xFFE), 0);
    assert_eq!(cpu.execute_opcode(Opcode::DRW_Vx_Vy_nibble(0, 0, 2)), Ok(()));
}

#[test]
fn skip_past_the_end_is_a_fault() {
    let mut cpu = CPU::new();
    run(&mut cpu, Opcode::JP(0xFFE));
    assert_eq!(cpu.execute_opcode(Opcode::SE_Vx_byte(0, 0)), Err(Chip8Error::InvalidMemoryAccess(0x1000)));
    assert_eq!(cpu.pc(), 0xFFE);
}

#[test]
fn register_key_and_digit_faults() {
    let mut cpu = CPU::new();
    assert_eq!(cpu.execute_opcode(Opcode::LD_Vx_byte(16, 1)), Err(Chip8Error::InvalidRegister(16)));
    assert_eq!(cpu.execute_opcode(Opcode::ADD_Vx_Vy(1, 20)), Err(Chip8Error::InvalidRegister(20)));
    run(&mut cpu, Opcode::LD_Vx_byte(0, 0x10));
    assert_eq!(cpu.execute_opcode(Opcode::SKP_Vx(0)), Err(Chip8Error::InvalidKey(0x10)));
    assert_eq!(cpu.execute_opcode(Opcode::SKNP_Vx(0)), Err(Chip8Error::InvalidKey(0x10)));
    assert_eq!(cpu.execute_opcode(Opcode::LD_F_Vx(0)), Err(Chip8Error::InvalidFontDigit(0x10)));
    assert_eq!(cpu.index_register(), 0);
}
