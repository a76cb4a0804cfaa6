use chip8::error::VmError;
use chip8::game::{GameState, KeyState};
use chip8::instruction::Instruction;
use chip8::interpreter::{Diagnostic, EngineState, HaltReason, Interpreter, StepOutcome};
use chip8::memory::FONT_BASE;
use chip8::semantics::{DecodeMissPolicy, Outcome};
use chip8::timer::Timers;

fn engine(program: Vec<u16>) -> Interpreter {
    Interpreter::new(program).unwrap()
}

fn run(interp: &mut Interpreter, game: &mut GameState, cycles: usize) {
    for _ in 0..cycles {
        interp.step_with(game, 0);
    }
}

fn reg(interp: &Interpreter, index: u8) -> u8 {
    interp.memory().get_reg(index).unwrap()
}

fn fault(opcode: u16, address: usize, error: VmError) -> Diagnostic {
    Diagnostic { opcode: opcode, address: address, reason: HaltReason::Fault(error) }
}

#[test]
fn a_new_engine_is_running_at_the_program_base() {
    let interp = engine(vec![0x00E0]);
    assert_eq!(interp.state(), EngineState::Running);
    assert!(interp.is_running());
    assert_eq!(interp.memory().get_pc(), 0x200);
    assert_eq!(interp.timers(), Timers { delay: 0, sound: 0 });
    assert_eq!(interp.policy(), DecodeMissPolicy::Skip);
    assert_eq!(interp.last_miss(), None);
    assert_eq!(interp.memory().fetch_instruction(), Ok(0x00E0));
}

#[test]
fn a_program_that_does_not_fit_is_rejected() {
    assert_eq!(Interpreter::new(vec![0u16; 1792]).err(), Some(VmError::OutOfBounds));
    assert!(Interpreter::new(vec![0u16; 1791]).is_ok());
    assert_eq!(
        Interpreter::with_policy(vec![0u16; 2000], DecodeMissPolicy::Halt).err(),
        Some(VmError::OutOfBounds)
    );
}

#[test]
fn a_cycle_reports_the_instruction_it_executed() {
    let mut interp = engine(vec![0x6A12]);
    let mut game = GameState::new();
    assert_eq!(interp.step(&mut game), StepOutcome::Executed(Instruction::SetReg(0xA, 0x12)));
    assert_eq!(reg(&interp, 0xA), 0x12);
    assert_eq!(interp.memory().get_pc(), 0x202);
}

#[test]
fn add_with_carry_sets_the_flag_on_overflow() {
    let mut interp = engine(vec![0x60FF, 0x6101, 0x8014]);
    let mut game = GameState::new();
    run(&mut interp, &mut game, 3);
    assert_eq!(reg(&interp, 0), 0x00);
    assert_eq!(reg(&interp, 0xF), 1);
    assert_eq!(reg(&interp, 1), 0x01);
}

#[test]
fn add_with_carry_clears_the_flag_without_overflow() {
    let mut interp = engine(vec![0x6F01, 0x6001, 0x6101, 0x8014]);
    let mut game = GameState::new();
    run(&mut interp, &mut game, 4);
    assert_eq!(reg(&interp, 0), 0x02);
    assert_eq!(reg(&interp, 0xF), 0);
}

#[test]
fn add_with_carry_holds_for_every_pair_of_registers() {
    for x in 0..15u8 {
        for y in 0..16u8 {
            if x == y {
                continue;
            }
            let mut interp = engine(Vec::new());
            let mut game = GameState::new();
            assert_eq!(
                interp.execute(Instruction::SetReg(x, 0xFF), &mut game, 0),
                Ok(Outcome::Completed)
            );
            assert_eq!(
                interp.execute(Instruction::SetReg(y, 0x01), &mut game, 0),
                Ok(Outcome::Completed)
            );
            assert_eq!(
                interp.execute(Instruction::AddRegWithCarry(x, y), &mut game, 0),
                Ok(Outcome::Completed)
            );
            assert_eq!(reg(&interp, x), 0x00);
            assert_eq!(reg(&interp, 0xF), 1);
        }
    }
    for x in 0..15u8 {
        for y in 0..15u8 {
            let mut interp = engine(Vec::new());
            let mut game = GameState::new();
            interp.execute(Instruction::SetReg(0xF, 1), &mut game, 0).unwrap();
            interp.execute(Instruction::SetReg(x, 0x01), &mut game, 0).unwrap();
            interp.execute(Instruction::SetReg(y, 0x01), &mut game, 0).unwrap();
            interp.execute(Instruction::AddRegWithCarry(x, y), &mut game, 0).unwrap();
            assert_eq!(reg(&interp, x), 0x02);
            assert_eq!(reg(&interp, 0xF), 0);
        }
    }
}

#[test]
fn a_sum_stored_in_the_flag_register_replaces_the_flag() {
    let mut interp = engine(vec![0x6FF0, 0x6120, 0x8F14]);
    let mut game = GameState::new();
    run(&mut interp, &mut game, 3);
    assert_eq!(reg(&interp, 0xF), 0x10);
}

#[test]
fn subtract_with_borrow_wraps_and_clears_the_flag() {
    let mut interp = engine(vec![0x6005, 0x610A, 0x8015]);
    let mut game = GameState::new();
    run(&mut interp, &mut game, 3);
    assert_eq!(reg(&interp, 0), 0xFB);
    assert_eq!(reg(&interp, 0xF), 0);
}

#[test]
fn subtract_without_borrow_sets_the_flag() {
    let mut interp = engine(vec![0x600A, 0x6105, 0x8015]);
    let mut game = GameState::new();
    run(&mut interp, &mut game, 3);
    assert_eq!(reg(&interp, 0), 0x05);
    assert_eq!(reg(&interp, 0xF), 1);
}

#[test]
fn subtracting_equal_values_borrows_nothing() {
    let mut interp = engine(vec![0x6007, 0x6107, 0x8015]);
    let mut game = GameState::new();
    run(&mut interp, &mut game, 3);
    assert_eq!(reg(&interp, 0), 0x00);
    assert_eq!(reg(&interp, 0xF), 1);
}

#[test]
fn reversed_subtract_exchanges_the_operands() {
    let mut interp = engine(vec![0x6005, 0x610A, 0x8017, 0x620A, 0x6305, 0x8237]);
    let mut game = GameState::new();
    run(&mut interp, &mut game, 3);
    assert_eq!(reg(&interp, 0), 0x05);
    assert_eq!(reg(&interp, 0xF), 1);
    run(&mut interp, &mut game, 3);
    assert_eq!(reg(&interp, 2), 0xFB);
    assert_eq!(reg(&interp, 0xF), 0);
}

#[test]
fn shift_right_moves_the_lowest_bit_to_the_flag() {
    let mut interp = engine(vec![0x6003, 0x8006, 0x6104, 0x8116]);
    let mut game = GameState::new();
    run(&mut interp, &mut game, 2);
    assert_eq!(reg(&interp, 0), 0x01);
    assert_eq!(reg(&interp, 0xF), 1);
    run(&mut interp, &mut game, 2);
    assert_eq!(reg(&interp, 1), 0x02);
    assert_eq!(reg(&interp, 0xF), 0);
}

#[test]
fn shift_left_moves_the_highest_bit_to_the_flag_and_advances() {
    let mut interp = engine(vec![0x6081, 0x800E, 0x6141, 0x811E]);
    let mut game = GameState::new();
    run(&mut interp, &mut game, 2);
    assert_eq!(reg(&interp, 0), 0x02);
    assert_eq!(reg(&interp, 0xF), 1);
    assert_eq!(interp.memory().get_pc(), 0x204);
    run(&mut interp, &mut game, 2);
    assert_eq!(reg(&interp, 1), 0x82);
    assert_eq!(reg(&interp, 0xF), 0);
}

#[test]
fn add_immediate_wraps_and_leaves_the_flag() {
    let mut interp = engine(vec![0x6F07, 0x60FE, 0x7005]);
    let mut game = GameState::new();
    run(&mut interp, &mut game, 3);
    assert_eq!(reg(&interp, 0), 0x03);
    assert_eq!(reg(&interp, 0xF), 0x07);
}

#[test]
fn moves_and_bitwise_operations() {
    let mut interp = engine(vec![0x60CC, 0x61AA, 0x8210, 0x8201, 0x8310, 0x8302, 0x8410, 0x8403]);
    let mut game = GameState::new();
    run(&mut interp, &mut game, 8);
    assert_eq!(reg(&interp, 2), 0xAA | 0xCC);
    assert_eq!(reg(&interp, 3), 0xAA & 0xCC);
    assert_eq!(reg(&interp, 4), 0xAA ^ 0xCC);
    assert_eq!(reg(&interp, 0), 0xCC);
    assert_eq!(reg(&interp, 1), 0xAA);
}

#[test]
fn a_jump_sets_the_program_counter() {
    let mut interp = engine(vec![0x1ABC]);
    let mut game = GameState::new();
    assert_eq!(interp.step(&mut game), StepOutcome::Executed(Instruction::JumpToLoc(0xABC)));
    assert_eq!(interp.memory().get_pc(), 0xABC);
}

#[test]
fn a_relative_jump_adds_register_zero() {
    let mut interp = engine(vec![0x6010, 0xB300]);
    let mut game = GameState::new();
    run(&mut interp, &mut game, 2);
    assert_eq!(interp.memory().get_pc(), 0x310);
}

#[test]
fn a_jump_to_an_odd_or_low_address_halts_with_out_of_bounds() {
    let mut interp = engine(vec![0x1201]);
    let mut game = GameState::new();
    let expected = fault(0x1201, 0x200, VmError::OutOfBounds);
    assert_eq!(interp.step(&mut game), StepOutcome::Halted(expected));
    assert_eq!(interp.state(), EngineState::Halted(expected));
    assert_eq!(interp.memory().get_pc(), 0x200);
    let mut low = engine(vec![0x1100]);
    assert_eq!(
        low.step(&mut game),
        StepOutcome::Halted(fault(0x1100, 0x200, VmError::OutOfBounds))
    );
}

#[test]
fn skips_advance_by_two_instructions_when_the_condition_holds() {
    let mut game = GameState::new();
    let mut interp = engine(vec![0x6042, 0x3042]);
    run(&mut interp, &mut game, 2);
    assert_eq!(interp.memory().get_pc(), 0x206);
    let mut interp = engine(vec![0x6042, 0x3043]);
    run(&mut interp, &mut game, 2);
    assert_eq!(interp.memory().get_pc(), 0x204);
    let mut interp = engine(vec![0x6042, 0x4043]);
    run(&mut interp, &mut game, 2);
    assert_eq!(interp.memory().get_pc(), 0x206);
    let mut interp = engine(vec![0x6042, 0x4042]);
    run(&mut interp, &mut game, 2);
    assert_eq!(interp.memory().get_pc(), 0x204);
    let mut interp = engine(vec![0x6042, 0x6142, 0x5010]);
    run(&mut interp, &mut game, 3);
    assert_eq!(interp.memory().get_pc(), 0x208);
    let mut interp = engine(vec![0x6042, 0x6142, 0x9010]);
    run(&mut interp, &mut game, 3);
    assert_eq!(interp.memory().get_pc(), 0x206);
    let mut interp = engine(vec![0x6042, 0x6143, 0x9010]);
    run(&mut interp, &mut game, 3);
    assert_eq!(interp.memory().get_pc(), 0x208);
}

#[test]
fn a_call_pushes_the_next_address_and_a_return_goes_back_to_it() {
    let mut interp = engine(vec![0x2300]);
    let mut game = GameState::new();
    assert_eq!(interp.step(&mut game), StepOutcome::Executed(Instruction::CallSubroutine(0x300)));
    assert_eq!(interp.memory().get_pc(), 0x300);
    assert_eq!(interp.memory().peek_stack(), Ok(0x202));
    assert_eq!(
        interp.execute(Instruction::ReturnFromSubroutine, &mut game, 0),
        Ok(Outcome::Completed)
    );
    assert_eq!(interp.memory().get_pc(), 0x202);
    assert_eq!(interp.memory().stack_depth(), 0);
}

#[test]
fn sixteen_nested_calls_unwind_in_reverse_order() {
    let mut interp = engine(Vec::new());
    let mut game = GameState::new();
    let mut call_sites: Vec<usize> = Vec::new();
    for depth in 0..16u16 {
        call_sites.push(interp.memory().get_pc());
        let target = 0x300 + 0x20 * depth;
        assert_eq!(
            interp.execute(Instruction::CallSubroutine(target), &mut game, 0),
            Ok(Outcome::Completed)
        );
        assert_eq!(interp.memory().get_pc(), target as usize);
        assert_eq!(interp.memory().stack_depth(), depth as usize + 1);
    }
    for depth in (0..16usize).rev() {
        assert_eq!(
            interp.execute(Instruction::ReturnFromSubroutine, &mut game, 0),
            Ok(Outcome::Completed)
        );
        assert_eq!(interp.memory().get_pc(), call_sites[depth] + 2);
        assert_eq!(interp.memory().stack_depth(), depth);
    }
    assert_eq!(interp.memory().get_pc(), 0x202);
}

#[test]
fn the_seventeenth_nested_call_overflows_the_stack() {
    let mut interp = engine(Vec::new());
    let mut game = GameState::new();
    for depth in 0..16u16 {
        interp.execute(Instruction::CallSubroutine(0x300 + 2 * depth), &mut game, 0).unwrap();
    }
    let pc = interp.memory().get_pc();
    assert_eq!(
        interp.execute(Instruction::CallSubroutine(0x400), &mut game, 0),
        Err(VmError::StackOverflow)
    );
    assert_eq!(interp.memory().get_pc(), pc);
    assert_eq!(interp.memory().stack_depth(), 16);
    assert!(interp.is_running());
}

#[test]
fn a_call_loop_halts_the_engine_with_stack_overflow() {
    let mut interp = engine(vec![0x2200]);
    let mut game = GameState::new();
    run(&mut interp, &mut game, 16);
    assert!(interp.is_running());
    let expected = fault(0x2200, 0x200, VmError::StackOverflow);
    assert_eq!(interp.step(&mut game), StepOutcome::Halted(expected));
    assert_eq!(interp.state(), EngineState::Halted(expected));
}

#[test]
fn a_return_with_no_call_halts_with_stack_underflow() {
    let mut interp = engine(vec![0x00EE]);
    let mut game = GameState::new();
    let expected = fault(0x00EE, 0x200, VmError::StackUnderflow);
    assert_eq!(interp.step(&mut game), StepOutcome::Halted(expected));
    assert_eq!(interp.state(), EngineState::Halted(expected));
    assert!(!interp.is_running());
    assert_eq!(interp.memory().get_pc(), 0x200);
}

#[test]
fn a_halted_engine_stays_halted() {
    let mut interp = engine(vec![0x00EE, 0x6001]);
    let mut game = GameState::new();
    let expected = fault(0x00EE, 0x200, VmError::StackUnderflow);
    interp.step(&mut game);
    for _ in 0..5 {
        assert_eq!(interp.step(&mut game), StepOutcome::Halted(expected));
    }
    interp.request_stop();
    interp.tick_timers(3);
    assert_eq!(interp.state(), EngineState::Halted(expected));
    assert_eq!(interp.memory().get_pc(), 0x200);
    assert_eq!(reg(&interp, 0), 0);
}

#[test]
fn a_stop_request_halts_a_running_engine() {
    let mut interp = engine(vec![0x6001, 0x6102]);
    let mut game = GameState::new();
    interp.step(&mut game);
    interp.request_stop();
    let expected =
        Diagnostic { opcode: 0x6102, address: 0x202, reason: HaltReason::StopRequested };
    assert_eq!(interp.state(), EngineState::Halted(expected));
    assert_eq!(interp.step(&mut game), StepOutcome::Halted(expected));
    assert_eq!(reg(&interp, 1), 0);
}

#[test]
fn an_invalid_opcode_is_skipped_and_recorded_by_default() {
    let mut interp = engine(vec![0x0123, 0x6005]);
    let mut game = GameState::new();
    let miss = fault(0x0123, 0x200, VmError::DecodeMiss);
    assert_eq!(interp.step(&mut game), StepOutcome::Skipped(miss));
    assert_eq!(interp.last_miss(), Some(miss));
    assert!(interp.is_running());
    assert_eq!(interp.memory().get_pc(), 0x202);
    assert_eq!(interp.step(&mut game), StepOutcome::Executed(Instruction::SetReg(0, 5)));
    assert_eq!(interp.last_miss(), Some(miss));
}

#[test]
fn an_invalid_opcode_halts_under_the_fatal_policy() {
    let program = vec![0x0123, 0x6005];
    let mut interp = Interpreter::with_policy(program, DecodeMissPolicy::Halt).unwrap();
    let mut game = GameState::new();
    assert_eq!(interp.policy(), DecodeMissPolicy::Halt);
    let expected = fault(0x0123, 0x200, VmError::DecodeMiss);
    assert_eq!(interp.step(&mut game), StepOutcome::Halted(expected));
    assert_eq!(interp.state(), EngineState::Halted(expected));
    assert_eq!(interp.last_miss(), None);
    assert_eq!(interp.memory().get_pc(), 0x200);
}

#[test]
fn running_into_empty_memory_skips_under_the_default_policy() {
    let mut interp = engine(vec![0x6001]);
    let mut game = GameState::new();
    interp.step(&mut game);
    assert_eq!(
        interp.step(&mut game),
        StepOutcome::Skipped(fault(0x0000, 0x202, VmError::DecodeMiss))
    );
}

#[test]
fn the_engine_halts_at_the_end_of_ram() {
    let mut interp = engine(vec![0x1FFC]);
    let mut game = GameState::new();
    interp.step(&mut game);
    assert_eq!(
        interp.step(&mut game),
        StepOutcome::Skipped(fault(0x0000, 0xFFC, VmError::DecodeMiss))
    );
    assert_eq!(interp.memory().get_pc(), 0xFFE);
    let expected = fault(0x0000, 0xFFE, VmError::OutOfBounds);
    assert_eq!(interp.step(&mut game), StepOutcome::Halted(expected));
    assert_eq!(interp.state(), EngineState::Halted(expected));
}

#[test]
fn a_register_index_past_the_file_is_out_of_bounds() {
    let mut interp = engine(Vec::new());
    let mut game = GameState::new();
    assert_eq!(interp.execute(Instruction::SetReg(16, 1), &mut game, 0), Err(VmError::OutOfBounds));
    assert_eq!(
        interp.execute(Instruction::AddRegWithCarry(0, 16), &mut game, 0),
        Err(VmError::OutOfBounds)
    );
    assert_eq!(
        interp.execute(Instruction::BlockOnKeypress(200), &mut game, 0),
        Err(VmError::OutOfBounds)
    );
    assert_eq!(interp.memory().get_pc(), 0x200);
    assert!(interp.is_running());
}

#[test]
fn a_fault_leaves_no_trace_of_the_instruction() {
    let mut interp = engine(vec![0x6003, 0x1FFC]);
    let mut game = GameState::new();
    run(&mut interp, &mut game, 2);
    assert_eq!(interp.memory().get_pc(), 0xFFC);
    // A taken skip would leave the valid range: nothing may change.
    assert_eq!(interp.execute(Instruction::SkipEq(0, 3), &mut game, 0), Err(VmError::OutOfBounds));
    assert_eq!(interp.memory().get_pc(), 0xFFC);
    interp.execute(Instruction::SetI(0xFFD), &mut game, 0).unwrap();
    assert_eq!(interp.memory().get_pc(), 0xFFE);
    // At the last valid counter no instruction can advance.
    assert_eq!(interp.execute(Instruction::SetReg(0, 9), &mut game, 0), Err(VmError::OutOfBounds));
    assert_eq!(reg(&interp, 0), 3);
    assert_eq!(
        interp.execute(Instruction::AddRegWithCarry(0, 0), &mut game, 0),
        Err(VmError::OutOfBounds)
    );
    assert_eq!(reg(&interp, 0), 3);
    assert_eq!(reg(&interp, 0xF), 0);
    assert_eq!(interp.execute(Instruction::ToDecimal(0), &mut game, 0), Err(VmError::OutOfBounds));
    assert_eq!(interp.memory().get(0xFFD), Ok(0));
    assert_eq!(
        interp.execute(Instruction::DrawSprite(0, 0, 1), &mut game, 0),
        Err(VmError::OutOfBounds)
    );
    assert_eq!(interp.execute(Instruction::ClearDisplay, &mut game, 0), Err(VmError::OutOfBounds));
    assert_eq!(
        interp.execute(Instruction::CallSubroutine(0x300), &mut game, 0),
        Err(VmError::OutOfBounds)
    );
    assert_eq!(interp.memory().stack_depth(), 0);
    assert_eq!(
        interp.execute(Instruction::InvalidInstruction(0xFFFF), &mut game, 0),
        Err(VmError::OutOfBounds)
    );
    assert_eq!(interp.last_miss(), None);
}

#[test]
fn the_address_register_is_set_and_added_to() {
    let mut interp = engine(vec![0xA123, 0x60FF, 0xF01E]);
    let mut game = GameState::new();
    run(&mut interp, &mut game, 3);
    assert_eq!(interp.memory().get_ireg(), 0x222);
    assert_eq!(reg(&interp, 0xF), 0);
}

#[test]
fn adding_to_the_address_register_wraps_at_sixteen_bits() {
    let mut interp = engine(Vec::new());
    let mut game = GameState::new();
    interp.execute(Instruction::SetI(0xFFFF), &mut game, 0).unwrap();
    interp.execute(Instruction::SetReg(3, 2), &mut game, 0).unwrap();
    interp.execute(Instruction::AddI(3), &mut game, 0).unwrap();
    assert_eq!(interp.memory().get_ireg(), 0x0001);
}

#[test]
fn the_decimal_digits_go_to_memory_and_not_to_the_address_register() {
    let mut interp = engine(vec![0xA300, 0x60EA, 0xF033]);
    let mut game = GameState::new();
    run(&mut interp, &mut game, 3);
    assert_eq!(interp.memory().get(0x300), Ok(2));
    assert_eq!(interp.memory().get(0x301), Ok(3));
    assert_eq!(interp.memory().get(0x302), Ok(4));
    assert_eq!(interp.memory().get_ireg(), 0x300);
    assert_eq!(interp.memory().get_pc(), 0x206);
}

#[test]
fn decimal_digits_of_small_and_large_values() {
    let mut interp = engine(Vec::new());
    let mut game = GameState::new();
    interp.execute(Instruction::SetI(0x400), &mut game, 0).unwrap();
    interp.execute(Instruction::SetReg(1, 7), &mut game, 0).unwrap();
    interp.execute(Instruction::ToDecimal(1), &mut game, 0).unwrap();
    assert_eq!(interp.memory().get(0x400), Ok(0));
    assert_eq!(interp.memory().get(0x401), Ok(0));
    assert_eq!(interp.memory().get(0x402), Ok(7));
    interp.execute(Instruction::SetReg(1, 255), &mut game, 0).unwrap();
    interp.execute(Instruction::ToDecimal(1), &mut game, 0).unwrap();
    assert_eq!(interp.memory().get(0x400), Ok(2));
    assert_eq!(interp.memory().get(0x401), Ok(5));
    assert_eq!(interp.memory().get(0x402), Ok(5));
}

#[test]
fn decimal_conversion_past_the_end_of_ram_is_out_of_bounds() {
    let mut interp = engine(Vec::new());
    let mut game = GameState::new();
    interp.execute(Instruction::SetI(0xFFD), &mut game, 0).unwrap();
    assert_eq!(interp.execute(Instruction::ToDecimal(0), &mut game, 0), Err(VmError::OutOfBounds));
    interp.execute(Instruction::SetI(0xFFC), &mut game, 0).unwrap();
    assert_eq!(interp.execute(Instruction::ToDecimal(0), &mut game, 0), Ok(Outcome::Completed));
}

#[test]
fn the_font_address_of_each_digit_is_loaded() {
    let mut interp = engine(Vec::new());
    let mut game = GameState::new();
    for digit in 0..16u8 {
        interp.execute(Instruction::SetReg(2, digit), &mut game, 0).unwrap();
        interp.execute(Instruction::LoadSprite(2), &mut game, 0).unwrap();
        assert_eq!(interp.memory().get_ireg() as usize, FONT_BASE + 5 * digit as usize);
    }
    interp.execute(Instruction::SetReg(2, 0x3A), &mut game, 0).unwrap();
    interp.execute(Instruction::LoadSprite(2), &mut game, 0).unwrap();
    assert_eq!(interp.memory().get_ireg() as usize, FONT_BASE + 5 * 0xA);
}

#[test]
fn a_font_glyph_can_be_drawn() {
    let mut interp = engine(vec![0x6001, 0xF029, 0x6105, 0x6206, 0xD125]);
    let mut game = GameState::new();
    run(&mut interp, &mut game, 5);
    // The glyph for 1: 0x20, 0x60, 0x20, 0x20, 0x70.
    let rows: [u8; 5] = [0x20, 0x60, 0x20, 0x20, 0x70];
    for (dy, row) in rows.iter().enumerate() {
        for dx in 0..8usize {
            assert_eq!(game.get_pixel(5 + dx, 6 + dy), row & (0x80 >> dx) != 0);
        }
    }
    assert_eq!(reg(&interp, 0xF), 0);
}

#[test]
fn registers_are_copied_into_memory() {
    let mut interp = engine(vec![0x6011, 0x6122, 0x6233, 0x6344, 0xA300, 0xF255]);
    let mut game = GameState::new();
    run(&mut interp, &mut game, 6);
    assert_eq!(interp.memory().get(0x300), Ok(0x11));
    assert_eq!(interp.memory().get(0x301), Ok(0x22));
    assert_eq!(interp.memory().get(0x302), Ok(0x33));
    assert_eq!(interp.memory().get(0x303), Ok(0x00));
    assert_eq!(interp.memory().get_ireg(), 0x300);
    assert_eq!(interp.memory().get_pc(), 0x20C);
}

#[test]
fn registers_are_copied_from_memory() {
    let mut interp = engine(vec![0x6799, 0xA200, 0xF365]);
    let mut game = GameState::new();
    run(&mut interp, &mut game, 3);
    assert_eq!(reg(&interp, 0), 0x67);
    assert_eq!(reg(&interp, 1), 0x99);
    assert_eq!(reg(&interp, 2), 0xA2);
    assert_eq!(reg(&interp, 3), 0x00);
    assert_eq!(reg(&interp, 4), 0x00);
    assert_eq!(reg(&interp, 7), 0x99);
    assert_eq!(interp.memory().get_ireg(), 0x200);
}

#[test]
fn all_sixteen_registers_make_the_round_trip() {
    let mut interp = engine(Vec::new());
    let mut game = GameState::new();
    for r in 0..16u8 {
        interp.execute(Instruction::SetReg(r, 0xA0 + r), &mut game, 0).unwrap();
    }
    interp.execute(Instruction::SetI(0x500), &mut game, 0).unwrap();
    interp.execute(Instruction::CopyRegsIntoMemory(0xF), &mut game, 0).unwrap();
    for r in 0..16u8 {
        interp.execute(Instruction::SetReg(r, 0), &mut game, 0).unwrap();
    }
    interp.execute(Instruction::CopyRegsFromMemory(0xF), &mut game, 0).unwrap();
    for r in 0..16u8 {
        assert_eq!(reg(&interp, r), 0xA0 + r);
        assert_eq!(interp.memory().get(0x500 + r as usize), Ok(0xA0 + r));
    }
}

#[test]
fn a_register_transfer_past_the_end_of_ram_is_out_of_bounds() {
    let mut interp = engine(Vec::new());
    let mut game = GameState::new();
    interp.execute(Instruction::SetReg(0, 0x77), &mut game, 0).unwrap();
    interp.execute(Instruction::SetI(0xFFE), &mut game, 0).unwrap();
    assert_eq!(
        interp.execute(Instruction::CopyRegsIntoMemory(1), &mut game, 0),
        Err(VmError::OutOfBounds)
    );
    assert_eq!(interp.memory().get(0xFFE), Ok(0));
    assert_eq!(
        interp.execute(Instruction::CopyRegsFromMemory(1), &mut game, 0),
        Err(VmError::OutOfBounds)
    );
    assert_eq!(
        interp.execute(Instruction::CopyRegsIntoMemory(0), &mut game, 0),
        Ok(Outcome::Completed)
    );
    assert_eq!(interp.memory().get(0xFFE), Ok(0x77));
}

#[test]
fn a_sprite_is_xored_onto_the_framebuffer_and_sets_the_collision_flag() {
    let mut interp = engine(vec![0xA20A, 0x6003, 0x6104, 0xD012, 0xD012, 0xF0A5]);
    let mut game = GameState::new();
    run(&mut interp, &mut game, 4);
    // The sprite is the two bytes at 0x20A: 0xF0, 0xA5.
    for dx in 0..8usize {
        assert_eq!(game.get_pixel(3 + dx, 4), 0xF0u8 & (0x80 >> dx) != 0);
        assert_eq!(game.get_pixel(3 + dx, 5), 0xA5u8 & (0x80 >> dx) != 0);
    }
    assert_eq!(reg(&interp, 0xF), 0);
    assert_eq!(interp.memory().get_pc(), 0x208);
    interp.step(&mut game);
    for x in 0..80 {
        for y in 0..64 {
            assert!(!game.get_pixel(x, y));
        }
    }
    assert_eq!(reg(&interp, 0xF), 1);
}

#[test]
fn a_sprite_that_reaches_past_the_end_of_ram_is_out_of_bounds() {
    let mut interp = engine(Vec::new());
    let mut game = GameState::new();
    interp.execute(Instruction::SetI(0xFFE), &mut game, 0).unwrap();
    assert_eq!(
        interp.execute(Instruction::DrawSprite(0, 0, 2), &mut game, 0),
        Err(VmError::OutOfBounds)
    );
    assert_eq!(
        interp.execute(Instruction::DrawSprite(0, 0, 1), &mut game, 0),
        Ok(Outcome::Completed)
    );
}

#[test]
fn a_sprite_of_no_rows_reads_nothing_and_draws_nothing() {
    let mut interp = engine(Vec::new());
    let mut game = GameState::new();
    game.set_pixel(0, 0, true);
    interp.execute(Instruction::SetReg(0xF, 1), &mut game, 0).unwrap();
    interp.execute(Instruction::SetI(0xFFFF), &mut game, 0).unwrap();
    assert_eq!(
        interp.execute(Instruction::DrawSprite(0, 0, 0), &mut game, 0),
        Ok(Outcome::Completed)
    );
    assert!(game.get_pixel(0, 0));
    assert_eq!(reg(&interp, 0xF), 0);
    assert_eq!(interp.memory().get_pc(), 0x206);
}

#[test]
fn clear_display_darkens_the_framebuffer() {
    let mut interp = engine(vec![0x00E0]);
    let mut game = GameState::new();
    game.set_pixel(10, 10, true);
    game.set_key_state(3, KeyState::Pressed);
    assert_eq!(interp.step(&mut game), StepOutcome::Executed(Instruction::ClearDisplay));
    assert!(!game.get_pixel(10, 10));
    assert_eq!(game.get_key_state(3), KeyState::Pressed);
    assert_eq!(interp.memory().get_pc(), 0x202);
}

#[test]
fn key_skips_look_at_the_low_nibble_of_the_register() {
    let mut game = GameState::new();
    game.set_key_state(0x5, KeyState::Pressed);
    let mut interp = engine(vec![0x6035, 0xE09E]);
    run(&mut interp, &mut game, 2);
    assert_eq!(interp.memory().get_pc(), 0x206);
    let mut interp = engine(vec![0x6035, 0xE0A1]);
    run(&mut interp, &mut game, 2);
    assert_eq!(interp.memory().get_pc(), 0x204);
    let mut interp = engine(vec![0x6006, 0xE09E]);
    run(&mut interp, &mut game, 2);
    assert_eq!(interp.memory().get_pc(), 0x204);
    let mut interp = engine(vec![0x6006, 0xE0A1]);
    run(&mut interp, &mut game, 2);
    assert_eq!(interp.memory().get_pc(), 0x206);
}

#[test]
fn waiting_for_a_key_returns_at_once_when_one_is_pressed() {
    let mut interp = engine(vec![0xF30A, 0x6001]);
    let mut game = GameState::new();
    game.set_key_state(0xB, KeyState::Pressed);
    assert_eq!(interp.step(&mut game), StepOutcome::Executed(Instruction::BlockOnKeypress(3)));
    assert_eq!(reg(&interp, 3), 0xB);
    assert_eq!(interp.memory().get_pc(), 0x202);
}

#[test]
fn waiting_for_a_key_stays_pending_until_a_key_is_pressed() {
    let mut interp = engine(vec![0x6377, 0xF30A, 0x6001]);
    let mut game = GameState::new();
    interp.step(&mut game);
    for _ in 0..25 {
        assert_eq!(interp.step(&mut game), StepOutcome::AwaitingKey);
        assert_eq!(interp.memory().get_pc(), 0x202);
        assert_eq!(reg(&interp, 3), 0x77);
        assert!(interp.is_running());
    }
    game.update_keys(&vec![0x4]);
    assert_eq!(interp.step(&mut game), StepOutcome::Executed(Instruction::BlockOnKeypress(3)));
    assert_eq!(reg(&interp, 3), 0x4);
    assert_eq!(interp.memory().get_pc(), 0x204);
    assert_eq!(interp.step(&mut game), StepOutcome::Executed(Instruction::SetReg(0, 1)));
}

#[test]
fn waiting_for_a_key_takes_the_highest_of_several() {
    let mut interp = engine(Vec::new());
    let mut game = GameState::new();
    game.update_keys(&vec![0x1, 0x9, 0x3]);
    assert_eq!(
        interp.execute(Instruction::BlockOnKeypress(0), &mut game, 0),
        Ok(Outcome::Completed)
    );
    assert_eq!(reg(&interp, 0), 0x9);
}

#[test]
fn a_pending_wait_can_be_stopped() {
    let mut interp = engine(vec![0xF00A]);
    let mut game = GameState::new();
    assert_eq!(interp.step(&mut game), StepOutcome::AwaitingKey);
    interp.request_stop();
    let expected =
        Diagnostic { opcode: 0xF00A, address: 0x200, reason: HaltReason::StopRequested };
    game.set_key_state(1, KeyState::Pressed);
    assert_eq!(interp.step(&mut game), StepOutcome::Halted(expected));
    assert_eq!(reg(&interp, 0), 0);
}

#[test]
fn the_delay_timer_is_set_read_and_ticked() {
    let mut interp = engine(vec![0x600A, 0xF015, 0xF107, 0xF207]);
    let mut game = GameState::new();
    run(&mut interp, &mut game, 3);
    assert_eq!(interp.timers(), Timers { delay: 10, sound: 0 });
    assert_eq!(reg(&interp, 1), 10);
    let mut last = 10;
    for tick in 1..=10u8 {
        interp.tick_timers(1);
        let now = interp.timers().get_dt_reg();
        assert!(now <= last);
        assert_eq!(now, 10 - tick);
        last = now;
    }
    interp.tick_timers(1);
    assert_eq!(interp.timers().get_dt_reg(), 0);
    interp.step(&mut game);
    assert_eq!(reg(&interp, 2), 0);
}

#[test]
fn the_sound_timer_is_set_from_a_register() {
    let mut interp = engine(vec![0x6C05, 0xFC18]);
    let mut game = GameState::new();
    run(&mut interp, &mut game, 2);
    assert_eq!(interp.timers(), Timers { delay: 0, sound: 5 });
    interp.tick_timers(2);
    assert_eq!(interp.timers(), Timers { delay: 0, sound: 3 });
    interp.tick_timers(1000);
    assert_eq!(interp.timers(), Timers { delay: 0, sound: 0 });
}

#[test]
fn a_random_byte_is_masked_by_the_operand() {
    let mut interp = engine(Vec::new());
    let mut game = GameState::new();
    interp.execute(Instruction::Random(4, 0x0F), &mut game, 0xA7).unwrap();
    assert_eq!(reg(&interp, 4), 0x07);
    interp.execute(Instruction::Random(4, 0xF0), &mut game, 0xA7).unwrap();
    assert_eq!(reg(&interp, 4), 0xA0);
    interp.execute(Instruction::Random(4, 0x00), &mut game, 0xFF).unwrap();
    assert_eq!(reg(&interp, 4), 0x00);
    interp.execute(Instruction::Random(4, 0xFF), &mut game, 0x5C).unwrap();
    assert_eq!(reg(&interp, 4), 0x5C);
}

#[test]
fn step_with_uses_the_byte_it_is_given() {
    let mut interp = engine(vec![0xC0FF, 0xC13C]);
    let mut game = GameState::new();
    interp.step_with(&mut game, 0x99);
    interp.step_with(&mut game, 0xFF);
    assert_eq!(reg(&interp, 0), 0x99);
    assert_eq!(reg(&interp, 1), 0x3C);
}

#[test]
fn random_bytes_stay_under_the_mask_and_vary() {
    let mut program = Vec::new();
    for _ in 0..400 {
        program.push(0xC00F);
        program.push(0xC1FF);
    }
    let mut interp = engine(program);
    let mut game = GameState::new();
    let mut seen = [false; 256];
    for _ in 0..400 {
        assert_eq!(interp.step(&mut game), StepOutcome::Executed(Instruction::Random(0, 0x0F)));
        assert!(reg(&interp, 0) <= 0x0F);
        interp.step(&mut game);
        seen[reg(&interp, 1) as usize] = true;
    }
    let distinct = seen.iter().filter(|hit| **hit).count();
    assert!(distinct > 32);
}

#[test]
fn a_listing_shows_addresses_and_instructions_without_running_them() {
    let interp = engine(vec![0x00E0, 0x1ABC, 0x8AB4]);
    let listing = interp.disassemble(4);
    assert_eq!(
        listing,
        vec![
            (0x200, Instruction::ClearDisplay),
            (0x202, Instruction::JumpToLoc(0xABC)),
            (0x204, Instruction::AddRegWithCarry(0xA, 0xB)),
            (0x206, Instruction::InvalidInstruction(0x0000)),
        ]
    );
    assert_eq!(interp.memory().get_pc(), 0x200);
    assert_eq!(interp.disassemble(0), Vec::new());
}

#[test]
fn a_listing_ends_with_ram() {
    let interp = engine(Vec::new());
    let listing = interp.disassemble(150);
    assert_eq!(listing.len(), 150);
    assert_eq!(listing[149].0, 0x200 + 298);
    let listing = interp.disassemble(usize::MAX);
    assert_eq!(listing.len(), 1791);
    assert_eq!(listing[1790].0, 0xFFC);
}
