//! Laws of the machine: what the instruction table, the arithmetic, the call
//! stack and the wait for a key guarantee on every input.

use vstd::prelude::*;
use crate::display::{grid_height, grid_width};
use crate::error::VmError;
use crate::game::{lemma_last_pressed, GameView, KeyState, KEY_COUNT};
use crate::instruction::{decode_spec, family, operand_byte, operand_nibble, Instruction};
use crate::interpreter::{step_spec, EngineState, InterpreterView, StepOutcome};
use crate::memory::{valid_pc, MemoryView, FLAG_REGISTER, RAM_SIZE, REGISTER_COUNT, STACK_DEPTH};
use crate::semantics::{
    advance,
    branch,
    call,
    copy_regs_from_memory,
    copy_regs_into_memory,
    draw,
    execute_spec,
    flag_byte,
    is_arithmetic,
    is_flow,
    is_indexing,
    is_shared,
    is_timing,
    jump,
    set_index,
    shift_left,
    shift_right,
    sprite_at,
    store,
    store_with_flag,
    subroutine_return,
    to_decimal,
    wait_for_key,
    DecodeMissPolicy,
    Machine,
    Outcome,
};
use crate::sprite::{
    draw_sprite,
    hits,
    lemma_draw_collision,
    lemma_draw_keeps_size,
    lemma_draw_twice_restores,
    lemma_second_draw_collision,
    overlaps,
};

verus! {

/// The bit patterns that the instruction table gives a meaning to.
pub open spec fn in_table(opcode: u16) -> bool {
    let fam = family(opcode);
    let n = operand_nibble(opcode);
    let kk = operand_byte(opcode);
    if fam == 0x0 {
        opcode == 0x00E0 || opcode == 0x00EE
    } else if fam == 0x8 {
        n <= 0x7 || n == 0xE
    } else if fam == 0xE {
        kk == 0x9E || kk == 0xA1
    } else if fam == 0xF {
        kk == 0x07 || kk == 0x0A || kk == 0x15 || kk == 0x18 || kk == 0x1E || kk == 0x29 || kk
            == 0x33 || kk == 0x55 || kk == 0x65
    } else {
        true
    }
}

/// Decoding never fails, and it yields the invalid instruction exactly for
/// the bit patterns outside the table. The invalid instruction carries the
/// opcode as it was.
pub proof fn lemma_decode_outside_table(opcode: u16)
    ensures
        !in_table(opcode) <==> decode_spec(opcode) is InvalidInstruction,
        !in_table(opcode) ==> decode_spec(opcode) == Instruction::InvalidInstruction(opcode),
{
}

/// The registers other than `x` and the flag register, and everything in
/// the machine but registers and program counter, are the same in `before`
/// and `after`; the program counter has moved on by one instruction.
pub open spec fn only_result_and_flag_changed(before: Machine, after: Machine, x: u8) -> bool {
    &&& after.mem.pc == before.mem.pc + 2
    &&& after.mem.ram == before.mem.ram
    &&& after.mem.i_reg == before.mem.i_reg
    &&& after.mem.stack == before.mem.stack
    &&& after.mem.registers.len() == before.mem.registers.len()
    &&& forall|r: int|
        0 <= r < REGISTER_COUNT && r != x && r != FLAG_REGISTER ==> after.mem.registers[r]
            == before.mem.registers[r]
    &&& after.timers == before.timers
    &&& after.game == before.game
}

/// Addition with carry, for every pair of registers whose first is not the
/// flag register and for all their values: `Vx` receives the sum modulo 256,
/// and the flag register is 1 if the sum is above 255 and 0 if not. With
/// `0xFF` and `0x01` that is `0x00` and 1; with `0x01` and `0x01`, `0x02`
/// and 0.
pub proof fn lemma_add_with_carry(
    machine: Machine,
    x: u8,
    y: u8,
    policy: DecodeMissPolicy,
    random: u8,
)
    requires
        machine.wf(),
        x < REGISTER_COUNT,
        y < REGISTER_COUNT,
        x != FLAG_REGISTER,
        valid_pc(machine.mem.pc + 2),
    ensures
        ({
            let result = execute_spec(machine, Instruction::AddRegWithCarry(x, y), policy, random);
            let sum = machine.mem.reg(x) + machine.mem.reg(y);
            &&& result is Ok
            &&& result->Ok_0.1 == Outcome::Completed
            &&& result->Ok_0.0.wf()
            &&& result->Ok_0.0.mem.reg(x) == sum % 256
            &&& result->Ok_0.0.mem.reg(FLAG_REGISTER) == if sum > 255 {
                1int
            } else {
                0int
            }
            &&& only_result_and_flag_changed(machine, result->Ok_0.0, x)
        }),
{
}

/// Subtraction, for every pair of registers whose first is not the flag
/// register and for all their values: `Vx` receives the difference modulo
/// 256, and the flag register is 1 if nothing was borrowed (`Vx >= Vy`) and
/// 0 if not. With `0x05` and `0x0A` that is `0xFB` and 0; with `0x0A` and
/// `0x05`, `0x05` and 1. The reversed subtraction does the same with the
/// operands exchanged.
pub proof fn lemma_subtract(machine: Machine, x: u8, y: u8, policy: DecodeMissPolicy, random: u8)
    requires
        machine.wf(),
        x < REGISTER_COUNT,
        y < REGISTER_COUNT,
        x != FLAG_REGISTER,
        valid_pc(machine.mem.pc + 2),
    ensures
        ({
            let result = execute_spec(machine, Instruction::SubReg(x, y), policy, random);
            let left = machine.mem.reg(x);
            let right = machine.mem.reg(y);
            &&& result is Ok
            &&& result->Ok_0.1 == Outcome::Completed
            &&& result->Ok_0.0.wf()
            &&& result->Ok_0.0.mem.reg(x) == (left - right) % 256
            &&& result->Ok_0.0.mem.reg(FLAG_REGISTER) == if left >= right {
                1int
            } else {
                0int
            }
            &&& only_result_and_flag_changed(machine, result->Ok_0.0, x)
        }),
        ({
            let result = execute_spec(machine, Instruction::SubRegBackwards(x, y), policy, random);
            let left = machine.mem.reg(y);
            let right = machine.mem.reg(x);
            &&& result is Ok
            &&& result->Ok_0.1 == Outcome::Completed
            &&& result->Ok_0.0.wf()
            &&& result->Ok_0.0.mem.reg(x) == (left - right) % 256
            &&& result->Ok_0.0.mem.reg(FLAG_REGISTER) == if left >= right {
                1int
            } else {
                0int
            }
            &&& only_result_and_flag_changed(machine, result->Ok_0.0, x)
        }),
{
}

/// Shifts, for every register but the flag register and for every value: a
/// shift to the right halves `Vx` and puts its lowest bit in the flag
/// register; a shift to the left doubles `Vx` modulo 256 and puts its
/// highest bit there. The second operand plays no part. Shifting `0x03` to
/// the right gives `0x01` and flag 1.
pub proof fn lemma_shift(machine: Machine, x: u8, y: u8, policy: DecodeMissPolicy, random: u8)
    requires
        machine.wf(),
        x < REGISTER_COUNT,
        x != FLAG_REGISTER,
        valid_pc(machine.mem.pc + 2),
    ensures
        ({
            let result = execute_spec(machine, Instruction::ShiftRight(x, y), policy, random);
            let value = machine.mem.reg(x);
            &&& result is Ok
            &&& result->Ok_0.1 == Outcome::Completed
            &&& result->Ok_0.0.wf()
            &&& result->Ok_0.0.mem.reg(x) == value / 2
            &&& result->Ok_0.0.mem.reg(FLAG_REGISTER) == value % 2
            &&& only_result_and_flag_changed(machine, result->Ok_0.0, x)
        }),
        ({
            let result = execute_spec(machine, Instruction::ShiftLeft(x, y), policy, random);
            let value = machine.mem.reg(x);
            &&& result is Ok
            &&& result->Ok_0.1 == Outcome::Completed
            &&& result->Ok_0.0.wf()
            &&& result->Ok_0.0.mem.reg(x) == (value * 2) % 256
            &&& result->Ok_0.0.mem.reg(FLAG_REGISTER) == value / 128
            &&& only_result_and_flag_changed(machine, result->Ok_0.0, x)
        }),
{
}

/// The store after the calls to `targets`, one from inside the other, or
/// the fault of the first call that failed.
pub open spec fn after_calls(mem: MemoryView, targets: Seq<u16>) -> Result<MemoryView, VmError>
    decreases targets.len(),
{
    if targets.len() == 0 {
        Ok(mem)
    } else {
        match after_calls(mem, targets.drop_last()) {
            Ok(inner) => call(inner, targets.last()),
            Err(e) => Err(e),
        }
    }
}

/// The store after `count` returns, or the fault of the first return that
/// failed.
pub open spec fn after_returns(mem: MemoryView, count: nat) -> Result<MemoryView, VmError>
    decreases count,
{
    if count == 0 {
        Ok(mem)
    } else {
        match after_returns(mem, (count - 1) as nat) {
            Ok(inner) => subroutine_return(inner),
            Err(e) => Err(e),
        }
    }
}

/// A return undoes a call. After a call from `mem`, a return from anywhere
/// in the subroutine leads to the instruction after the call, with the stack
/// as it was before the call.
pub proof fn lemma_return_undoes_call(mem: MemoryView, target: u16, pc: int)
    requires
        mem.wf(),
        call(mem, target) is Ok,
    ensures
        call(mem, target)->Ok_0.wf(),
        subroutine_return(call(mem, target)->Ok_0.with_pc(pc)) == Ok::<MemoryView, VmError>(
            mem.with_pc(mem.pc + 2),
        ),
{
    let called = call(mem, target)->Ok_0;
    assert(called.with_pc(pc).popped().stack =~= mem.stack);
}

/// Nested calls that succeeded went through: each shorter nest succeeded
/// too, is well-formed and has one return address more for every call.
proof fn lemma_calls_prefix(mem: MemoryView, targets: Seq<u16>, k: int)
    requires
        mem.wf(),
        after_calls(mem, targets) is Ok,
        0 <= k <= targets.len(),
    ensures
        after_calls(mem, targets.take(k)) is Ok,
        after_calls(mem, targets.take(k))->Ok_0.wf(),
        after_calls(mem, targets.take(k))->Ok_0.stack.len() == mem.stack.len() + k,
        k < targets.len() ==> after_calls(mem, targets.take(k + 1)) == call(
            after_calls(mem, targets.take(k))->Ok_0,
            targets[k],
        ),
    decreases targets.len(),
{
    if targets.len() == 0 {
        assert(targets.take(k) =~= targets);
    } else if k == targets.len() {
        assert(targets.take(k) =~= targets);
        lemma_calls_prefix(mem, targets.drop_last(), k - 1);
        assert(targets.drop_last().take(k - 1) =~= targets.drop_last());
    } else {
        lemma_calls_prefix(mem, targets.drop_last(), k);
        assert(targets.drop_last().take(k) =~= targets.take(k));
        if k + 1 < targets.len() {
            assert(targets.drop_last().take(k + 1) =~= targets.take(k + 1));
        } else {
            assert(targets.take(k + 1) =~= targets);
            assert(targets.drop_last() =~= targets.take(k));
        }
    }
}

/// The call stack is last in, first out. After any number of nested calls,
/// each return leads back to the instruction after the call it belongs to,
/// the most recent call first: after `count` returns the store is what it
/// was before the last `count` calls, with the program counter behind the
/// earliest of them. As many returns as there were calls lead behind the
/// first call with the stack as it was at the start. No more than
/// `STACK_DEPTH` return addresses are ever on the stack.
pub proof fn lemma_returns_unwind_calls(mem: MemoryView, targets: Seq<u16>, count: nat)
    requires
        mem.wf(),
        after_calls(mem, targets) is Ok,
        1 <= count <= targets.len(),
    ensures
        mem.stack.len() + targets.len() <= STACK_DEPTH,
        after_calls(mem, targets.take(targets.len() - count)) is Ok,
        ({
            let outer = after_calls(mem, targets.take(targets.len() - count))->Ok_0;
            after_returns(after_calls(mem, targets)->Ok_0, count) == Ok::<MemoryView, VmError>(
                outer.with_pc(outer.pc + 2),
            )
        }),
    decreases count,
{
    let n = targets.len() as int;
    let top = after_calls(mem, targets)->Ok_0;
    lemma_calls_prefix(mem, targets, n);
    assert(targets.take(n) =~= targets);
    lemma_calls_prefix(mem, targets, n - count);
    let outer = after_calls(mem, targets.take(n - count))->Ok_0;
    if count == 1 {
        lemma_return_undoes_call(outer, targets[n - 1], top.pc);
        assert(top.with_pc(top.pc) == top);
    } else {
        lemma_returns_unwind_calls(mem, targets, (count - 1) as nat);
        let inner = after_calls(mem, targets.take(n - count + 1))->Ok_0;
        lemma_return_undoes_call(outer, targets[n - count], inner.pc + 2);
    }
}

/// A call with `STACK_DEPTH` return addresses on the stack fails with
/// `StackOverflow`, whatever its target; so does the seventeenth of
/// seventeen nested calls. A return with no return address on the stack
/// fails with `StackUnderflow`.
pub proof fn lemma_stack_bounds(mem: MemoryView, target: u16)
    requires
        mem.wf(),
    ensures
        mem.stack.len() == STACK_DEPTH ==> call(mem, target) == Err::<MemoryView, VmError>(
            VmError::StackOverflow,
        ),
        mem.stack.len() == 0 ==> subroutine_return(mem) == Err::<MemoryView, VmError>(
            VmError::StackUnderflow,
        ),
{
}

/// Drawing the same sprite twice. Two `DrawSprite` instructions in a row
/// with the same operands, neither of them the flag register, give back the
/// framebuffer as it was before the first, pixel for pixel, and leave the
/// keys alone. The flag register is 1 after the first draw exactly when the
/// draw darkened a pixel: a lit sprite pixel landed on a lit pixel, or two
/// lit sprite pixels landed on one. It is 1 after the second draw exactly
/// when a lit sprite pixel landed on a pixel that was dark before the first
/// draw, or two lit sprite pixels landed on one: so on a grid on which the
/// sprite does not fold onto itself, a sprite drawn on an empty region
/// leaves the flag at 0, and drawn there again sets it to 1 if it has a lit
/// pixel at all.
pub proof fn lemma_draw_twice(machine: Machine, x: u8, y: u8, n: u8)
    requires
        machine.wf(),
        x < REGISTER_COUNT,
        y < REGISTER_COUNT,
        x != FLAG_REGISTER,
        y != FLAG_REGISTER,
        n == 0 || machine.mem.i_reg + n <= RAM_SIZE,
        valid_pc(machine.mem.pc + 4),
    ensures
        ({
            let first = draw(machine, x, y, n);
            let second = draw(first->Ok_0.0, x, y, n);
            let sprite = sprite_at(machine.mem, n);
            let grid = machine.game.display;
            let column = machine.mem.reg(x) as int;
            let row = machine.mem.reg(y) as int;
            let folded = overlaps(grid_width(grid), grid_height(grid), column, row, sprite, 8 * n);
            &&& first is Ok
            &&& second is Ok
            &&& second->Ok_0.0.game == machine.game
            &&& first->Ok_0.0.mem.reg(FLAG_REGISTER) == if hits(
                grid,
                column,
                row,
                sprite,
                8 * n,
                true,
            ) || folded {
                1int
            } else {
                0int
            }
            &&& second->Ok_0.0.mem.reg(FLAG_REGISTER) == if hits(
                grid,
                column,
                row,
                sprite,
                8 * n,
                false,
            ) || folded {
                1int
            } else {
                0int
            }
        }),
{
    let sprite = sprite_at(machine.mem, n);
    let grid = machine.game.display;
    let column = machine.mem.reg(x) as int;
    let row = machine.mem.reg(y) as int;
    lemma_draw_keeps_size(grid, column, row, sprite, 8 * sprite.len());
    lemma_draw_collision(grid, column, row, sprite);
    lemma_second_draw_collision(grid, column, row, sprite);
    lemma_draw_twice_restores(grid, column, row, sprite);
    let first = draw(machine, x, y, n)->Ok_0.0;
    assert(sprite_at(first.mem, n) == sprite);
}

/// Every move that instructions make in the store keeps the store in
/// shape.
proof fn lemma_moves_keep_shape(mem: MemoryView)
    requires
        mem.wf(),
    ensures
        forall|by: int| #[trigger] advance(mem, by) is Ok ==> advance(mem, by)->Ok_0.wf(),
        forall|x: u8, value: u8| #[trigger]
            store(mem, x, value) is Ok ==> store(mem, x, value)->Ok_0.wf(),
        forall|x: u8, value: u8, flag: bool| #[trigger]
            store_with_flag(mem, x, value, flag) is Ok ==> store_with_flag(
                mem,
                x,
                value,
                flag,
            )->Ok_0.wf(),
        forall|taken: bool| #[trigger] branch(mem, taken) is Ok ==> branch(mem, taken)->Ok_0.wf(),
        forall|target: int| #[trigger] jump(mem, target) is Ok ==> jump(mem, target)->Ok_0.wf(),
        forall|target: u16| #[trigger] call(mem, target) is Ok ==> call(mem, target)->Ok_0.wf(),
        subroutine_return(mem) is Ok ==> subroutine_return(mem)->Ok_0.wf(),
        forall|x: u8| #[trigger] shift_right(mem, x) is Ok ==> shift_right(mem, x)->Ok_0.wf(),
        forall|x: u8| #[trigger] shift_left(mem, x) is Ok ==> shift_left(mem, x)->Ok_0.wf(),
        forall|value: u16| #[trigger]
            set_index(mem, value) is Ok ==> set_index(mem, value)->Ok_0.wf(),
        forall|x: u8| #[trigger] to_decimal(mem, x) is Ok ==> to_decimal(mem, x)->Ok_0.wf(),
        forall|x: u8| #[trigger]
            copy_regs_into_memory(mem, x) is Ok ==> copy_regs_into_memory(mem, x)->Ok_0.wf(),
        forall|x: u8| #[trigger]
            copy_regs_from_memory(mem, x) is Ok ==> copy_regs_from_memory(mem, x)->Ok_0.wf(),
{
}

/// An instruction left the machine in shape and the grid at its size.
pub open spec fn kept_shape(machine: Machine, result: Result<(Machine, Outcome), VmError>) -> bool {
    result is Ok ==> {
        let next = result->Ok_0.0;
        &&& next.wf()
        &&& grid_width(next.game.display) == grid_width(machine.game.display)
        &&& grid_height(next.game.display) == grid_height(machine.game.display)
    }
}

proof fn lemma_flow_keeps_shape(machine: Machine, instruction: Instruction)
    requires
        machine.wf(),
        is_flow(instruction),
    ensures
        forall|policy: DecodeMissPolicy, random: u8|
            kept_shape(machine, #[trigger] execute_spec(machine, instruction, policy, random)),
{
    lemma_moves_keep_shape(machine.mem);
}

proof fn lemma_arithmetic_keeps_shape(machine: Machine, instruction: Instruction)
    requires
        machine.wf(),
        is_arithmetic(instruction),
    ensures
        forall|policy: DecodeMissPolicy, random: u8|
            kept_shape(machine, #[trigger] execute_spec(machine, instruction, policy, random)),
{
    lemma_moves_keep_shape(machine.mem);
}

proof fn lemma_indexing_keeps_shape(machine: Machine, instruction: Instruction)
    requires
        machine.wf(),
        is_indexing(instruction),
    ensures
        forall|policy: DecodeMissPolicy, random: u8|
            kept_shape(machine, #[trigger] execute_spec(machine, instruction, policy, random)),
{
    lemma_moves_keep_shape(machine.mem);
}

proof fn lemma_timing_keeps_shape(machine: Machine, instruction: Instruction)
    requires
        machine.wf(),
        is_timing(instruction),
    ensures
        forall|policy: DecodeMissPolicy, random: u8|
            kept_shape(machine, #[trigger] execute_spec(machine, instruction, policy, random)),
{
    lemma_moves_keep_shape(machine.mem);
}

proof fn lemma_shared_keeps_shape(machine: Machine, instruction: Instruction)
    requires
        machine.wf(),
        is_shared(instruction),
    ensures
        forall|policy: DecodeMissPolicy, random: u8|
            kept_shape(machine, #[trigger] execute_spec(machine, instruction, policy, random)),
{
    lemma_moves_keep_shape(machine.mem);
    match instruction {
        Instruction::DrawSprite(x, y, n) => {
            if draw(machine, x, y, n) is Ok {
                let sprite = sprite_at(machine.mem, n);
                let drawing = draw_sprite(
                    machine.game.display,
                    machine.mem.reg(x) as int,
                    machine.mem.reg(y) as int,
                    sprite,
                );
                lemma_draw_keeps_size(
                    machine.game.display,
                    machine.mem.reg(x) as int,
                    machine.mem.reg(y) as int,
                    sprite,
                    8 * sprite.len(),
                );
                lemma_moves_keep_shape(
                    machine.mem.with_reg(FLAG_REGISTER, flag_byte(drawing.collision)),
                );
            }
        },
        _ => {},
    }
}

/// Every instruction keeps the machine in shape. Whatever the instruction
/// and its operands, after it the program counter is word-aligned and in
/// range, RAM and register file have their size, the stack holds at most
/// `STACK_DEPTH` addresses, and the framebuffer is a grid of the size it
/// had, with the sixteen keys beside it.
pub proof fn lemma_execute_keeps_shape(
    machine: Machine,
    instruction: Instruction,
    policy: DecodeMissPolicy,
    random: u8,
)
    requires
        machine.wf(),
    ensures
        kept_shape(machine, execute_spec(machine, instruction, policy, random)),
{
    if is_flow(instruction) {
        lemma_flow_keeps_shape(machine, instruction);
    } else if is_arithmetic(instruction) {
        lemma_arithmetic_keeps_shape(machine, instruction);
    } else if is_indexing(instruction) {
        lemma_indexing_keeps_shape(machine, instruction);
    } else if is_timing(instruction) {
        lemma_timing_keeps_shape(machine, instruction);
    } else {
        lemma_shared_keeps_shape(machine, instruction);
    }
}

/// Every cycle keeps engine and shared state in shape, whether it executes
/// an instruction, waits, passes over an opcode or halts.
pub proof fn lemma_step_keeps_shape(engine: InterpreterView, game: GameView, random: u8)
    requires
        engine.mem.wf(),
        game.wf(),
    ensures
        step_spec(engine, game, random).0.mem.wf(),
        step_spec(engine, game, random).1.wf(),
{
    let machine = Machine { mem: engine.mem, timers: engine.timers, game: game };
    let instruction = decode_spec(engine.mem.opcode_at(engine.mem.pc));
    lemma_execute_keeps_shape(machine, instruction, engine.policy, random);
}

/// A halt is final. A cycle of a halted engine changes nothing, neither in
/// the engine nor in the shared state, and reports the diagnostic of the
/// halt. A cycle that halts a running engine leaves store, timers and shared
/// state as they were before it.
pub proof fn lemma_halt_is_final(engine: InterpreterView, game: GameView, random: u8)
    ensures
        engine.state is Halted ==> step_spec(engine, game, random) == (
            engine,
            game,
            StepOutcome::Halted(engine.state->Halted_0),
        ),
        step_spec(engine, game, random).2 is Halted ==> ({
            let next = step_spec(engine, game, random);
            &&& next.0.state == EngineState::Halted(next.2->Halted_0)
            &&& next.0.mem == engine.mem
            &&& next.0.timers == engine.timers
            &&& next.0.policy == engine.policy
            &&& next.0.last_miss == engine.last_miss
            &&& next.1 == game
        }),
{
}

/// Waiting for a key. With a key pressed when the instruction is executed,
/// the instruction completes at once: `Vx` holds the id of a pressed key,
/// the highest if several are pressed, and the program counter has moved on
/// by one instruction. With no key pressed the instruction is pending: the
/// machine is exactly as before, so the next cycle executes the same
/// instruction on the same state, and the first cycle that finds a key
/// pressed stores its id and moves on.
pub proof fn lemma_wait_for_key(machine: Machine, x: u8)
    requires
        machine.wf(),
        x < REGISTER_COUNT,
    ensures
        (forall|k: int| 0 <= k < KEY_COUNT ==> machine.game.keys[k] != KeyState::Pressed)
            ==> wait_for_key(machine, x) == Ok::<(Machine, Outcome), VmError>(
            (machine, Outcome::AwaitingKey),
        ),
        (exists|k: int| 0 <= k < KEY_COUNT && machine.game.keys[k] == KeyState::Pressed)
            && valid_pc(machine.mem.pc + 2) ==> ({
            let result = wait_for_key(machine, x);
            let key_id = result->Ok_0.0.mem.reg(x);
            &&& result is Ok
            &&& result->Ok_0.1 == Outcome::Completed
            &&& key_id < KEY_COUNT
            &&& machine.game.keys[key_id as int] == KeyState::Pressed
            &&& forall|k: int| key_id < k < KEY_COUNT ==> machine.game.keys[k] != KeyState::Pressed
            &&& result->Ok_0.0 == machine.with_mem(
                machine.mem.with_reg(x, key_id).with_pc(machine.mem.pc + 2),
            )
        }),
{
    lemma_last_pressed(machine.game.keys, KEY_COUNT as nat);
}

} // verus!
