//! What each instruction does, as a function on the mathematical state of
//! the machine.
//!
//! An instruction either completes and yields the next state, or faults and
//! leaves the state as it was: no part of a faulting instruction takes
//! effect.

use vstd::prelude::*;
use crate::display::{blank_grid, grid_height, grid_width};
use crate::error::VmError;
use crate::game::{GameView, KeyState};
use crate::instruction::Instruction;
use crate::memory::{
    valid_pc,
    MemoryView,
    FLAG_REGISTER,
    FONT_BASE,
    GLYPH_SIZE,
    RAM_SIZE,
    REGISTER_COUNT,
    STACK_DEPTH,
};
use crate::sprite::draw_sprite;
use crate::timer::Timers;

verus! {

/// What the engine does with an opcode that is not in the instruction table.
#[derive(Clone, Copy, Debug, PartialEq, Eq, Structural)]
pub enum DecodeMissPolicy {
    /// The engine halts with `DecodeMiss`.
    Halt,
    /// The engine records the miss and goes on with the next instruction.
    Skip,
}

/// How an instruction ended when it did not fault.
#[derive(Clone, Copy, Debug, PartialEq, Eq, Structural)]
pub enum Outcome {
    /// The instruction took effect.
    Completed,
    /// The instruction waits for a key. Nothing changed; it is to be executed
    /// again.
    AwaitingKey,
    /// The opcode was not in the table and was passed over.
    Skipped,
}

/// The state that instructions work on: the store, the timers and the shared
/// framebuffer and keypad.
#[verifier::ext_equal]
pub struct Machine {
    /// The register and memory store.
    pub mem: MemoryView,
    /// The delay and sound counters.
    pub timers: Timers,
    /// The framebuffer and the keypad.
    pub game: GameView,
}

impl Machine {
    /// Store and shared state have their proper shape.
    pub open spec fn wf(self) -> bool {
        self.mem.wf() && self.game.wf()
    }

    /// The machine with the store replaced.
    pub open spec fn with_mem(self, mem: MemoryView) -> Machine {
        Machine { mem: mem, ..self }
    }
}

/// The flag register's value for a condition: 1 if it holds, else 0.
pub open spec fn flag_byte(flag: bool) -> u8 {
    if flag {
        1
    } else {
        0
    }
}

/// The store with the program counter moved on by `by` bytes, if that is a
/// valid program counter.
pub open spec fn advance(mem: MemoryView, by: int) -> Result<MemoryView, VmError> {
    if valid_pc(mem.pc + by) {
        Ok(mem.with_pc(mem.pc + by))
    } else {
        Err(VmError::OutOfBounds)
    }
}

/// `Vx = value`, then on to the next instruction.
pub open spec fn store(mem: MemoryView, x: u8, value: u8) -> Result<MemoryView, VmError> {
    if x < REGISTER_COUNT {
        advance(mem.with_reg(x, value), 2)
    } else {
        Err(VmError::OutOfBounds)
    }
}

/// The flag register is set from `flag`, then `Vx = value`, then on to the
/// next instruction. Where `Vx` is the flag register itself, `value` is what
/// it ends up holding.
pub open spec fn store_with_flag(mem: MemoryView, x: u8, value: u8, flag: bool) -> Result<
    MemoryView,
    VmError,
> {
    if x < REGISTER_COUNT {
        advance(mem.with_reg(FLAG_REGISTER, flag_byte(flag)).with_reg(x, value), 2)
    } else {
        Err(VmError::OutOfBounds)
    }
}

/// A conditional skip: two instructions on when `taken`, else one.
pub open spec fn branch(mem: MemoryView, taken: bool) -> Result<MemoryView, VmError> {
    advance(
        mem,
        if taken {
            4
        } else {
            2
        },
    )
}

/// A jump: the program counter becomes `target`, if that is a valid program
/// counter.
pub open spec fn jump(mem: MemoryView, target: int) -> Result<MemoryView, VmError> {
    if valid_pc(target) {
        Ok(mem.with_pc(target))
    } else {
        Err(VmError::OutOfBounds)
    }
}

/// A call: the address of the next instruction is pushed, then the program
/// counter becomes `addr`. A full stack is `StackOverflow`. A return address
/// or a target that is no valid program counter is `OutOfBounds`.
pub open spec fn call(mem: MemoryView, addr: u16) -> Result<MemoryView, VmError> {
    if mem.stack.len() >= STACK_DEPTH {
        Err(VmError::StackOverflow)
    } else if !valid_pc(mem.pc + 2) || !valid_pc(addr as int) {
        Err(VmError::OutOfBounds)
    } else {
        Ok(mem.pushed((mem.pc + 2) as u16).with_pc(addr as int))
    }
}

/// A return: the most recent return address is popped and becomes the
/// program counter. An empty stack is `StackUnderflow`. A popped address that
/// is no valid program counter is `OutOfBounds`.
pub open spec fn subroutine_return(mem: MemoryView) -> Result<MemoryView, VmError> {
    if mem.stack.len() == 0 {
        Err(VmError::StackUnderflow)
    } else if !valid_pc(mem.stack.last() as int) {
        Err(VmError::OutOfBounds)
    } else {
        Ok(mem.popped().with_pc(mem.stack.last() as int))
    }
}

/// A shift to the right: the flag register receives the lowest bit of `Vx`,
/// then `Vx` is halved.
pub open spec fn shift_right(mem: MemoryView, x: u8) -> Result<MemoryView, VmError> {
    if x < REGISTER_COUNT {
        let flagged = mem.with_reg(FLAG_REGISTER, (mem.reg(x) % 2) as u8);
        advance(flagged.with_reg(x, (flagged.reg(x) / 2) as u8), 2)
    } else {
        Err(VmError::OutOfBounds)
    }
}

/// A shift to the left: the flag register receives the highest bit of `Vx`,
/// then `Vx` is doubled, wrapping.
pub open spec fn shift_left(mem: MemoryView, x: u8) -> Result<MemoryView, VmError> {
    if x < REGISTER_COUNT {
        let flagged = mem.with_reg(FLAG_REGISTER, (mem.reg(x) / 128) as u8);
        advance(flagged.with_reg(x, ((flagged.reg(x) * 2) % 256) as u8), 2)
    } else {
        Err(VmError::OutOfBounds)
    }
}

/// `I = value`, then on to the next instruction.
pub open spec fn set_index(mem: MemoryView, value: u16) -> Result<MemoryView, VmError> {
    advance(mem.with_ireg(value), 2)
}

/// The hundreds, tens and ones of `Vx` are written to the three bytes from
/// `I` on.
pub open spec fn to_decimal(mem: MemoryView, x: u8) -> Result<MemoryView, VmError> {
    if x < REGISTER_COUNT && mem.i_reg + 2 < RAM_SIZE {
        let value = mem.reg(x);
        let at = mem.i_reg as int;
        advance(
            mem.with_byte(at, (value / 100) as u8).with_byte(
                at + 1,
                ((value / 10) % 10) as u8,
            ).with_byte(at + 2, (value % 10) as u8),
            2,
        )
    } else {
        Err(VmError::OutOfBounds)
    }
}

/// `V0` to `Vx` are written to the bytes from `I` on. `I` stays.
pub open spec fn copy_regs_into_memory(mem: MemoryView, x: u8) -> Result<MemoryView, VmError> {
    if x < REGISTER_COUNT && mem.i_reg + x < RAM_SIZE {
        advance(
            MemoryView {
                ram: Seq::new(
                    mem.ram.len(),
                    |a: int|
                        if mem.i_reg <= a <= mem.i_reg + x {
                            mem.registers[a - mem.i_reg]
                        } else {
                            mem.ram[a]
                        },
                ),
                ..mem
            },
            2,
        )
    } else {
        Err(VmError::OutOfBounds)
    }
}

/// `V0` to `Vx` are read from the bytes from `I` on. `I` stays.
pub open spec fn copy_regs_from_memory(mem: MemoryView, x: u8) -> Result<MemoryView, VmError> {
    if x < REGISTER_COUNT && mem.i_reg + x < RAM_SIZE {
        advance(
            MemoryView {
                registers: Seq::new(
                    mem.registers.len(),
                    |r: int|
                        if r <= x {
                            mem.ram[mem.i_reg + r]
                        } else {
                            mem.registers[r]
                        },
                ),
                ..mem
            },
            2,
        )
    } else {
        Err(VmError::OutOfBounds)
    }
}

/// The result of an instruction that works on the store alone.
pub open spec fn in_store(machine: Machine, next: Result<MemoryView, VmError>) -> Result<
    (Machine, Outcome),
    VmError,
> {
    match next {
        Ok(mem) => Ok((machine.with_mem(mem), Outcome::Completed)),
        Err(e) => Err(e),
    }
}

/// The rows of the sprite that `DrawSprite` with height `n` draws: the `n`
/// bytes from `I` on.
pub open spec fn sprite_at(mem: MemoryView, n: u8) -> Seq<u8> {
    if n == 0 {
        Seq::empty()
    } else {
        mem.ram.subrange(mem.i_reg as int, mem.i_reg + n)
    }
}

/// The sprite of `n` rows at `I` is drawn at `(Vx, Vy)`; the flag register
/// receives the collision flag. A sprite of no rows reads no memory and
/// draws nothing.
pub open spec fn draw(machine: Machine, x: u8, y: u8, n: u8) -> Result<
    (Machine, Outcome),
    VmError,
> {
    let mem = machine.mem;
    if x < REGISTER_COUNT && y < REGISTER_COUNT && (n == 0 || mem.i_reg + n <= RAM_SIZE) {
        let sprite = sprite_at(mem, n);
        let drawing = draw_sprite(
            machine.game.display,
            mem.reg(x) as int,
            mem.reg(y) as int,
            sprite,
        );
        match advance(mem.with_reg(FLAG_REGISTER, flag_byte(drawing.collision)), 2) {
            Ok(next) => Ok(
                (
                    Machine {
                        mem: next,
                        game: machine.game.with_display(drawing.grid),
                        ..machine
                    },
                    Outcome::Completed,
                ),
            ),
            Err(e) => Err(e),
        }
    } else {
        Err(VmError::OutOfBounds)
    }
}

/// The framebuffer goes dark.
pub open spec fn clear_display(machine: Machine) -> Result<(Machine, Outcome), VmError> {
    match advance(machine.mem, 2) {
        Ok(next) => Ok(
            (
                Machine {
                    mem: next,
                    game: machine.game.with_display(
                        blank_grid(
                            grid_width(machine.game.display),
                            grid_height(machine.game.display),
                        ),
                    ),
                    ..machine
                },
                Outcome::Completed,
            ),
        ),
        Err(e) => Err(e),
    }
}

/// A skip that depends on the key whose id is the low nibble of `Vx`: taken
/// when that key is in state `wanted`.
pub open spec fn key_branch(machine: Machine, x: u8, wanted: KeyState) -> Result<
    (Machine, Outcome),
    VmError,
> {
    if x < REGISTER_COUNT {
        in_store(
            machine,
            branch(machine.mem, machine.game.keys[machine.mem.reg(x) as int % 16] == wanted),
        )
    } else {
        Err(VmError::OutOfBounds)
    }
}

/// Waiting for a key. With a key pressed, its id goes to `Vx` and the engine
/// moves on; with several pressed, the highest id is taken. With no key
/// pressed nothing changes and the instruction stays pending.
pub open spec fn wait_for_key(machine: Machine, x: u8) -> Result<(Machine, Outcome), VmError> {
    if x < REGISTER_COUNT {
        match machine.game.pressed_key() {
            Some(key_id) => in_store(machine, store(machine.mem, x, key_id)),
            None => Ok((machine, Outcome::AwaitingKey)),
        }
    } else {
        Err(VmError::OutOfBounds)
    }
}

/// A counter is set from `Vx`.
pub open spec fn set_timer(machine: Machine, x: u8, sound: bool) -> Result<
    (Machine, Outcome),
    VmError,
> {
    if x < REGISTER_COUNT {
        match advance(machine.mem, 2) {
            Ok(next) => Ok(
                (
                    Machine {
                        mem: next,
                        timers: if sound {
                            Timers { sound: machine.mem.reg(x), ..machine.timers }
                        } else {
                            Timers { delay: machine.mem.reg(x), ..machine.timers }
                        },
                        ..machine
                    },
                    Outcome::Completed,
                ),
            ),
            Err(e) => Err(e),
        }
    } else {
        Err(VmError::OutOfBounds)
    }
}

/// An opcode outside the table: a fault under `Halt`, passed over under
/// `Skip`.
pub open spec fn decode_miss(machine: Machine, policy: DecodeMissPolicy) -> Result<
    (Machine, Outcome),
    VmError,
> {
    match policy {
        DecodeMissPolicy::Halt => Err(VmError::DecodeMiss),
        DecodeMissPolicy::Skip => match advance(machine.mem, 2) {
            Ok(next) => Ok((machine.with_mem(next), Outcome::Skipped)),
            Err(e) => Err(e),
        },
    }
}

/// Whether the instruction is a jump, a call, a return or a skip that
/// compares registers.
pub open spec fn is_flow(instruction: Instruction) -> bool {
    matches!(
        instruction,
        Instruction::ReturnFromSubroutine
            | Instruction::JumpToLoc(_)
            | Instruction::CallSubroutine(_)
            | Instruction::SkipEq(_, _)
            | Instruction::SkipNeq(_, _)
            | Instruction::SkipRegsEq(_, _)
            | Instruction::SkipRegsNeq(_, _)
            | Instruction::JumpToLocRel(_)
    )
}

/// Whether the instruction moves a value into a register or computes one
/// there.
pub open spec fn is_arithmetic(instruction: Instruction) -> bool {
    matches!(
        instruction,
        Instruction::SetReg(_, _)
            | Instruction::AddReg(_, _)
            | Instruction::SetRegFromReg(_, _)
            | Instruction::BitwiseOr(_, _)
            | Instruction::BitwiseAnd(_, _)
            | Instruction::BitwiseXor(_, _)
            | Instruction::AddRegWithCarry(_, _)
            | Instruction::SubReg(_, _)
            | Instruction::ShiftRight(_, _)
            | Instruction::SubRegBackwards(_, _)
            | Instruction::ShiftLeft(_, _)
            | Instruction::Random(_, _)
    )
}

/// Whether the instruction works on the address register or moves registers
/// to or from RAM.
pub open spec fn is_indexing(instruction: Instruction) -> bool {
    matches!(
        instruction,
        Instruction::SetI(_)
            | Instruction::AddI(_)
            | Instruction::LoadSprite(_)
            | Instruction::ToDecimal(_)
            | Instruction::CopyRegsIntoMemory(_)
            | Instruction::CopyRegsFromMemory(_)
    )
}

/// Whether the instruction reads or sets a timer.
pub open spec fn is_timing(instruction: Instruction) -> bool {
    matches!(
        instruction,
        Instruction::SetRegToDelayTimer(_)
            | Instruction::SetDelayTimer(_)
            | Instruction::SetSoundTimer(_)
    )
}

/// Whether the instruction works on the framebuffer or the keypad, or is no
/// instruction of the table.
pub open spec fn is_shared(instruction: Instruction) -> bool {
    matches!(
        instruction,
        Instruction::ClearDisplay
            | Instruction::DrawSprite(_, _, _)
            | Instruction::SkipIfPressed(_)
            | Instruction::SkipIfNotPressed(_)
            | Instruction::BlockOnKeypress(_)
            | Instruction::InvalidInstruction(_)
    )
}

/// The semantics of the instruction set: the state after `instruction` and
/// how it ended, or the fault it raised. `random` is the byte that a random
/// draw yields.
pub open spec fn execute_spec(
    machine: Machine,
    instruction: Instruction,
    policy: DecodeMissPolicy,
    random: u8,
) -> Result<(Machine, Outcome), VmError> {
    let mem = machine.mem;
    match instruction {
        Instruction::ClearDisplay => clear_display(machine),
        Instruction::ReturnFromSubroutine => in_store(machine, subroutine_return(mem)),
        Instruction::JumpToLoc(addr) => in_store(machine, jump(mem, addr as int)),
        Instruction::CallSubroutine(addr) => in_store(machine, call(mem, addr)),
        Instruction::SkipEq(x, kk) => if x < REGISTER_COUNT {
            in_store(machine, branch(mem, mem.reg(x) == kk))
        } else {
            Err(VmError::OutOfBounds)
        },
        Instruction::SkipNeq(x, kk) => if x < REGISTER_COUNT {
            in_store(machine, branch(mem, mem.reg(x) != kk))
        } else {
            Err(VmError::OutOfBounds)
        },
        Instruction::SkipRegsEq(x, y) => if x < REGISTER_COUNT && y < REGISTER_COUNT {
            in_store(machine, branch(mem, mem.reg(x) == mem.reg(y)))
        } else {
            Err(VmError::OutOfBounds)
        },
        Instruction::SetReg(x, kk) => in_store(machine, store(mem, x, kk)),
        Instruction::AddReg(x, kk) => in_store(
            machine,
            store(mem, x, ((mem.reg(x) + kk) % 256) as u8),
        ),
        Instruction::SetRegFromReg(x, y) => if y < REGISTER_COUNT {
            in_store(machine, store(mem, x, mem.reg(y)))
        } else {
            Err(VmError::OutOfBounds)
        },
        Instruction::BitwiseOr(x, y) => if y < REGISTER_COUNT {
            in_store(machine, store(mem, x, mem.reg(x) | mem.reg(y)))
        } else {
            Err(VmError::OutOfBounds)
        },
        Instruction::BitwiseAnd(x, y) => if y < REGISTER_COUNT {
            in_store(machine, store(mem, x, mem.reg(x) & mem.reg(y)))
        } else {
            Err(VmError::OutOfBounds)
        },
        Instruction::BitwiseXor(x, y) => if y < REGISTER_COUNT {
            in_store(machine, store(mem, x, mem.reg(x) ^ mem.reg(y)))
        } else {
            Err(VmError::OutOfBounds)
        },
        Instruction::AddRegWithCarry(x, y) => if y < REGISTER_COUNT {
            in_store(
                machine,
                store_with_flag(
                    mem,
                    x,
                    ((mem.reg(x) + mem.reg(y)) % 256) as u8,
                    mem.reg(x) + mem.reg(y) > 255,
                ),
            )
        } else {
            Err(VmError::OutOfBounds)
        },
        Instruction::SubReg(x, y) => if y < REGISTER_COUNT {
            in_store(
                machine,
                store_with_flag(
                    mem,
                    x,
                    ((mem.reg(x) - mem.reg(y)) % 256) as u8,
                    mem.reg(x) >= mem.reg(y),
                ),
            )
        } else {
            Err(VmError::OutOfBounds)
        },
        Instruction::ShiftRight(x, _) => in_store(machine, shift_right(mem, x)),
        Instruction::SubRegBackwards(x, y) => if y < REGISTER_COUNT {
            in_store(
                machine,
                store_with_flag(
                    mem,
                    x,
                    ((mem.reg(y) - mem.reg(x)) % 256) as u8,
                    mem.reg(y) >= mem.reg(x),
                ),
            )
        } else {
            Err(VmError::OutOfBounds)
        },
        Instruction::ShiftLeft(x, _) => in_store(machine, shift_left(mem, x)),
        Instruction::SkipRegsNeq(x, y) => if x < REGISTER_COUNT && y < REGISTER_COUNT {
            in_store(machine, branch(mem, mem.reg(x) != mem.reg(y)))
        } else {
            Err(VmError::OutOfBounds)
        },
        Instruction::SetI(addr) => in_store(machine, set_index(mem, addr)),
        Instruction::JumpToLocRel(addr) => in_store(machine, jump(mem, addr + mem.reg(0))),
        Instruction::Random(x, kk) => in_store(machine, store(mem, x, random & kk)),
        Instruction::DrawSprite(x, y, n) => draw(machine, x, y, n),
        Instruction::SkipIfPressed(x) => key_branch(machine, x, KeyState::Pressed),
        Instruction::SkipIfNotPressed(x) => key_branch(machine, x, KeyState::Released),
        Instruction::SetRegToDelayTimer(x) => in_store(
            machine,
            store(mem, x, machine.timers.delay),
        ),
        Instruction::BlockOnKeypress(x) => wait_for_key(machine, x),
        Instruction::SetDelayTimer(x) => set_timer(machine, x, false),
        Instruction::SetSoundTimer(x) => set_timer(machine, x, true),
        Instruction::AddI(x) => if x < REGISTER_COUNT {
            in_store(machine, set_index(mem, ((mem.i_reg + mem.reg(x)) % 0x10000) as u16))
        } else {
            Err(VmError::OutOfBounds)
        },
        Instruction::LoadSprite(x) => if x < REGISTER_COUNT {
            in_store(
                machine,
                set_index(mem, (FONT_BASE + GLYPH_SIZE * (mem.reg(x) % 16)) as u16),
            )
        } else {
            Err(VmError::OutOfBounds)
        },
        Instruction::ToDecimal(x) => in_store(machine, to_decimal(mem, x)),
        Instruction::CopyRegsIntoMemory(x) => in_store(machine, copy_regs_into_memory(mem, x)),
        Instruction::CopyRegsFromMemory(x) => in_store(machine, copy_regs_from_memory(mem, x)),
        Instruction::InvalidInstruction(_) => decode_miss(machine, policy),
    }
}

} // verus!
