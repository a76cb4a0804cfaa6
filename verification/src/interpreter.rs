//! The execution engine: fetch, decode, execute, advance.
//!
//! The engine owns the store and the timers and is handed the shared state
//! for the length of one cycle. It starts out running and halts for good on
//! a fault or on a stop request; every halt carries the opcode, the address
//! and the reason. One call of `step` is one cycle: whoever drives the
//! engine decides what happens between two cycles.

use vstd::prelude::*;
use vstd::pervasive::unreached;
use crate::error::VmError;
use crate::game::{GameState, GameView, KeyState};
use crate::instruction::{decode, decode_spec, Instruction};
use crate::memory::{
    is_valid_pc,
    Memory,
    MemoryView,
    FLAG_REGISTER,
    FONT_BASE,
    GLYPH_SIZE,
    MAX_PROGRAM_WORDS,
    RAM_SIZE,
    REGISTER_COUNT,
    STACK_DEPTH,
};
use crate::semantics::{
    branch,
    call,
    copy_regs_from_memory,
    copy_regs_into_memory,
    draw,
    execute_spec,
    is_arithmetic,
    is_flow,
    is_indexing,
    is_shared,
    is_timing,
    jump,
    set_index,
    shift_left,
    shift_right,
    sprite_at,
    store,
    store_with_flag,
    subroutine_return,
    to_decimal,
    DecodeMissPolicy,
    Machine,
    Outcome,
};
use crate::sprite::display_byte_sprite;
use crate::timer::Timers;

verus! {

/// Why the engine halted.
#[derive(Clone, Copy, Debug, PartialEq, Eq, Structural)]
pub enum HaltReason {
    /// An instruction faulted.
    Fault(VmError),
    /// A stop was requested from outside.
    StopRequested,
}

/// What is known of an event in the engine: the opcode it concerns, where
/// that opcode stands, and what happened.
#[derive(Clone, Copy, Debug, PartialEq, Eq, Structural)]
pub struct Diagnostic {
    /// The opcode at `address`, or 0 where no opcode could be read there.
    pub opcode: u16,
    /// The program counter at the time.
    pub address: usize,
    /// What happened.
    pub reason: HaltReason,
}

/// The state of the engine. `Halted` is final.
#[derive(Clone, Copy, Debug, PartialEq, Eq, Structural)]
pub enum EngineState {
    /// The engine executes instructions.
    Running,
    /// The engine has stopped and will not advance again.
    Halted(Diagnostic),
}

/// How one cycle ended.
#[derive(Clone, Copy, Debug, PartialEq, Eq, Structural)]
pub enum StepOutcome {
    /// The instruction was executed.
    Executed(Instruction),
    /// The instruction waits for a key; the next cycle executes it again.
    AwaitingKey,
    /// The opcode was not in the table and was passed over.
    Skipped(Diagnostic),
    /// The engine is halted, by this cycle or from before.
    Halted(Diagnostic),
}

/// The mathematical content of the engine.
#[verifier::ext_equal]
pub struct InterpreterView {
    /// The register and memory store.
    pub mem: MemoryView,
    /// The delay and sound counters.
    pub timers: Timers,
    /// Running or halted.
    pub state: EngineState,
    /// What is done with an opcode outside the table.
    pub policy: DecodeMissPolicy,
    /// The most recent opcode that was passed over, if there was one.
    pub last_miss: Option<Diagnostic>,
}

/// The opcode at the program counter, or 0 where the counter stands on the
/// last byte of RAM.
pub open spec fn current_opcode(mem: MemoryView) -> u16 {
    if mem.pc + 1 < RAM_SIZE {
        mem.opcode_at(mem.pc)
    } else {
        0
    }
}

/// The diagnostic for something that happens at the program counter.
pub open spec fn diagnostic_at(mem: MemoryView, reason: HaltReason) -> Diagnostic {
    Diagnostic { opcode: current_opcode(mem), address: mem.pc as usize, reason: reason }
}

/// The record of a passed-over opcode after an instruction: the opcode and
/// where it stood if this instruction was passed over, else what was on
/// record before.
pub open spec fn recorded_miss(
    engine: InterpreterView,
    instruction: Instruction,
    outcome: Outcome,
) -> Option<Diagnostic> {
    match (instruction, outcome) {
        (Instruction::InvalidInstruction(opcode), Outcome::Skipped) => Some(
            Diagnostic {
                opcode: opcode,
                address: engine.mem.pc as usize,
                reason: HaltReason::Fault(VmError::DecodeMiss),
            },
        ),
        _ => engine.last_miss,
    }
}

/// What a cycle reports for an instruction that did not fault.
pub open spec fn reported(
    engine: InterpreterView,
    instruction: Instruction,
    outcome: Outcome,
) -> StepOutcome {
    match outcome {
        Outcome::Completed => StepOutcome::Executed(instruction),
        Outcome::AwaitingKey => StepOutcome::AwaitingKey,
        Outcome::Skipped => StepOutcome::Skipped(
            diagnostic_at(engine.mem, HaltReason::Fault(VmError::DecodeMiss)),
        ),
    }
}

/// The engine halted at the program counter for `reason`.
pub open spec fn halted(engine: InterpreterView, reason: HaltReason) -> InterpreterView {
    InterpreterView { state: EngineState::Halted(diagnostic_at(engine.mem, reason)), ..engine }
}

/// One cycle. A halted engine stays as it is. A running engine fetches the
/// opcode at the program counter, decodes it and executes it; a fault in any
/// of the three halts the engine, with store, timers and shared state as
/// they were before the cycle. `random` is the byte that a random draw
/// yields.
pub open spec fn step_spec(engine: InterpreterView, game: GameView, random: u8) -> (
    InterpreterView,
    GameView,
    StepOutcome,
) {
    match engine.state {
        EngineState::Halted(diagnostic) => (engine, game, StepOutcome::Halted(diagnostic)),
        EngineState::Running => if engine.mem.pc + 1 >= RAM_SIZE {
            let reason = HaltReason::Fault(VmError::OutOfBounds);
            (halted(engine, reason), game, StepOutcome::Halted(diagnostic_at(engine.mem, reason)))
        } else {
            let instruction = decode_spec(engine.mem.opcode_at(engine.mem.pc));
            let machine = Machine { mem: engine.mem, timers: engine.timers, game: game };
            match execute_spec(machine, instruction, engine.policy, random) {
                Ok((next, outcome)) => (
                    InterpreterView {
                        mem: next.mem,
                        timers: next.timers,
                        last_miss: recorded_miss(engine, instruction, outcome),
                        ..engine
                    },
                    next.game,
                    reported(engine, instruction, outcome),
                ),
                Err(e) => {
                    let reason = HaltReason::Fault(e);
                    (
                        halted(engine, reason),
                        game,
                        StepOutcome::Halted(diagnostic_at(engine.mem, reason)),
                    )
                },
            }
        },
    }
}

/// The execution engine.
pub struct Interpreter {
    mem: Memory,
    timers: Timers,
    state: EngineState,
    policy: DecodeMissPolicy,
    last_miss: Option<Diagnostic>,
}

impl View for Interpreter {
    type V = InterpreterView;

    closed spec fn view(&self) -> InterpreterView {
        InterpreterView {
            mem: self.mem@,
            timers: self.timers,
            state: self.state,
            policy: self.policy,
            last_miss: self.last_miss,
        }
    }
}

/// Masks and shifts of a register value are its remainders and quotients.
proof fn lemma_register_bits(value: u8)
    ensures
        value & 0x01 == value % 2,
        value >> 1 == value / 2,
        (value & 0x80) >> 7 == value / 128,
        value << 1 == (value * 2) % 256,
        value & 0x0F == value % 16,
{
    assert(value & 0x01 == value % 2) by (bit_vector);
    assert(value >> 1 == value / 2) by (bit_vector);
    assert((value & 0x80) >> 7 == value / 128) by (bit_vector);
    assert(value << 1 == (value * 2) % 256) by (bit_vector);
    assert(value & 0x0F == value % 16) by (bit_vector);
}

/// One byte from the generator of the calling thread: `rand::thread_rng()`
/// and, on what it returns, `rand::Rng::gen::<u8>()`. The byte is a matter
/// of chance, so nothing is claimed of it. Not verified: the body is the
/// call. `thread_rng` panics if the operating system gives it no seed, which
/// no argument of this function could rule out.
#[verifier::external_body]
fn random_byte() -> (byte: u8) {
    rand::Rng::gen::<u8>(&mut rand::thread_rng())
}

/// Whether the next cycle of the engine executes `Random`: the engine is
/// running, an opcode can be fetched at the program counter, and it decodes
/// to `Random`. Only then does a cycle look at its random byte.
pub open spec fn draws_random(engine: InterpreterView) -> bool {
    &&& engine.state is Running
    &&& engine.mem.pc + 1 < RAM_SIZE
    &&& decode_spec(engine.mem.opcode_at(engine.mem.pc)) is Random
}

/// One cycle with the random byte `random` took the engine and the shared
/// state from `engine` and `game` to `after` and `after_game` and reported
/// `outcome`.
pub open spec fn stepped(
    engine: InterpreterView,
    game: GameView,
    after: InterpreterView,
    after_game: GameView,
    outcome: StepOutcome,
    random: u8,
) -> bool {
    let next = step_spec(engine, game, random);
    after == next.0 && after_game == next.1 && outcome == next.2
}

/// The instructions from the program counter on, each with its address: as
/// many as `count`, or as many as there are before the end of RAM.
pub open spec fn listing_spec(mem: MemoryView, count: int) -> Seq<(usize, Instruction)> {
    let available = (RAM_SIZE - 1 - mem.pc) / 2;
    Seq::new(
        (if count < available {
            count
        } else {
            available
        }) as nat,
        |k: int| ((mem.pc + 2 * k) as usize, decode_spec(mem.opcode_at(mem.pc + 2 * k))),
    )
}

/// The sum of two register values as a register holds it, and whether it
/// was too large for one.
fn add_bytes(left: u8, right: u8) -> (result: (u8, bool))
    ensures
        result.0 == ((left + right) % 256) as u8,
        result.1 == (left + right > 255),
{
    (left.wrapping_add(right), left as u16 + right as u16 > 255)
}

/// The difference of two register values as a register holds it, and
/// whether nothing had to be borrowed.
fn subtract_bytes(left: u8, right: u8) -> (result: (u8, bool))
    ensures
        result.0 == ((left - right) % 256) as u8,
        result.1 == (left >= right),
{
    (left.wrapping_sub(right), left >= right)
}

/// The address register after a register value is added to it, wrapping at
/// sixteen bits.
fn add_to_index(index: u16, value: u8) -> (sum: u16)
    ensures
        sum == ((index + value) % 0x10000) as u16,
{
    index.wrapping_add(value as u16)
}

/// The address of the font glyph for the digit in the low nibble of `value`.
fn glyph_address(value: u8) -> (addr: u16)
    ensures
        addr == (FONT_BASE + GLYPH_SIZE * (value % 16)) as u16,
{
    proof {
        lemma_register_bits(value);
    }
    let digit: u16 = (value & 0x0F) as u16;
    FONT_BASE as u16 + GLYPH_SIZE as u16 * digit
}

/// The id of the key that a register value names: its low nibble.
fn key_of(value: u8) -> (key_id: u8)
    ensures
        key_id == value % 16,
{
    proof {
        lemma_register_bits(value);
    }
    value & 0x0F
}

impl Interpreter {
    /// Whether the engine has the shape that every operation keeps.
    pub open spec fn wf(&self) -> bool {
        self@.mem.wf()
    }

    /// The state that instructions work on, made of the engine's store and
    /// timers and the shared state `game`.
    pub open spec fn machine(&self, game: GameView) -> Machine {
        Machine { mem: self@.mem, timers: self@.timers, game: game }
    }

    /// `after` differs from `self` at most in the store, which is as
    /// `expected` says: the new store, or on a fault the old one.
    spec fn store_moved(
        &self,
        after: &Interpreter,
        result: Result<Outcome, VmError>,
        expected: Result<MemoryView, VmError>,
    ) -> bool {
        &&& after.timers == self.timers
        &&& after.state == self.state
        &&& after.policy == self.policy
        &&& after.last_miss == self.last_miss
        &&& after.mem.wf()
        &&& match expected {
            Ok(mem) => result == Ok::<Outcome, VmError>(Outcome::Completed) && after.mem@ == mem,
            Err(e) => result == Err::<Outcome, VmError>(e) && after.mem@ == self.mem@,
        }
    }

    /// A running engine with `program` loaded, the counters at zero and the
    /// policy `Skip` for opcodes outside the table. A program of more than
    /// `MAX_PROGRAM_WORDS` opcodes is rejected.
    pub fn new(program: Vec<u16>) -> (result: Result<Interpreter, VmError>)
        ensures
            program@.len() <= MAX_PROGRAM_WORDS ==> result is Ok
                && result->Ok_0.wf() && result->Ok_0@ == (InterpreterView {
                mem: MemoryView::initial().loaded(program@),
                timers: Timers { delay: 0, sound: 0 },
                state: EngineState::Running,
                policy: DecodeMissPolicy::Skip,
                last_miss: None,
            }),
            program@.len() > MAX_PROGRAM_WORDS ==> result is Err && result->Err_0
                == VmError::OutOfBounds,
    {
        Interpreter::with_policy(program, DecodeMissPolicy::Skip)
    }

    /// A running engine with `program` loaded, the counters at zero and the
    /// given policy for opcodes outside the table. A program of more than
    /// `MAX_PROGRAM_WORDS` opcodes is rejected.
    pub fn with_policy(program: Vec<u16>, policy: DecodeMissPolicy) -> (result: Result<
        Interpreter,
        VmError,
    >)
        ensures
            program@.len() <= MAX_PROGRAM_WORDS ==> result is Ok
                && result->Ok_0.wf() && result->Ok_0@ == (InterpreterView {
                mem: MemoryView::initial().loaded(program@),
                timers: Timers { delay: 0, sound: 0 },
                state: EngineState::Running,
                policy: policy,
                last_miss: None,
            }),
            program@.len() > MAX_PROGRAM_WORDS ==> result is Err && result->Err_0
                == VmError::OutOfBounds,
    {
        match Memory::new(program) {
            Ok(mem) => Ok(
                Interpreter {
                    mem: mem,
                    timers: Timers::new(),
                    state: EngineState::Running,
                    policy: policy,
                    last_miss: None,
                },
            ),
            Err(e) => Err(e),
        }
    }

    /// `Vx = value`, then on to the next instruction.
    fn store(&mut self, x: u8, value: u8) -> (result: Result<Outcome, VmError>)
        requires
            old(self).mem.wf(),
        ensures
            old(self).store_moved(final(self), result, store(old(self).mem@, x, value)),
    {
        if x as usize >= REGISTER_COUNT {
            return Err(VmError::OutOfBounds);
        }
        self.mem.inc_pc()?;
        self.mem.set_reg(x, value)?;
        Ok(Outcome::Completed)
    }

    /// The flag register is set from `flag`, then `Vx = value`, then on to
    /// the next instruction.
    fn store_with_flag(&mut self, x: u8, value: u8, flag: bool) -> (result: Result<
        Outcome,
        VmError,
    >)
        requires
            old(self).mem.wf(),
        ensures
            old(self).store_moved(
                final(self),
                result,
                store_with_flag(old(self).mem@, x, value, flag),
            ),
    {
        if x as usize >= REGISTER_COUNT {
            return Err(VmError::OutOfBounds);
        }
        self.mem.inc_pc()?;
        self.mem.set_reg(
            FLAG_REGISTER,
            if flag {
                0x01
            } else {
                0x00
            },
        )?;
        self.mem.set_reg(x, value)?;
        Ok(Outcome::Completed)
    }

    /// A conditional skip: two instructions on when `taken`, else one.
    fn branch(&mut self, taken: bool) -> (result: Result<Outcome, VmError>)
        requires
            old(self).mem.wf(),
        ensures
            old(self).store_moved(final(self), result, branch(old(self).mem@, taken)),
    {
        if taken {
            self.mem.double_inc_pc()?;
        } else {
            self.mem.inc_pc()?;
        }
        Ok(Outcome::Completed)
    }

    /// A jump to `target`.
    fn jump(&mut self, target: usize) -> (result: Result<Outcome, VmError>)
        requires
            old(self).mem.wf(),
        ensures
            old(self).store_moved(final(self), result, jump(old(self).mem@, target as int)),
    {
        if !is_valid_pc(target) {
            return Err(VmError::OutOfBounds);
        }
        self.mem.set_pc(target as u16)?;
        Ok(Outcome::Completed)
    }

    /// A call of the subroutine at `addr`.
    fn call(&mut self, addr: u16) -> (result: Result<Outcome, VmError>)
        requires
            old(self).mem.wf(),
        ensures
            old(self).store_moved(final(self), result, call(old(self).mem@, addr)),
    {
        if self.mem.stack_depth() >= STACK_DEPTH {
            return Err(VmError::StackOverflow);
        }
        let return_address: usize = self.mem.get_pc() + 2;
        if !is_valid_pc(return_address) || !is_valid_pc(addr as usize) {
            return Err(VmError::OutOfBounds);
        }
        self.mem.push_stack(return_address as u16)?;
        self.mem.set_pc(addr)?;
        Ok(Outcome::Completed)
    }

    /// A return from a subroutine.
    fn subroutine_return(&mut self) -> (result: Result<Outcome, VmError>)
        requires
            old(self).mem.wf(),
        ensures
            old(self).store_moved(final(self), result, subroutine_return(old(self).mem@)),
    {
        let return_address: u16 = self.mem.peek_stack()?;
        if !is_valid_pc(return_address as usize) {
            return Err(VmError::OutOfBounds);
        }
        let addr: u16 = self.mem.pop_stack()?;
        self.mem.set_pc(addr)?;
        Ok(Outcome::Completed)
    }

    /// A shift of `Vx` to the right by one bit.
    fn shift_right(&mut self, x: u8) -> (result: Result<Outcome, VmError>)
        requires
            old(self).mem.wf(),
        ensures
            old(self).store_moved(final(self), result, shift_right(old(self).mem@, x)),
    {
        let value: u8 = self.mem.get_reg(x)?;
        self.mem.inc_pc()?;
        let lsb: u8 = value & 0x01;
        self.mem.set_reg(FLAG_REGISTER, lsb)?;
        let current: u8 = self.mem.get_reg(x)?;
        proof {
            lemma_register_bits(value);
            lemma_register_bits(current);
        }
        self.mem.set_reg(x, current >> 1)?;
        Ok(Outcome::Completed)
    }

    /// A shift of `Vx` to the left by one bit.
    fn shift_left(&mut self, x: u8) -> (result: Result<Outcome, VmError>)
        requires
            old(self).mem.wf(),
        ensures
            old(self).store_moved(final(self), result, shift_left(old(self).mem@, x)),
    {
        let value: u8 = self.mem.get_reg(x)?;
        self.mem.inc_pc()?;
        let msb: u8 = (value & 0x80) >> 7;
        self.mem.set_reg(FLAG_REGISTER, msb)?;
        let current: u8 = self.mem.get_reg(x)?;
        proof {
            lemma_register_bits(value);
            lemma_register_bits(current);
        }
        self.mem.set_reg(x, current << 1)?;
        Ok(Outcome::Completed)
    }

    /// `I = value`, then on to the next instruction.
    fn set_index(&mut self, value: u16) -> (result: Result<Outcome, VmError>)
        requires
            old(self).mem.wf(),
        ensures
            old(self).store_moved(final(self), result, set_index(old(self).mem@, value)),
    {
        self.mem.inc_pc()?;
        self.mem.set_ireg(value);
        Ok(Outcome::Completed)
    }

    /// The decimal digits of `Vx` go to the three bytes from `I` on.
    fn to_decimal(&mut self, x: u8) -> (result: Result<Outcome, VmError>)
        requires
            old(self).mem.wf(),
        ensures
            old(self).store_moved(final(self), result, to_decimal(old(self).mem@, x)),
    {
        let num: u8 = self.mem.get_reg(x)?;
        let at: usize = self.mem.get_ireg() as usize;
        if at + 2 >= RAM_SIZE {
            return Err(VmError::OutOfBounds);
        }
        self.mem.inc_pc()?;
        let hundreds: u8 = num / 100;
        let tens: u8 = (num % 100) / 10;
        let ones: u8 = num % 10;
        self.mem.set(at, hundreds)?;
        self.mem.set(at + 1, tens)?;
        self.mem.set(at + 2, ones)?;
        Ok(Outcome::Completed)
    }

    /// `V0` to `Vx` go to the bytes from `I` on.
    fn copy_regs_into_memory(&mut self, x: u8) -> (result: Result<Outcome, VmError>)
        requires
            old(self).mem.wf(),
        ensures
            old(self).store_moved(final(self), result, copy_regs_into_memory(old(self).mem@, x)),
    {
        if x as usize >= REGISTER_COUNT {
            return Err(VmError::OutOfBounds);
        }
        let at: usize = self.mem.get_ireg() as usize;
        if at + x as usize >= RAM_SIZE {
            return Err(VmError::OutOfBounds);
        }
        self.mem.inc_pc()?;
        let ghost start = old(self).mem@;
        let mut k: u8 = 0;
        while k <= x
            invariant
                k <= x + 1,
                x < REGISTER_COUNT,
                at == start.i_reg,
                at + x < RAM_SIZE,
                start == old(self).mem@,
                start.wf(),
                self.mem.wf(),
                self.timers == old(self).timers,
                self.state == old(self).state,
                self.policy == old(self).policy,
                self.last_miss == old(self).last_miss,
                self.mem@ == (MemoryView { ram: self.mem@.ram, pc: start.pc + 2, ..start }),
                forall|a: int|
                    0 <= a < RAM_SIZE ==> self.mem@.ram[a] == if at <= a < at + k {
                        start.registers[a - at]
                    } else {
                        start.ram[a]
                    },
            decreases x + 1 - k,
        {
            let value: u8 = self.mem.get_reg(k)?;
            self.mem.set(at + k as usize, value)?;
            k = k + 1;
        }
        proof {
            let target = copy_regs_into_memory(start, x)->Ok_0;
            assert(self.mem@.ram =~= target.ram);
        }
        Ok(Outcome::Completed)
    }

    /// `V0` to `Vx` come from the bytes from `I` on.
    fn copy_regs_from_memory(&mut self, x: u8) -> (result: Result<Outcome, VmError>)
        requires
            old(self).mem.wf(),
        ensures
            old(self).store_moved(final(self), result, copy_regs_from_memory(old(self).mem@, x)),
    {
        if x as usize >= REGISTER_COUNT {
            return Err(VmError::OutOfBounds);
        }
        let at: usize = self.mem.get_ireg() as usize;
        if at + x as usize >= RAM_SIZE {
            return Err(VmError::OutOfBounds);
        }
        self.mem.inc_pc()?;
        let ghost start = old(self).mem@;
        let mut k: u8 = 0;
        while k <= x
            invariant
                k <= x + 1,
                x < REGISTER_COUNT,
                at == start.i_reg,
                at + x < RAM_SIZE,
                start == old(self).mem@,
                start.wf(),
                self.mem.wf(),
                self.timers == old(self).timers,
                self.state == old(self).state,
                self.policy == old(self).policy,
                self.last_miss == old(self).last_miss,
                self.mem@ == (MemoryView {
                    registers: self.mem@.registers,
                    pc: start.pc + 2,
                    ..start
                }),
                forall|r: int|
                    0 <= r < REGISTER_COUNT ==> self.mem@.registers[r] == if r < k {
                        start.ram[at + r]
                    } else {
                        start.registers[r]
                    },
            decreases x + 1 - k,
        {
            let value: u8 = self.mem.get(at + k as usize)?;
            self.mem.set_reg(k, value)?;
            k = k + 1;
        }
        proof {
            let target = copy_regs_from_memory(start, x)->Ok_0;
            assert(self.mem@.registers =~= target.registers);
        }
        Ok(Outcome::Completed)
    }
    /// The sprite of `n` rows at `I` is drawn at `(Vx, Vy)`.
    fn draw(&mut self, x: u8, y: u8, n: u8, game: &mut GameState) -> (result: Result<
        Outcome,
        VmError,
    >)
        requires
            old(self).mem.wf(),
            old(game).wf(),
        ensures
            final(self).mem.wf(),
            final(game).wf(),
            final(self).state == old(self).state,
            final(self).policy == old(self).policy,
            final(self).last_miss == old(self).last_miss,
            match draw(old(self).machine(old(game)@), x, y, n) {
                Ok((machine, outcome)) => result == Ok::<Outcome, VmError>(outcome)
                    && final(self).machine(final(game)@) == machine,
                Err(e) => result == Err::<Outcome, VmError>(e) && final(self)@ == old(self)@
                    && final(game)@ == old(game)@,
            },
    {
        let column: u8 = self.mem.get_reg(x)?;
        let row: u8 = self.mem.get_reg(y)?;
        let at: usize = self.mem.get_ireg() as usize;
        if n > 0 && at + n as usize > RAM_SIZE {
            return Err(VmError::OutOfBounds);
        }
        let mut bytes: Vec<u8> = Vec::new();
        let mut offset: u8 = 0;
        while offset < n
            invariant
                offset <= n,
                n > 0 ==> at + n <= RAM_SIZE,
                at == self.mem@.i_reg,
                self.mem.wf(),
                *self == *old(self),
                bytes@ == sprite_at(self.mem@, offset),
            decreases n - offset,
        {
            let byte: u8 = self.mem.get(at + offset as usize)?;
            bytes.push(byte);
            offset = offset + 1;
        }
        self.mem.inc_pc()?;
        let collision: bool = display_byte_sprite(game, column as usize, row as usize, bytes);
        self.mem.set_reg(
            FLAG_REGISTER,
            if collision {
                0x01
            } else {
                0x00
            },
        )?;
        Ok(Outcome::Completed)
    }

    /// An instruction took `self` and `game` to `after` and `after_game`
    /// as the semantics say, or faulted and changed nothing.
    spec fn executed(
        &self,
        game: GameView,
        after: &Interpreter,
        after_game: GameView,
        result: Result<Outcome, VmError>,
        instruction: Instruction,
        random: u8,
    ) -> bool {
        &&& after.mem.wf()
        &&& after.state == self.state
        &&& after.policy == self.policy
        &&& match execute_spec(self.machine(game), instruction, self.policy, random) {
            Ok((machine, outcome)) => result == Ok::<Outcome, VmError>(outcome)
                && after.machine(after_game) == machine && after.last_miss == recorded_miss(
                self@,
                instruction,
                outcome,
            ),
            Err(e) => result == Err::<Outcome, VmError>(e) && after@ == self@ && after_game
                == game,
        }
    }

    /// Jumps, calls, returns and the skips that compare registers.
    fn execute_flow(
        &mut self,
        instruction: Instruction,
        Ghost(game): Ghost<GameView>,
    ) -> (result: Result<Outcome, VmError>)
        requires
            old(self).mem.wf(),
            is_flow(instruction),
        ensures
            forall|random: u8|
                old(self).executed(game, final(self), game, result, instruction, random),
    {
        match instruction {
            Instruction::ReturnFromSubroutine => self.subroutine_return(),
            Instruction::JumpToLoc(addr) => self.jump(addr as usize),
            Instruction::CallSubroutine(addr) => self.call(addr),
            Instruction::SkipEq(reg_idx, byte) => {
                let value: u8 = self.mem.get_reg(reg_idx)?;
                self.branch(value == byte)
            },
            Instruction::SkipNeq(reg_idx, byte) => {
                let value: u8 = self.mem.get_reg(reg_idx)?;
                self.branch(value != byte)
            },
            Instruction::SkipRegsEq(reg_idx, reg_idy) => {
                let left: u8 = self.mem.get_reg(reg_idx)?;
                let right: u8 = self.mem.get_reg(reg_idy)?;
                self.branch(left == right)
            },
            Instruction::SkipRegsNeq(reg_idx, reg_idy) => {
                let left: u8 = self.mem.get_reg(reg_idx)?;
                let right: u8 = self.mem.get_reg(reg_idy)?;
                self.branch(left != right)
            },
            Instruction::JumpToLocRel(offset) => {
                let base: u8 = self.mem.get_reg(0x00)?;
                self.jump(offset as usize + base as usize)
            },
            _ => unreached(),
        }
    }

    /// Moves between registers and arithmetic on them.
    fn execute_arithmetic(
        &mut self,
        instruction: Instruction,
        random: u8,
        Ghost(game): Ghost<GameView>,
    ) -> (result: Result<Outcome, VmError>)
        requires
            old(self).mem.wf(),
            is_arithmetic(instruction),
        ensures
            old(self).executed(game, final(self), game, result, instruction, random),
    {
        match instruction {
            Instruction::SetReg(reg_idx, byte) => self.store(reg_idx, byte),
            Instruction::AddReg(reg_idx, byte) => {
                let value: u8 = self.mem.get_reg(reg_idx)?;
                let (sum, _) = add_bytes(value, byte);
                self.store(reg_idx, sum)
            },
            Instruction::SetRegFromReg(reg_idx, reg_idy) => {
                let value: u8 = self.mem.get_reg(reg_idy)?;
                self.store(reg_idx, value)
            },
            Instruction::BitwiseOr(reg_idx, reg_idy) => {
                let left: u8 = self.mem.get_reg(reg_idx)?;
                let right: u8 = self.mem.get_reg(reg_idy)?;
                self.store(reg_idx, left | right)
            },
            Instruction::BitwiseAnd(reg_idx, reg_idy) => {
                let left: u8 = self.mem.get_reg(reg_idx)?;
                let right: u8 = self.mem.get_reg(reg_idy)?;
                self.store(reg_idx, left & right)
            },
            Instruction::BitwiseXor(reg_idx, reg_idy) => {
                let left: u8 = self.mem.get_reg(reg_idx)?;
                let right: u8 = self.mem.get_reg(reg_idy)?;
                self.store(reg_idx, left ^ right)
            },
            Instruction::AddRegWithCarry(reg_idx, reg_idy) => {
                let left: u8 = self.mem.get_reg(reg_idx)?;
                let right: u8 = self.mem.get_reg(reg_idy)?;
                let (sum, carry) = add_bytes(left, right);
                self.store_with_flag(reg_idx, sum, carry)
            },
            Instruction::SubReg(reg_idx, reg_idy) => {
                let left: u8 = self.mem.get_reg(reg_idx)?;
                let right: u8 = self.mem.get_reg(reg_idy)?;
                let (diff, no_borrow) = subtract_bytes(left, right);
                self.store_with_flag(reg_idx, diff, no_borrow)
            },
            Instruction::ShiftRight(reg_idx, _) => self.shift_right(reg_idx),
            Instruction::SubRegBackwards(reg_idx, reg_idy) => {
                let left: u8 = self.mem.get_reg(reg_idx)?;
                let right: u8 = self.mem.get_reg(reg_idy)?;
                let (diff, no_borrow) = subtract_bytes(right, left);
                self.store_with_flag(reg_idx, diff, no_borrow)
            },
            Instruction::ShiftLeft(reg_idx, _) => self.shift_left(reg_idx),
            Instruction::Random(reg_idx, byte) => self.store(reg_idx, random & byte),
            _ => unreached(),
        }
    }

    /// The address register and the transfers between registers and RAM.
    fn execute_indexing(
        &mut self,
        instruction: Instruction,
        Ghost(game): Ghost<GameView>,
    ) -> (result: Result<Outcome, VmError>)
        requires
            old(self).mem.wf(),
            is_indexing(instruction),
        ensures
            forall|random: u8|
                old(self).executed(game, final(self), game, result, instruction, random),
    {
        match instruction {
            Instruction::SetI(addr) => self.set_index(addr),
            Instruction::AddI(reg_idx) => {
                let value: u8 = self.mem.get_reg(reg_idx)?;
                let sum: u16 = add_to_index(self.mem.get_ireg(), value);
                self.set_index(sum)
            },
            Instruction::LoadSprite(reg_idx) => {
                let value: u8 = self.mem.get_reg(reg_idx)?;
                self.set_index(glyph_address(value))
            },
            Instruction::ToDecimal(reg_idx) => self.to_decimal(reg_idx),
            Instruction::CopyRegsIntoMemory(reg_idx) => self.copy_regs_into_memory(reg_idx),
            Instruction::CopyRegsFromMemory(reg_idx) => self.copy_regs_from_memory(reg_idx),
            _ => unreached(),
        }
    }

    /// The timers.
    fn execute_timing(
        &mut self,
        instruction: Instruction,
        Ghost(game): Ghost<GameView>,
    ) -> (result: Result<Outcome, VmError>)
        requires
            old(self).mem.wf(),
            is_timing(instruction),
        ensures
            forall|random: u8|
                old(self).executed(game, final(self), game, result, instruction, random),
    {
        match instruction {
            Instruction::SetRegToDelayTimer(reg_idx) => {
                let value: u8 = self.timers.get_dt_reg();
                self.store(reg_idx, value)
            },
            Instruction::SetDelayTimer(reg_idx) => {
                let value: u8 = self.mem.get_reg(reg_idx)?;
                self.mem.inc_pc()?;
                self.timers.set_dt_reg(value);
                Ok(Outcome::Completed)
            },
            Instruction::SetSoundTimer(reg_idx) => {
                let value: u8 = self.mem.get_reg(reg_idx)?;
                self.mem.inc_pc()?;
                self.timers.set_st_reg(value);
                Ok(Outcome::Completed)
            },
            _ => unreached(),
        }
    }

    /// The framebuffer, the keypad and opcodes outside the table.
    fn execute_shared(&mut self, instruction: Instruction, game: &mut GameState) -> (result: Result<
        Outcome,
        VmError,
    >)
        requires
            old(self).mem.wf(),
            old(game).wf(),
            is_shared(instruction),
        ensures
            final(game).wf(),
            forall|random: u8|
                old(self).executed(
                    old(game)@,
                    final(self),
                    final(game)@,
                    result,
                    instruction,
                    random,
                ),
    {
        match instruction {
            Instruction::ClearDisplay => {
                self.mem.inc_pc()?;
                game.clear_display();
                Ok(Outcome::Completed)
            },
            Instruction::DrawSprite(reg_idx, reg_idy, n) => self.draw(reg_idx, reg_idy, n, game),
            Instruction::SkipIfPressed(reg_idx) => {
                let value: u8 = self.mem.get_reg(reg_idx)?;
                let pressed: bool = game.get_key_state(key_of(value)) == KeyState::Pressed;
                self.branch(pressed)
            },
            Instruction::SkipIfNotPressed(reg_idx) => {
                let value: u8 = self.mem.get_reg(reg_idx)?;
                let released: bool = game.get_key_state(key_of(value)) == KeyState::Released;
                self.branch(released)
            },
            Instruction::BlockOnKeypress(reg_idx) => {
                if reg_idx as usize >= REGISTER_COUNT {
                    return Err(VmError::OutOfBounds);
                }
                match game.pressed_key() {
                    Some(key_id) => self.store(reg_idx, key_id),
                    None => Ok(Outcome::AwaitingKey),
                }
            },
            Instruction::InvalidInstruction(byte_code) => match self.policy {
                DecodeMissPolicy::Halt => Err(VmError::DecodeMiss),
                DecodeMissPolicy::Skip => {
                    let address: usize = self.mem.get_pc();
                    self.mem.inc_pc()?;
                    self.last_miss = Some(
                        Diagnostic {
                            opcode: byte_code,
                            address: address,
                            reason: HaltReason::Fault(VmError::DecodeMiss),
                        },
                    );
                    Ok(Outcome::Skipped)
                },
            },
            _ => unreached(),
        }
    }

    /// Executes one instruction on a running engine: applies what the
    /// instruction does to the store, the timers and `game`, or faults and
    /// changes nothing. `random` is the byte that `Random` masks; no other
    /// instruction looks at it.
    pub fn execute(
        &mut self,
        instruction: Instruction,
        game: &mut GameState,
        random: u8,
    ) -> (result: Result<Outcome, VmError>)
        requires
            old(self).wf(),
            old(game).wf(),
            old(self)@.state is Running,
        ensures
            final(self).wf(),
            final(game).wf(),
            final(self)@.state == old(self)@.state,
            final(self)@.policy == old(self)@.policy,
            match execute_spec(
                old(self).machine(old(game)@),
                instruction,
                old(self)@.policy,
                random,
            ) {
                Ok((machine, outcome)) => result == Ok::<Outcome, VmError>(outcome)
                    && final(self).machine(final(game)@) == machine && final(self)@.last_miss
                    == recorded_miss(old(self)@, instruction, outcome),
                Err(e) => result == Err::<Outcome, VmError>(e) && final(self)@ == old(self)@
                    && final(game)@ == old(game)@,
            },
    {
        let result = match instruction {
            Instruction::ReturnFromSubroutine
            | Instruction::JumpToLoc(_)
            | Instruction::CallSubroutine(_)
            | Instruction::SkipEq(_, _)
            | Instruction::SkipNeq(_, _)
            | Instruction::SkipRegsEq(_, _)
            | Instruction::SkipRegsNeq(_, _)
            | Instruction::JumpToLocRel(_) => self.execute_flow(instruction, Ghost(game@)),
            Instruction::SetReg(_, _)
            | Instruction::AddReg(_, _)
            | Instruction::SetRegFromReg(_, _)
            | Instruction::BitwiseOr(_, _)
            | Instruction::BitwiseAnd(_, _)
            | Instruction::BitwiseXor(_, _)
            | Instruction::AddRegWithCarry(_, _)
            | Instruction::SubReg(_, _)
            | Instruction::ShiftRight(_, _)
            | Instruction::SubRegBackwards(_, _)
            | Instruction::ShiftLeft(_, _)
            | Instruction::Random(_, _) => self.execute_arithmetic(
                instruction,
                random,
                Ghost(game@),
            ),
            Instruction::SetI(_)
            | Instruction::AddI(_)
            | Instruction::LoadSprite(_)
            | Instruction::ToDecimal(_)
            | Instruction::CopyRegsIntoMemory(_)
            | Instruction::CopyRegsFromMemory(_) => self.execute_indexing(
                instruction,
                Ghost(game@),
            ),
            Instruction::SetRegToDelayTimer(_)
            | Instruction::SetDelayTimer(_)
            | Instruction::SetSoundTimer(_) => self.execute_timing(instruction, Ghost(game@)),
            Instruction::ClearDisplay
            | Instruction::DrawSprite(_, _, _)
            | Instruction::SkipIfPressed(_)
            | Instruction::SkipIfNotPressed(_)
            | Instruction::BlockOnKeypress(_)
            | Instruction::InvalidInstruction(_) => self.execute_shared(instruction, game),
        };
        assert(old(self).executed(old(game)@, self, game@, result, instruction, random));
        result
    }
    /// One cycle with a given random byte. A halted engine stays as it is
    /// and reports its diagnostic. A running engine fetches the opcode at
    /// the program counter, decodes it and executes it, with `random` as the
    /// byte that `Random` masks. A fault halts the engine; the diagnostic
    /// holds the opcode, its address and the fault.
    pub fn step_with(&mut self, game: &mut GameState, random: u8) -> (outcome: StepOutcome)
        requires
            old(self).wf(),
            old(game).wf(),
        ensures
            final(self).wf(),
            final(game).wf(),
            stepped(old(self)@, old(game)@, final(self)@, final(game)@, outcome, random),
    {
        match self.state {
            EngineState::Halted(diagnostic) => {
                return StepOutcome::Halted(diagnostic);
            },
            EngineState::Running => {},
        }
        let address: usize = self.mem.get_pc();
        let byte_code: u16 = match self.mem.fetch_instruction() {
            Ok(byte_code) => byte_code,
            Err(e) => {
                let diagnostic = Diagnostic {
                    opcode: 0,
                    address: address,
                    reason: HaltReason::Fault(e),
                };
                self.state = EngineState::Halted(diagnostic);
                return StepOutcome::Halted(diagnostic);
            },
        };
        let instruction: Instruction = decode(byte_code);
        match self.execute(instruction, game, random) {
            Ok(Outcome::Completed) => StepOutcome::Executed(instruction),
            Ok(Outcome::AwaitingKey) => StepOutcome::AwaitingKey,
            Ok(Outcome::Skipped) => StepOutcome::Skipped(
                Diagnostic {
                    opcode: byte_code,
                    address: address,
                    reason: HaltReason::Fault(VmError::DecodeMiss),
                },
            ),
            Err(e) => {
                let diagnostic = Diagnostic {
                    opcode: byte_code,
                    address: address,
                    reason: HaltReason::Fault(e),
                };
                self.state = EngineState::Halted(diagnostic);
                StepOutcome::Halted(diagnostic)
            },
        }
    }

    /// Whether the next cycle executes `Random`.
    fn next_is_random(&self) -> (random: bool)
        requires
            self.wf(),
        ensures
            random == draws_random(self@),
    {
        match self.state {
            EngineState::Halted(_) => false,
            EngineState::Running => match self.mem.fetch_instruction() {
                Ok(byte_code) => match decode(byte_code) {
                    Instruction::Random(_, _) => true,
                    _ => false,
                },
                Err(_) => false,
            },
        }
    }

    /// One cycle. Where the instruction is `Random`, the byte comes from the
    /// thread's random number generator: the cycle is `step_with` for some
    /// byte. Where it is not, no byte is drawn and the cycle is `step_with`
    /// for the byte 0.
    pub fn step(&mut self, game: &mut GameState) -> (outcome: StepOutcome)
        requires
            old(self).wf(),
            old(game).wf(),
        ensures
            final(self).wf(),
            final(game).wf(),
            exists|random: u8| #[trigger]
                stepped(old(self)@, old(game)@, final(self)@, final(game)@, outcome, random),
            !draws_random(old(self)@) ==> stepped(
                old(self)@,
                old(game)@,
                final(self)@,
                final(game)@,
                outcome,
                0,
            ),
    {
        let random: u8 = if self.next_is_random() {
            random_byte()
        } else {
            0
        };
        self.step_with(game, random)
    }

    /// Halts a running engine on a request from outside. A halted engine
    /// stays as it is, with the diagnostic it has.
    pub fn request_stop(&mut self)
        requires
            old(self).wf(),
        ensures
            final(self).wf(),
            final(self)@ == if old(self)@.state is Running {
                halted(old(self)@, HaltReason::StopRequested)
            } else {
                old(self)@
            },
    {
        match self.state {
            EngineState::Halted(_) => {},
            EngineState::Running => {
                let opcode: u16 = match self.mem.fetch_instruction() {
                    Ok(byte_code) => byte_code,
                    Err(_) => 0,
                };
                self.state = EngineState::Halted(
                    Diagnostic {
                        opcode: opcode,
                        address: self.mem.get_pc(),
                        reason: HaltReason::StopRequested,
                    },
                );
            },
        }
    }

    /// Lets `ticks` timer ticks pass. The counters of a halted engine stand
    /// still.
    pub fn tick_timers(&mut self, ticks: u64)
        requires
            old(self).wf(),
        ensures
            final(self).wf(),
            final(self)@ == if old(self)@.state is Running {
                InterpreterView { timers: old(self)@.timers.ticked(ticks as nat), ..old(self)@ }
            } else {
                old(self)@
            },
    {
        match self.state {
            EngineState::Halted(_) => {},
            EngineState::Running => {
                self.timers.advance(ticks);
            },
        }
    }

    /// The store.
    pub fn memory(&self) -> (mem: &Memory)
        ensures
            mem@ == self@.mem,
            self.wf() ==> mem.wf(),
    {
        &self.mem
    }

    /// The delay and sound counters.
    pub fn timers(&self) -> (timers: Timers)
        ensures
            timers == self@.timers,
    {
        self.timers
    }

    /// Running or halted, and if halted, why.
    pub fn state(&self) -> (state: EngineState)
        ensures
            state == self@.state,
    {
        self.state
    }

    /// Whether the engine is running.
    pub fn is_running(&self) -> (running: bool)
        ensures
            running == (self@.state is Running),
    {
        match self.state {
            EngineState::Running => true,
            EngineState::Halted(_) => false,
        }
    }

    /// What the engine does with an opcode outside the table.
    pub fn policy(&self) -> (policy: DecodeMissPolicy)
        ensures
            policy == self@.policy,
    {
        self.policy
    }

    /// The most recent opcode that was passed over, if there was one.
    pub fn last_miss(&self) -> (miss: Option<Diagnostic>)
        ensures
            miss == self@.last_miss,
    {
        self.last_miss
    }

    /// The instructions from the program counter on, each with its address:
    /// `count` of them, or fewer where RAM ends before. Nothing is executed
    /// and nothing changes.
    pub fn disassemble(&self, count: usize) -> (listing: Vec<(usize, Instruction)>)
        requires
            self.wf(),
        ensures
            listing@ == listing_spec(self@.mem, count as int),
    {
        let mut listing: Vec<(usize, Instruction)> = Vec::new();
        let start: usize = self.mem.get_pc();
        let available: usize = (RAM_SIZE - 1 - start) / 2;
        let wanted: usize = if count < available {
            count
        } else {
            available
        };
        let mut k: usize = 0;
        while k < wanted
            invariant
                k <= wanted,
                wanted <= available,
                available == (RAM_SIZE - 1 - start) / 2,
                start == self@.mem.pc,
                self.wf(),
                listing@.len() == k,
                forall|j: int|
                    0 <= j < k ==> listing@[j] == (
                        (start + 2 * j) as usize,
                        decode_spec(self@.mem.opcode_at(start + 2 * j)),
                    ),
            decreases wanted - k,
        {
            let address: usize = start + 2 * k;
            let byte_code: u16 = match self.mem.opcode_at(address) {
                Ok(byte_code) => byte_code,
                Err(_) => 0,
            };
            listing.push((address, decode(byte_code)));
            k = k + 1;
        }
        listing
    }
}

} // verus!
