//! The register and memory store: RAM, the sixteen general registers, the
//! address register, the program counter and the call stack.
//!
//! The store is owned and mutated by the engine alone. Every accessor checks
//! its index: nothing is read or written outside an array.

use vstd::prelude::*;
use crate::error::VmError;

verus! {

/// Number of addressable bytes: addresses run over `[0x000, 0xFFF)`.
pub const RAM_SIZE: usize = 0xFFF;

/// Address at which a program image is loaded and execution starts.
pub const PROGRAM_BASE: usize = 0x200;

/// Largest number of return addresses the call stack can hold.
pub const STACK_DEPTH: usize = 16;

/// Number of general registers.
pub const REGISTER_COUNT: usize = 16;

/// Index of the register that receives carry, borrow and collision flags.
pub const FLAG_REGISTER: u8 = 0x0F;

/// Width of one instruction in bytes.
pub const INSTRUCTION_WIDTH: usize = 2;

/// Largest number of opcodes a loaded program can have.
pub const MAX_PROGRAM_WORDS: usize = 1791;

/// Address of the first byte of the built-in digit font.
pub const FONT_BASE: usize = 0x050;

/// Number of bytes in one font glyph.
pub const GLYPH_SIZE: usize = 5;

/// Number of bytes in the whole font: sixteen glyphs.
pub const FONT_SIZE: usize = 80;

/// The built-in font: glyphs for the digits `0` to `F`, five rows each, the
/// four leftmost pixels of a row in the high nibble.
pub const FONT: [u8; 80] = [
    0xF0, 0x90, 0x90, 0x90, 0xF0,
    0x20, 0x60, 0x20, 0x20, 0x70,
    0xF0, 0x10, 0xF0, 0x80, 0xF0,
    0xF0, 0x10, 0xF0, 0x10, 0xF0,
    0x90, 0x90, 0xF0, 0x10, 0x10,
    0xF0, 0x80, 0xF0, 0x10, 0xF0,
    0xF0, 0x80, 0xF0, 0x90, 0xF0,
    0xF0, 0x10, 0x20, 0x40, 0x40,
    0xF0, 0x90, 0xF0, 0x90, 0xF0,
    0xF0, 0x90, 0xF0, 0x10, 0xF0,
    0xF0, 0x90, 0xF0, 0x90, 0x90,
    0xE0, 0x90, 0xE0, 0x90, 0xE0,
    0xF0, 0x80, 0x80, 0x80, 0xF0,
    0xE0, 0x90, 0x90, 0x90, 0xE0,
    0xF0, 0x80, 0xF0, 0x80, 0xF0,
    0xF0, 0x80, 0xF0, 0x80, 0x80,
];

/// A program counter is valid when it is word-aligned and lies in
/// `[PROGRAM_BASE, RAM_SIZE)`.
pub open spec fn valid_pc(pc: int) -> bool {
    PROGRAM_BASE <= pc < RAM_SIZE && pc % 2 == 0
}

/// The high byte of an opcode, which is stored first.
pub open spec fn high_byte(word: u16) -> u8 {
    (word as int / 0x100) as u8
}

/// The low byte of an opcode, which is stored second.
pub open spec fn low_byte(word: u16) -> u8 {
    (word as int % 0x100) as u8
}

/// The opcode made of two consecutive bytes, high byte first.
pub open spec fn word_of(high: u8, low: u8) -> u16 {
    (high as int * 0x100 + low as int) as u16
}

/// RAM as it is before any program is loaded: the font at `FONT_BASE`, zero
/// everywhere else.
pub open spec fn initial_ram() -> Seq<u8> {
    Seq::new(
        RAM_SIZE as nat,
        |a: int|
            if FONT_BASE <= a < FONT_BASE + FONT_SIZE {
                FONT@[a - FONT_BASE]
            } else {
                0u8
            },
    )
}

/// The mathematical content of the store.
#[verifier::ext_equal]
pub struct MemoryView {
    /// The bytes of RAM, by address.
    pub ram: Seq<u8>,
    /// The general registers `V0` to `VF`.
    pub registers: Seq<u8>,
    /// The address register `I`.
    pub i_reg: u16,
    /// The program counter.
    pub pc: int,
    /// The call stack, the most recent return address last.
    pub stack: Seq<u16>,
}

impl MemoryView {
    /// The shape every store has: full-size RAM and register file, a bounded
    /// stack and a valid program counter.
    pub open spec fn wf(self) -> bool {
        &&& self.ram.len() == RAM_SIZE
        &&& self.registers.len() == REGISTER_COUNT
        &&& self.stack.len() <= STACK_DEPTH
        &&& valid_pc(self.pc)
    }

    /// The store before a program is loaded.
    pub open spec fn initial() -> MemoryView {
        MemoryView {
            ram: initial_ram(),
            registers: Seq::new(REGISTER_COUNT as nat, |r: int| 0u8),
            i_reg: 0,
            pc: PROGRAM_BASE as int,
            stack: Seq::empty(),
        }
    }

    /// The value of register `reg`.
    pub open spec fn reg(self, reg: u8) -> u8 {
        self.registers[reg as int]
    }

    /// The store with register `reg` holding `value`.
    pub open spec fn with_reg(self, reg: u8, value: u8) -> MemoryView {
        MemoryView { registers: self.registers.update(reg as int, value), ..self }
    }

    /// The store with the address register holding `value`.
    pub open spec fn with_ireg(self, value: u16) -> MemoryView {
        MemoryView { i_reg: value, ..self }
    }

    /// The store with the program counter at `pc`.
    pub open spec fn with_pc(self, pc: int) -> MemoryView {
        MemoryView { pc: pc, ..self }
    }

    /// The store with `data` pushed on the call stack.
    pub open spec fn pushed(self, data: u16) -> MemoryView {
        MemoryView { stack: self.stack.push(data), ..self }
    }

    /// The store with the top of the call stack removed.
    pub open spec fn popped(self) -> MemoryView {
        MemoryView { stack: self.stack.drop_last(), ..self }
    }

    /// The store with the byte at `addr` holding `value`.
    pub open spec fn with_byte(self, addr: int, value: u8) -> MemoryView {
        MemoryView { ram: self.ram.update(addr, value), ..self }
    }

    /// The opcode stored at `addr` and `addr + 1`.
    pub open spec fn opcode_at(self, addr: int) -> u16 {
        word_of(self.ram[addr], self.ram[addr + 1])
    }

    /// The store with `program` written from `PROGRAM_BASE` on, two bytes per
    /// opcode, high byte first.
    pub open spec fn loaded(self, program: Seq<u16>) -> MemoryView {
        MemoryView {
            ram: Seq::new(
                self.ram.len(),
                |a: int|
                    if PROGRAM_BASE <= a < PROGRAM_BASE + 2 * program.len() {
                        if (a - PROGRAM_BASE) % 2 == 0 {
                            high_byte(program[(a - PROGRAM_BASE) / 2])
                        } else {
                            low_byte(program[(a - PROGRAM_BASE) / 2])
                        }
                    } else {
                        self.ram[a]
                    },
            ),
            ..self
        }
    }
}

/// The register and memory store.
pub struct Memory {
    ram: Vec<u8>,
    program_counter: usize,
    stack: Vec<u16>,
    registers: [u8; 16],
    i_reg: u16,
}

impl View for Memory {
    type V = MemoryView;

    closed spec fn view(&self) -> MemoryView {
        MemoryView {
            ram: self.ram@,
            registers: self.registers@,
            i_reg: self.i_reg,
            pc: self.program_counter as int,
            stack: self.stack@,
        }
    }
}

/// Splitting an opcode into bytes with shifts and masks gives its high and
/// low byte, and joining two bytes gives back the opcode they came from.
pub proof fn lemma_word_bytes(word: u16, high: u8, low: u8)
    ensures
        word >> 8 == high_byte(word),
        word & 0x00FF == low_byte(word),
        ((high as u16) << 8) | (low as u16) == word_of(high, low),
        word_of(high_byte(word), low_byte(word)) == word,
        high_byte(word_of(high, low)) == high,
        low_byte(word_of(high, low)) == low,
{
    assert(word >> 8 == word / 0x100) by (bit_vector);
    assert(word & 0x00FF == word % 0x100) by (bit_vector);
    assert(((high as u16) << 8) | (low as u16) == high * 0x100 + low) by (bit_vector);
}

/// Whether `pc` is a valid program counter.
pub fn is_valid_pc(pc: usize) -> (valid: bool)
    ensures
        valid == valid_pc(pc as int),
{
    PROGRAM_BASE <= pc && pc < RAM_SIZE && pc % 2 == 0
}

impl Memory {
    /// Whether the store has the shape that every operation keeps.
    pub open spec fn wf(&self) -> bool {
        self@.wf()
    }

    /// A store with the font in place, all registers zero, an empty stack,
    /// the program counter at `PROGRAM_BASE` and `program` loaded there.
    /// A program of more than `MAX_PROGRAM_WORDS` opcodes does not fit and is
    /// rejected.
    pub fn new(program: Vec<u16>) -> (result: Result<Memory, VmError>)
        ensures
            program@.len() <= MAX_PROGRAM_WORDS ==> result is Ok && result->Ok_0.wf()
                && result->Ok_0@ == MemoryView::initial().loaded(program@),
            program@.len() > MAX_PROGRAM_WORDS ==> result == Err::<Memory, VmError>(
                VmError::OutOfBounds,
            ),
    {
        let mut ram: Vec<u8> = vec![0u8; RAM_SIZE];
        let mut k: usize = 0;
        while k < FONT_SIZE
            invariant
                k <= FONT_SIZE,
                ram@.len() == RAM_SIZE,
                forall|a: int|
                    0 <= a < RAM_SIZE ==> ram@[a] == if FONT_BASE <= a < FONT_BASE + k {
                        FONT@[a - FONT_BASE]
                    } else {
                        0u8
                    },
            decreases FONT_SIZE - k,
        {
            ram[FONT_BASE + k] = FONT[k];
            k = k + 1;
        }
        let mut mem = Memory {
            ram: ram,
            program_counter: PROGRAM_BASE,
            stack: Vec::new(),
            registers: [0u8; 16],
            i_reg: 0x0000,
        };
        match mem.load_program(program) {
            Ok(()) => Ok(mem),
            Err(e) => Err(e),
        }
    }

    /// Writes `program` into RAM from `PROGRAM_BASE` on, two bytes per opcode,
    /// high byte first. A program that does not fit is rejected and nothing
    /// is written.
    pub fn load_program(&mut self, program: Vec<u16>) -> (result: Result<(), VmError>)
        requires
            old(self).wf(),
        ensures
            final(self).wf(),
            program@.len() <= MAX_PROGRAM_WORDS ==> result is Ok && final(self)@ == old(
                self
            )@.loaded(program@),
            program@.len() > MAX_PROGRAM_WORDS ==> result == Err::<(), VmError>(
                VmError::OutOfBounds,
            ) && final(self)@ == old(self)@,
    {
        if program.len() > MAX_PROGRAM_WORDS {
            return Err(VmError::OutOfBounds);
        }
        let mut i: usize = 0;
        while i < program.len()
            invariant
                i <= program.len(),
                program.len() <= MAX_PROGRAM_WORDS,
                self.wf(),
                self@ == (MemoryView { ram: self@.ram, ..old(self)@ }),
                forall|a: int|
                    0 <= a < RAM_SIZE ==> self@.ram[a] == if PROGRAM_BASE <= a < PROGRAM_BASE + 2
                        * i {
                        if (a - PROGRAM_BASE) % 2 == 0 {
                            high_byte(program@[(a - PROGRAM_BASE) / 2])
                        } else {
                            low_byte(program@[(a - PROGRAM_BASE) / 2])
                        }
                    } else {
                        old(self)@.ram[a]
                    },
            decreases program.len() - i,
        {
            let instruction: u16 = program[i];
            proof {
                lemma_word_bytes(instruction, 0, 0);
            }
            let first_byte: u8 = (instruction >> 8) as u8;
            let second_byte: u8 = (instruction & 0x00FF) as u8;
            let addr: usize = PROGRAM_BASE + 2 * i;
            self.ram[addr] = first_byte;
            self.ram[addr + 1] = second_byte;
            i = i + 1;
        }
        Ok(())
    }

    /// The opcode stored at `addr` and `addr + 1`, high byte first, or
    /// `OutOfBounds` where one of the two lies past the end of RAM.
    pub fn opcode_at(&self, addr: usize) -> (result: Result<u16, VmError>)
        requires
            self.wf(),
        ensures
            addr + 1 < RAM_SIZE ==> result == Ok::<u16, VmError>(self@.opcode_at(addr as int)),
            addr + 1 >= RAM_SIZE ==> result == Err::<u16, VmError>(VmError::OutOfBounds),
    {
        if addr >= RAM_SIZE - 1 {
            return Err(VmError::OutOfBounds);
        }
        let first_byte: u8 = self.ram[addr];
        let second_byte: u8 = self.ram[addr + 1];
        proof {
            lemma_word_bytes(0, first_byte, second_byte);
        }
        Ok(((first_byte as u16) << 8) | (second_byte as u16))
    }

    /// The opcode at the program counter. Reading it needs two bytes: with
    /// the counter on the last byte of RAM there is none.
    pub fn fetch_instruction(&self) -> (result: Result<u16, VmError>)
        requires
            self.wf(),
        ensures
            self@.pc + 1 < RAM_SIZE ==> result == Ok::<u16, VmError>(self@.opcode_at(self@.pc)),
            self@.pc + 1 >= RAM_SIZE ==> result == Err::<u16, VmError>(VmError::OutOfBounds),
    {
        self.opcode_at(self.program_counter)
    }

    /// Advances the program counter by one instruction. Fails, changing
    /// nothing, when that would leave the valid range.
    pub fn inc_pc(&mut self) -> (result: Result<(), VmError>)
        requires
            old(self).wf(),
        ensures
            final(self).wf(),
            valid_pc(old(self)@.pc + 2) ==> result is Ok && final(self)@ == old(self)@.with_pc(
                old(self)@.pc + 2,
            ),
            !valid_pc(old(self)@.pc + 2) ==> result == Err::<(), VmError>(VmError::OutOfBounds)
                && final(self)@ == old(self)@,
    {
        if self.program_counter + INSTRUCTION_WIDTH >= RAM_SIZE {
            return Err(VmError::OutOfBounds);
        }
        self.program_counter = self.program_counter + INSTRUCTION_WIDTH;
        Ok(())
    }

    /// Advances the program counter by two instructions, as a taken skip
    /// does. Fails, changing nothing, when that would leave the valid range.
    pub fn double_inc_pc(&mut self) -> (result: Result<(), VmError>)
        requires
            old(self).wf(),
        ensures
            final(self).wf(),
            valid_pc(old(self)@.pc + 4) ==> result is Ok && final(self)@ == old(self)@.with_pc(
                old(self)@.pc + 4,
            ),
            !valid_pc(old(self)@.pc + 4) ==> result == Err::<(), VmError>(VmError::OutOfBounds)
                && final(self)@ == old(self)@,
    {
        if self.program_counter + 2 * INSTRUCTION_WIDTH >= RAM_SIZE {
            return Err(VmError::OutOfBounds);
        }
        self.program_counter = self.program_counter + 2 * INSTRUCTION_WIDTH;
        Ok(())
    }

    /// The value of register `reg`, or `OutOfBounds` for an index past `VF`.
    pub fn get_reg(&self, reg: u8) -> (result: Result<u8, VmError>)
        requires
            self.wf(),
        ensures
            reg < REGISTER_COUNT ==> result == Ok::<u8, VmError>(self@.reg(reg)),
            reg >= REGISTER_COUNT ==> result == Err::<u8, VmError>(VmError::OutOfBounds),
    {
        if reg as usize >= REGISTER_COUNT {
            return Err(VmError::OutOfBounds);
        }
        Ok(self.registers[reg as usize])
    }

    /// Stores `value` in register `reg`. An index past `VF` is rejected and
    /// nothing changes.
    pub fn set_reg(&mut self, reg: u8, value: u8) -> (result: Result<(), VmError>)
        requires
            old(self).wf(),
        ensures
            final(self).wf(),
            reg < REGISTER_COUNT ==> result is Ok && final(self)@ == old(self)@.with_reg(
                reg,
                value,
            ),
            reg >= REGISTER_COUNT ==> result == Err::<(), VmError>(VmError::OutOfBounds)
                && final(self)@ == old(self)@,
    {
        if reg as usize >= REGISTER_COUNT {
            return Err(VmError::OutOfBounds);
        }
        self.registers[reg as usize] = value;
        Ok(())
    }

    /// The address register.
    pub fn get_ireg(&self) -> (value: u16)
        ensures
            value == self@.i_reg,
    {
        self.i_reg
    }

    /// Stores `value` in the address register.
    pub fn set_ireg(&mut self, value: u16)
        ensures
            final(self)@ == old(self)@.with_ireg(value),
    {
        self.i_reg = value;
    }

    /// The program counter.
    pub fn get_pc(&self) -> (pc: usize)
        ensures
            pc == self@.pc,
    {
        self.program_counter
    }

    /// Moves the program counter to `pc`. A target that is odd or outside
    /// `[PROGRAM_BASE, RAM_SIZE)` is rejected and nothing changes.
    pub fn set_pc(&mut self, pc: u16) -> (result: Result<(), VmError>)
        requires
            old(self).wf(),
        ensures
            final(self).wf(),
            valid_pc(pc as int) ==> result is Ok && final(self)@ == old(self)@.with_pc(pc as int),
            !valid_pc(pc as int) ==> result == Err::<(), VmError>(VmError::OutOfBounds)
                && final(self)@ == old(self)@,
    {
        let target: usize = pc as usize;
        if target < PROGRAM_BASE || target >= RAM_SIZE || target % 2 != 0 {
            return Err(VmError::OutOfBounds);
        }
        self.program_counter = target;
        Ok(())
    }

    /// Pushes a return address. With `STACK_DEPTH` addresses already on the
    /// stack the push fails with `StackOverflow` and nothing changes.
    pub fn push_stack(&mut self, data: u16) -> (result: Result<(), VmError>)
        requires
            old(self).wf(),
        ensures
            final(self).wf(),
            old(self)@.stack.len() < STACK_DEPTH ==> result is Ok && final(self)@ == old(
                self
            )@.pushed(data),
            old(self)@.stack.len() >= STACK_DEPTH ==> result == Err::<(), VmError>(
                VmError::StackOverflow,
            ) && final(self)@ == old(self)@,
    {
        if self.stack.len() >= STACK_DEPTH {
            return Err(VmError::StackOverflow);
        }
        self.stack.push(data);
        Ok(())
    }

    /// Pops the most recent return address. On an empty stack the pop fails
    /// with `StackUnderflow` and nothing changes.
    pub fn pop_stack(&mut self) -> (result: Result<u16, VmError>)
        requires
            old(self).wf(),
        ensures
            final(self).wf(),
            old(self)@.stack.len() > 0 ==> result == Ok::<u16, VmError>(old(self)@.stack.last())
                && final(self)@ == old(self)@.popped(),
            old(self)@.stack.len() == 0 ==> result == Err::<u16, VmError>(
                VmError::StackUnderflow,
            ) && final(self)@ == old(self)@,
    {
        match self.stack.pop() {
            Some(addr) => Ok(addr),
            None => Err(VmError::StackUnderflow),
        }
    }

    /// Number of return addresses on the call stack.
    pub fn stack_depth(&self) -> (depth: usize)
        ensures
            depth == self@.stack.len(),
    {
        self.stack.len()
    }

    /// The most recent return address, which stays on the stack. On an empty
    /// stack there is none: `StackUnderflow`.
    pub fn peek_stack(&self) -> (result: Result<u16, VmError>)
        ensures
            self@.stack.len() > 0 ==> result == Ok::<u16, VmError>(self@.stack.last()),
            self@.stack.len() == 0 ==> result == Err::<u16, VmError>(VmError::StackUnderflow),
    {
        if self.stack.len() == 0 {
            return Err(VmError::StackUnderflow);
        }
        Ok(self.stack[self.stack.len() - 1])
    }

    /// The byte at `addr`, or `OutOfBounds` for an address past the end of
    /// RAM.
    pub fn get(&self, addr: usize) -> (result: Result<u8, VmError>)
        requires
            self.wf(),
        ensures
            addr < RAM_SIZE ==> result == Ok::<u8, VmError>(self@.ram[addr as int]),
            addr >= RAM_SIZE ==> result == Err::<u8, VmError>(VmError::OutOfBounds),
    {
        if addr >= RAM_SIZE {
            return Err(VmError::OutOfBounds);
        }
        Ok(self.ram[addr])
    }

    /// Stores `value` at `addr`. An address past the end of RAM is rejected
    /// and nothing changes.
    pub fn set(&mut self, addr: usize, value: u8) -> (result: Result<(), VmError>)
        requires
            old(self).wf(),
        ensures
            final(self).wf(),
            addr < RAM_SIZE ==> result is Ok && final(self)@ == old(self)@.with_byte(
                addr as int,
                value,
            ),
            addr >= RAM_SIZE ==> result == Err::<(), VmError>(VmError::OutOfBounds)
                && final(self)@ == old(self)@,
    {
        if addr >= RAM_SIZE {
            return Err(VmError::OutOfBounds);
        }
        self.ram[addr] = value;
        Ok(())
    }
}

} // verus!
