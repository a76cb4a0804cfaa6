//! The instruction set and its decoder.
//!
//! An opcode is sixteen bits wide. Its top four bits select a family; the
//! families `0x0`, `0x8`, `0xE` and `0xF` are refined by the whole opcode, the
//! low nibble or the low byte. Operands are cut out of fixed bit positions.

use vstd::prelude::*;

verus! {

/// A decoded instruction. Each variant carries only the operands it needs:
/// register indices, an immediate byte, a 12-bit address or a sprite height.
#[derive(Clone, Copy, Debug, PartialEq, Eq, Structural)]
pub enum Instruction {
    /// `00E0`: clear the framebuffer.
    ClearDisplay,
    /// `00EE`: return from a subroutine.
    ReturnFromSubroutine,
    /// `1nnn`: jump to `nnn`.
    JumpToLoc(u16),
    /// `2nnn`: call the subroutine at `nnn`.
    CallSubroutine(u16),
    /// `3xkk`: skip the next instruction if `Vx == kk`.
    SkipEq(u8, u8),
    /// `4xkk`: skip the next instruction if `Vx != kk`.
    SkipNeq(u8, u8),
    /// `5xy_`: skip the next instruction if `Vx == Vy`.
    SkipRegsEq(u8, u8),
    /// `6xkk`: `Vx = kk`.
    SetReg(u8, u8),
    /// `7xkk`: `Vx = Vx + kk`, wrapping, flag untouched.
    AddReg(u8, u8),
    /// `8xy0`: `Vx = Vy`.
    SetRegFromReg(u8, u8),
    /// `8xy1`: `Vx = Vx | Vy`.
    BitwiseOr(u8, u8),
    /// `8xy2`: `Vx = Vx & Vy`.
    BitwiseAnd(u8, u8),
    /// `8xy3`: `Vx = Vx ^ Vy`.
    BitwiseXor(u8, u8),
    /// `8xy4`: `Vx = Vx + Vy`, flag = carry.
    AddRegWithCarry(u8, u8),
    /// `8xy5`: `Vx = Vx - Vy`, flag = no borrow.
    SubReg(u8, u8),
    /// `8xy6`: `Vx = Vx >> 1`, flag = bit shifted out.
    ShiftRight(u8, u8),
    /// `8xy7`: `Vx = Vy - Vx`, flag = no borrow.
    SubRegBackwards(u8, u8),
    /// `8xyE`: `Vx = Vx << 1`, flag = bit shifted out.
    ShiftLeft(u8, u8),
    /// `9xy_`: skip the next instruction if `Vx != Vy`.
    SkipRegsNeq(u8, u8),
    /// `Annn`: `I = nnn`.
    SetI(u16),
    /// `Bnnn`: jump to `nnn + V0`.
    JumpToLocRel(u16),
    /// `Cxkk`: `Vx = random byte & kk`.
    Random(u8, u8),
    /// `Dxyn`: draw an `n`-row sprite from `I` at `(Vx, Vy)`.
    DrawSprite(u8, u8, u8),
    /// `Ex9E`: skip the next instruction if key `Vx` is pressed.
    SkipIfPressed(u8),
    /// `ExA1`: skip the next instruction if key `Vx` is not pressed.
    SkipIfNotPressed(u8),
    /// `Fx07`: `Vx = delay timer`.
    SetRegToDelayTimer(u8),
    /// `Fx0A`: wait for a key press and store its id in `Vx`.
    BlockOnKeypress(u8),
    /// `Fx15`: `delay timer = Vx`.
    SetDelayTimer(u8),
    /// `Fx18`: `sound timer = Vx`.
    SetSoundTimer(u8),
    /// `Fx1E`: `I = I + Vx`.
    AddI(u8),
    /// `Fx29`: `I = address of the font glyph for the digit in Vx`.
    LoadSprite(u8),
    /// `Fx33`: store the decimal digits of `Vx` at `I`, `I + 1`, `I + 2`.
    ToDecimal(u8),
    /// `Fx55`: store `V0..=Vx` in memory starting at `I`.
    CopyRegsIntoMemory(u8),
    /// `Fx65`: load `V0..=Vx` from memory starting at `I`.
    CopyRegsFromMemory(u8),
    /// Any bit pattern outside the table, with the opcode as fetched.
    InvalidInstruction(u16),
}

/// The family selector: the top four bits of the opcode.
pub open spec fn family(opcode: u16) -> int {
    opcode as int / 0x1000
}

/// The address operand: the low twelve bits.
pub open spec fn operand_addr(opcode: u16) -> u16 {
    (opcode as int % 0x1000) as u16
}

/// The first register operand: bits 8 to 11.
pub open spec fn operand_x(opcode: u16) -> u8 {
    ((opcode as int / 0x100) % 0x10) as u8
}

/// The second register operand: bits 4 to 7.
pub open spec fn operand_y(opcode: u16) -> u8 {
    ((opcode as int / 0x10) % 0x10) as u8
}

/// The immediate byte: the low eight bits.
pub open spec fn operand_byte(opcode: u16) -> u8 {
    (opcode as int % 0x100) as u8
}

/// The low nibble: the low four bits.
pub open spec fn operand_nibble(opcode: u16) -> u8 {
    (opcode as int % 0x10) as u8
}

/// The instruction table: what each sixteen-bit pattern stands for.
pub open spec fn decode_spec(opcode: u16) -> Instruction {
    let addr = operand_addr(opcode);
    let x = operand_x(opcode);
    let y = operand_y(opcode);
    let kk = operand_byte(opcode);
    let n = operand_nibble(opcode);
    let fam = family(opcode);
    if fam == 0x0 {
        if opcode == 0x00E0 {
            Instruction::ClearDisplay
        } else if opcode == 0x00EE {
            Instruction::ReturnFromSubroutine
        } else {
            Instruction::InvalidInstruction(opcode)
        }
    } else if fam == 0x1 {
        Instruction::JumpToLoc(addr)
    } else if fam == 0x2 {
        Instruction::CallSubroutine(addr)
    } else if fam == 0x3 {
        Instruction::SkipEq(x, kk)
    } else if fam == 0x4 {
        Instruction::SkipNeq(x, kk)
    } else if fam == 0x5 {
        Instruction::SkipRegsEq(x, y)
    } else if fam == 0x6 {
        Instruction::SetReg(x, kk)
    } else if fam == 0x7 {
        Instruction::AddReg(x, kk)
    } else if fam == 0x8 {
        if n == 0x0 {
            Instruction::SetRegFromReg(x, y)
        } else if n == 0x1 {
            Instruction::BitwiseOr(x, y)
        } else if n == 0x2 {
            Instruction::BitwiseAnd(x, y)
        } else if n == 0x3 {
            Instruction::BitwiseXor(x, y)
        } else if n == 0x4 {
            Instruction::AddRegWithCarry(x, y)
        } else if n == 0x5 {
            Instruction::SubReg(x, y)
        } else if n == 0x6 {
            Instruction::ShiftRight(x, y)
        } else if n == 0x7 {
            Instruction::SubRegBackwards(x, y)
        } else if n == 0xE {
            Instruction::ShiftLeft(x, y)
        } else {
            Instruction::InvalidInstruction(opcode)
        }
    } else if fam == 0x9 {
        Instruction::SkipRegsNeq(x, y)
    } else if fam == 0xA {
        Instruction::SetI(addr)
    } else if fam == 0xB {
        Instruction::JumpToLocRel(addr)
    } else if fam == 0xC {
        Instruction::Random(x, kk)
    } else if fam == 0xD {
        Instruction::DrawSprite(x, y, n)
    } else if fam == 0xE {
        if kk == 0x9E {
            Instruction::SkipIfPressed(x)
        } else if kk == 0xA1 {
            Instruction::SkipIfNotPressed(x)
        } else {
            Instruction::InvalidInstruction(opcode)
        }
    } else {
        if kk == 0x07 {
            Instruction::SetRegToDelayTimer(x)
        } else if kk == 0x0A {
            Instruction::BlockOnKeypress(x)
        } else if kk == 0x15 {
            Instruction::SetDelayTimer(x)
        } else if kk == 0x18 {
            Instruction::SetSoundTimer(x)
        } else if kk == 0x1E {
            Instruction::AddI(x)
        } else if kk == 0x29 {
            Instruction::LoadSprite(x)
        } else if kk == 0x33 {
            Instruction::ToDecimal(x)
        } else if kk == 0x55 {
            Instruction::CopyRegsIntoMemory(x)
        } else if kk == 0x65 {
            Instruction::CopyRegsFromMemory(x)
        } else {
            Instruction::InvalidInstruction(opcode)
        }
    }
}

/// The bit fields of an opcode, cut out with masks and shifts, are the
/// quotients and remainders that the instruction table is written in.
proof fn lemma_opcode_fields(opcode: u16)
    ensures
        (opcode & 0xF000) >> 12 == family(opcode),
        opcode & 0x0FFF == operand_addr(opcode),
        (opcode & 0x0F00) >> 8 == operand_x(opcode),
        (opcode & 0x00F0) >> 4 == operand_y(opcode),
        opcode & 0x00FF == operand_byte(opcode),
        opcode & 0x000F == operand_nibble(opcode),
{
    assert((opcode & 0xF000) >> 12 == opcode / 0x1000) by (bit_vector);
    assert(opcode & 0x0FFF == opcode % 0x1000) by (bit_vector);
    assert((opcode & 0x0F00) >> 8 == (opcode / 0x100) % 0x10) by (bit_vector);
    assert((opcode & 0x00F0) >> 4 == (opcode / 0x10) % 0x10) by (bit_vector);
    assert(opcode & 0x00FF == opcode % 0x100) by (bit_vector);
    assert(opcode & 0x000F == opcode % 0x10) by (bit_vector);
}

/// Decodes a sixteen-bit opcode into its instruction. Total and pure: a
/// pattern outside the table comes back as `InvalidInstruction` with the
/// opcode in it.
pub fn decode(byte_code: u16) -> (instruction: Instruction)
    ensures
        instruction == decode_spec(byte_code),
{
    proof {
        lemma_opcode_fields(byte_code);
    }
    let first_nibble: u8 = ((byte_code & 0xF000) >> 12) as u8;
    let last_nibble: u8 = (byte_code & 0x000F) as u8;
    let addr: u16 = byte_code & 0x0FFF;
    let x: u8 = ((byte_code & 0x0F00) >> 8) as u8;
    let y: u8 = ((byte_code & 0x00F0) >> 4) as u8;
    let kk: u8 = (byte_code & 0x00FF) as u8;
    match first_nibble {
        0x00 => match byte_code {
            0x00E0 => Instruction::ClearDisplay,
            0x00EE => Instruction::ReturnFromSubroutine,
            _ => Instruction::InvalidInstruction(byte_code),
        },
        0x01 => Instruction::JumpToLoc(addr),
        0x02 => Instruction::CallSubroutine(addr),
        0x03 => Instruction::SkipEq(x, kk),
        0x04 => Instruction::SkipNeq(x, kk),
        0x05 => Instruction::SkipRegsEq(x, y),
        0x06 => Instruction::SetReg(x, kk),
        0x07 => Instruction::AddReg(x, kk),
        0x08 => match last_nibble {
            0x00 => Instruction::SetRegFromReg(x, y),
            0x01 => Instruction::BitwiseOr(x, y),
            0x02 => Instruction::BitwiseAnd(x, y),
            0x03 => Instruction::BitwiseXor(x, y),
            0x04 => Instruction::AddRegWithCarry(x, y),
            0x05 => Instruction::SubReg(x, y),
            0x06 => Instruction::ShiftRight(x, y),
            0x07 => Instruction::SubRegBackwards(x, y),
            0x0E => Instruction::ShiftLeft(x, y),
            _ => Instruction::InvalidInstruction(byte_code),
        },
        0x09 => Instruction::SkipRegsNeq(x, y),
        0x0A => Instruction::SetI(addr),
        0x0B => Instruction::JumpToLocRel(addr),
        0x0C => Instruction::Random(x, kk),
        0x0D => Instruction::DrawSprite(x, y, last_nibble),
        0x0E => match kk {
            0x9E => Instruction::SkipIfPressed(x),
            0xA1 => Instruction::SkipIfNotPressed(x),
            _ => Instruction::InvalidInstruction(byte_code),
        },
        0x0F => match kk {
            0x07 => Instruction::SetRegToDelayTimer(x),
            0x0A => Instruction::BlockOnKeypress(x),
            0x15 => Instruction::SetDelayTimer(x),
            0x18 => Instruction::SetSoundTimer(x),
            0x1E => Instruction::AddI(x),
            0x29 => Instruction::LoadSprite(x),
            0x33 => Instruction::ToDecimal(x),
            0x55 => Instruction::CopyRegsIntoMemory(x),
            0x65 => Instruction::CopyRegsFromMemory(x),
            _ => Instruction::InvalidInstruction(byte_code),
        },
        _ => Instruction::InvalidInstruction(byte_code),
    }
}

} // verus!
