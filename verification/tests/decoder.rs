use chip8::instruction::{decode, Instruction};

#[test]
fn decodes_clear_display() {
    assert_eq!(decode(0x00E0), Instruction::ClearDisplay);
}

#[test]
fn decodes_return() {
    assert_eq!(decode(0x00EE), Instruction::ReturnFromSubroutine);
}

#[test]
fn decodes_jump_with_twelve_bit_address() {
    assert_eq!(decode(0x1ABC), Instruction::JumpToLoc(0xABC));
}

#[test]
fn decodes_add_with_carry() {
    assert_eq!(decode(0x8AB4), Instruction::AddRegWithCarry(0xA, 0xB));
}

#[test]
fn decodes_every_family_with_its_operands() {
    assert_eq!(decode(0x2123), Instruction::CallSubroutine(0x123));
    assert_eq!(decode(0x3A42), Instruction::SkipEq(0xA, 0x42));
    assert_eq!(decode(0x4B99), Instruction::SkipNeq(0xB, 0x99));
    assert_eq!(decode(0x5120), Instruction::SkipRegsEq(0x1, 0x2));
    assert_eq!(decode(0x6C7F), Instruction::SetReg(0xC, 0x7F));
    assert_eq!(decode(0x7D01), Instruction::AddReg(0xD, 0x01));
    assert_eq!(decode(0x8120), Instruction::SetRegFromReg(0x1, 0x2));
    assert_eq!(decode(0x8121), Instruction::BitwiseOr(0x1, 0x2));
    assert_eq!(decode(0x8122), Instruction::BitwiseAnd(0x1, 0x2));
    assert_eq!(decode(0x8123), Instruction::BitwiseXor(0x1, 0x2));
    assert_eq!(decode(0x8125), Instruction::SubReg(0x1, 0x2));
    assert_eq!(decode(0x8126), Instruction::ShiftRight(0x1, 0x2));
    assert_eq!(decode(0x8127), Instruction::SubRegBackwards(0x1, 0x2));
    assert_eq!(decode(0x812E), Instruction::ShiftLeft(0x1, 0x2));
    assert_eq!(decode(0x9340), Instruction::SkipRegsNeq(0x3, 0x4));
    assert_eq!(decode(0xA2F0), Instruction::SetI(0x2F0));
    assert_eq!(decode(0xB300), Instruction::JumpToLocRel(0x300));
    assert_eq!(decode(0xC50F), Instruction::Random(0x5, 0x0F));
    assert_eq!(decode(0xD125), Instruction::DrawSprite(0x1, 0x2, 0x5));
    assert_eq!(decode(0xE79E), Instruction::SkipIfPressed(0x7));
    assert_eq!(decode(0xE7A1), Instruction::SkipIfNotPressed(0x7));
    assert_eq!(decode(0xF807), Instruction::SetRegToDelayTimer(0x8));
    assert_eq!(decode(0xF80A), Instruction::BlockOnKeypress(0x8));
    assert_eq!(decode(0xF815), Instruction::SetDelayTimer(0x8));
    assert_eq!(decode(0xF818), Instruction::SetSoundTimer(0x8));
    assert_eq!(decode(0xF81E), Instruction::AddI(0x8));
    assert_eq!(decode(0xF829), Instruction::LoadSprite(0x8));
    assert_eq!(decode(0xF833), Instruction::ToDecimal(0x8));
    assert_eq!(decode(0xF855), Instruction::CopyRegsIntoMemory(0x8));
    assert_eq!(decode(0xF865), Instruction::CopyRegsFromMemory(0x8));
}

#[test]
fn skips_on_registers_ignore_the_low_nibble() {
    assert_eq!(decode(0x5AB4), Instruction::SkipRegsEq(0xA, 0xB));
    assert_eq!(decode(0x9ABF), Instruction::SkipRegsNeq(0xA, 0xB));
}

#[test]
fn patterns_outside_the_table_are_invalid_and_keep_their_bits() {
    assert_eq!(decode(0x0000), Instruction::InvalidInstruction(0x0000));
    assert_eq!(decode(0x00E1), Instruction::InvalidInstruction(0x00E1));
    assert_eq!(decode(0x0123), Instruction::InvalidInstruction(0x0123));
    assert_eq!(decode(0x8AB8), Instruction::InvalidInstruction(0x8AB8));
    assert_eq!(decode(0x8ABF), Instruction::InvalidInstruction(0x8ABF));
    assert_eq!(decode(0xE19F), Instruction::InvalidInstruction(0xE19F));
    assert_eq!(decode(0xF1FF), Instruction::InvalidInstruction(0xF1FF));
    assert_eq!(decode(0xFFFF), Instruction::InvalidInstruction(0xFFFF));
}

#[test]
fn every_invalid_result_carries_its_own_opcode() {
    let mut opcode: u32 = 0;
    let mut invalid: u32 = 0;
    while opcode <= 0xFFFF {
        if let Instruction::InvalidInstruction(bits) = decode(opcode as u16) {
            assert_eq!(bits as u32, opcode);
            invalid += 1;
        }
        opcode += 1;
    }
    // 0x0nnn but two, seven low nibbles of 0x8, and all but two and nine
    // low bytes of 0xE and 0xF.
    assert_eq!(invalid, 4094 + 7 * 256 + 254 * 16 + 247 * 16);
}
