use chip8::error::VmError;
use chip8::memory::{
    is_valid_pc, Memory, FONT, FONT_BASE, MAX_PROGRAM_WORDS, PROGRAM_BASE, RAM_SIZE,
};
use chip8::rom::program_from_bytes;

fn empty_store() -> Memory {
    Memory::new(Vec::new()).unwrap()
}

#[test]
fn a_new_store_starts_at_the_program_base_with_zeroed_registers() {
    let mem = empty_store();
    assert_eq!(mem.get_pc(), 0x200);
    assert_eq!(mem.get_ireg(), 0);
    assert_eq!(mem.stack_depth(), 0);
    for reg in 0..16u8 {
        assert_eq!(mem.get_reg(reg), Ok(0));
    }
}

#[test]
fn a_new_store_holds_the_font() {
    let mem = empty_store();
    for k in 0..80usize {
        assert_eq!(mem.get(FONT_BASE + k), Ok(FONT[k]));
    }
    assert_eq!(mem.get(FONT_BASE), Ok(0xF0));
    assert_eq!(mem.get(FONT_BASE + 5), Ok(0x20));
    assert_eq!(mem.get(FONT_BASE + 79), Ok(0x80));
    assert_eq!(mem.get(FONT_BASE + 80), Ok(0x00));
    assert_eq!(mem.get(0), Ok(0x00));
}

#[test]
fn a_program_is_loaded_high_byte_first() {
    let mem = Memory::new(vec![0x1ABC, 0x00E0]).unwrap();
    assert_eq!(mem.get(0x200), Ok(0x1A));
    assert_eq!(mem.get(0x201), Ok(0xBC));
    assert_eq!(mem.get(0x202), Ok(0x00));
    assert_eq!(mem.get(0x203), Ok(0xE0));
    assert_eq!(mem.get(0x204), Ok(0x00));
    assert_eq!(mem.fetch_instruction(), Ok(0x1ABC));
}

#[test]
fn the_largest_program_fits_and_one_more_word_does_not() {
    let full = vec![0x1234u16; MAX_PROGRAM_WORDS];
    let mem = Memory::new(full).unwrap();
    assert_eq!(mem.get(PROGRAM_BASE + 2 * MAX_PROGRAM_WORDS - 1), Ok(0x34));
    assert_eq!(mem.get(RAM_SIZE - 1), Ok(0x00));
    let too_long = vec![0x1234u16; MAX_PROGRAM_WORDS + 1];
    assert_eq!(Memory::new(too_long).err(), Some(VmError::OutOfBounds));
}

#[test]
fn a_rejected_load_writes_nothing() {
    let mut mem = Memory::new(vec![0x6001]).unwrap();
    let too_long = vec![0xFFFFu16; MAX_PROGRAM_WORDS + 1];
    assert_eq!(mem.load_program(too_long), Err(VmError::OutOfBounds));
    assert_eq!(mem.fetch_instruction(), Ok(0x6001));
    assert_eq!(mem.get(0x202), Ok(0x00));
}

#[test]
fn registers_are_bounds_checked() {
    let mut mem = empty_store();
    assert_eq!(mem.set_reg(0xF, 0xAB), Ok(()));
    assert_eq!(mem.get_reg(0xF), Ok(0xAB));
    assert_eq!(mem.set_reg(16, 1), Err(VmError::OutOfBounds));
    assert_eq!(mem.get_reg(16), Err(VmError::OutOfBounds));
    assert_eq!(mem.get_reg(255), Err(VmError::OutOfBounds));
    assert_eq!(mem.get_reg(0xF), Ok(0xAB));
}

#[test]
fn ram_is_bounds_checked() {
    let mut mem = empty_store();
    assert_eq!(mem.set(RAM_SIZE - 1, 0x5A), Ok(()));
    assert_eq!(mem.get(RAM_SIZE - 1), Ok(0x5A));
    assert_eq!(mem.set(RAM_SIZE, 1), Err(VmError::OutOfBounds));
    assert_eq!(mem.get(RAM_SIZE), Err(VmError::OutOfBounds));
    assert_eq!(mem.get(usize::MAX), Err(VmError::OutOfBounds));
}

#[test]
fn the_address_register_holds_sixteen_bits() {
    let mut mem = empty_store();
    mem.set_ireg(0xFFFF);
    assert_eq!(mem.get_ireg(), 0xFFFF);
}

#[test]
fn the_program_counter_stays_aligned_and_in_range() {
    let mut mem = empty_store();
    assert_eq!(mem.set_pc(0x300), Ok(()));
    assert_eq!(mem.get_pc(), 0x300);
    assert_eq!(mem.set_pc(0x301), Err(VmError::OutOfBounds));
    assert_eq!(mem.set_pc(0x1FE), Err(VmError::OutOfBounds));
    assert_eq!(mem.set_pc(0x0FFF), Err(VmError::OutOfBounds));
    assert_eq!(mem.set_pc(0x1000), Err(VmError::OutOfBounds));
    assert_eq!(mem.get_pc(), 0x300);
    assert_eq!(mem.set_pc(0x0FFE), Ok(()));
    assert_eq!(mem.set_pc(0x200), Ok(()));
    assert!(is_valid_pc(0x200));
    assert!(is_valid_pc(0xFFE));
    assert!(!is_valid_pc(0xFFF));
    assert!(!is_valid_pc(0x201));
    assert!(!is_valid_pc(0x1FE));
}

#[test]
fn the_program_counter_advances_by_one_or_two_instructions() {
    let mut mem = empty_store();
    assert_eq!(mem.inc_pc(), Ok(()));
    assert_eq!(mem.get_pc(), 0x202);
    assert_eq!(mem.double_inc_pc(), Ok(()));
    assert_eq!(mem.get_pc(), 0x206);
}

#[test]
fn the_program_counter_does_not_run_off_the_end() {
    let mut mem = empty_store();
    assert_eq!(mem.set_pc(0xFFC), Ok(()));
    assert_eq!(mem.double_inc_pc(), Err(VmError::OutOfBounds));
    assert_eq!(mem.get_pc(), 0xFFC);
    assert_eq!(mem.inc_pc(), Ok(()));
    assert_eq!(mem.get_pc(), 0xFFE);
    assert_eq!(mem.inc_pc(), Err(VmError::OutOfBounds));
    assert_eq!(mem.get_pc(), 0xFFE);
}

#[test]
fn nothing_can_be_fetched_from_the_last_byte() {
    let mut mem = empty_store();
    assert_eq!(mem.set(0xFFC, 0x12), Ok(()));
    assert_eq!(mem.set(0xFFD, 0x34), Ok(()));
    assert_eq!(mem.set_pc(0xFFC), Ok(()));
    assert_eq!(mem.fetch_instruction(), Ok(0x1234));
    assert_eq!(mem.set_pc(0xFFE), Ok(()));
    assert_eq!(mem.fetch_instruction(), Err(VmError::OutOfBounds));
}

#[test]
fn the_stack_is_last_in_first_out() {
    let mut mem = empty_store();
    for k in 0..16u16 {
        assert_eq!(mem.push_stack(0x200 + 2 * k), Ok(()));
    }
    assert_eq!(mem.stack_depth(), 16);
    assert_eq!(mem.peek_stack(), Ok(0x21E));
    for k in (0..16u16).rev() {
        assert_eq!(mem.pop_stack(), Ok(0x200 + 2 * k));
    }
    assert_eq!(mem.stack_depth(), 0);
}

#[test]
fn the_seventeenth_push_overflows() {
    let mut mem = empty_store();
    for k in 0..16u16 {
        assert_eq!(mem.push_stack(k), Ok(()));
    }
    assert_eq!(mem.push_stack(99), Err(VmError::StackOverflow));
    assert_eq!(mem.stack_depth(), 16);
    assert_eq!(mem.pop_stack(), Ok(15));
}

#[test]
fn a_pop_from_an_empty_stack_underflows() {
    let mut mem = empty_store();
    assert_eq!(mem.pop_stack(), Err(VmError::StackUnderflow));
    assert_eq!(mem.peek_stack(), Err(VmError::StackUnderflow));
    assert_eq!(mem.push_stack(7), Ok(()));
    assert_eq!(mem.pop_stack(), Ok(7));
    assert_eq!(mem.pop_stack(), Err(VmError::StackUnderflow));
}

#[test]
fn an_image_is_read_as_big_endian_words() {
    assert_eq!(program_from_bytes(&vec![0x12, 0x34, 0xAB, 0xCD]), vec![0x1234, 0xABCD]);
    assert_eq!(program_from_bytes(&vec![0x00, 0xE0]), vec![0x00E0]);
    assert_eq!(program_from_bytes(&Vec::new()), Vec::<u16>::new());
}

#[test]
fn a_trailing_byte_of_an_image_is_dropped() {
    assert_eq!(program_from_bytes(&vec![0x12, 0x34, 0xAB]), vec![0x1234]);
    assert_eq!(program_from_bytes(&vec![0x12]), Vec::<u16>::new());
}

#[test]
fn a_loaded_image_is_in_ram_byte_for_byte() {
    let image: Vec<u8> = vec![0x60, 0xFF, 0x61, 0x01, 0x80, 0x14];
    let mem = Memory::new(program_from_bytes(&image)).unwrap();
    for (k, byte) in image.iter().enumerate() {
        assert_eq!(mem.get(PROGRAM_BASE + k), Ok(*byte));
    }
}

#[test]
fn an_opcode_is_read_from_two_bytes_anywhere_in_ram() {
    let mut mem = Memory::new(vec![0xA1B2, 0xC3D4]).unwrap();
    assert_eq!(mem.opcode_at(0x200), Ok(0xA1B2));
    assert_eq!(mem.opcode_at(0x201), Ok(0xB2C3));
    assert_eq!(mem.opcode_at(0x202), Ok(0xC3D4));
    assert_eq!(mem.opcode_at(FONT_BASE), Ok(0xF090));
    assert_eq!(mem.set(RAM_SIZE - 1, 0x99), Ok(()));
    assert_eq!(mem.opcode_at(RAM_SIZE - 2), Ok(0x0099));
    assert_eq!(mem.opcode_at(RAM_SIZE - 1), Err(VmError::OutOfBounds));
    assert_eq!(mem.opcode_at(usize::MAX), Err(VmError::OutOfBounds));
}
