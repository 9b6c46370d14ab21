use vmma18::instruction::{decode, Instruction, Opcode};

#[test]
fn every_group_number_has_its_opcode() {
    assert_eq!(Opcode::from_integer(0x0), Opcode::Miscellaneous);
    assert_eq!(Opcode::from_integer(0x1), Opcode::Pop);
    assert_eq!(Opcode::from_integer(0x2), Opcode::BinaryArithmetic);
    assert_eq!(Opcode::from_integer(0x3), Opcode::UnaryArithmetic);
    assert_eq!(Opcode::from_integer(0x4), Opcode::StringPrint);
    assert_eq!(Opcode::from_integer(0x5), Opcode::Call);
    assert_eq!(Opcode::from_integer(0x6), Opcode::Return);
    assert_eq!(Opcode::from_integer(0x7), Opcode::Goto);
    assert_eq!(Opcode::from_integer(0x8), Opcode::BinaryIf);
    assert_eq!(Opcode::from_integer(0x9), Opcode::UnaryIf);
    assert_eq!(Opcode::from_integer(0xA), Opcode::Unknown);
    assert_eq!(Opcode::from_integer(0xB), Opcode::Unknown);
    assert_eq!(Opcode::from_integer(0xC), Opcode::Dup);
    assert_eq!(Opcode::from_integer(0xD), Opcode::Print);
    assert_eq!(Opcode::from_integer(0xE), Opcode::Dump);
    assert_eq!(Opcode::from_integer(0xF), Opcode::Push);
    assert_eq!(Opcode::from_integer(0x10), Opcode::Unknown);
    assert_eq!(Opcode::from_integer(0xFF), Opcode::Unknown);
}

#[test]
fn exit_takes_the_low_eight_bits() {
    assert_eq!(decode(0x0000_0000), Some(Instruction::Exit(0)));
    assert_eq!(decode(0x0000_0005), Some(Instruction::Exit(5)));
    assert_eq!(decode(0x0000_00FF), Some(Instruction::Exit(255)));
    assert_eq!(decode(0x00FF_FF2A), Some(Instruction::Exit(0x2A)));
}

#[test]
fn swap_takes_two_signed_fields_of_twelve_bits() {
    assert_eq!(decode(0x0100_0004), Some(Instruction::Swap(0, 4)));
    assert_eq!(decode(0x0100_8004), Some(Instruction::Swap(8, 4)));
    assert_eq!(decode(0x017F_F7FF), Some(Instruction::Swap(2047, 2047)));
    assert_eq!(decode(0x0180_0800), Some(Instruction::Swap(-2048, -2048)));
    assert_eq!(decode(0x01FF_CFFF), Some(Instruction::Swap(-4, -1)));
}

#[test]
fn miscellaneous_instructions_decode_by_their_selector() {
    assert_eq!(decode(0x0200_0000), Some(Instruction::Nop()));
    assert_eq!(decode(0x02AB_CDEF), Some(Instruction::Nop()));
    assert_eq!(decode(0x0400_0000), Some(Instruction::Input()));
    assert_eq!(decode(0x0500_000A), Some(Instruction::Stinput(10)));
    assert_eq!(decode(0x05FF_FFFF), Some(Instruction::Stinput(0xFF_FFFF)));
    assert_eq!(decode(0x0F00_0000), Some(Instruction::Debug(0)));
    assert_eq!(decode(0x0F12_3456), Some(Instruction::Debug(0x12_3456)));
}

#[test]
fn unknown_miscellaneous_selectors_decode_to_nothing() {
    for selector in [0x3u32, 0x6, 0x7, 0x8, 0x9, 0xA, 0xB, 0xC, 0xD, 0xE] {
        assert_eq!(decode(selector << 24), None);
    }
}

#[test]
fn pop_takes_twenty_eight_bits() {
    assert_eq!(decode(0x1000_0000), Some(Instruction::Pop(0)));
    assert_eq!(decode(0x1000_0004), Some(Instruction::Pop(4)));
    assert_eq!(decode(0x1FFF_FFFF), Some(Instruction::Pop(0x0FFF_FFFF)));
}

#[test]
fn binary_arithmetic_decodes_by_its_selector() {
    assert_eq!(decode(0x2000_0000), Some(Instruction::Add()));
    assert_eq!(decode(0x2100_0000), Some(Instruction::Subtract()));
    assert_eq!(decode(0x2200_0000), Some(Instruction::Multiply()));
    assert_eq!(decode(0x2300_0000), Some(Instruction::Divide()));
    assert_eq!(decode(0x2400_0000), Some(Instruction::Remainder()));
    assert_eq!(decode(0x2500_0000), Some(Instruction::And()));
    assert_eq!(decode(0x2600_0000), Some(Instruction::Or()));
    assert_eq!(decode(0x2700_0000), Some(Instruction::Xor()));
    assert_eq!(decode(0x2800_0000), Some(Instruction::LogicalLeftShift()));
    assert_eq!(decode(0x2900_0000), Some(Instruction::LogicalRightShift()));
    assert_eq!(decode(0x2B00_0000), Some(Instruction::ArithmeticRightShift()));
    assert_eq!(decode(0x21FF_FFFF), Some(Instruction::Subtract()));
}

#[test]
fn unknown_arithmetic_selectors_decode_to_nothing() {
    for selector in [0xAu32, 0xC, 0xD, 0xE, 0xF] {
        assert_eq!(decode(0x2000_0000 | selector << 24), None);
    }
    for selector in 2u32..16 {
        assert_eq!(decode(0x3000_0000 | selector << 24), None);
    }
}

#[test]
fn unary_arithmetic_decodes_by_its_selector() {
    assert_eq!(decode(0x3000_0000), Some(Instruction::Negate()));
    assert_eq!(decode(0x3100_0000), Some(Instruction::Not()));
}

#[test]
fn string_print_offset_is_never_negative() {
    assert_eq!(decode(0x4000_0000), Some(Instruction::Stprint(0)));
    assert_eq!(decode(0x4000_0008), Some(Instruction::Stprint(8)));
    assert_eq!(decode(0x4800_0000), Some(Instruction::Stprint(0x0800_0000)));
    assert_eq!(decode(0x4FFF_FFFF), Some(Instruction::Stprint(0x0FFF_FFFF)));
}

#[test]
fn call_takes_a_signed_field_of_twenty_six_bits() {
    assert_eq!(decode(0x5000_0000), Some(Instruction::Call(0)));
    assert_eq!(decode(0x5000_0003), Some(Instruction::Call(3)));
    assert_eq!(decode(0x51FF_FFFF), Some(Instruction::Call(0x01FF_FFFF)));
    assert_eq!(decode(0x5200_0000), Some(Instruction::Call(-0x0200_0000)));
    assert_eq!(decode(0x53FF_FFFF), Some(Instruction::Call(-1)));
    assert_eq!(decode(0x5FFF_FFFE), Some(Instruction::Call(-2)));
}

#[test]
fn return_takes_twenty_six_bits() {
    assert_eq!(decode(0x6000_0000), Some(Instruction::Return(0)));
    assert_eq!(decode(0x6000_0008), Some(Instruction::Return(8)));
    assert_eq!(decode(0x6FFF_FFFF), Some(Instruction::Return(0x03FF_FFFF)));
}

#[test]
fn goto_takes_bits_two_to_twenty_five_as_a_signed_offset() {
    assert_eq!(decode(0x7000_0000), Some(Instruction::Goto(0)));
    assert_eq!(decode(0x7000_0004), Some(Instruction::Goto(1)));
    assert_eq!(decode(0x7000_0007), Some(Instruction::Goto(1)));
    assert_eq!(decode(0x71FF_FFFC), Some(Instruction::Goto(0x7F_FFFF)));
    assert_eq!(decode(0x7200_0000), Some(Instruction::Goto(-0x80_0000)));
    assert_eq!(decode(0x73FF_FFFC), Some(Instruction::Goto(-1)));
    assert_eq!(decode(0x7FFF_FFF8), Some(Instruction::Goto(-2)));
    assert_eq!(decode(0x7C00_0008), Some(Instruction::Goto(2)));
}

#[test]
fn binary_if_takes_a_code_and_a_signed_offset() {
    assert_eq!(decode(0x8000_0000), Some(Instruction::BinaryIf(0, 0)));
    assert_eq!(decode(0x8200_0004), Some(Instruction::BinaryIf(1, 1)));
    assert_eq!(decode(0x8400_0008), Some(Instruction::BinaryIf(2, 2)));
    assert_eq!(decode(0x8600_000C), Some(Instruction::BinaryIf(3, 3)));
    assert_eq!(decode(0x8800_0000), Some(Instruction::BinaryIf(4, 0)));
    assert_eq!(decode(0x8A00_0000), Some(Instruction::BinaryIf(5, 0)));
    assert_eq!(decode(0x8C00_0000), Some(Instruction::BinaryIf(6, 0)));
    assert_eq!(decode(0x8E00_0000), Some(Instruction::BinaryIf(7, 0)));
    assert_eq!(decode(0x81FF_FFFC), Some(Instruction::BinaryIf(0, -1)));
    assert_eq!(decode(0x80FF_FFFC), Some(Instruction::BinaryIf(0, 0x3F_FFFF)));
    assert_eq!(decode(0x8100_0000), Some(Instruction::BinaryIf(0, -0x40_0000)));
    assert_eq!(decode(0x8BFF_FFF8), Some(Instruction::BinaryIf(5, -2)));
}

#[test]
fn unary_if_takes_a_test_and_a_signed_offset() {
    assert_eq!(decode(0x9000_0002), Some(Instruction::EqZero(2)));
    assert_eq!(decode(0x9200_0002), Some(Instruction::NeZero(2)));
    assert_eq!(decode(0x9400_0002), Some(Instruction::LtZero(2)));
    assert_eq!(decode(0x9600_0002), Some(Instruction::GeZero(2)));
    assert_eq!(decode(0x90FF_FFFF), Some(Instruction::EqZero(-1)));
    assert_eq!(decode(0x907F_FFFF), Some(Instruction::EqZero(0x7F_FFFF)));
    assert_eq!(decode(0x9080_0000), Some(Instruction::EqZero(-0x80_0000)));
    assert_eq!(decode(0x9EFF_FFFE), Some(Instruction::GeZero(-2)));
    assert_eq!(decode(0x9900_0001), Some(Instruction::EqZero(1)));
}

#[test]
fn dup_print_dump_and_push_decode() {
    assert_eq!(decode(0xC000_0000), Some(Instruction::Dup(0)));
    assert_eq!(decode(0xC000_0004), Some(Instruction::Dup(4)));
    assert_eq!(decode(0xCFFF_FFFF), Some(Instruction::Dup(0x0FFF_FFFF)));
    assert_eq!(decode(0xD000_0000), Some(Instruction::Print(0)));
    assert_eq!(decode(0xD000_0005), Some(Instruction::Print(5)));
    assert_eq!(decode(0xDFFF_FFFF), Some(Instruction::Print(-1)));
    assert_eq!(decode(0xD800_0000), Some(Instruction::Print(-0x0800_0000)));
    assert_eq!(decode(0xD7FF_FFFF), Some(Instruction::Print(0x07FF_FFFF)));
    assert_eq!(decode(0xE000_0000), Some(Instruction::Dump()));
    assert_eq!(decode(0xE123_4567), Some(Instruction::Dump()));
}

#[test]
fn push_extends_the_sign_of_bit_twenty_seven() {
    assert_eq!(decode(0xF000_0000), Some(Instruction::Push(0)));
    assert_eq!(decode(0xF000_0005), Some(Instruction::Push(5)));
    assert_eq!(decode(0xF7FF_FFFF), Some(Instruction::Push(0x07FF_FFFF)));
    assert_eq!(decode(0xF800_0000), Some(Instruction::Push(0xF800_0000)));
    assert_eq!(decode(0xFFFF_FFFF), Some(Instruction::Push(0xFFFF_FFFF)));
    assert_eq!(decode(0xFFFF_FFFE), Some(Instruction::Push(-2i32 as u32)));
}

#[test]
fn unknown_groups_decode_to_nothing() {
    assert_eq!(decode(0xA000_0000), None);
    assert_eq!(decode(0xAFFF_FFFF), None);
    assert_eq!(decode(0xB000_0000), None);
    assert_eq!(decode(0xB123_4567), None);
}
