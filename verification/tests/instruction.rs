use chip8::instruction::{decode, decode_opcode, Instruction};

#[test]
fn every_instruction_form_decodes() {
    let table: [(u16, Instruction); 35] = [
        (0x00E0, Instruction::ClearScreen),
        (0x00EE, Instruction::Return),
        (0x1ABC, Instruction::Jump { addr: 0xABC }),
        (0x2FFF, Instruction::Call { addr: 0xFFF }),
        (0x3A12, Instruction::SkipIfEqual { x: 0xA, value: 0x12 }),
        (0x4B34, Instruction::SkipIfNotEqual { x: 0xB, value: 0x34 }),
        (0x5120, Instruction::SkipIfSame { x: 1, y: 2 }),
        (0x6A3C, Instruction::Load { x: 0xA, value: 0x3C }),
        (0x7AFF, Instruction::AddImmediate { x: 0xA, value: 0xFF }),
        (0x8120, Instruction::Move { x: 1, y: 2 }),
        (0x8121, Instruction::Or { x: 1, y: 2 }),
        (0x8122, Instruction::And { x: 1, y: 2 }),
        (0x8123, Instruction::Xor { x: 1, y: 2 }),
        (0x8124, Instruction::Add { x: 1, y: 2 }),
        (0x8125, Instruction::Subtract { x: 1, y: 2 }),
        (0x8126, Instruction::ShiftRight { x: 1 }),
        (0x8127, Instruction::SubtractFrom { x: 1, y: 2 }),
        (0x812E, Instruction::ShiftLeft { x: 1 }),
        (0x9120, Instruction::SkipIfDifferent { x: 1, y: 2 }),
        (0xA123, Instruction::LoadIndex { addr: 0x123 }),
        (0xB001, Instruction::JumpOffset { addr: 0x001 }),
        (0xC70F, Instruction::Random { x: 7, value: 0x0F }),
        (0xD125, Instruction::Draw { x: 1, y: 2, rows: 5 }),
        (0xE39E, Instruction::SkipIfKey { x: 3 }),
        (0xE3A1, Instruction::SkipIfNoKey { x: 3 }),
        (0xF407, Instruction::ReadDelay { x: 4 }),
        (0xF30A, Instruction::AwaitKey { x: 3 }),
        (0xF415, Instruction::SetDelay { x: 4 }),
        (0xF418, Instruction::SetSound { x: 4 }),
        (0xF41E, Instruction::AddIndex { x: 4 }),
        (0xF429, Instruction::FontAddress { x: 4 }),
        (0xF433, Instruction::StoreDigits { x: 4 }),
        (0xFF55, Instruction::StoreRegisters { x: 0xF }),
        (0xF065, Instruction::LoadRegisters { x: 0 }),
        (0x8F06, Instruction::ShiftRight { x: 0xF }),
    ];
    for (opcode, instruction) in table {
        assert_eq!(decode_opcode(opcode), Some(instruction), "{:04X}", opcode);
        let nibbles = (
            (opcode >> 12) as u8,
            ((opcode >> 8) & 0xF) as u8,
            ((opcode >> 4) & 0xF) as u8,
            (opcode & 0xF) as u8,
        );
        assert_eq!(decode(nibbles.0, nibbles.1, nibbles.2, nibbles.3), Some(instruction));
    }
}

#[test]
fn words_without_meaning_decode_to_nothing() {
    for opcode in [
        0x0000u16, 0x00E1, 0x00FE, 0x01E0, 0x0123, 0x5121, 0x512F, 0x8128, 0x812D, 0x812F, 0x9121,
        0xE09F, 0xE0A0, 0xE000, 0xF000, 0xF008, 0xF016, 0xF01F, 0xF028, 0xF034, 0xF056, 0xF066,
        0xF0FF,
    ] {
        assert_eq!(decode_opcode(opcode), None, "{:04X}", opcode);
    }
}

#[test]
fn exactly_the_known_words_decode() {
    let mut decoded = 0u32;
    for opcode in 0u16..=0xFFFF {
        if decode_opcode(opcode).is_some() {
            decoded += 1;
        }
    }
    let full = 10 * 4096;
    let register_pairs = 2 * 256 + 9 * 256;
    let keyed = 2 * 16 + 9 * 16;
    assert_eq!(decoded, 2 + full + register_pairs + keyed);
}

#[test]
fn values_that_are_no_nibbles_decode_to_nothing() {
    assert_eq!(decode(0x10, 0x0, 0xE, 0x0), None);
    assert_eq!(decode(0x6, 0x10, 0x0, 0x0), None);
    assert_eq!(decode(0x6, 0x0, 0x10, 0x0), None);
    assert_eq!(decode(0x6, 0x0, 0x0, 0xFF), None);
}
