use chip8::memory::{LoadError, Memory, FONT_SIZE, MEMORY_SIZE, PROGRAM_CAPACITY, PROGRAM_START};

const GLYPHS: [[u8; 5]; 16] = [
    [0xF0, 0x90, 0x90, 0x90, 0xF0],
    [0x20, 0x60, 0x20, 0x20, 0x70],
    [0xF0, 0x10, 0xF0, 0x80, 0xF0],
    [0xF0, 0x10, 0xF0, 0x10, 0xF0],
    [0x90, 0x90, 0xF0, 0x10, 0x10],
    [0xF0, 0x80, 0xF0, 0x10, 0xF0],
    [0xF0, 0x80, 0xF0, 0x90, 0xF0],
    [0xF0, 0x10, 0x20, 0x40, 0x40],
    [0xF0, 0x90, 0xF0, 0x90, 0xF0],
    [0xF0, 0x90, 0xF0, 0x10, 0xF0],
    [0xF0, 0x90, 0xF0, 0x90, 0x90],
    [0xE0, 0x90, 0xE0, 0x90, 0xE0],
    [0xF0, 0x80, 0x80, 0x80, 0xF0],
    [0xE0, 0x90, 0x90, 0x90, 0xE0],
    [0xF0, 0x80, 0xF0, 0x80, 0xF0],
    [0xF0, 0x80, 0xF0, 0x80, 0x80],
];

fn empty() -> Memory {
    Memory::with_rom(vec![]).unwrap()
}

#[test]
fn load_stored_value() {
    for addr in [0x200u16, 0x201, 0x3FF, 0x800, 0xFFD, 0xFFE] {
        for value in [0x00u8, 0x01, 0x7F, 0x80, 0xFF] {
            let mut memory = empty();

            memory.store(addr, value);
            let result = memory.load(addr);
            assert_eq!(result, value);
        }
    }
}

#[test]
fn load_overwritten_value() {
    for addr in [0x200u16, 0x555, 0xFFE] {
        for (old, new) in [(0x00u8, 0xFFu8), (0xFF, 0x00), (0x12, 0x12), (0x34, 0x56)] {
            let mut memory = empty();

            memory.store(addr, old);
            memory.store(addr, new);
            let result = memory.load(addr);
            assert_eq!(result, new);
        }
    }
}

#[test]
fn load_stored_sprite() {
    for from in [0x200u16, 0x7F3, MEMORY_SIZE as u16 - 10] {
        for value in [0x00u8, 0x5A, 0xFF] {
            let mut memory = empty();
            let sprite = &[value; 8];

            for offset in 0..8 {
                memory.store(from + offset, value);
            }
            let result = memory.load_sprite(from, 8);
            assert_eq!(result, sprite);
        }
    }
}

#[test]
fn load_font_sprite() {
    for font in 0x0u8..=0xF {
        let memory = empty();

        let result = memory.load_sprite(Memory::font_addr(font), FONT_SIZE);
        assert_eq!(result, &GLYPHS[font as usize]);
    }
}

#[test]
fn store_leaves_the_neighbours() {
    let mut memory = empty();
    memory.store(0x300, 0x11);
    memory.store(0x301, 0x22);
    memory.store(0x300, 0x33);
    assert_eq!(memory.load(0x2FF), 0x00);
    assert_eq!(memory.load(0x300), 0x33);
    assert_eq!(memory.load(0x301), 0x22);
    assert_eq!(memory.load(0x302), 0x00);
}

#[test]
fn font_addr_is_five_per_digit() {
    for digit in 0u8..=15 {
        assert_eq!(Memory::font_addr(digit), digit as u16 * 5);
    }
    assert_eq!(Memory::font_addr(0xF), 75);
    assert_eq!(Memory::font_addr(51), 255);
    assert_eq!(Memory::font_addr(52), 4);
    assert_eq!(Memory::font_addr(255), 251);
}

#[test]
fn rom_is_placed_at_program_start() {
    let rom = vec![0xDE, 0xAD, 0xBE, 0xEF];
    let memory = Memory::with_rom(rom).unwrap();
    assert_eq!(PROGRAM_START, 0x200);
    assert_eq!(memory.load(0x1FF), 0x00);
    assert_eq!(memory.load(0x200), 0xDE);
    assert_eq!(memory.load(0x201), 0xAD);
    assert_eq!(memory.load(0x202), 0xBE);
    assert_eq!(memory.load(0x203), 0xEF);
    assert_eq!(memory.load(0x204), 0x00);
    assert_eq!(memory.load(0x000), 0xF0);
    assert_eq!(memory.load(0x04F), 0x80);
    assert_eq!(memory.load(0x050), 0x00);
}

#[test]
fn largest_rom_fills_memory_to_the_end() {
    let rom = vec![0xA5u8; PROGRAM_CAPACITY];
    let memory = Memory::with_rom(rom).unwrap();
    assert_eq!(memory.load(0x200), 0xA5);
    assert_eq!(memory.load(0xFFF), 0xA5);
    assert_eq!(memory.load(0x1FF), 0x00);
    assert_eq!(memory.load_sprite(0xFF1, 15), &[0xA5u8; 15]);
}

#[test]
fn oversized_rom_is_refused() {
    let rom = vec![0u8; PROGRAM_CAPACITY + 1];
    match Memory::with_rom(rom) {
        Err(e) => assert_eq!(e, LoadError::RomTooLarge { size: 3585 }),
        Ok(_) => panic!("a program of 3585 bytes was loaded"),
    }
    assert!(Memory::with_rom(vec![0u8; 10_000]).is_err());
}

#[test]
fn empty_sprite_is_empty() {
    let memory = empty();
    assert_eq!(memory.load_sprite(0x200, 0).len(), 0);
    assert_eq!(memory.load_sprite(0x1000, 0).len(), 0);
}
