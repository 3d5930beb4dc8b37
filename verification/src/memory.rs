//! The 4 KiB address space: font glyphs at the bottom, the program at 0x200.

use vstd::prelude::*;
use vstd::slice::slice_subrange;

verus! {

/// Number of addressable bytes.
pub const MEMORY_SIZE: usize = 4096;

/// Bytes per font glyph.
pub const FONT_SIZE: u8 = 5;

/// Address at which a program is placed.
pub const PROGRAM_START: u16 = 0x200;

/// Largest program that fits between `PROGRAM_START` and the end of memory.
pub const PROGRAM_CAPACITY: usize = 0xE00;

const FONT: [u8; 80] = [
    0xF0, 0x90, 0x90, 0x90, 0xF0,
    0x20, 0x60, 0x20, 0x20, 0x70,
    0xF0, 0x10, 0xF0, 0x80, 0xF0,
    0xF0, 0x10, 0xF0, 0x10, 0xF0,
    0x90, 0x90, 0xF0, 0x10, 0x10,
    0xF0, 0x80, 0xF0, 0x10, 0xF0,
    0xF0, 0x80, 0xF0, 0x90, 0xF0,
    0xF0, 0x10, 0x20, 0x40, 0x40,
    0xF0, 0x90, 0xF0, 0x90, 0xF0,
    0xF0, 0x90, 0xF0, 0x10, 0xF0,
    0xF0, 0x90, 0xF0, 0x90, 0x90,
    0xE0, 0x90, 0xE0, 0x90, 0xE0,
    0xF0, 0x80, 0x80, 0x80, 0xF0,
    0xE0, 0x90, 0x90, 0x90, 0xE0,
    0xF0, 0x80, 0xF0, 0x80, 0xF0,
    0xF0, 0x80, 0xF0, 0x80, 0x80,
];

/// The built-in glyphs for the digits 0 to F, five bytes each, in order.
pub open spec fn font_table() -> Seq<u8> {
    seq![
        0xF0u8, 0x90u8, 0x90u8, 0x90u8, 0xF0u8,
        0x20u8, 0x60u8, 0x20u8, 0x20u8, 0x70u8,
        0xF0u8, 0x10u8, 0xF0u8, 0x80u8, 0xF0u8,
        0xF0u8, 0x10u8, 0xF0u8, 0x10u8, 0xF0u8,
        0x90u8, 0x90u8, 0xF0u8, 0x10u8, 0x10u8,
        0xF0u8, 0x80u8, 0xF0u8, 0x10u8, 0xF0u8,
        0xF0u8, 0x80u8, 0xF0u8, 0x90u8, 0xF0u8,
        0xF0u8, 0x10u8, 0x20u8, 0x40u8, 0x40u8,
        0xF0u8, 0x90u8, 0xF0u8, 0x90u8, 0xF0u8,
        0xF0u8, 0x90u8, 0xF0u8, 0x10u8, 0xF0u8,
        0xF0u8, 0x90u8, 0xF0u8, 0x90u8, 0x90u8,
        0xE0u8, 0x90u8, 0xE0u8, 0x90u8, 0xE0u8,
        0xF0u8, 0x80u8, 0x80u8, 0x80u8, 0xF0u8,
        0xE0u8, 0x90u8, 0x90u8, 0x90u8, 0xE0u8,
        0xF0u8, 0x80u8, 0xF0u8, 0x80u8, 0xF0u8,
        0xF0u8, 0x80u8, 0xF0u8, 0x80u8, 0x80u8,
    ]
}

/// The glyph of one hexadecimal digit: its five rows, top to bottom.
pub open spec fn glyph(digit: int) -> Seq<u8> {
    font_table().subrange(digit * 5, digit * 5 + 5)
}

/// What memory holds right after `rom` has been loaded: the font table at
/// the bottom, the program from `PROGRAM_START` on, zero everywhere else.
pub open spec fn initial_image(rom: Seq<u8>) -> Seq<u8> {
    Seq::new(
        4096,
        |a: int|
            if a < 80 {
                font_table()[a]
            } else if 0x200 <= a < 0x200 + rom.len() {
                rom[a - 0x200]
            } else {
                0u8
            },
    )
}

/// Why a program could not be loaded.
#[derive(Debug, Clone, Copy, PartialEq, Eq, Structural)]
pub enum LoadError {
    /// The program has `size` bytes, more than `PROGRAM_CAPACITY`.
    RomTooLarge { size: usize },
}

pub struct Memory {
    at: [u8; 4096],
}

impl View for Memory {
    type V = Seq<u8>;

    closed spec fn view(&self) -> Seq<u8> {
        self.at@
    }
}

impl Memory {
    /// Every memory has exactly `MEMORY_SIZE` bytes.
    pub proof fn lemma_size(&self)
        ensures
            self@.len() == 4096,
    {
    }

    /// Builds the memory of a machine that is about to run `rom`. A program
    /// that does not fit is refused; nothing is written past the end.
    pub fn with_rom(rom: Vec<u8>) -> (result: Result<Memory, LoadError>)
        ensures
            result is Ok <==> rom@.len() <= PROGRAM_CAPACITY,
            result matches Ok(memory) ==> memory@ == initial_image(rom@),
            result matches Err(e) ==> e == (LoadError::RomTooLarge { size: rom@.len() as usize }),
    {
        if rom.len() > PROGRAM_CAPACITY {
            return Err(LoadError::RomTooLarge { size: rom.len() });
        }
        let mut at: [u8; 4096] = [0x00u8; 4096];
        let mut font_addr: usize = 0;
        while font_addr < 80
            invariant
                font_addr <= 80,
                forall|a: int| 0 <= a < font_addr ==> at@[a] == font_table()[a],
                forall|a: int| font_addr <= a < 4096 ==> at@[a] == 0u8,
            decreases 80 - font_addr,
        {
            at[font_addr] = FONT[font_addr];
            font_addr += 1;
        }
        let rom_from: usize = 0x200;
        let mut offset: usize = 0;
        while offset < rom.len()
            invariant
                rom_from == 0x200,
                offset <= rom@.len() <= 0xE00,
                forall|a: int| 0 <= a < 80 ==> at@[a] == font_table()[a],
                forall|a: int| 0x200 <= a < 0x200 + offset ==> at@[a] == rom@[a - 0x200],
                forall|a: int| 80 <= a < 0x200 || 0x200 + offset <= a < 4096 ==> at@[a] == 0u8,
            decreases rom@.len() - offset,
        {
            at[rom_from + offset] = rom[offset];
            offset += 1;
        }
        let memory = Memory { at };
        assert(memory@ =~= initial_image(rom@));
        Ok(memory)
    }

    /// Reads the byte at `addr`.
    pub fn load(&self, addr: u16) -> (value: u8)
        requires
            addr < MEMORY_SIZE,
        ensures
            value == self@[addr as int],
    {
        self.at[addr as usize]
    }

    /// Writes `value` at `addr` and leaves every other byte as it was.
    pub fn store(&mut self, addr: u16, value: u8)
        requires
            addr < MEMORY_SIZE,
        ensures
            final(self)@ == old(self)@.update(addr as int, value),
    {
        self.at[addr as usize] = value;
    }

    /// Borrows the `size` bytes that start at `from`.
    pub fn load_sprite(&self, from: u16, size: u8) -> (sprite: &[u8])
        requires
            from + size <= MEMORY_SIZE,
        ensures
            sprite@ == self@.subrange(from as int, from + size),
    {
        let from = from as usize;
        let size = size as usize;
        slice_subrange(self.at.as_slice(), from, from + size)
    }

    /// Address of the glyph for `font`: five bytes per glyph, computed in
    /// eight bits, so that it is `font * 5` for every hexadecimal digit.
    pub fn font_addr(font: u8) -> (addr: u16)
        ensures
            addr == (font * 5) % 256,
            font <= 15 ==> addr == font * 5,
    {
        font.wrapping_mul(FONT_SIZE) as u16
    }
}

/// A byte that was stored is the byte that is loaded, and a second store
/// to the same address replaces it.
pub proof fn lemma_store_then_load(memory: Memory, addr: u16, first: u8, second: u8)
    requires
        addr < MEMORY_SIZE,
    ensures
        memory@.update(addr as int, first)[addr as int] == first,
        memory@.update(addr as int, first).update(addr as int, second)[addr as int] == second,
{
    memory.lemma_size();
}

/// In a freshly loaded memory the five bytes at `font_addr(digit)` are the
/// glyph of that digit, whatever program was loaded.
pub proof fn lemma_font_glyph(rom: Seq<u8>, digit: u8)
    requires
        digit <= 15,
    ensures
        initial_image(rom).subrange(digit * 5, digit * 5 + 5) == glyph(digit as int),
{
    assert(initial_image(rom).subrange(digit * 5, digit * 5 + 5) =~= glyph(digit as int));
}

} // verus!
