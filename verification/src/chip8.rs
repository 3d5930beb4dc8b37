//! The virtual machine core: registers, timers, and the execution of one
//! instruction or one timer tick at a time.

use crate::display::{blank_grid, blit, blit_collides, is_grid, Display};
use crate::instruction::{decode, lemma_decoded_is_wf, spec_decode, Instruction};
use crate::keyboard::{keys_after, Keyboard, KeyboardMessage};
use crate::memory::{initial_image, LoadError, Memory};
use rand::Rng;
use std::time::Instant;
use vstd::prelude::*;

verus! {

/// Milliseconds between two timer ticks.
pub const TIMER_PERIOD_MILLIS: u64 = 16;

/// Fastest instruction clock that is accepted, in hertz.
pub const MAX_CLOCK_SPEED: u64 = 500;

/// `std::time::Instant`, the moment that a clock event carries. It is only
/// passed along: nothing is read from it and nothing is claimed of it.
#[verifier::external_type_specification]
#[verifier::external_body]
pub struct ExInstant(Instant);

/// Whether the machine runs or is suspended until a key goes down.
#[derive(Debug, Clone, Copy, PartialEq, Eq, Structural)]
pub enum KeyWait {
    Running,
    AwaitingKey { register: u8 },
}

/// What the tone output is told after a timer tick.
#[derive(Debug, Clone, Copy, PartialEq, Eq, Structural)]
pub enum Tone {
    On,
    Off,
}

/// Why an instruction was not executed. The machine is left as it was.
#[derive(Debug, Clone, Copy, PartialEq, Eq, Structural)]
pub enum Fault {
    /// The four nibbles match no instruction.
    UnsupportedInstruction { h1: u8, h2: u8, h3: u8, h4: u8 },
    /// The instruction, or the data it names, lies outside memory.
    AddressOutOfRange,
    /// A call with no free stack level left.
    StackOverflow,
    /// A return with nothing on the stack.
    StackUnderflow,
}

/// One event for the machine.
#[derive(Debug, Clone, Copy)]
pub enum Message {
    Clock(Instant),
    TickTimers(Instant),
    FromDisplay,
    FromKeyboard(KeyboardMessage),
}

pub struct Registers {
    pub v: [u8; 16],
    pub i: u16,
    pub pc: u16,
    pub sp: u8,
    pub stack: [u16; 16],
}

impl Registers {
    /// All registers zero, an empty stack, the program counter at 0x200.
    pub fn new() -> (registers: Registers)
        ensures
            registers.v@ == Seq::new(16, |r: int| 0u8),
            registers.stack@ == Seq::new(16, |r: int| 0u16),
            registers.i == 0,
            registers.pc == 0x200,
            registers.sp == 0,
    {
        let registers = Registers { v: [0x00u8; 16], i: 0x000, pc: 0x200, sp: 0x0, stack: [0x000u16; 16] };
        assert(registers.v@ =~= Seq::new(16, |r: int| 0u8));
        assert(registers.stack@ =~= Seq::new(16, |r: int| 0u16));
        registers
    }
}

pub struct Timers {
    pub dt: u8,
    pub st: u8,
}

impl Timers {
    /// Both timers at rest.
    pub fn new() -> (timers: Timers)
        ensures
            timers.dt == 0,
            timers.st == 0,
    {
        Timers { dt: 0x00, st: 0x00 }
    }
}

/// The byte written as the two nibbles `n1 n2`.
pub fn value_of(n1: u8, n2: u8) -> (value: u8)
    requires
        n1 < 16,
        n2 < 16,
    ensures
        value == n1 * 16 + n2,
        value == byte_of(n1, n2),
{
    n1 * 0x10 + n2
}

/// The address written as the three nibbles `n1 n2 n3`.
pub fn address_of(n1: u8, n2: u8, n3: u8) -> (addr: u16)
    requires
        n1 < 16,
        n2 < 16,
        n3 < 16,
    ensures
        addr == n1 * 256 + n2 * 16 + n3,
        addr == addr_of(n1, n2, n3),
        addr < 0x1000,
{
    n1 as u16 * 0x100 + n2 as u16 * 0x010 + n3 as u16
}

/// Sum modulo 256, and 1 if the sum did not fit in eight bits, else 0.
pub fn add_with_carry(a: u8, b: u8) -> (out: (u8, u8))
    ensures
        out == carry_sum(a, b),
        out.0 == (a + b) % 256,
        out.1 == 1 <==> a + b >= 256,
        out.1 == 0 || out.1 == 1,
{
    let wide: u16 = a as u16 + b as u16;
    if wide >= 256 {
        ((wide - 256) as u8, 1)
    } else {
        (wide as u8, 0)
    }
}

/// `a - b` modulo 256, and 1 if nothing was borrowed (`a >= b`), else 0.
pub fn sub_with_borrow(a: u8, b: u8) -> (out: (u8, u8))
    ensures
        out == borrow_difference(a, b),
        out.0 == (a - b) % 256,
        out.1 == 1 <==> a >= b,
        out.1 == 0 || out.1 == 1,
{
    if a >= b {
        (a - b, 1)
    } else {
        ((a as u16 + 256 - b as u16) as u8, 0)
    }
}

/// `a` shifted right by one, and the bit that fell out: the lowest one.
pub fn shift_right(a: u8) -> (out: (u8, u8))
    ensures
        out == halved(a),
        out.0 == a / 2,
        out.1 == a % 2,
{
    (a / 2, a % 2)
}

/// `a` shifted left by one in eight bits, and the bit that fell out: the
/// highest one.
pub fn shift_left(a: u8) -> (out: (u8, u8))
    ensures
        out == doubled(a),
        out.0 == (a * 2) % 256,
        out.1 == a / 128,
{
    if a >= 128 {
        ((a - 128) * 2, 1)
    } else {
        (a * 2, 0)
    }
}

/// The sum of two bytes modulo 256, and the carry out of the eighth bit.
pub open spec fn carry_sum(a: u8, b: u8) -> (u8, u8) {
    (((a + b) % 256) as u8, if a + b >= 256 { 1u8 } else { 0u8 })
}

/// `a - b` modulo 256, and 1 where nothing is borrowed, else 0.
pub open spec fn borrow_difference(a: u8, b: u8) -> (u8, u8) {
    (((a - b) % 256) as u8, if a >= b { 1u8 } else { 0u8 })
}

/// `a` shifted right by one bit, and its lowest bit.
pub open spec fn halved(a: u8) -> (u8, u8) {
    (a / 2, a % 2)
}

/// `a` shifted left by one bit in eight bits, and its highest bit.
pub open spec fn doubled(a: u8) -> (u8, u8) {
    (((a * 2) % 256) as u8, a / 128)
}

/// The interval between two instructions at `clock_speed` hertz, in whole
/// milliseconds; none for a speed outside 1 to `MAX_CLOCK_SPEED`.
pub fn clock_period_millis(clock_speed: u64) -> (period: Option<u64>)
    ensures
        period is Some <==> 1 <= clock_speed <= MAX_CLOCK_SPEED,
        period matches Some(millis) ==> millis == 1000u64 / clock_speed,
{
    if clock_speed == 0 || clock_speed > MAX_CLOCK_SPEED {
        None
    } else {
        Some(1000 / clock_speed)
    }
}

/// The whole machine as plain values: what a `Chip8` stands for.
pub struct Machine {
    pub v: Seq<u8>,
    pub i: u16,
    pub pc: u16,
    pub sp: u8,
    pub stack: Seq<u16>,
    pub dt: u8,
    pub st: u8,
    pub memory: Seq<u8>,
    pub grid: Seq<Seq<bool>>,
    pub keys: Set<u8>,
    pub wait: KeyWait,
}

impl Machine {
    /// Sixteen registers, sixteen stack levels, 4096 bytes, a full grid;
    /// the stack pointer and a pending destination register below 16.
    pub open spec fn wf(self) -> bool {
        &&& self.v.len() == 16
        &&& self.stack.len() == 16
        &&& self.memory.len() == 4096
        &&& is_grid(self.grid)
        &&& self.sp < 16
        &&& (self.wait matches KeyWait::AwaitingKey { register } ==> register < 16)
    }
}

/// The machine that is about to run `rom` from its first instruction.
pub open spec fn initial_machine(rom: Seq<u8>) -> Machine {
    Machine {
        v: Seq::new(16, |r: int| 0u8),
        i: 0,
        pc: 0x200,
        sp: 0,
        stack: Seq::new(16, |r: int| 0u16),
        dt: 0,
        st: 0,
        memory: initial_image(rom),
        grid: blank_grid(),
        keys: Set::empty(),
        wait: KeyWait::Running,
    }
}

/// `pc` moved forward by `by`, in sixteen bits.
pub open spec fn advance(pc: u16, by: int) -> u16 {
    ((pc + by) % 0x10000) as u16
}

/// The program counter after a skip instruction: past the next
/// instruction if `taken`, else on it.
pub open spec fn skip_if(pc: u16, taken: bool) -> u16 {
    if taken {
        advance(pc, 4)
    } else {
        advance(pc, 2)
    }
}

/// A condition as a flag register holds it.
pub open spec fn flag(raised: bool) -> u8 {
    if raised {
        1u8
    } else {
        0u8
    }
}

/// The byte written as the two nibbles `n1 n2`.
pub open spec fn byte_of(n1: u8, n2: u8) -> u8 {
    (n1 * 16 + n2) as u8
}

/// The address written as the three nibbles `n1 n2 n3`.
pub open spec fn addr_of(n1: u8, n2: u8, n3: u8) -> u16 {
    (n1 * 256 + n2 * 16 + n3) as u16
}

/// Memory after the registers `0..=last` were stored from `from` on.
pub open spec fn registers_stored(memory: Seq<u8>, v: Seq<u8>, from: int, last: int) -> Seq<u8> {
    Seq::new(
        memory.len(),
        |a: int|
            if from <= a <= from + last {
                v[a - from]
            } else {
                memory[a]
            },
    )
}

/// The registers after `0..=last` were loaded from memory at `from` on.
pub open spec fn registers_loaded(memory: Seq<u8>, v: Seq<u8>, from: int, last: int) -> Seq<u8> {
    Seq::new(
        v.len(),
        |r: int|
            if r <= last {
                memory[from + r]
            } else {
                v[r]
            },
    )
}

/// Memory after the three decimal digits of `value` were stored at `from`,
/// hundreds first.
pub open spec fn digits_stored(memory: Seq<u8>, from: int, value: u8) -> Seq<u8> {
    memory.update(from, value / 100).update(from + 1, (value / 10) % 10).update(
        from + 2,
        value % 10,
    )
}

/// The machine with the registers `v` and the program counter on the
/// next instruction.
pub open spec fn next_with(m: Machine, v: Seq<u8>) -> Machine {
    Machine { v, pc: advance(m.pc, 2), ..m }
}

/// The effect of `instruction` on the machine `m`, where `random` is the
/// byte that a random instruction draws. A fault leaves no trace on the
/// machine. Additions and subtractions write the flag register after the
/// result, shifts write it before.
pub open spec fn spec_apply(m: Machine, instruction: Instruction, random: u8) -> Result<
    Machine,
    Fault,
> {
    let next = advance(m.pc, 2);
    match instruction {
        Instruction::ClearScreen => Ok(Machine { grid: blank_grid(), pc: next, ..m }),
        Instruction::Return => if m.sp == 0 {
            Err(Fault::StackUnderflow)
        } else {
            Ok(Machine { sp: (m.sp - 1) as u8, pc: advance(m.stack[m.sp - 1], 2), ..m })
        },
        Instruction::Jump { addr } => Ok(Machine { pc: addr, ..m }),
        Instruction::Call { addr } => if m.sp >= 15 {
            Err(Fault::StackOverflow)
        } else {
            Ok(
                Machine {
                    stack: m.stack.update(m.sp as int, m.pc),
                    sp: (m.sp + 1) as u8,
                    pc: addr,
                    ..m
                },
            )
        },
        Instruction::SkipIfEqual { x, value } => Ok(
            Machine { pc: skip_if(m.pc, m.v[x as int] == value), ..m },
        ),
        Instruction::SkipIfNotEqual { x, value } => Ok(
            Machine { pc: skip_if(m.pc, m.v[x as int] != value), ..m },
        ),
        Instruction::SkipIfSame { x, y } => Ok(
            Machine { pc: skip_if(m.pc, m.v[x as int] == m.v[y as int]), ..m },
        ),
        Instruction::Load { x, value } => Ok(next_with(m, m.v.update(x as int, value))),
        Instruction::AddImmediate { x, value } => Ok(
            next_with(m, m.v.update(x as int, ((m.v[x as int] + value) % 256) as u8)),
        ),
        Instruction::Move { x, y } => Ok(next_with(m, m.v.update(x as int, m.v[y as int]))),
        Instruction::Or { x, y } => Ok(
            next_with(m, m.v.update(x as int, m.v[x as int] | m.v[y as int])),
        ),
        Instruction::And { x, y } => Ok(
            next_with(m, m.v.update(x as int, m.v[x as int] & m.v[y as int])),
        ),
        Instruction::Xor { x, y } => Ok(
            next_with(m, m.v.update(x as int, m.v[x as int] ^ m.v[y as int])),
        ),
        Instruction::Add { x, y } => {
            let out = carry_sum(m.v[x as int], m.v[y as int]);
            Ok(next_with(m, m.v.update(x as int, out.0).update(0xF, out.1)))
        },
        Instruction::Subtract { x, y } => {
            let out = borrow_difference(m.v[x as int], m.v[y as int]);
            Ok(next_with(m, m.v.update(x as int, out.0).update(0xF, out.1)))
        },
        Instruction::ShiftRight { x } => {
            let out = halved(m.v[x as int]);
            Ok(next_with(m, m.v.update(0xF, out.1).update(x as int, out.0)))
        },
        Instruction::SubtractFrom { x, y } => {
            let out = borrow_difference(m.v[y as int], m.v[x as int]);
            Ok(next_with(m, m.v.update(x as int, out.0).update(0xF, out.1)))
        },
        Instruction::ShiftLeft { x } => {
            let out = doubled(m.v[x as int]);
            Ok(next_with(m, m.v.update(0xF, out.1).update(x as int, out.0)))
        },
        Instruction::SkipIfDifferent { x, y } => Ok(
            Machine { pc: skip_if(m.pc, m.v[x as int] != m.v[y as int]), ..m },
        ),
        Instruction::LoadIndex { addr } => Ok(Machine { i: addr, pc: next, ..m }),
        Instruction::JumpOffset { addr } => Ok(Machine { pc: (addr + m.v[0]) as u16, ..m }),
        Instruction::Random { x, value } => Ok(next_with(m, m.v.update(x as int, random & value))),
        Instruction::Draw { x, y, rows } => if m.i + rows > 4096 {
            Err(Fault::AddressOutOfRange)
        } else {
            let sprite = m.memory.subrange(m.i as int, m.i + rows);
            let left = m.v[x as int] as int;
            let top = m.v[y as int] as int;
            Ok(
                Machine {
                    grid: blit(m.grid, left, top, sprite),
                    v: m.v.update(0xF, flag(blit_collides(m.grid, left, top, sprite))),
                    pc: next,
                    ..m
                },
            )
        },
        Instruction::SkipIfKey { x } => Ok(
            Machine { pc: skip_if(m.pc, m.keys.contains(m.v[x as int])), ..m },
        ),
        Instruction::SkipIfNoKey { x } => Ok(
            Machine { pc: skip_if(m.pc, !m.keys.contains(m.v[x as int])), ..m },
        ),
        Instruction::ReadDelay { x } => Ok(next_with(m, m.v.update(x as int, m.dt))),
        Instruction::AwaitKey { x } => Ok(
            Machine { wait: KeyWait::AwaitingKey { register: x }, pc: next, ..m },
        ),
        Instruction::SetDelay { x } => Ok(Machine { dt: m.v[x as int], pc: next, ..m }),
        Instruction::SetSound { x } => Ok(Machine { st: m.v[x as int], pc: next, ..m }),
        Instruction::AddIndex { x } => Ok(
            Machine { i: ((m.i + m.v[x as int]) % 0x10000) as u16, pc: next, ..m },
        ),
        Instruction::FontAddress { x } => Ok(
            Machine { i: ((m.v[x as int] * 5) % 256) as u16, pc: next, ..m },
        ),
        Instruction::StoreDigits { x } => if m.i + 2 >= 4096 {
            Err(Fault::AddressOutOfRange)
        } else {
            Ok(Machine { memory: digits_stored(m.memory, m.i as int, m.v[x as int]), pc: next, ..m })
        },
        Instruction::StoreRegisters { x } => if m.i + x >= 4096 {
            Err(Fault::AddressOutOfRange)
        } else {
            Ok(
                Machine {
                    memory: registers_stored(m.memory, m.v, m.i as int, x as int),
                    pc: next,
                    ..m
                },
            )
        },
        Instruction::LoadRegisters { x } => if m.i + x >= 4096 {
            Err(Fault::AddressOutOfRange)
        } else {
            Ok(next_with(m, registers_loaded(m.memory, m.v, m.i as int, x as int)))
        },
    }
}

/// The effect of the instruction whose four nibbles are `h1 h2 h3 h4`:
/// that of the instruction they decode to, and a fault where they decode
/// to none.
pub open spec fn spec_execute(m: Machine, h1: u8, h2: u8, h3: u8, h4: u8, random: u8) -> Result<
    Machine,
    Fault,
> {
    match spec_decode(h1, h2, h3, h4) {
        Some(instruction) => spec_apply(m, instruction, random),
        None => Err(Fault::UnsupportedInstruction { h1, h2, h3, h4 }),
    }
}

/// The instructions that only move the program counter or clear the
/// screen.
pub open spec fn is_flow(instruction: Instruction) -> bool {
    instruction is ClearScreen || instruction is Return || instruction is Jump
        || instruction is Call || instruction is SkipIfEqual || instruction is SkipIfNotEqual
        || instruction is SkipIfSame || instruction is SkipIfDifferent
        || instruction is JumpOffset || instruction is SkipIfKey || instruction is SkipIfNoKey
}

/// The instructions that compute one register.
pub open spec fn is_register_operation(instruction: Instruction) -> bool {
    instruction is Load || instruction is AddImmediate || instruction is Move
        || instruction is Or || instruction is And || instruction is Xor || instruction is Add
        || instruction is Subtract || instruction is ShiftRight || instruction is SubtractFrom
        || instruction is ShiftLeft || instruction is Random || instruction is ReadDelay
}

/// The instructions that read or write memory.
pub open spec fn is_memory_operation(instruction: Instruction) -> bool {
    instruction is Draw || instruction is StoreDigits || instruction is StoreRegisters
        || instruction is LoadRegisters
}

/// The instructions that set the index register, a timer or the wait.
pub open spec fn is_state_operation(instruction: Instruction) -> bool {
    instruction is LoadIndex || instruction is AwaitKey || instruction is SetDelay
        || instruction is SetSound || instruction is AddIndex || instruction is FontAddress
}

/// What one instruction clock event does: nothing while a key is awaited;
/// else the instruction at the program counter, high byte first.
pub open spec fn spec_step(m: Machine, random: u8) -> Result<Machine, Fault> {
    if m.wait is AwaitingKey {
        Ok(m)
    } else if m.pc + 1 >= 4096 {
        Err(Fault::AddressOutOfRange)
    } else {
        let b1 = m.memory[m.pc as int];
        let b2 = m.memory[m.pc + 1];
        spec_execute(m, b1 / 16, b1 % 16, b2 / 16, b2 % 16, random)
    }
}

/// Whether the next clock event executes the random instruction.
pub open spec fn draws_random(m: Machine) -> bool {
    m.wait is Running && m.pc + 1 < 4096 && m.memory[m.pc as int] / 16 == 0xC
}

/// What one timer tick does: each timer that is above zero goes down by
/// one, and the tone is on exactly if the sound timer was above zero.
pub open spec fn spec_timer_tick(m: Machine) -> (Machine, Tone) {
    (
        Machine {
            dt: if m.dt > 0 {
                (m.dt - 1) as u8
            } else {
                0u8
            },
            st: if m.st > 0 {
                (m.st - 1) as u8
            } else {
                0u8
            },
            ..m
        },
        if m.st > 0 {
            Tone::On
        } else {
            Tone::Off
        },
    )
}

/// What a key event does: the pad follows it, and a press ends a pending
/// wait by putting the key into the destination register.
pub open spec fn spec_key_event(m: Machine, message: KeyboardMessage) -> Machine {
    let keys = keys_after(m.keys, message);
    match (message, m.wait) {
        (KeyboardMessage::Press(value), KeyWait::AwaitingKey { register }) => Machine {
            v: m.v.update(register as int, value),
            wait: KeyWait::Running,
            keys,
            ..m
        },
        _ => Machine { keys, ..m },
    }
}

/// Whether `result` and the machine `after` are what `expected` asks for:
/// the new machine on success, the fault and the old machine otherwise.
pub open spec fn outcome(
    before: Machine,
    after: Machine,
    result: Result<(), Fault>,
    expected: Result<Machine, Fault>,
) -> bool {
    match expected {
        Ok(m) => result is Ok && after == m,
        Err(fault) => (result matches Err(f) && f == fault) && after == before,
    }
}

/// Whether `result` and the machine `after` are what the event `message`
/// asks for, where `random` is the byte drawn if an instruction needs one.
pub open spec fn update_outcome(
    before: Machine,
    after: Machine,
    result: Result<Option<Tone>, Fault>,
    message: Message,
    random: u8,
) -> bool {
    match message {
        Message::Clock(_) => match spec_step(before, random) {
            Ok(m) => result matches Ok(None) && after == m,
            Err(fault) => (result matches Err(f) && f == fault) && after == before,
        },
        Message::TickTimers(_) => (result matches Ok(Some(tone)) && tone == spec_timer_tick(
            before,
        ).1) && after == spec_timer_tick(before).0,
        Message::FromDisplay => result matches Ok(None) && after == before,
        Message::FromKeyboard(key) => result matches Ok(None) && after == spec_key_event(
            before,
            key,
        ),
    }
}

/// Draws a byte with `rand::thread_rng()` and `Rng::gen_range(0..bound)`.
/// The range is half open, so the byte is below `bound`; nothing else is
/// claimed of it. `gen_range` panics on an empty range, hence the
/// precondition.
#[verifier::external_body]
fn random_below(bound: u8) -> (random: u8)
    requires
        bound > 0,
    ensures
        random < bound,
{
    let mut rng = rand::thread_rng();
    rng.gen_range(0..bound)
}

/// The program counter moved forward by 2 or 4.
fn advanced(pc: u16, by: u16) -> (next: u16)
    requires
        by <= 4,
    ensures
        next == advance(pc, by as int),
{
    pc.wrapping_add(by)
}

/// The program counter after a skip instruction.
fn skipped(pc: u16, taken: bool) -> (next: u16)
    ensures
        next == skip_if(pc, taken),
{
    if taken {
        advanced(pc, 4)
    } else {
        advanced(pc, 2)
    }
}

/// Stores the registers `0..=last` into memory from `from` on.
fn store_registers(memory: &mut Memory, v: &[u8; 16], from: u16, last: u8)
    requires
        last < 16,
        from + last < 4096,
    ensures
        final(memory)@ == registers_stored(old(memory)@, v@, from as int, last as int),
{
    proof {
        memory.lemma_size();
    }
    let mut offset: u8 = 0;
    while offset <= last
        invariant
            offset <= last + 1,
            last < 16,
            from + last < 4096,
            memory@.len() == 4096,
            old(memory)@.len() == 4096,
            forall|a: int|
                0 <= a < 4096 ==> memory@[a] == (if from <= a < from + offset {
                    v@[a - from]
                } else {
                    old(memory)@[a]
                }),
        decreases last + 1 - offset,
    {
        let value: u8 = v[offset as usize];
        memory.store(from + offset as u16, value);
        offset += 1;
    }
    assert(memory@ =~= registers_stored(old(memory)@, v@, from as int, last as int));
}

/// Loads the registers `0..=last` from memory at `from` on.
fn load_registers(v: &mut [u8; 16], memory: &Memory, from: u16, last: u8)
    requires
        last < 16,
        from + last < 4096,
    ensures
        final(v)@ == registers_loaded(memory@, old(v)@, from as int, last as int),
{
    proof {
        memory.lemma_size();
    }
    let mut offset: u8 = 0;
    while offset <= last
        invariant
            offset <= last + 1,
            last < 16,
            from + last < 4096,
            memory@.len() == 4096,
            forall|r: int|
                0 <= r < 16 ==> v@[r] == (if r < offset {
                    memory@[from + r]
                } else {
                    old(v)@[r]
                }),
        decreases last + 1 - offset,
    {
        let value: u8 = memory.load(from + offset as u16);
        v[offset as usize] = value;
        offset += 1;
    }
    assert(v@ =~= registers_loaded(memory@, old(v)@, from as int, last as int));
}

fn is_flow_instruction(instruction: Instruction) -> (yes: bool)
    ensures
        yes == is_flow(instruction),
{
    matches!(
        instruction,
        Instruction::ClearScreen
            | Instruction::Return
            | Instruction::Jump { .. }
            | Instruction::Call { .. }
            | Instruction::SkipIfEqual { .. }
            | Instruction::SkipIfNotEqual { .. }
            | Instruction::SkipIfSame { .. }
            | Instruction::SkipIfDifferent { .. }
            | Instruction::JumpOffset { .. }
            | Instruction::SkipIfKey { .. }
            | Instruction::SkipIfNoKey { .. }
    )
}

fn is_memory_instruction(instruction: Instruction) -> (yes: bool)
    ensures
        yes == is_memory_operation(instruction),
{
    matches!(
        instruction,
        Instruction::Draw { .. }
            | Instruction::StoreDigits { .. }
            | Instruction::StoreRegisters { .. }
            | Instruction::LoadRegisters { .. }
    )
}

fn is_state_instruction(instruction: Instruction) -> (yes: bool)
    ensures
        yes == is_state_operation(instruction),
{
    matches!(
        instruction,
        Instruction::LoadIndex { .. }
            | Instruction::AwaitKey { .. }
            | Instruction::SetDelay { .. }
            | Instruction::SetSound { .. }
            | Instruction::AddIndex { .. }
            | Instruction::FontAddress { .. }
    )
}

pub struct Chip8 {
    pub registers: Registers,
    pub timers: Timers,
    pub memory: Memory,
    pub display: Display,
    pub keyboard: Keyboard,
    pub waiting_key_for: KeyWait,
}

impl View for Chip8 {
    type V = Machine;

    open spec fn view(&self) -> Machine {
        Machine {
            v: self.registers.v@,
            i: self.registers.i,
            pc: self.registers.pc,
            sp: self.registers.sp,
            stack: self.registers.stack@,
            dt: self.timers.dt,
            st: self.timers.st,
            memory: self.memory@,
            grid: self.display@,
            keys: self.keyboard@,
            wait: self.waiting_key_for,
        }
    }
}

impl Chip8 {
    /// The stack pointer and a pending destination register are below 16.
    pub open spec fn wf(&self) -> bool {
        &&& self.registers.sp < 16
        &&& (self.waiting_key_for matches KeyWait::AwaitingKey { register } ==> register < 16)
    }

    /// A well-formed machine stands for a well-formed model.
    pub proof fn lemma_view_wf(&self)
        requires
            self.wf(),
        ensures
            self@.wf(),
    {
        self.memory.lemma_size();
        self.display.lemma_is_grid();
    }

    /// Tests `wf`.
    pub fn is_wf(&self) -> (ok: bool)
        ensures
            ok == self.wf(),
    {
        self.registers.sp < 16 && match self.waiting_key_for {
            KeyWait::Running => true,
            KeyWait::AwaitingKey { register } => register < 16,
        }
    }

    /// A machine that is about to run `rom`; refused if `rom` does not fit.
    pub fn new(rom: Vec<u8>) -> (result: Result<Chip8, LoadError>)
        ensures
            result is Ok <==> rom@.len() <= 0xE00,
            result matches Ok(machine) ==> machine.wf() && machine@ == initial_machine(rom@),
            result matches Err(e) ==> e == (LoadError::RomTooLarge { size: rom@.len() as usize }),
    {
        match Memory::with_rom(rom) {
            Ok(memory) => Ok(
                Chip8 {
                    registers: Registers::new(),
                    timers: Timers::new(),
                    memory,
                    display: Display::new(),
                    keyboard: Keyboard::new(),
                    waiting_key_for: KeyWait::Running,
                },
            ),
            Err(e) => Err(e),
        }
    }

    /// Goes on to the next instruction, or past it if `taken`.
    fn skip(&mut self, taken: bool)
        ensures
            final(self)@ == (Machine { pc: skip_if(old(self)@.pc, taken), ..old(self)@ }),
    {
        self.registers.pc = skipped(self.registers.pc, taken);
    }

    /// Goes on to the next instruction.
    fn proceed(&mut self)
        ensures
            final(self)@ == next_with(old(self)@, old(self)@.v),
    {
        self.registers.pc = advanced(self.registers.pc, 2);
    }

    /// Writes register `x` and goes on to the next instruction.
    fn write(&mut self, x: u8, value: u8)
        requires
            x < 16,
        ensures
            final(self)@ == next_with(old(self)@, old(self)@.v.update(x as int, value)),
    {
        self.registers.v[x as usize] = value;
        self.registers.pc = advanced(self.registers.pc, 2);
    }

    /// Writes register `x`, then the flag register, and goes on.
    fn write_then_flag(&mut self, x: u8, out: (u8, u8))
        requires
            x < 16,
        ensures
            final(self)@ == next_with(
                old(self)@,
                old(self)@.v.update(x as int, out.0).update(0xF, out.1),
            ),
    {
        self.registers.v[x as usize] = out.0;
        self.registers.v[0xF] = out.1;
        self.registers.pc = advanced(self.registers.pc, 2);
    }

    /// Writes the flag register, then register `x`, and goes on.
    fn flag_then_write(&mut self, x: u8, out: (u8, u8))
        requires
            x < 16,
        ensures
            final(self)@ == next_with(
                old(self)@,
                old(self)@.v.update(0xF, out.1).update(x as int, out.0),
            ),
    {
        self.registers.v[0xF] = out.1;
        self.registers.v[x as usize] = out.0;
        self.registers.pc = advanced(self.registers.pc, 2);
    }

    /// Applies an instruction that reads or writes memory.
    fn apply_to_memory(&mut self, instruction: Instruction) -> (result: Result<(), Fault>)
        requires
            old(self).wf(),
            instruction.wf(),
            is_memory_operation(instruction),
        ensures
            forall|random: u8|
                outcome(
                    old(self)@,
                    final(self)@,
                    result,
                    #[trigger] spec_apply(old(self)@, instruction, random),
                ),
    {
        proof {
            self.lemma_view_wf();
        }
        let from: u16 = self.registers.i;
        match instruction {
            Instruction::Draw { x, y, rows } => {
                if from as usize + rows as usize > 4096 {
                    return Err(Fault::AddressOutOfRange);
                }
                let corner_x: u8 = self.registers.v[x as usize];
                let corner_y: u8 = self.registers.v[y as usize];
                let sprite = self.memory.load_sprite(from, rows);
                let collision: bool = self.display.draw_sprite(corner_x, corner_y, sprite);
                self.registers.v[0xF] = if collision {
                    0x01
                } else {
                    0x00
                };
            },
            Instruction::StoreDigits { x } => {
                if from >= 4094 {
                    return Err(Fault::AddressOutOfRange);
                }
                let vx: u8 = self.registers.v[x as usize];
                self.memory.store(from, vx / 100);
                self.memory.store(from + 1, (vx / 10) % 10);
                self.memory.store(from + 2, vx % 10);
            },
            Instruction::StoreRegisters { x } => {
                if from as usize + x as usize >= 4096 {
                    return Err(Fault::AddressOutOfRange);
                }
                store_registers(&mut self.memory, &self.registers.v, from, x);
            },
            Instruction::LoadRegisters { x } => {
                if from as usize + x as usize >= 4096 {
                    return Err(Fault::AddressOutOfRange);
                }
                load_registers(&mut self.registers.v, &self.memory, from, x);
            },
            _ => {},
        }
        self.registers.pc = advanced(self.registers.pc, 2);
        proof {
            assert(self@ =~= spec_apply(old(self)@, instruction, 0)->Ok_0);
        }
        Ok(())
    }

    /// Applies an instruction that only moves the program counter, or
    /// clears the screen.
    fn apply_flow(&mut self, instruction: Instruction) -> (result: Result<(), Fault>)
        requires
            old(self).wf(),
            instruction.wf(),
            is_flow(instruction),
        ensures
            forall|random: u8|
                outcome(
                    old(self)@,
                    final(self)@,
                    result,
                    #[trigger] spec_apply(old(self)@, instruction, random),
                ),
    {
        let pc: u16 = self.registers.pc;
        match instruction {
            Instruction::ClearScreen => {
                self.display.clear();
                self.registers.pc = advanced(pc, 2);
            },
            Instruction::Return => {
                if self.registers.sp == 0 {
                    return Err(Fault::StackUnderflow);
                }
                self.registers.sp -= 1;
                let back: u16 = self.registers.stack[self.registers.sp as usize];
                self.registers.pc = advanced(back, 2);
            },
            Instruction::Jump { addr } => {
                self.registers.pc = addr;
            },
            Instruction::Call { addr } => {
                if self.registers.sp >= 15 {
                    return Err(Fault::StackOverflow);
                }
                let level: usize = self.registers.sp as usize;
                self.registers.stack[level] = pc;
                self.registers.sp += 1;
                self.registers.pc = addr;
            },
            Instruction::SkipIfEqual { x, value } => {
                let vx: u8 = self.registers.v[x as usize];
                self.skip(vx == value);
            },
            Instruction::SkipIfNotEqual { x, value } => {
                let vx: u8 = self.registers.v[x as usize];
                self.skip(vx != value);
            },
            Instruction::SkipIfSame { x, y } => {
                let vx: u8 = self.registers.v[x as usize];
                let vy: u8 = self.registers.v[y as usize];
                self.skip(vx == vy);
            },
            Instruction::SkipIfDifferent { x, y } => {
                let vx: u8 = self.registers.v[x as usize];
                let vy: u8 = self.registers.v[y as usize];
                self.skip(vx != vy);
            },
            Instruction::JumpOffset { addr } => {
                let v0: u8 = self.registers.v[0x0];
                self.registers.pc = addr + v0 as u16;
            },
            Instruction::SkipIfKey { x } => {
                let pressed: bool = self.keyboard.is_pressed(self.registers.v[x as usize]);
                self.skip(pressed);
            },
            Instruction::SkipIfNoKey { x } => {
                let pressed: bool = self.keyboard.is_pressed(self.registers.v[x as usize]);
                self.skip(!pressed);
            },
            _ => {},
        }
        Ok(())
    }

    /// Applies an instruction that computes one register from registers,
    /// an immediate value, the delay timer or the random byte.
    fn apply_to_registers(&mut self, instruction: Instruction, random: u8)
        requires
            instruction.wf(),
            is_register_operation(instruction),
        ensures
            spec_apply(old(self)@, instruction, random) == Ok::<Machine, Fault>(final(self)@),
    {
        match instruction {
            Instruction::Load { x, value } => {
                self.write(x, value);
            },
            Instruction::AddImmediate { x, value } => {
                let vx: u8 = self.registers.v[x as usize];
                self.write(x, vx.wrapping_add(value));
            },
            Instruction::Move { x, y } => {
                let vy: u8 = self.registers.v[y as usize];
                self.write(x, vy);
            },
            Instruction::Or { x, y } => {
                let vx: u8 = self.registers.v[x as usize];
                let vy: u8 = self.registers.v[y as usize];
                self.write(x, vx | vy);
            },
            Instruction::And { x, y } => {
                let vx: u8 = self.registers.v[x as usize];
                let vy: u8 = self.registers.v[y as usize];
                self.write(x, vx & vy);
            },
            Instruction::Xor { x, y } => {
                let vx: u8 = self.registers.v[x as usize];
                let vy: u8 = self.registers.v[y as usize];
                self.write(x, vx ^ vy);
            },
            Instruction::Add { x, y } => {
                let vx: u8 = self.registers.v[x as usize];
                let vy: u8 = self.registers.v[y as usize];
                self.write_then_flag(x, add_with_carry(vx, vy));
            },
            Instruction::Subtract { x, y } => {
                let vx: u8 = self.registers.v[x as usize];
                let vy: u8 = self.registers.v[y as usize];
                self.write_then_flag(x, sub_with_borrow(vx, vy));
            },
            Instruction::ShiftRight { x } => {
                let vx: u8 = self.registers.v[x as usize];
                self.flag_then_write(x, shift_right(vx));
            },
            Instruction::SubtractFrom { x, y } => {
                let vx: u8 = self.registers.v[x as usize];
                let vy: u8 = self.registers.v[y as usize];
                self.write_then_flag(x, sub_with_borrow(vy, vx));
            },
            Instruction::ShiftLeft { x } => {
                let vx: u8 = self.registers.v[x as usize];
                self.flag_then_write(x, shift_left(vx));
            },
            Instruction::Random { x, value } => {
                self.write(x, random & value);
            },
            Instruction::ReadDelay { x } => {
                let delay: u8 = self.timers.dt;
                self.write(x, delay);
            },
            _ => {},
        }
    }

    /// Applies an instruction that sets the index register, a timer or
    /// the wait for a key.
    fn apply_to_state(&mut self, instruction: Instruction)
        requires
            instruction.wf(),
            is_state_operation(instruction),
        ensures
            forall|random: u8|
                #[trigger] spec_apply(old(self)@, instruction, random) == Ok::<Machine, Fault>(
                    final(self)@,
                ),
    {
        match instruction {
            Instruction::LoadIndex { addr } => {
                self.registers.i = addr;
            },
            Instruction::AwaitKey { x } => {
                self.waiting_key_for = KeyWait::AwaitingKey { register: x };
            },
            Instruction::SetDelay { x } => {
                self.timers.dt = self.registers.v[x as usize];
            },
            Instruction::SetSound { x } => {
                self.timers.st = self.registers.v[x as usize];
            },
            Instruction::AddIndex { x } => {
                let vx: u8 = self.registers.v[x as usize];
                self.registers.i = self.registers.i.wrapping_add(vx as u16);
            },
            Instruction::FontAddress { x } => {
                self.registers.i = Memory::font_addr(self.registers.v[x as usize]);
            },
            _ => {},
        }
        self.registers.pc = advanced(self.registers.pc, 2);
    }

    /// Applies one decoded instruction, with `random` as the byte that a
    /// random instruction draws.
    pub fn apply(&mut self, instruction: Instruction, random: u8) -> (result: Result<(), Fault>)
        requires
            old(self).wf(),
            instruction.wf(),
        ensures
            final(self).wf(),
            outcome(old(self)@, final(self)@, result, spec_apply(old(self)@, instruction, random)),
    {
        proof {
            self.lemma_view_wf();
            lemma_apply_keeps_wf(self@, instruction, random);
        }
        if is_flow_instruction(instruction) {
            self.apply_flow(instruction)
        } else if is_memory_instruction(instruction) {
            self.apply_to_memory(instruction)
        } else if is_state_instruction(instruction) {
            self.apply_to_state(instruction);
            Ok(())
        } else {
            self.apply_to_registers(instruction, random);
            Ok(())
        }
    }

    /// Executes the instruction whose nibbles are `h1 h2 h3 h4`, with
    /// `random` as the byte that a random instruction draws.
    pub fn execute_with(&mut self, h1: u8, h2: u8, h3: u8, h4: u8, random: u8) -> (result: Result<
        (),
        Fault,
    >)
        requires
            old(self).wf(),
        ensures
            final(self).wf(),
            outcome(
                old(self)@,
                final(self)@,
                result,
                spec_execute(old(self)@, h1, h2, h3, h4, random),
            ),
    {
        match decode(h1, h2, h3, h4) {
            Some(instruction) => self.apply(instruction, random),
            None => Err(Fault::UnsupportedInstruction { h1, h2, h3, h4 }),
        }
    }

    /// Executes the instruction whose nibbles are `h1 h2 h3 h4`. The random
    /// instruction draws its byte; every other one does what `execute_with`
    /// does with any byte.
    pub fn execute(&mut self, h1: u8, h2: u8, h3: u8, h4: u8) -> (result: Result<(), Fault>)
        requires
            old(self).wf(),
        ensures
            final(self).wf(),
            exists|random: u8|
                random < 0xFF && outcome(
                    old(self)@,
                    final(self)@,
                    result,
                    #[trigger] spec_execute(old(self)@, h1, h2, h3, h4, random),
                ),
            h1 != 0xC ==> outcome(
                old(self)@,
                final(self)@,
                result,
                spec_execute(old(self)@, h1, h2, h3, h4, 0),
            ),
    {
        let random: u8 = if h1 == 0xC {
            random_below(0xFF)
        } else {
            0
        };
        self.execute_with(h1, h2, h3, h4, random)
    }

    /// One instruction clock event: nothing while a key is awaited, else
    /// the instruction at the program counter is fetched and executed.
    pub fn step(&mut self) -> (result: Result<(), Fault>)
        requires
            old(self).wf(),
        ensures
            final(self).wf(),
            exists|random: u8|
                random < 0xFF && outcome(
                    old(self)@,
                    final(self)@,
                    result,
                    #[trigger] spec_step(old(self)@, random),
                ),
            !draws_random(old(self)@) ==> outcome(
                old(self)@,
                final(self)@,
                result,
                spec_step(old(self)@, 0),
            ),
    {
        match self.waiting_key_for {
            KeyWait::AwaitingKey { register } => {
                assert(outcome(old(self)@, self@, Ok(()), spec_step(old(self)@, 0)));
                return Ok(());
            },
            KeyWait::Running => {},
        }
        let pc: u16 = self.registers.pc;
        if pc >= 4095 {
            assert(outcome(old(self)@, self@, Err(Fault::AddressOutOfRange), spec_step(old(self)@, 0)));
            return Err(Fault::AddressOutOfRange);
        }
        let b1: u8 = self.memory.load(pc);
        let b2: u8 = self.memory.load(pc + 1);
        let result = self.execute(b1 / 16, b1 % 16, b2 / 16, b2 % 16);
        proof {
            let random = choose|random: u8|
                random < 0xFF && outcome(
                    old(self)@,
                    self@,
                    result,
                    #[trigger] spec_execute(old(self)@, b1 / 16, b1 % 16, b2 / 16, b2 % 16, random),
                );
            assert(outcome(old(self)@, self@, result, spec_step(old(self)@, random)));
        }
        result
    }

    /// One timer tick: both timers count down towards zero, and the tone is
    /// on exactly if the sound timer was above zero when the tick began.
    pub fn timer_tick(&mut self) -> (tone: Tone)
        ensures
            final(self)@ == spec_timer_tick(old(self)@).0,
            tone == spec_timer_tick(old(self)@).1,
            final(self).wf() == old(self).wf(),
    {
        if self.timers.dt > 0 {
            self.timers.dt -= 1;
        }
        if self.timers.st > 0 {
            self.timers.st -= 1;
            Tone::On
        } else {
            Tone::Off
        }
    }

    /// One key event: a press while a key is awaited goes into the
    /// destination register and ends the wait; the pad follows every event.
    pub fn key_event(&mut self, message: KeyboardMessage)
        requires
            old(self).wf(),
        ensures
            final(self).wf(),
            final(self)@ == spec_key_event(old(self)@, message),
    {
        match (message, self.waiting_key_for) {
            (KeyboardMessage::Press(value), KeyWait::AwaitingKey { register }) => {
                self.registers.v[register as usize] = value;
                self.waiting_key_for = KeyWait::Running;
            },
            _ => {},
        }
        self.keyboard.update(message);
    }

    /// Handles one event and tells what the tone output is to do, if the
    /// event was a timer tick.
    pub fn update(&mut self, message: Message) -> (result: Result<Option<Tone>, Fault>)
        requires
            old(self).wf(),
        ensures
            final(self).wf(),
            exists|random: u8|
                random < 0xFF && #[trigger] update_outcome(
                    old(self)@,
                    final(self)@,
                    result,
                    message,
                    random,
                ),
            !(message is Clock && draws_random(old(self)@)) ==> update_outcome(
                old(self)@,
                final(self)@,
                result,
                message,
                0,
            ),
    {
        match message {
            Message::Clock(_instant) => {
                let stepped = self.step();
                proof {
                    let random = choose|random: u8|
                        random < 0xFF && outcome(
                            old(self)@,
                            self@,
                            stepped,
                            #[trigger] spec_step(old(self)@, random),
                        );
                    assert(update_outcome(
                        old(self)@,
                        self@,
                        match stepped {
                            Ok(_) => Ok(None),
                            Err(fault) => Err(fault),
                        },
                        message,
                        random,
                    ));
                }
                match stepped {
                    Ok(_) => Ok(None),
                    Err(fault) => Err(fault),
                }
            },
            Message::TickTimers(_instant) => {
                let tone = self.timer_tick();
                assert(update_outcome(old(self)@, self@, Ok(Some(tone)), message, 0));
                Ok(Some(tone))
            },
            Message::FromDisplay => {
                assert(update_outcome(old(self)@, self@, Ok(None), message, 0));
                Ok(None)
            },
            Message::FromKeyboard(key) => {
                self.key_event(key);
                assert(update_outcome(old(self)@, self@, Ok(None), message, 0));
                Ok(None)
            },
        }
    }
}

/// The addition `8xy4` always succeeds, leaves the sum modulo 256 in
/// register `x`, and sets the flag register to 1 if the sum was 256 or
/// more and to 0 if not. (Where `x` is the flag register, the flag wins.)
pub proof fn lemma_add_sets_carry(m: Machine, x: u8, y: u8, random: u8)
    requires
        m.wf(),
        x < 16,
        y < 16,
    ensures
        spec_execute(m, 0x8, x, y, 0x4, random) matches Ok(after) && {
            &&& after.v[0xF] == flag(m.v[x as int] + m.v[y as int] >= 256)
            &&& x != 0xF ==> after.v[x as int] == (m.v[x as int] + m.v[y as int]) % 256
            &&& after.pc == advance(m.pc, 2)
        },
{
}

/// The subtractions `8xy5` (`Vx - Vy`) and `8xy7` (`Vy - Vx`) always
/// succeed, leave the difference modulo 256 in register `x`, and set the
/// flag register to 1 exactly if nothing was borrowed.
pub proof fn lemma_sub_sets_no_borrow(m: Machine, x: u8, y: u8, random: u8)
    requires
        m.wf(),
        x < 16,
        y < 16,
    ensures
        spec_execute(m, 0x8, x, y, 0x5, random) matches Ok(after) && {
            &&& after.v[0xF] == flag(m.v[x as int] >= m.v[y as int])
            &&& x != 0xF ==> after.v[x as int] == (m.v[x as int] - m.v[y as int]) % 256
        },
        spec_execute(m, 0x8, x, y, 0x7, random) matches Ok(after) && {
            &&& after.v[0xF] == flag(m.v[y as int] >= m.v[x as int])
            &&& x != 0xF ==> after.v[x as int] == (m.v[y as int] - m.v[x as int]) % 256
        },
{
}

/// The shifts `8xy6` and `8xyE` of a register other than the flag
/// register set the flag to the bit that falls out: the lowest bit of the
/// old value for the right shift, the highest for the left shift.
pub proof fn lemma_shift_sets_flag(m: Machine, x: u8, y: u8, random: u8)
    requires
        m.wf(),
        x < 15,
        y < 16,
    ensures
        spec_execute(m, 0x8, x, y, 0x6, random) matches Ok(after) && {
            &&& after.v[0xF] == m.v[x as int] % 2
            &&& after.v[x as int] == m.v[x as int] / 2
        },
        spec_execute(m, 0x8, x, y, 0xE, random) matches Ok(after) && {
            &&& after.v[0xF] == m.v[x as int] / 128
            &&& after.v[x as int] == (m.v[x as int] * 2) % 256
        },
{
}

/// While a key is awaited, clock events do nothing and a release changes
/// only the pad; the first press puts its key into the awaited register
/// and lets the machine run again.
pub proof fn lemma_wait_ends_with_press(m: Machine, register: u8, key: u8, random: u8)
    requires
        m.wf(),
        m.wait == (KeyWait::AwaitingKey { register }),
    ensures
        spec_step(m, random) == Ok::<Machine, Fault>(m),
        spec_key_event(m, KeyboardMessage::Release(key)) == (Machine {
            keys: m.keys.remove(key),
            ..m
        }),
        spec_key_event(m, KeyboardMessage::Press(key)).wait == KeyWait::Running,
        spec_key_event(m, KeyboardMessage::Press(key)).v == m.v.update(register as int, key),
        spec_key_event(m, KeyboardMessage::Press(key)).keys == m.keys.insert(key),
{
}

/// Every step, tick and key event takes a well-formed machine to a
/// well-formed machine: the stack pointer and the awaited register stay
/// below 16.
pub proof fn lemma_wf_is_kept(m: Machine, random: u8, message: KeyboardMessage)
    requires
        m.wf(),
    ensures
        spec_step(m, random) matches Ok(after) ==> after.wf(),
        spec_timer_tick(m).0.wf(),
        spec_key_event(m, message).wf(),
{
    if m.wait is Running && m.pc + 1 < 4096 {
        let b1 = m.memory[m.pc as int];
        let b2 = m.memory[m.pc + 1];
        lemma_execute_keeps_wf(m, b1 / 16, b1 % 16, b2 / 16, b2 % 16, random);
    }
}

/// One instruction takes a well-formed machine to a well-formed machine.
pub proof fn lemma_execute_keeps_wf(m: Machine, h1: u8, h2: u8, h3: u8, h4: u8, random: u8)
    requires
        m.wf(),
    ensures
        spec_execute(m, h1, h2, h3, h4, random) matches Ok(after) ==> after.wf(),
{
    match spec_decode(h1, h2, h3, h4) {
        Some(instruction) => {
            lemma_decoded_is_wf(h1, h2, h3, h4);
            lemma_apply_keeps_wf(m, instruction, random);
        },
        None => {},
    }
}

/// One decoded instruction takes a well-formed machine to a well-formed
/// machine.
pub proof fn lemma_apply_keeps_wf(m: Machine, instruction: Instruction, random: u8)
    requires
        m.wf(),
        instruction.wf(),
    ensures
        spec_apply(m, instruction, random) matches Ok(after) ==> after.wf(),
{
}

} // verus!
