//! The abstract machine: what a CHIP-8 state is, and what one step does to it.
//!
//! Every executable operation of `Chip8CPU` is specified against the
//! functions of this module.

use vstd::prelude::*;

verus! {

/// Number of memory cells.
pub const MEMORY_SIZE: usize = 4096;

/// Width of the framebuffer in cells.
pub const SCREEN_WIDTH: usize = 64;

/// Height of the framebuffer in cells.
pub const SCREEN_HEIGHT: usize = 32;

/// Number of framebuffer cells.
pub const SCREEN_SIZE: usize = 2048;

/// Number of general registers, and of keys.
pub const REGISTER_COUNT: usize = 16;

/// Index of the flag register `VF`.
pub const FLAG_REGISTER: usize = 15;

/// Address at which a ROM is loaded and execution starts.
pub const PROGRAM_START: u16 = 0x200;

/// A defect that stops an instruction from taking effect.
#[derive(Debug, Clone, Copy, PartialEq, Eq, Structural)]
pub enum Chip8Error {
    /// The program counter points where no whole opcode fits in memory.
    ProgramCounterOutOfBounds,
    /// A return from subroutine with an empty call stack.
    StackUnderflow,
    /// An instruction reads or writes memory past its last cell.
    MemoryOutOfBounds,
    /// A key instruction names a key number above 0xF.
    KeyOutOfBounds,
    /// A ROM that does not fit between the program origin and the end of memory.
    RomTooLarge,
}

/// The engine's state after a step.
#[derive(Debug, Clone, Copy, PartialEq, Eq, Structural)]
pub enum StepStatus {
    /// The step executed its instruction.
    Running,
    /// The step met a wait-for-key instruction with no key pressed; the same
    /// instruction runs again at the next step.
    WaitingForKey,
}

/// The whole machine state, as plain mathematical values.
pub struct MachineState {
    pub memory: Seq<u8>,
    /// One cell per pixel, row by row: cell `x + 64 * y`; each cell is 0 or 1.
    pub vram: Seq<u16>,
    pub registers: Seq<u8>,
    /// Whether each key is pressed now.
    pub keys: Seq<bool>,
    /// The key states at the end of the previous frame.
    pub old_keys: Seq<bool>,
    /// Return addresses, the most recent last.
    pub stack: Seq<u16>,
    pub i: u16,
    pub pc: u16,
    pub delay_timer: u8,
    pub sound_timer: u8,
}

impl MachineState {
    /// Sizes of the fixed parts, and framebuffer cells that hold 0 or 1.
    pub open spec fn wf(self) -> bool {
        &&& self.memory.len() == MEMORY_SIZE
        &&& self.vram.len() == SCREEN_SIZE
        &&& self.registers.len() == REGISTER_COUNT
        &&& self.keys.len() == REGISTER_COUNT
        &&& self.old_keys.len() == REGISTER_COUNT
        &&& forall|p: int| 0 <= p < SCREEN_SIZE ==> #[trigger] self.vram[p] <= 1
    }

    /// The value of register `r`.
    pub open spec fn reg(self, r: int) -> int {
        self.registers[r] as int
    }
}

/// The state in which a machine starts.
pub open spec fn initial_state() -> MachineState {
    MachineState {
        memory: Seq::new(MEMORY_SIZE as nat, |a: int| 0u8),
        vram: Seq::new(SCREEN_SIZE as nat, |p: int| 0u16),
        registers: Seq::new(REGISTER_COUNT as nat, |r: int| 0u8),
        keys: Seq::new(REGISTER_COUNT as nat, |k: int| false),
        old_keys: Seq::new(REGISTER_COUNT as nat, |k: int| false),
        stack: Seq::empty(),
        i: 0,
        pc: PROGRAM_START,
        delay_timer: 0,
        sound_timer: 0,
    }
}

// ---------------------------------------------------------------------------
// Opcode fields

/// The two bytes at `pc` and `pc + 1`, high byte first.
pub open spec fn opcode_at(memory: Seq<u8>, pc: int) -> u16 {
    (memory[pc] as int * 0x100 + memory[pc + 1] as int) as u16
}

/// The leading nibble: the operation family.
pub open spec fn family(op: u16) -> int {
    op as int / 0x1000
}

/// Bits 8..12: the first register operand.
pub open spec fn field_x(op: u16) -> int {
    (op as int / 0x100) % 0x10
}

/// Bits 4..8: the second register operand.
pub open spec fn field_y(op: u16) -> int {
    (op as int / 0x10) % 0x10
}

/// The low nibble.
pub open spec fn field_n(op: u16) -> int {
    op as int % 0x10
}

/// The low byte.
pub open spec fn field_nn(op: u16) -> int {
    op as int % 0x100
}

/// The low twelve bits: an address.
pub open spec fn field_nnn(op: u16) -> int {
    op as int % 0x1000
}

// ---------------------------------------------------------------------------
// The effect of each instruction, on a state whose program counter already
// points past the instruction.

/// The state with register `x` set to `v`.
pub open spec fn with_register(t: MachineState, x: int, v: int) -> MachineState {
    MachineState { registers: t.registers.update(x, v as u8), ..t }
}

/// The state with register `x` set to `v` and then `VF` set to `f`.
pub open spec fn with_register_and_flag(t: MachineState, x: int, v: int, f: bool) -> MachineState {
    MachineState {
        registers: t.registers.update(x, v as u8).update(FLAG_REGISTER as int, if f { 1u8 } else { 0u8 }),
        ..t
    }
}

/// The state with the program counter set to `a`.
pub open spec fn with_pc(t: MachineState, a: int) -> MachineState {
    MachineState { pc: a as u16, ..t }
}

/// Skips the next instruction when `c` holds.
pub open spec fn skip_when(t: MachineState, c: bool) -> MachineState {
    if c { with_pc(t, t.pc + 2) } else { t }
}

/// `00E0`: every framebuffer cell cleared.
pub open spec fn cleared_screen(t: MachineState) -> MachineState {
    MachineState { vram: Seq::new(SCREEN_SIZE as nat, |p: int| 0u16), ..t }
}

/// `00EE`: the last return address popped into the program counter.
pub open spec fn returned(t: MachineState) -> Result<MachineState, Chip8Error> {
    if t.stack.len() == 0 {
        Err(Chip8Error::StackUnderflow)
    } else {
        Ok(MachineState { pc: t.stack.last(), stack: t.stack.drop_last(), ..t })
    }
}

/// `2NNN`: the address after the call pushed, then a jump to `nnn`.
pub open spec fn called(t: MachineState, nnn: int) -> MachineState {
    MachineState { stack: t.stack.push(t.pc), pc: nnn as u16, ..t }
}

/// The `8XY_` arithmetic and logic family, for sub-operation `n`.
pub open spec fn alu(t: MachineState, x: int, y: int, n: int) -> MachineState {
    let vx = t.reg(x);
    let vy = t.reg(y);
    if n == 0 {
        with_register(t, x, vy)
    } else if n == 1 {
        with_register(t, x, (t.registers[x] | t.registers[y]) as int)
    } else if n == 2 {
        with_register(t, x, (t.registers[x] & t.registers[y]) as int)
    } else if n == 3 {
        with_register(t, x, (t.registers[x] ^ t.registers[y]) as int)
    } else if n == 4 {
        with_register_and_flag(t, x, (vx + vy) % 256, vx + vy > 255)
    } else if n == 5 {
        with_register_and_flag(t, x, (vx - vy) % 256, vx >= vy)
    } else if n == 6 {
        with_register_and_flag(t, x, vy / 2, vx % 2 == 1)
    } else if n == 7 {
        with_register_and_flag(t, x, (vy - vx) % 256, vy >= vx)
    } else if n == 0xE {
        with_register_and_flag(t, x, (vy * 2) % 256, vx >= 128)
    } else {
        t
    }
}

/// Bit `col` of a sprite row, counted from the most significant bit.
pub open spec fn sprite_bit(row: u8, col: u8) -> bool {
    (row >> (7 - col) as u8) & 1 == 1
}

/// The number of sprite rows that a draw of `n` rows at row `y` reads: the
/// rows below the screen are clipped.
pub open spec fn drawn_rows(n: int, y: int) -> int {
    if n <= SCREEN_HEIGHT - y { n } else { SCREEN_HEIGHT - y }
}

/// Whether screen cell `p` lies under a set bit of the sprite of `n` rows
/// read from memory at `i`, placed with its top left corner at `(x, y)`.
pub open spec fn sprite_covers(memory: Seq<u8>, i: int, n: int, x: int, y: int, p: int) -> bool {
    let px = p % (SCREEN_WIDTH as int);
    let py = p / (SCREEN_WIDTH as int);
    &&& 0 <= p < SCREEN_SIZE
    &&& x <= px < x + 8
    &&& y <= py < y + n
    &&& sprite_bit(memory[i + (py - y)], (px - x) as u8)
}

/// Whether drawing flips some set cell to clear.
pub open spec fn draw_collides(t: MachineState, n: int, x: int, y: int) -> bool {
    exists|p: int| #[trigger] sprite_covers(t.memory, t.i as int, n, x, y, p) && t.vram[p] == 1
}

/// `DXYN` with the sprite placed at `(x, y)`: each covered cell flipped, and
/// `VF` set to whether any set cell was cleared. Reading past memory is an
/// error.
pub open spec fn drawn(t: MachineState, n: int, x: int, y: int) -> Result<MachineState, Chip8Error> {
    if t.i + drawn_rows(n, y) > MEMORY_SIZE {
        Err(Chip8Error::MemoryOutOfBounds)
    } else {
        Ok(MachineState {
            vram: Seq::new(
                SCREEN_SIZE as nat,
                |p: int|
                    if sprite_covers(t.memory, t.i as int, n, x, y, p) {
                        t.vram[p] ^ 1
                    } else {
                        t.vram[p]
                    },
            ),
            registers: t.registers.update(FLAG_REGISTER as int, if draw_collides(t, n, x, y) { 1u8 } else { 0u8 }),
            ..t
        })
    }
}

/// `DXYN` as the opcode gives it: the position read from `VX` and `VY`,
/// wrapped into the screen.
pub open spec fn draw_instruction(t: MachineState, x: int, y: int, n: int) -> Result<MachineState, Chip8Error> {
    drawn(t, n, t.reg(x) % (SCREEN_WIDTH as int), t.reg(y) % (SCREEN_HEIGHT as int))
}

/// `EX9E` (`pressed`) and `EXA1` (`!pressed`): skip when key `VX` is in the
/// given state; a key number above 0xF is an error.
pub open spec fn key_skip(t: MachineState, x: int, pressed: bool) -> Result<MachineState, Chip8Error> {
    let k = t.reg(x);
    if k >= REGISTER_COUNT {
        Err(Chip8Error::KeyOutOfBounds)
    } else {
        Ok(skip_when(t, t.keys[k] == pressed))
    }
}

/// The highest index of a pressed key, or -1 when none is pressed.
pub open spec fn last_pressed(keys: Seq<bool>) -> int
    decreases keys.len(),
{
    if keys.len() == 0 {
        -1
    } else if keys.last() {
        keys.len() - 1
    } else {
        last_pressed(keys.drop_last())
    }
}

/// `FX0A`: with a key pressed, the highest pressed key's number stored in
/// `VX` and its press consumed; with none, the program counter moved back so
/// that the instruction runs again.
pub open spec fn key_wait(t: MachineState, x: int) -> (MachineState, StepStatus) {
    let k = last_pressed(t.keys);
    if k >= 0 {
        (MachineState { registers: t.registers.update(x, k as u8), keys: t.keys.update(k, false), ..t }, StepStatus::Running)
    } else {
        (with_pc(t, t.pc - 2), StepStatus::WaitingForKey)
    }
}

/// `FX33`: the hundreds, tens and units of `VX` at `I`, `I + 1` and `I + 2`.
pub open spec fn stored_bcd(t: MachineState, x: int) -> Result<MachineState, Chip8Error> {
    let v = t.reg(x);
    let i = t.i as int;
    if i + 2 >= MEMORY_SIZE {
        Err(Chip8Error::MemoryOutOfBounds)
    } else {
        Ok(MachineState {
            memory: t.memory.update(i, (v / 100) as u8).update(i + 1, ((v / 10) % 10) as u8).update(i + 2, (v % 10) as u8),
            ..t
        })
    }
}

/// `FX55`: registers `V0..=VX` copied to memory from `I` on.
pub open spec fn stored_registers(t: MachineState, x: int) -> Result<MachineState, Chip8Error> {
    let i = t.i as int;
    if i + x >= MEMORY_SIZE {
        Err(Chip8Error::MemoryOutOfBounds)
    } else {
        Ok(MachineState {
            memory: Seq::new(
                MEMORY_SIZE as nat,
                |a: int| if i <= a <= i + x { t.registers[a - i] } else { t.memory[a] },
            ),
            ..t
        })
    }
}

/// `FX65`: registers `V0..=VX` loaded from memory from `I` on.
pub open spec fn loaded_registers(t: MachineState, x: int) -> Result<MachineState, Chip8Error> {
    let i = t.i as int;
    if i + x >= MEMORY_SIZE {
        Err(Chip8Error::MemoryOutOfBounds)
    } else {
        Ok(MachineState {
            registers: Seq::new(
                REGISTER_COUNT as nat,
                |r: int| if r <= x { t.memory[i + r] } else { t.registers[r] },
            ),
            ..t
        })
    }
}

/// An effect that cannot fail and does not wait.
pub open spec fn running(t: MachineState) -> Result<(MachineState, StepStatus), Chip8Error> {
    Ok((t, StepStatus::Running))
}

/// An effect that may fail and does not wait.
pub open spec fn running_or(r: Result<MachineState, Chip8Error>) -> Result<(MachineState, StepStatus), Chip8Error> {
    match r {
        Ok(t) => Ok((t, StepStatus::Running)),
        Err(e) => Err(e),
    }
}

/// The `FX__` family, for low byte `nn`.
pub open spec fn misc(t: MachineState, x: int, nn: int) -> Result<(MachineState, StepStatus), Chip8Error> {
    if nn == 0x07 {
        running(with_register(t, x, t.delay_timer as int))
    } else if nn == 0x0A {
        Ok(key_wait(t, x))
    } else if nn == 0x15 {
        running(MachineState { delay_timer: t.registers[x], ..t })
    } else if nn == 0x18 {
        running(MachineState { sound_timer: t.registers[x], ..t })
    } else if nn == 0x1E {
        running(MachineState { i: ((t.i + t.reg(x)) % 0x10000) as u16, ..t })
    } else if nn == 0x33 {
        running_or(stored_bcd(t, x))
    } else if nn == 0x55 {
        running_or(stored_registers(t, x))
    } else if nn == 0x65 {
        running_or(loaded_registers(t, x))
    } else {
        running(t)
    }
}

/// What instruction `op` does to state `t`, whose program counter already
/// points past it; `random` is the byte that `CXNN` draws.
pub open spec fn execute(t: MachineState, op: u16, random: u8) -> Result<(MachineState, StepStatus), Chip8Error> {
    let f = family(op);
    let x = field_x(op);
    let y = field_y(op);
    let n = field_n(op);
    let nn = field_nn(op);
    let nnn = field_nnn(op);
    if f == 0x0 {
        if nnn == 0x0E0 {
            running(cleared_screen(t))
        } else if nnn == 0x0EE {
            running_or(returned(t))
        } else {
            // `0NNN`, a machine-code routine call, is not supported: no effect.
            running(t)
        }
    } else if f == 0x1 {
        running(with_pc(t, nnn))
    } else if f == 0x2 {
        running(called(t, nnn))
    } else if f == 0x3 {
        running(skip_when(t, t.reg(x) == nn))
    } else if f == 0x4 {
        running(skip_when(t, t.reg(x) != nn))
    } else if f == 0x5 {
        running(skip_when(t, t.reg(x) == t.reg(y)))
    } else if f == 0x6 {
        running(with_register(t, x, nn))
    } else if f == 0x7 {
        running(with_register(t, x, (t.reg(x) + nn) % 256))
    } else if f == 0x8 {
        running(alu(t, x, y, n))
    } else if f == 0x9 {
        running(skip_when(t, t.reg(x) != t.reg(y)))
    } else if f == 0xA {
        running(MachineState { i: nnn as u16, ..t })
    } else if f == 0xB {
        running(with_pc(t, nnn + t.reg(0)))
    } else if f == 0xC {
        running(with_register(t, x, (random & (nn as u8)) as int))
    } else if f == 0xD {
        running_or(draw_instruction(t, x, y, n))
    } else if f == 0xE {
        if nn == 0x9E {
            running_or(key_skip(t, x, true))
        } else if nn == 0xA1 {
            running_or(key_skip(t, x, false))
        } else {
            running(t)
        }
    } else {
        misc(t, x, nn)
    }
}

/// One step from state `s`: fetch the opcode at the program counter, move
/// past it, and execute it.
pub open spec fn step(s: MachineState, random: u8) -> Result<(MachineState, StepStatus), Chip8Error> {
    if s.pc as int + 1 >= MEMORY_SIZE {
        Err(Chip8Error::ProgramCounterOutOfBounds)
    } else {
        execute(with_pc(s, s.pc + 2), opcode_at(s.memory, s.pc as int), random)
    }
}

/// Whether a step from `before`, with `random` as the byte that `CXNN` draws,
/// reports `r` and leaves `after`: the state that `step` gives, or `before`
/// itself when the step fails.
pub open spec fn step_taken(
    before: MachineState,
    random: u8,
    after: MachineState,
    r: Result<StepStatus, Chip8Error>,
) -> bool {
    match step(before, random) {
        Ok((t, status)) => r == Ok::<StepStatus, Chip8Error>(status) && after == t,
        Err(e) => r == Err::<StepStatus, Chip8Error>(e) && after == before,
    }
}

/// The state with `rom` copied into memory from the program origin on.
pub open spec fn with_rom(s: MachineState, rom: Seq<u8>) -> MachineState {
    MachineState {
        memory: Seq::new(
            MEMORY_SIZE as nat,
            |a: int|
                if PROGRAM_START <= a < PROGRAM_START + rom.len() {
                    rom[a - PROGRAM_START]
                } else {
                    s.memory[a]
                },
        ),
        ..s
    }
}

/// The largest ROM that fits between the program origin and the end of memory.
pub open spec fn max_rom_len() -> int {
    MEMORY_SIZE - PROGRAM_START
}

/// Both timers moved one tick towards zero.
pub open spec fn ticked(s: MachineState) -> MachineState {
    MachineState {
        delay_timer: if s.delay_timer > 0 { (s.delay_timer - 1) as u8 } else { 0 },
        sound_timer: if s.sound_timer > 0 { (s.sound_timer - 1) as u8 } else { 0 },
        ..s
    }
}

} // verus!
