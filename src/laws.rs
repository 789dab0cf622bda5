//! Properties of the machine that relate several instructions or hold of
//! every operand, proved over the model that the engine's contracts use.

use vstd::prelude::*;

use crate::model::{
    draw_instruction, execute, family, field_n, field_nn, field_nnn, field_x, field_y,
    loaded_registers, opcode_at, sprite_covers, step, stored_registers, MachineState,
    FLAG_REGISTER, MEMORY_SIZE, REGISTER_COUNT, SCREEN_SIZE,
};

verus! {

/// The fields of the opcode with leading nibble `f`, register operands `x`
/// and `y`, and low nibble `n`.
proof fn lemma_opcode_fields(f: int, x: int, y: int, n: int)
    requires
        0 <= f < 16,
        0 <= x < 16,
        0 <= y < 16,
        0 <= n < 16,
    ensures
        ({
            let op = (f * 0x1000 + x * 0x100 + y * 0x10 + n) as u16;
            &&& family(op) == f
            &&& field_x(op) == x
            &&& field_y(op) == y
            &&& field_n(op) == n
            &&& field_nn(op) == y * 0x10 + n
            &&& field_nnn(op) == x * 0x100 + y * 0x10 + n
        }),
{
    let v = f * 0x1000 + x * 0x100 + y * 0x10 + n;
    assert(0 <= v < 0x10000) by (nonlinear_arith)
        requires
            0 <= f < 16,
            0 <= x < 16,
            0 <= y < 16,
            0 <= n < 16,
            v == f * 0x1000 + x * 0x100 + y * 0x10 + n,
    ;
    assert(v / 0x1000 == f && (v / 0x100) % 0x10 == x && (v / 0x10) % 0x10 == y && v % 0x10 == n
        && v % 0x100 == y * 0x10 + n && v % 0x1000 == x * 0x100 + y * 0x10 + n) by (nonlinear_arith)
        requires
            0 <= f < 16,
            0 <= x < 16,
            0 <= y < 16,
            0 <= n < 16,
            v == f * 0x1000 + x * 0x100 + y * 0x10 + n,
    ;
}

/// `6XNN` sets register `X` to exactly `NN`, whatever the machine held before.
pub proof fn lemma_set_register_immediate(t: MachineState, x: int, nn: int, random: u8)
    requires
        t.wf(),
        0 <= x < REGISTER_COUNT,
        0 <= nn < 0x100,
    ensures
        execute(t, (0x6000 + x * 0x100 + nn) as u16, random) is Ok,
        execute(t, (0x6000 + x * 0x100 + nn) as u16, random).unwrap().0.reg(x) == nn,
{
    lemma_opcode_fields(6, x, nn / 0x10, nn % 0x10);
}

/// `8XY4` stores `(VX + VY) mod 256` in `VX` (unless `X` is `VF` itself, which
/// the flag overwrites) and sets `VF` to 1 exactly when `VX + VY > 255`.
pub proof fn lemma_add_carry(t: MachineState, x: int, y: int, random: u8)
    requires
        t.wf(),
        0 <= x < REGISTER_COUNT,
        0 <= y < REGISTER_COUNT,
    ensures
        ({
            let r = execute(t, (0x8004 + x * 0x100 + y * 0x10) as u16, random);
            &&& r is Ok
            &&& r.unwrap().0.reg(FLAG_REGISTER as int) == if t.reg(x) + t.reg(y) > 255 { 1int } else { 0int }
            &&& x != FLAG_REGISTER ==> r.unwrap().0.reg(x) == (t.reg(x) + t.reg(y)) % 256
        }),
{
    lemma_opcode_fields(8, x, y, 4);
}

/// `8XY5` sets `VF` to 1 exactly when `VX >= VY` before the subtraction.
pub proof fn lemma_sub_no_borrow(t: MachineState, x: int, y: int, random: u8)
    requires
        t.wf(),
        0 <= x < REGISTER_COUNT,
        0 <= y < REGISTER_COUNT,
    ensures
        ({
            let r = execute(t, (0x8005 + x * 0x100 + y * 0x10) as u16, random);
            &&& r is Ok
            &&& (r.unwrap().0.reg(FLAG_REGISTER as int) == 1) == (t.reg(x) >= t.reg(y))
            &&& (r.unwrap().0.reg(FLAG_REGISTER as int) == 0) == (t.reg(x) < t.reg(y))
        }),
{
    lemma_opcode_fields(8, x, y, 5);
}

/// `FX55` followed by `FX65`, with the same `I` and `X`, gives back every
/// register as it was, whenever the copied cells lie in memory; memory and
/// `I` are as the store left them.
pub proof fn lemma_store_load_registers(t: MachineState, x: int)
    requires
        t.wf(),
        0 <= x < REGISTER_COUNT,
        t.i + x < MEMORY_SIZE,
    ensures
        ({
            let first = stored_registers(t, x);
            let second = loaded_registers(first.unwrap(), x);
            &&& first is Ok
            &&& second is Ok
            &&& second.unwrap().registers == t.registers
            &&& second.unwrap().memory == first.unwrap().memory
            &&& second.unwrap().i == t.i
        }),
{
    let t1 = stored_registers(t, x).unwrap();
    assert(loaded_registers(t1, x).unwrap().registers =~= t.registers);
}

/// The same round trip, as two instructions executed one after the other.
pub proof fn lemma_store_load_round_trip(t: MachineState, x: int, r1: u8, r2: u8)
    requires
        t.wf(),
        0 <= x < REGISTER_COUNT,
        t.i + x < MEMORY_SIZE,
    ensures
        ({
            let first = execute(t, (0xF055 + x * 0x100) as u16, r1);
            let second = execute(first.unwrap().0, (0xF065 + x * 0x100) as u16, r2);
            &&& first is Ok
            &&& second is Ok
            &&& second.unwrap().0.registers == t.registers
        }),
{
    lemma_opcode_fields(0xF, x, 5, 5);
    lemma_opcode_fields(0xF, x, 6, 5);
    lemma_store_load_registers(t, x);
}

/// Drawing the same sprite at the same place twice in a row gives the
/// framebuffer back as it was, and the second draw reports a collision
/// exactly when the first set some cell. The sprite's position must not be
/// read from `VF`, which the first draw overwrites.
pub proof fn lemma_draw_instruction_twice(t: MachineState, x: int, y: int, n: int)
    requires
        t.wf(),
        0 <= x < FLAG_REGISTER,
        0 <= y < FLAG_REGISTER,
        0 <= n < 16,
        draw_instruction(t, x, y, n) is Ok,
    ensures
        ({
            let t1 = draw_instruction(t, x, y, n).unwrap();
            let second = draw_instruction(t1, x, y, n);
            &&& second is Ok
            &&& second.unwrap().vram == t.vram
            &&& (second.unwrap().reg(FLAG_REGISTER as int) == 1) == (exists|p: int|
                0 <= p < SCREEN_SIZE && t.vram[p] == 0 && #[trigger] t1.vram[p] == 1)
            &&& (second.unwrap().reg(FLAG_REGISTER as int) == 0) != (exists|p: int|
                0 <= p < SCREEN_SIZE && t.vram[p] == 0 && #[trigger] t1.vram[p] == 1)
        }),
{
    let t1 = draw_instruction(t, x, y, n).unwrap();
    let t2 = draw_instruction(t1, x, y, n).unwrap();
    let px = t.reg(x) % 64;
    let py = t.reg(y) % 32;
    assert(t1.reg(x) == t.reg(x) && t1.reg(y) == t.reg(y));
    assert forall|p: int| 0 <= p < SCREEN_SIZE implies #[trigger] t2.vram[p] == t.vram[p] by {
        let v = t.vram[p];
        assert(v ^ 1 ^ 1 == v) by (bit_vector);
    }
    assert(t2.vram =~= t.vram);
    let set_some = exists|p: int| 0 <= p < SCREEN_SIZE && t.vram[p] == 0 && #[trigger] t1.vram[p] == 1;
    let collides = exists|p: int| #[trigger] sprite_covers(t1.memory, t1.i as int, n, px, py, p) && t1.vram[p] == 1;
    if set_some {
        let p = choose|p: int| 0 <= p < SCREEN_SIZE && t.vram[p] == 0 && #[trigger] t1.vram[p] == 1;
        assert(sprite_covers(t1.memory, t1.i as int, n, px, py, p));
    }
    if collides {
        let p = choose|p: int| #[trigger] sprite_covers(t1.memory, t1.i as int, n, px, py, p) && t1.vram[p] == 1;
        let v = t.vram[p];
        assert(v <= 1 && v ^ 1 == 1 ==> v == 0) by (bit_vector);
        assert(t1.vram[p] == 1);
    }
}

/// The same double draw, as two `DXYN` instructions executed one after the
/// other.
pub proof fn lemma_draw_twice(t: MachineState, x: int, y: int, n: int, r1: u8, r2: u8)
    requires
        t.wf(),
        0 <= x < FLAG_REGISTER,
        0 <= y < FLAG_REGISTER,
        0 <= n < 16,
        execute(t, (0xD000 + x * 0x100 + y * 0x10 + n) as u16, r1) is Ok,
    ensures
        ({
            let op = (0xD000 + x * 0x100 + y * 0x10 + n) as u16;
            let t1 = execute(t, op, r1).unwrap().0;
            let second = execute(t1, op, r2);
            &&& second is Ok
            &&& second.unwrap().0.vram == t.vram
            &&& (second.unwrap().0.reg(FLAG_REGISTER as int) == 1) == (exists|p: int|
                0 <= p < SCREEN_SIZE && t.vram[p] == 0 && #[trigger] t1.vram[p] == 1)
            &&& (second.unwrap().0.reg(FLAG_REGISTER as int) == 0) != (exists|p: int|
                0 <= p < SCREEN_SIZE && t.vram[p] == 0 && #[trigger] t1.vram[p] == 1)
        }),
{
    lemma_opcode_fields(0xD, x, y, n);
    lemma_draw_instruction_twice(t, x, y, n);
}

/// A return that finds the call stack as a call left it puts the program
/// counter just after that call and gives the stack back as it was before.
pub proof fn lemma_call_return(s: MachineState, u: MachineState, nnn: int, r1: u8, r2: u8)
    requires
        s.wf(),
        u.wf(),
        0 <= nnn < 0x1000,
        s.pc + 1 < MEMORY_SIZE,
        opcode_at(s.memory, s.pc as int) == 0x2000 + nnn,
        u.pc + 1 < MEMORY_SIZE,
        opcode_at(u.memory, u.pc as int) == 0x00EE,
        u.stack == step(s, r1).unwrap().0.stack,
    ensures
        step(s, r1) is Ok,
        step(s, r1).unwrap().0.pc == nnn,
        step(u, r2) is Ok,
        step(u, r2).unwrap().0.pc == s.pc + 2,
        step(u, r2).unwrap().0.stack == s.stack,
{
    assert(step(s, r1).unwrap().0.stack == s.stack.push((s.pc + 2) as u16));
    assert(u.stack.drop_last() =~= s.stack);
}

} // verus!
