use vstd::prelude::*;

use crate::cpu::{
    decode_op, execute, fetch, machine_wf, nib, step, Instruction, Machine, Mode, MEMORY,
    STACK_DEPTH,
};
use crate::gpu::blank;
use crate::input::lowest_pressed;

verus! {

/// How an opcode made of two bytes splits into nibbles and operands.
pub proof fn lemma_opcode(hi: u8, lo: u8)
    ensures
        ({
            let op = (hi as int * 256 + lo as int) as u16;
            &&& nib(op, 0) == hi >> 4u8
            &&& nib(op, 1) == hi & 0xF
            &&& nib(op, 2) == lo >> 4u8
            &&& nib(op, 3) == lo & 0xF
            &&& (op & 0xFF) as u8 == lo
            &&& op & 0xFFF == (hi & 0xF) as u16 * 256 + lo as u16
        }),
{
    let op: u16 = ((hi as u16) * 256 + (lo as u16)) as u16;
    assert(op == (hi as int * 256 + lo as int) as u16);
    assert(((op >> 12u16) & 0xF) as u8 == hi >> 4u8) by (bit_vector)
        requires
            op == (hi as u16) * 256 + (lo as u16),
    ;
    assert(((op >> 8u16) & 0xF) as u8 == hi & 0xF) by (bit_vector)
        requires
            op == (hi as u16) * 256 + (lo as u16),
    ;
    assert(((op >> 4u16) & 0xF) as u8 == lo >> 4u8) by (bit_vector)
        requires
            op == (hi as u16) * 256 + (lo as u16),
    ;
    assert(((op >> 0u16) & 0xF) as u8 == lo & 0xF) by (bit_vector)
        requires
            op == (hi as u16) * 256 + (lo as u16),
    ;
    assert((op & 0xFF) as u8 == lo) by (bit_vector)
        requires
            op == (hi as u16) * 256 + (lo as u16),
    ;
    assert(op & 0xFFF == (hi & 0xF) as u16 * 256 + lo as u16) by (bit_vector)
        requires
            op == (hi as u16) * 256 + (lo as u16),
    ;
}

proof fn lemma_nibble_byte(high: u8, low: u8)
    requires
        high < 16,
        low < 16,
    ensures
        (high * 16 + low) as u8 >> 4u8 == high,
        (high * 16 + low) as u8 & 0xF == low,
{
    let b: u8 = (high * 16 + low) as u8;
    assert(b >> 4u8 == high && b & 0xF == low) by (bit_vector)
        requires
            b == high * 16 + low,
            high < 16,
            low < 16,
    ;
}

/// The machine holds the two bytes `hi`, `lo` at address `a`.
pub open spec fn holds(m: Machine, a: int, hi: u8, lo: u8) -> bool {
    &&& 0 <= a
    &&& a + 1 < MEMORY
    &&& m.ram[a] == hi
    &&& m.ram[a + 1] == lo
}

/// `6xkk` followed by `7xkk` leaves `(2 * kk) mod 256` in register `x`.
pub proof fn lemma_load_then_add(m: Machine, x: u8, kk: u8, r1: u8, r2: u8)
    requires
        machine_wf(m),
        m.mode == Mode::Running,
        x < 16,
        holds(m, m.pc, (0x60 + x) as u8, kk),
        holds(m, m.pc + 2, (0x70 + x) as u8, kk),
    ensures
        step(m, r1) is Ok,
        step(step(m, r1)->Ok_0, r2) is Ok,
        step(step(m, r1)->Ok_0, r2)->Ok_0.v[x as int] == (2 * kk) % 256,
{
    lemma_opcode((0x60 + x) as u8, kk);
    lemma_nibble_byte(6, x);
    assert(decode_op(fetch(m)) == Instruction::LoadByte(x, kk));
    let m1 = step(m, r1)->Ok_0;
    assert(m1.pc == m.pc + 2 && m1.ram == m.ram && m1.mode == Mode::Running);
    lemma_opcode((0x70 + x) as u8, kk);
    lemma_nibble_byte(7, x);
    assert(decode_op(fetch(m1)) == Instruction::AddByte(x, kk));
}

/// `8xy4` sets VF to 1 exactly when `Vx + Vy` exceeds 255, and leaves the sum
/// modulo 256 in `Vx` (for `x` other than F, whose result overwrites the flag).
pub proof fn lemma_add_carry(m: Machine, x: u8, y: u8, rnd: u8)
    requires
        machine_wf(m),
        m.mode == Mode::Running,
        x < 15,
        y < 16,
        holds(m, m.pc, (0x80 + x) as u8, (y * 16 + 4) as u8),
    ensures
        step(m, rnd) is Ok,
        step(m, rnd)->Ok_0.v[15] == (if m.v[x as int] + m.v[y as int] > 255 {
            1u8
        } else {
            0u8
        }),
        step(m, rnd)->Ok_0.v[x as int] == (m.v[x as int] + m.v[y as int]) % 256,
        step(m, rnd)->Ok_0.pc == m.pc + 2,
{
    lemma_opcode((0x80 + x) as u8, (y * 16 + 4) as u8);
    lemma_nibble_byte(8, x);
    lemma_nibble_byte(y, 4);
    assert(decode_op(fetch(m)) == Instruction::AddReg(x, y));
}

/// Clearing the display, drawing, and clearing again leaves every pixel off.
pub proof fn lemma_clear_draw_clear(m: Machine, x: u8, y: u8, n: u8, rnd: u8)
    requires
        machine_wf(m),
    ensures
        execute(m, Instruction::Clear, rnd) is Ok,
        execute(execute(m, Instruction::Clear, rnd)->Ok_0, Instruction::Draw(x, y, n), rnd) is Ok
            ==> execute(
            execute(execute(m, Instruction::Clear, rnd)->Ok_0, Instruction::Draw(x, y, n), rnd)->Ok_0,
            Instruction::Clear,
            rnd,
        ) is Ok && execute(
            execute(execute(m, Instruction::Clear, rnd)->Ok_0, Instruction::Draw(x, y, n), rnd)->Ok_0,
            Instruction::Clear,
            rnd,
        )->Ok_0.screen == blank(),
{
}

/// `2nnn` followed by the `00EE` at `nnn` brings the program counter back to
/// the instruction after the call, with the stack as it was.
pub proof fn lemma_call_then_return(m: Machine, nnn: u16, r1: u8, r2: u8)
    requires
        machine_wf(m),
        m.mode == Mode::Running,
        nnn < MEMORY,
        m.stack.len() < STACK_DEPTH,
        holds(m, m.pc, (0x20 + nnn / 256) as u8, (nnn % 256) as u8),
        holds(m, nnn as int, 0x00, 0xEE),
    ensures
        step(m, r1) is Ok,
        step(step(m, r1)->Ok_0, r2) is Ok,
        step(step(m, r1)->Ok_0, r2)->Ok_0.pc == m.pc + 2,
        step(step(m, r1)->Ok_0, r2)->Ok_0.stack == m.stack,
{
    let h = (nnn / 256) as u8;
    let lo = (nnn % 256) as u8;
    vstd::arithmetic::div_mod::lemma_fundamental_div_mod(nnn as int, 256);
    assert(h < 16);
    let hi = (2 * 16 + h) as u8;
    assert(hi == (0x20 + nnn / 256) as u8);
    lemma_opcode(hi, lo);
    lemma_nibble_byte(2, h);
    assert((hi & 0xF) as u16 * 256 + lo as u16 == nnn);
    assert(decode_op(fetch(m)) == Instruction::Call(nnn));
    let m1 = step(m, r1)->Ok_0;
    assert(m1.pc == nnn && m1.ram == m.ram && m1.mode == Mode::Running);
    assert(m1.stack == m.stack.push((m.pc + 2) as u16));
    lemma_opcode(0x00, 0xEE);
    lemma_nibble_byte(0, 0);
    assert(fetch(m1) == 0x00EE);
    assert(decode_op(fetch(m1)) == Instruction::Return);
    assert(m1.stack.drop_last() =~= m.stack);
    assert(m1.stack.last() as int == m.pc + 2);
}

/// With the keys up, `Fx0A` puts the machine into waiting and further steps
/// change nothing; once key `k` alone goes down, the next step puts `k` in `Vx`
/// and moves past the instruction.
pub proof fn lemma_wait_key(m: Machine, x: u8, k: u8, r1: u8, r2: u8)
    requires
        machine_wf(m),
        m.mode == Mode::Running,
        x < 16,
        k < 16,
        holds(m, m.pc, (0xF0 + x) as u8, 0x0A),
        forall|j: int| 0 <= j < 16 ==> !#[trigger] m.keys[j],
    ensures
        step(m, r1) is Ok,
        step(m, r1)->Ok_0.pc == m.pc,
        step(m, r1)->Ok_0.v == m.v,
        step(m, r1)->Ok_0.mode == Mode::AwaitingKey(x),
        step(step(m, r1)->Ok_0, r2) == step(m, r1),
        ({
            let w = step(m, r1)->Ok_0;
            let pressed = Machine { keys: w.keys.update(k as int, true), ..w };
            &&& step(pressed, r2) is Ok
            &&& step(pressed, r2)->Ok_0.v[x as int] == k
            &&& step(pressed, r2)->Ok_0.pc == m.pc + 2
            &&& step(pressed, r2)->Ok_0.mode == Mode::Running
        }),
{
    lemma_opcode((0xF0 + x) as u8, 0x0A);
    lemma_nibble_byte(0xF, x);
    assert(decode_op(fetch(m)) == Instruction::WaitKey(x));
    assert(lowest_pressed(m.keys) is None);
    let w = step(m, r1)->Ok_0;
    let keys = w.keys.update(k as int, true);
    assert(keys[k as int]);
    let c = choose|c: int| 0 <= c < keys.len() && keys[c] && forall|j: int| 0 <= j < c ==> !keys[j];
    assert(0 <= k < keys.len() && keys[k as int] && forall|j: int| 0 <= j < k ==> !keys[j]);
    assert(c == k as int) by {
        if c < k {
        } else if c > k {
            assert(!keys[k as int]);
        }
    }
}

} // verus!
