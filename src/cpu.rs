use vstd::prelude::*;

use crate::gpu::{blank, collides, drawn, screen_wf, Gpu};
use crate::input::{key_code, lowest_pressed, pressed_in, HostKey, Input, KEYS};

verus! {

/// Bytes of memory.
pub const MEMORY: usize = 4096;

/// Address at which programs are loaded.
pub const PROGRAM_START: usize = 0x200;

/// Deepest nesting of subroutine calls.
pub const STACK_DEPTH: usize = 16;

/// Number of general-purpose registers V0 to VF.
pub const REGISTERS: usize = 16;

/// Index of the flag register VF.
pub const FLAG: usize = 15;

/// Bytes in the built-in font (sixteen glyphs of five rows).
pub const FONT_BYTES: usize = 80;

/// One decoded instruction, with its operands: registers `x`, `y`, an address,
/// a byte or a row count.
#[derive(Clone, Copy, Debug, PartialEq, Eq, Structural)]
pub enum Instruction {
    /// 00E0
    Clear,
    /// 00EE
    Return,
    /// 1nnn
    Jump(u16),
    /// 2nnn
    Call(u16),
    /// 3xkk
    SkipEqByte(u8, u8),
    /// 4xkk
    SkipNeByte(u8, u8),
    /// 5xy0
    SkipEqReg(u8, u8),
    /// 6xkk
    LoadByte(u8, u8),
    /// 7xkk
    AddByte(u8, u8),
    /// 8xy0
    Move(u8, u8),
    /// 8xy1
    Or(u8, u8),
    /// 8xy2
    And(u8, u8),
    /// 8xy3
    Xor(u8, u8),
    /// 8xy4
    AddReg(u8, u8),
    /// 8xy5
    SubReg(u8, u8),
    /// 8xy6: VF gets bit 0 of Vx as 0 or 1, then Vx is halved.
    ShiftRight(u8),
    /// 8xy7
    SubRev(u8, u8),
    /// 8xyE: VF gets bit 7 of Vx as 0 or 1, then Vx is doubled modulo 256.
    ShiftLeft(u8),
    /// 9xy0
    SkipNeReg(u8, u8),
    /// Annn
    LoadI(u16),
    /// Bnnn
    JumpV0(u16),
    /// Cxkk
    Random(u8, u8),
    /// Dxyn
    Draw(u8, u8, u8),
    /// Ex9E: a value of Vx past the keypad counts as a key that is up.
    SkipKey(u8),
    /// ExA1
    SkipNoKey(u8),
    /// Fx07
    LoadDelay(u8),
    /// Fx0A
    WaitKey(u8),
    /// Fx15
    SetDelay(u8),
    /// Fx18
    SetSound(u8),
    /// Fx1E: I grows by Vx, wrapping at 16 bits; VF is left alone.
    AddI(u8),
    /// Fx29
    Font(u8),
    /// Fx33
    Bcd(u8),
    /// Fx55
    StoreRegs(u8),
    /// Fx65
    LoadRegs(u8),
    /// Any other opcode; it does nothing but advance the program counter.
    Unknown(u16),
}

/// The four nibbles of an opcode, most significant first.
pub open spec fn nib(op: u16, k: int) -> u8 {
    ((op >> ((12 - 4 * k) as u16)) & 0xF) as u8
}

/// The instruction that an opcode stands for.
pub open spec fn decode_op(op: u16) -> Instruction {
    let a = nib(op, 0);
    let x = nib(op, 1);
    let y = nib(op, 2);
    let n = nib(op, 3);
    let nnn = op & 0xFFF;
    let kk = (op & 0xFF) as u8;
    if a == 0 {
        if op == 0x00E0 {
            Instruction::Clear
        } else if op == 0x00EE {
            Instruction::Return
        } else {
            Instruction::Unknown(op)
        }
    } else if a == 1 {
        Instruction::Jump(nnn)
    } else if a == 2 {
        Instruction::Call(nnn)
    } else if a == 3 {
        Instruction::SkipEqByte(x, kk)
    } else if a == 4 {
        Instruction::SkipNeByte(x, kk)
    } else if a == 5 && n == 0 {
        Instruction::SkipEqReg(x, y)
    } else if a == 6 {
        Instruction::LoadByte(x, kk)
    } else if a == 7 {
        Instruction::AddByte(x, kk)
    } else if a == 8 && n == 0 {
        Instruction::Move(x, y)
    } else if a == 8 && n == 1 {
        Instruction::Or(x, y)
    } else if a == 8 && n == 2 {
        Instruction::And(x, y)
    } else if a == 8 && n == 3 {
        Instruction::Xor(x, y)
    } else if a == 8 && n == 4 {
        Instruction::AddReg(x, y)
    } else if a == 8 && n == 5 {
        Instruction::SubReg(x, y)
    } else if a == 8 && n == 6 {
        Instruction::ShiftRight(x)
    } else if a == 8 && n == 7 {
        Instruction::SubRev(x, y)
    } else if a == 8 && n == 0xE {
        Instruction::ShiftLeft(x)
    } else if a == 9 && n == 0 {
        Instruction::SkipNeReg(x, y)
    } else if a == 0xA {
        Instruction::LoadI(nnn)
    } else if a == 0xB {
        Instruction::JumpV0(nnn)
    } else if a == 0xC {
        Instruction::Random(x, kk)
    } else if a == 0xD {
        Instruction::Draw(x, y, n)
    } else if a == 0xE && kk == 0x9E {
        Instruction::SkipKey(x)
    } else if a == 0xE && kk == 0xA1 {
        Instruction::SkipNoKey(x)
    } else if a == 0xF && kk == 0x07 {
        Instruction::LoadDelay(x)
    } else if a == 0xF && kk == 0x0A {
        Instruction::WaitKey(x)
    } else if a == 0xF && kk == 0x15 {
        Instruction::SetDelay(x)
    } else if a == 0xF && kk == 0x18 {
        Instruction::SetSound(x)
    } else if a == 0xF && kk == 0x1E {
        Instruction::AddI(x)
    } else if a == 0xF && kk == 0x29 {
        Instruction::Font(x)
    } else if a == 0xF && kk == 0x33 {
        Instruction::Bcd(x)
    } else if a == 0xF && kk == 0x55 {
        Instruction::StoreRegs(x)
    } else if a == 0xF && kk == 0x65 {
        Instruction::LoadRegs(x)
    } else {
        Instruction::Unknown(op)
    }
}

/// Register operands name one of the sixteen registers, addresses lie in
/// memory, and row counts fit in a nibble.
pub open spec fn operands_ok(ins: Instruction) -> bool {
    match ins {
        Instruction::Jump(a) | Instruction::Call(a) | Instruction::LoadI(a) | Instruction::JumpV0(
            a,
        ) => a < MEMORY,
        Instruction::SkipEqByte(x, _) | Instruction::SkipNeByte(x, _) | Instruction::LoadByte(
            x,
            _,
        ) | Instruction::AddByte(x, _) | Instruction::Random(x, _) => x < 16,
        Instruction::SkipEqReg(x, y) | Instruction::Move(x, y) | Instruction::Or(x, y)
        | Instruction::And(x, y) | Instruction::Xor(x, y) | Instruction::AddReg(x, y)
        | Instruction::SubReg(x, y) | Instruction::SubRev(x, y) | Instruction::SkipNeReg(
            x,
            y,
        ) => x < 16 && y < 16,
        Instruction::Draw(x, y, n) => x < 16 && y < 16 && n < 16,
        Instruction::ShiftRight(x) | Instruction::ShiftLeft(x) | Instruction::SkipKey(x)
        | Instruction::SkipNoKey(x) | Instruction::LoadDelay(x) | Instruction::WaitKey(x)
        | Instruction::SetDelay(x) | Instruction::SetSound(x) | Instruction::AddI(x)
        | Instruction::Font(x) | Instruction::Bcd(x) | Instruction::StoreRegs(x)
        | Instruction::LoadRegs(x) => x < 16,
        _ => true,
    }
}

proof fn lemma_nibbles(op: u16)
    ensures
        nib(op, 0) < 16,
        nib(op, 1) < 16,
        nib(op, 2) < 16,
        nib(op, 3) < 16,
        op & 0xFFF < 4096,
        nib(op, 0) as u16 == op >> 12u16,
        nib(op, 1) as u16 == (op >> 8u16) & 0xF,
        nib(op, 2) as u16 == (op >> 4u16) & 0xF,
        nib(op, 3) as u16 == op & 0xF,
{
    assert((op >> 12u16) & 0xF < 16) by (bit_vector);
    assert((op >> 8u16) & 0xF < 16) by (bit_vector);
    assert((op >> 4u16) & 0xF < 16) by (bit_vector);
    assert((op >> 0u16) & 0xF < 16) by (bit_vector);
    assert(op & 0xFFF < 4096) by (bit_vector);
    assert((op >> 12u16) & 0xF == op >> 12u16) by (bit_vector);
    assert(op >> 0u16 == op) by (bit_vector);
}

/// Splits an opcode into its instruction and operands.
pub fn decode(op: u16) -> (r: Instruction)
    ensures
        r == decode_op(op),
        operands_ok(r),
{
    proof {
        lemma_nibbles(op);
    }
    let a = (op >> 12) as u8;
    let x = ((op >> 8) & 0xF) as u8;
    let y = ((op >> 4) & 0xF) as u8;
    let n = (op & 0xF) as u8;
    let nnn = op & 0xFFF;
    let kk = (op & 0xFF) as u8;
    if a == 0 {
        if op == 0x00E0 {
            Instruction::Clear
        } else if op == 0x00EE {
            Instruction::Return
        } else {
            Instruction::Unknown(op)
        }
    } else if a == 1 {
        Instruction::Jump(nnn)
    } else if a == 2 {
        Instruction::Call(nnn)
    } else if a == 3 {
        Instruction::SkipEqByte(x, kk)
    } else if a == 4 {
        Instruction::SkipNeByte(x, kk)
    } else if a == 5 && n == 0 {
        Instruction::SkipEqReg(x, y)
    } else if a == 6 {
        Instruction::LoadByte(x, kk)
    } else if a == 7 {
        Instruction::AddByte(x, kk)
    } else if a == 8 && n == 0 {
        Instruction::Move(x, y)
    } else if a == 8 && n == 1 {
        Instruction::Or(x, y)
    } else if a == 8 && n == 2 {
        Instruction::And(x, y)
    } else if a == 8 && n == 3 {
        Instruction::Xor(x, y)
    } else if a == 8 && n == 4 {
        Instruction::AddReg(x, y)
    } else if a == 8 && n == 5 {
        Instruction::SubReg(x, y)
    } else if a == 8 && n == 6 {
        Instruction::ShiftRight(x)
    } else if a == 8 && n == 7 {
        Instruction::SubRev(x, y)
    } else if a == 8 && n == 0xE {
        Instruction::ShiftLeft(x)
    } else if a == 9 && n == 0 {
        Instruction::SkipNeReg(x, y)
    } else if a == 0xA {
        Instruction::LoadI(nnn)
    } else if a == 0xB {
        Instruction::JumpV0(nnn)
    } else if a == 0xC {
        Instruction::Random(x, kk)
    } else if a == 0xD {
        Instruction::Draw(x, y, n)
    } else if a == 0xE && kk == 0x9E {
        Instruction::SkipKey(x)
    } else if a == 0xE && kk == 0xA1 {
        Instruction::SkipNoKey(x)
    } else if a == 0xF && kk == 0x07 {
        Instruction::LoadDelay(x)
    } else if a == 0xF && kk == 0x0A {
        Instruction::WaitKey(x)
    } else if a == 0xF && kk == 0x15 {
        Instruction::SetDelay(x)
    } else if a == 0xF && kk == 0x18 {
        Instruction::SetSound(x)
    } else if a == 0xF && kk == 0x1E {
        Instruction::AddI(x)
    } else if a == 0xF && kk == 0x29 {
        Instruction::Font(x)
    } else if a == 0xF && kk == 0x33 {
        Instruction::Bcd(x)
    } else if a == 0xF && kk == 0x55 {
        Instruction::StoreRegs(x)
    } else if a == 0xF && kk == 0x65 {
        Instruction::LoadRegs(x)
    } else {
        Instruction::Unknown(op)
    }
}

/// The fatal errors of the processor; each leaves the machine as it was.
#[derive(Clone, Copy, Debug, PartialEq, Eq, Structural)]
pub enum CpuError {
    /// An instruction fetch or a memory access past the end of memory.
    OutOfBounds,
    /// A call with sixteen return addresses already on the stack.
    StackOverflow,
    /// A return with no return address on the stack.
    StackUnderflow,
}

/// Whether the processor runs instructions or waits for a key (Fx0A) to land in
/// the given register.
#[derive(Clone, Copy, Debug, PartialEq, Eq, Structural)]
pub enum Mode {
    Running,
    AwaitingKey(u8),
}

/// What one step did.
#[derive(Clone, Copy, Debug, PartialEq, Eq, Structural)]
pub enum Status {
    /// The instruction fetched at the program counter was carried out
    /// (an `Unknown` one only moved the program counter on).
    Ran(Instruction),
    /// The processor was waiting for a key: it took the lowest pressed key if
    /// there was one, and otherwise did nothing.
    Waited,
}

/// The whole state of the machine, as mathematical values.
pub ghost struct Machine {
    pub ram: Seq<u8>,
    pub v: Seq<u8>,
    pub i: u16,
    pub pc: int,
    pub stack: Seq<u16>,
    pub delay: u8,
    pub sound: u8,
    pub screen: Seq<u8>,
    pub keys: Seq<bool>,
    pub mode: Mode,
}

/// Sizes of memory, registers, display and keypad; a stack of at most sixteen
/// entries; a program counter that stays well inside 16 bits.
pub open spec fn machine_wf(m: Machine) -> bool {
    &&& m.ram.len() == MEMORY
    &&& m.v.len() == REGISTERS
    &&& screen_wf(m.screen)
    &&& m.keys.len() == KEYS
    &&& m.stack.len() <= STACK_DEPTH
    &&& 0 <= m.pc < 0x2000
    &&& forall|k: int| 0 <= k < m.stack.len() ==> #[trigger] m.stack[k] < 0x2000
    &&& (m.mode matches Mode::AwaitingKey(x) ==> x < 16 && m.pc + 1 < MEMORY)
}

/// The opcode at the program counter, big-endian.
pub open spec fn fetch(m: Machine) -> u16 {
    (m.ram[m.pc] as int * 256 + m.ram[m.pc + 1] as int) as u16
}

/// The machine with register `x` set to `val`.
pub open spec fn with_reg(m: Machine, x: int, val: u8) -> Machine {
    Machine { v: m.v.update(x, val), ..m }
}

/// The machine with the program counter moved on by `d`.
pub open spec fn advance(m: Machine, d: int) -> Machine {
    Machine { pc: m.pc + d, ..m }
}

/// Sets VF to `flag` and then register `x` to `val`, and moves on.
pub open spec fn with_flag(m: Machine, x: int, flag: bool, val: u8) -> Machine {
    advance(with_reg(with_reg(m, FLAG as int, if flag { 1u8 } else { 0u8 }), x, val), 2)
}

/// Moves on by 4 where `cond` holds and by 2 where it does not.
pub open spec fn skip_if(m: Machine, cond: bool) -> Machine {
    advance(m, if cond { 4 } else { 2 })
}

/// The binary-coded decimal digits of `b`: hundreds, tens, ones.
pub open spec fn bcd_digit(b: u8, k: int) -> u8 {
    if k == 0 {
        b / 100
    } else if k == 1 {
        (b / 10) % 10
    } else {
        b % 10
    }
}

/// What carrying out `ins` does to `m`; `rnd` is the random byte that Cxkk uses.
pub open spec fn execute(m: Machine, ins: Instruction, rnd: u8) -> Result<Machine, CpuError> {
    let v = m.v;
    match ins {
        Instruction::Clear => Ok(advance(Machine { screen: blank(), ..m }, 2)),
        Instruction::Return => if m.stack.len() == 0 {
            Err(CpuError::StackUnderflow)
        } else {
            Ok(Machine { pc: m.stack.last() as int, stack: m.stack.drop_last(), ..m })
        },
        Instruction::Jump(a) => Ok(Machine { pc: a as int, ..m }),
        Instruction::Call(a) => if m.stack.len() >= STACK_DEPTH {
            Err(CpuError::StackOverflow)
        } else {
            Ok(Machine { pc: a as int, stack: m.stack.push((m.pc + 2) as u16), ..m })
        },
        Instruction::SkipEqByte(x, kk) => Ok(skip_if(m, v[x as int] == kk)),
        Instruction::SkipNeByte(x, kk) => Ok(skip_if(m, v[x as int] != kk)),
        Instruction::SkipEqReg(x, y) => Ok(skip_if(m, v[x as int] == v[y as int])),
        Instruction::LoadByte(x, kk) => Ok(advance(with_reg(m, x as int, kk), 2)),
        Instruction::AddByte(x, kk) => Ok(
            advance(with_reg(m, x as int, ((v[x as int] + kk) % 256) as u8), 2),
        ),
        Instruction::Move(x, y) => Ok(advance(with_reg(m, x as int, v[y as int]), 2)),
        Instruction::Or(x, y) => Ok(advance(with_reg(m, x as int, v[x as int] | v[y as int]), 2)),
        Instruction::And(x, y) => Ok(advance(with_reg(m, x as int, v[x as int] & v[y as int]), 2)),
        Instruction::Xor(x, y) => Ok(advance(with_reg(m, x as int, v[x as int] ^ v[y as int]), 2)),
        Instruction::AddReg(x, y) => {
            let sum = v[x as int] + v[y as int];
            Ok(with_flag(m, x as int, sum > 255, (sum % 256) as u8))
        },
        Instruction::SubReg(x, y) => Ok(
            with_flag(
                m,
                x as int,
                v[x as int] >= v[y as int],
                ((v[x as int] - v[y as int]) % 256) as u8,
            ),
        ),
        Instruction::ShiftRight(x) => Ok(
            with_flag(m, x as int, v[x as int] % 2 == 1, v[x as int] / 2),
        ),
        Instruction::SubRev(x, y) => Ok(
            with_flag(
                m,
                x as int,
                v[y as int] >= v[x as int],
                ((v[y as int] - v[x as int]) % 256) as u8,
            ),
        ),
        Instruction::ShiftLeft(x) => Ok(
            with_flag(m, x as int, v[x as int] >= 128, ((v[x as int] * 2) % 256) as u8),
        ),
        Instruction::SkipNeReg(x, y) => Ok(skip_if(m, v[x as int] != v[y as int])),
        Instruction::LoadI(a) => Ok(advance(Machine { i: a, ..m }, 2)),
        Instruction::JumpV0(a) => Ok(Machine { pc: a + v[0], ..m }),
        Instruction::Random(x, kk) => Ok(advance(with_reg(m, x as int, rnd & kk), 2)),
        Instruction::Draw(x, y, n) => if m.i + n > MEMORY {
            Err(CpuError::OutOfBounds)
        } else {
            let sprite = m.ram.subrange(m.i as int, m.i + n);
            let ox = v[x as int] as int;
            let oy = v[y as int] as int;
            let hit = collides(m.screen, ox, oy, sprite);
            Ok(
                advance(
                    with_reg(
                        Machine { screen: drawn(m.screen, ox, oy, sprite), ..m },
                        FLAG as int,
                        if hit { 1u8 } else { 0u8 },
                    ),
                    2,
                ),
            )
        },
        Instruction::SkipKey(x) => Ok(skip_if(m, pressed_in(m.keys, v[x as int] as int))),
        Instruction::SkipNoKey(x) => Ok(skip_if(m, !pressed_in(m.keys, v[x as int] as int))),
        Instruction::LoadDelay(x) => Ok(advance(with_reg(m, x as int, m.delay), 2)),
        Instruction::WaitKey(x) => match lowest_pressed(m.keys) {
            Some(k) => Ok(advance(with_reg(m, x as int, k), 2)),
            None => Ok(Machine { mode: Mode::AwaitingKey(x), ..m }),
        },
        Instruction::SetDelay(x) => Ok(advance(Machine { delay: v[x as int], ..m }, 2)),
        Instruction::SetSound(x) => Ok(advance(Machine { sound: v[x as int], ..m }, 2)),
        Instruction::AddI(x) => Ok(advance(Machine { i: ((m.i + v[x as int]) % 65536) as u16, ..m }, 2)),
        Instruction::Font(x) => Ok(advance(Machine { i: (v[x as int] * 5) as u16, ..m }, 2)),
        Instruction::Bcd(x) => if m.i + 3 > MEMORY {
            Err(CpuError::OutOfBounds)
        } else {
            let b = v[x as int];
            Ok(
                advance(
                    Machine {
                        ram: m.ram.update(m.i as int, bcd_digit(b, 0)).update(
                            m.i + 1,
                            bcd_digit(b, 1),
                        ).update(m.i + 2, bcd_digit(b, 2)),
                        ..m
                    },
                    2,
                ),
            )
        },
        Instruction::StoreRegs(x) => if m.i + x + 1 > MEMORY {
            Err(CpuError::OutOfBounds)
        } else {
            Ok(
                advance(
                    Machine {
                        ram: Seq::new(
                            MEMORY as nat,
                            |a: int|
                                if m.i <= a <= m.i + x {
                                    v[a - m.i]
                                } else {
                                    m.ram[a]
                                },
                        ),
                        ..m
                    },
                    2,
                ),
            )
        },
        Instruction::LoadRegs(x) => if m.i + x + 1 > MEMORY {
            Err(CpuError::OutOfBounds)
        } else {
            Ok(
                advance(
                    Machine {
                        v: Seq::new(
                            REGISTERS as nat,
                            |k: int|
                                if k <= x {
                                    m.ram[m.i + k]
                                } else {
                                    v[k]
                                },
                        ),
                        ..m
                    },
                    2,
                ),
            )
        },
        Instruction::Unknown(_) => Ok(advance(m, 2)),
    }
}

/// One step of the machine: finish a pending key wait, or fetch, decode and
/// carry out the instruction at the program counter.
pub open spec fn step(m: Machine, rnd: u8) -> Result<Machine, CpuError> {
    match m.mode {
        Mode::AwaitingKey(x) => match lowest_pressed(m.keys) {
            Some(k) => Ok(
                advance(Machine { mode: Mode::Running, ..with_reg(m, x as int, k) }, 2),
            ),
            None => Ok(m),
        },
        Mode::Running => if m.pc + 1 >= MEMORY {
            Err(CpuError::OutOfBounds)
        } else {
            execute(m, decode_op(fetch(m)), rnd)
        },
    }
}

/// What `step` reports.
pub open spec fn step_status(m: Machine) -> Status {
    match m.mode {
        Mode::AwaitingKey(_) => Status::Waited,
        Mode::Running => Status::Ran(decode_op(fetch(m))),
    }
}

/// One tick of the 60 Hz timer clock: each timer above zero goes down by one.
pub open spec fn timers_ticked(m: Machine) -> Machine {
    Machine {
        delay: if m.delay > 0 { (m.delay - 1) as u8 } else { 0 },
        sound: if m.sound > 0 { (m.sound - 1) as u8 } else { 0 },
        ..m
    }
}

/// The built-in hexadecimal font: glyph `d` is the five bytes from `5 * d`.
pub open spec fn font_glyphs() -> Seq<u8> {
    seq![
        0xF0u8, 0x90, 0x90, 0x90, 0xF0, 0x20, 0x60, 0x20, 0x20, 0x70,
        0xF0, 0x10, 0xF0, 0x80, 0xF0, 0xF0, 0x10, 0xF0, 0x10, 0xF0,
        0x90, 0x90, 0xF0, 0x10, 0x10, 0xF0, 0x80, 0xF0, 0x10, 0xF0,
        0xF0, 0x80, 0xF0, 0x90, 0xF0, 0xF0, 0x10, 0x20, 0x40, 0x40,
        0xF0, 0x90, 0xF0, 0x90, 0xF0, 0xF0, 0x90, 0xF0, 0x10, 0xF0,
        0xF0, 0x90, 0xF0, 0x90, 0x90, 0xE0, 0x90, 0xE0, 0x90, 0xE0,
        0xF0, 0x80, 0x80, 0x80, 0xF0, 0xE0, 0x90, 0x90, 0x90, 0xE0,
        0xF0, 0x80, 0xF0, 0x80, 0xF0, 0xF0, 0x80, 0xF0, 0x80, 0x80,
    ]
}

/// The machine as it is created: everything zero, no key down, the program
/// counter at the program start.
pub open spec fn fresh() -> Machine {
    Machine {
        ram: Seq::new(MEMORY as nat, |a: int| 0u8),
        v: Seq::new(REGISTERS as nat, |k: int| 0u8),
        i: 0,
        pc: PROGRAM_START as int,
        stack: Seq::empty(),
        delay: 0,
        sound: 0,
        screen: blank(),
        keys: Seq::new(KEYS as nat, |k: int| false),
        mode: Mode::Running,
    }
}

/// How many bytes of a ROM of `len` bytes fit in memory from the program start.
pub open spec fn loaded_len(len: int) -> int {
    if len <= MEMORY - PROGRAM_START {
        len
    } else {
        MEMORY - PROGRAM_START
    }
}

/// Memory after copying `rom` to the program start, cut off at the end of memory.
pub open spec fn ram_loaded(ram: Seq<u8>, rom: Seq<u8>) -> Seq<u8> {
    Seq::new(
        ram.len(),
        |a: int|
            if PROGRAM_START <= a < PROGRAM_START + loaded_len(rom.len() as int) {
                rom[a - PROGRAM_START]
            } else {
                ram[a]
            },
    )
}

/// `r` and `after` are what a step from `before` gives when the random byte is `rnd`:
/// on success the new machine and the status, on a fatal error the error and
/// the machine unchanged.
pub open spec fn stepped(
    before: Machine,
    rnd: u8,
    after: Machine,
    r: Result<Status, CpuError>,
) -> bool {
    match step(before, rnd) {
        Ok(m) => r == Ok::<Status, CpuError>(step_status(before)) && after == m,
        Err(e) => r == Err::<Status, CpuError>(e) && after == before,
    }
}

/// Which of the three parts of the processor carries out an instruction.
spec fn group(ins: Instruction) -> int {
    match ins {
        Instruction::Clear | Instruction::Return | Instruction::Jump(..) | Instruction::Call(..) | Instruction::SkipEqByte(..) | Instruction::SkipNeByte(..) | Instruction::SkipEqReg(..) | Instruction::SkipNeReg(..) | Instruction::JumpV0(..) | Instruction::SkipKey(..) | Instruction::SkipNoKey(..) | Instruction::Unknown(..) => 0,
        Instruction::LoadByte(..) | Instruction::AddByte(..) | Instruction::Move(..) | Instruction::Or(..) | Instruction::And(..) | Instruction::Xor(..) | Instruction::Random(..) => 1,
        Instruction::AddReg(..) | Instruction::SubReg(..) | Instruction::ShiftRight(..) | Instruction::SubRev(..) | Instruction::ShiftLeft(..) => 3,
        _ => 2,
    }
}

/// Relies on rand::random: a byte from the thread-local generator; nothing is
/// known of its value.
#[verifier::external_body]
fn random_byte() -> (r: u8) {
    rand::random::<u8>()
}

/// The CHIP-8 processor: memory, registers, stack, timers, display and keypad.
pub struct Cpu {
    ram: Vec<u8>,
    v: Vec<u8>,
    i: u16,
    pc: u16,
    stack: Vec<u16>,
    delay_timer: u8,
    sound_timer: u8,
    gpu: Gpu,
    input: Input,
    mode: Mode,
}

impl Cpu {
    pub closed spec fn view(&self) -> Machine {
        Machine {
            ram: self.ram@,
            v: self.v@,
            i: self.i,
            pc: self.pc as int,
            stack: self.stack@,
            delay: self.delay_timer,
            sound: self.sound_timer,
            screen: self.gpu@,
            keys: self.input@,
            mode: self.mode,
        }
    }

    pub open spec fn wf(&self) -> bool {
        machine_wf(self@)
    }

    /// A machine with everything zero and the program counter at 0x200.
    pub fn new() -> (r: Cpu)
        ensures
            r.wf(),
            r@ == fresh(),
    {
        let ram = crate::gpu::vec_of_zeros(MEMORY);
        let v = crate::gpu::vec_of_zeros(REGISTERS);
        let r = Cpu {
            ram,
            v,
            i: 0,
            pc: 0x200,
            stack: Vec::new(),
            delay_timer: 0,
            sound_timer: 0,
            gpu: Gpu::new(),
            input: Input::new(),
            mode: Mode::Running,
        };
        assert(r@.ram =~= fresh().ram);
        assert(r@.v =~= fresh().v);
        assert(r@.stack =~= fresh().stack);
        r
    }

    /// Writes the built-in font to the start of memory.
    pub fn initialize(&mut self)
        requires
            old(self).wf(),
        ensures
            final(self).wf(),
            final(self)@ == (Machine {
                ram: font_glyphs() + old(self)@.ram.subrange(FONT_BYTES as int, MEMORY as int),
                ..old(self)@
            }),
    {
        let font: [u8; 80] = [
            0xF0, 0x90, 0x90, 0x90, 0xF0, 0x20, 0x60, 0x20, 0x20, 0x70,
            0xF0, 0x10, 0xF0, 0x80, 0xF0, 0xF0, 0x10, 0xF0, 0x10, 0xF0,
            0x90, 0x90, 0xF0, 0x10, 0x10, 0xF0, 0x80, 0xF0, 0x10, 0xF0,
            0xF0, 0x80, 0xF0, 0x90, 0xF0, 0xF0, 0x10, 0x20, 0x40, 0x40,
            0xF0, 0x90, 0xF0, 0x90, 0xF0, 0xF0, 0x90, 0xF0, 0x10, 0xF0,
            0xF0, 0x90, 0xF0, 0x90, 0x90, 0xE0, 0x90, 0xE0, 0x90, 0xE0,
            0xF0, 0x80, 0x80, 0x80, 0xF0, 0xE0, 0x90, 0x90, 0x90, 0xE0,
            0xF0, 0x80, 0xF0, 0x80, 0xF0, 0xF0, 0x80, 0xF0, 0x80, 0x80,
        ];
        assert(font@ =~= font_glyphs());
        let ghost m0 = self@;
        let mut k: usize = 0;
        while k < FONT_BYTES
            invariant
                k <= FONT_BYTES,
                font@ == font_glyphs(),
                machine_wf(m0),
                self@ == (Machine { ram: self.ram@, ..m0 }),
                self.ram@.len() == MEMORY,
                forall|a: int| 0 <= a < k ==> self.ram@[a] == font_glyphs()[a],
                forall|a: int| k <= a < MEMORY ==> self.ram@[a] == m0.ram[a],
            decreases FONT_BYTES - k,
        {
            self.ram.set(k, font[k]);
            k += 1;
        }
        assert(self.ram@ =~= font_glyphs() + m0.ram.subrange(FONT_BYTES as int, MEMORY as int));
    }

    /// Copies `rom` into memory from 0x200, cutting it off at the end of memory,
    /// and points the program counter at 0x200. Returns how many bytes did not fit.
    pub fn load(&mut self, rom: Vec<u8>) -> (dropped: usize)
        requires
            old(self).wf(),
        ensures
            final(self).wf(),
            final(self)@ == (Machine {
                ram: ram_loaded(old(self)@.ram, rom@),
                pc: PROGRAM_START as int,
                ..old(self)@
            }),
            dropped == rom@.len() - loaded_len(rom@.len() as int),
    {
        let ghost m0 = self@;
        let n: usize = if rom.len() <= MEMORY - PROGRAM_START {
            rom.len()
        } else {
            MEMORY - PROGRAM_START
        };
        let mut k: usize = 0;
        while k < n
            invariant
                n == loaded_len(rom@.len() as int),
                k <= n,
                machine_wf(m0),
                self@ == (Machine { ram: self.ram@, ..m0 }),
                self.ram@.len() == MEMORY,
                forall|a: int|
                    0 <= a < MEMORY ==> #[trigger] self.ram@[a] == if PROGRAM_START <= a
                        < PROGRAM_START + k {
                        rom@[a - PROGRAM_START]
                    } else {
                        m0.ram[a]
                    },
            decreases n - k,
        {
            self.ram.set(PROGRAM_START + k, rom[k]);
            k += 1;
        }
        self.pc = 0x200;
        assert(self.ram@ =~= ram_loaded(m0.ram, rom@));
        rom.len() - n
    }

    fn set_reg(&mut self, x: u8, val: u8)
        requires
            old(self).wf(),
            x < 16,
        ensures
            final(self).wf(),
            final(self)@ == with_reg(old(self)@, x as int, val),
    {
        self.v.set(x as usize, val);
    }

    fn bump(&mut self, d: u16)
        requires
            old(self).wf(),
            old(self)@.mode == Mode::Running,
            old(self)@.pc + d < 0x2000,
        ensures
            final(self).wf(),
            final(self)@ == advance(old(self)@, d as int),
    {
        self.pc = self.pc + d;
    }

    fn sprite_at(&self, n: u8) -> (r: Vec<u8>)
        requires
            self.wf(),
            self@.i + n <= MEMORY,
        ensures
            r@ == self@.ram.subrange(self@.i as int, self@.i + n),
    {
        let start = self.i as usize;
        let mut r: Vec<u8> = Vec::new();
        let mut k: usize = 0;
        while k < n as usize
            invariant
                self.wf(),
                start == self@.i,
                start + n <= MEMORY,
                k <= n,
                r@ == self@.ram.subrange(start as int, start + k),
            decreases n - k,
        {
            r.push(self.ram[start + k]);
            k += 1;
            assert(r@ =~= self@.ram.subrange(start as int, start + k));
        }
        r
    }

    fn store_regs(&mut self, x: u8)
        requires
            old(self).wf(),
            x < 16,
            old(self)@.i + x + 1 <= MEMORY,
            old(self)@.pc + 2 < 0x2000,
            old(self)@.mode == Mode::Running,
        ensures
            final(self).wf(),
            Ok::<Machine, CpuError>(final(self)@) == execute(old(self)@, Instruction::StoreRegs(x), 0),
    {
        let ghost m0 = self@;
        let start = self.i as usize;
        let mut k: usize = 0;
        while k <= x as usize
            invariant
                machine_wf(m0),
                start == m0.i,
                start + x + 1 <= MEMORY,
                x < 16,
                k <= x + 1,
                self@ == (Machine { ram: self.ram@, ..m0 }),
                self.ram@.len() == MEMORY,
                forall|a: int|
                    0 <= a < MEMORY ==> #[trigger] self.ram@[a] == if start <= a < start + k {
                        m0.v[a - start]
                    } else {
                        m0.ram[a]
                    },
            decreases x + 1 - k,
        {
            let b = self.v[k];
            self.ram.set(start + k, b);
            k += 1;
        }
        self.pc = self.pc + 2;
        assert(self.ram@ =~= Seq::new(
            MEMORY as nat,
            |a: int|
                if m0.i <= a <= m0.i + x {
                    m0.v[a - m0.i]
                } else {
                    m0.ram[a]
                },
        ));
    }

    fn load_regs(&mut self, x: u8)
        requires
            old(self).wf(),
            x < 16,
            old(self)@.i + x + 1 <= MEMORY,
            old(self)@.pc + 2 < 0x2000,
            old(self)@.mode == Mode::Running,
        ensures
            final(self).wf(),
            Ok::<Machine, CpuError>(final(self)@) == execute(old(self)@, Instruction::LoadRegs(x), 0),
    {
        let ghost m0 = self@;
        let start = self.i as usize;
        let mut k: usize = 0;
        while k <= x as usize
            invariant
                machine_wf(m0),
                start == m0.i,
                start + x + 1 <= MEMORY,
                x < 16,
                k <= x + 1,
                self@ == (Machine { v: self.v@, ..m0 }),
                self.v@.len() == REGISTERS,
                forall|j: int|
                    0 <= j < REGISTERS ==> #[trigger] self.v@[j] == if j < k {
                        m0.ram[start + j]
                    } else {
                        m0.v[j]
                    },
            decreases x + 1 - k,
        {
            let b = self.ram[start + k];
            self.v.set(k, b);
            k += 1;
        }
        self.pc = self.pc + 2;
        assert(self.v@ =~= Seq::new(
            REGISTERS as nat,
            |j: int|
                if j <= x {
                    m0.ram[m0.i + j]
                } else {
                    m0.v[j]
                },
        ));
    }

    /// Carries out a jump, call, return, skip, clear or unknown instruction.
    fn exec_flow(&mut self, ins: Instruction, rnd: u8) -> (r: Result<(), CpuError>)
        requires
            old(self).wf(),
            old(self)@.mode == Mode::Running,
            old(self)@.pc + 1 < MEMORY,
            operands_ok(ins),
            group(ins) == 0,
        ensures
            final(self).wf(),
            match execute(old(self)@, ins, rnd) {
                Ok(m) => r is Ok && final(self)@ == m,
                Err(e) => r == Err::<(), CpuError>(e) && final(self)@ == old(self)@,
            },
    {
        match ins {
            Instruction::Clear => {
                self.gpu.clear();
                self.bump(2);
            },
            Instruction::Return => {
                if self.stack.len() == 0 {
                    return Err(CpuError::StackUnderflow);
                }
                let a = self.stack.pop().unwrap();
                self.pc = a;
            },
            Instruction::Jump(a) => {
                self.pc = a;
            },
            Instruction::Call(a) => {
                if self.stack.len() >= STACK_DEPTH {
                    return Err(CpuError::StackOverflow);
                }
                self.stack.push(self.pc + 2);
                self.pc = a;
            },
            Instruction::SkipEqByte(x, kk) => {
                let d = if self.v[x as usize] == kk { 4 } else { 2 };
                self.bump(d);
            },
            Instruction::SkipNeByte(x, kk) => {
                let d = if self.v[x as usize] != kk { 4 } else { 2 };
                self.bump(d);
            },
            Instruction::SkipEqReg(x, y) => {
                let d = if self.v[x as usize] == self.v[y as usize] { 4 } else { 2 };
                self.bump(d);
            },
            Instruction::SkipNeReg(x, y) => {
                let d = if self.v[x as usize] != self.v[y as usize] { 4 } else { 2 };
                self.bump(d);
            },
            Instruction::JumpV0(a) => {
                self.pc = a + self.v[0] as u16;
            },
            Instruction::SkipKey(x) => {
                let d = if self.input.is_pressed(self.v[x as usize]) { 4 } else { 2 };
                self.bump(d);
            },
            Instruction::SkipNoKey(x) => {
                let d = if !self.input.is_pressed(self.v[x as usize]) { 4 } else { 2 };
                self.bump(d);
            },
            Instruction::Unknown(_) => {
                self.bump(2);
            },
            _ => {},
        }
        Ok(())
    }

    /// Carries out an instruction that computes a register.
    fn exec_alu(&mut self, ins: Instruction, rnd: u8) -> (r: Result<(), CpuError>)
        requires
            old(self).wf(),
            old(self)@.mode == Mode::Running,
            old(self)@.pc + 1 < MEMORY,
            operands_ok(ins),
            group(ins) == 1,
        ensures
            final(self).wf(),
            match execute(old(self)@, ins, rnd) {
                Ok(m) => r is Ok && final(self)@ == m,
                Err(e) => r == Err::<(), CpuError>(e) && final(self)@ == old(self)@,
            },
    {
        match ins {
            Instruction::LoadByte(x, kk) => {
                self.set_reg(x, kk);
                self.bump(2);
            },
            Instruction::AddByte(x, kk) => {
                let val = ((self.v[x as usize] as u16 + kk as u16) % 256) as u8;
                self.set_reg(x, val);
                self.bump(2);
            },
            Instruction::Move(x, y) => {
                let val = self.v[y as usize];
                self.set_reg(x, val);
                self.bump(2);
            },
            Instruction::Or(x, y) => {
                let val = self.v[x as usize] | self.v[y as usize];
                self.set_reg(x, val);
                self.bump(2);
            },
            Instruction::And(x, y) => {
                let val = self.v[x as usize] & self.v[y as usize];
                self.set_reg(x, val);
                self.bump(2);
            },
            Instruction::Xor(x, y) => {
                let val = self.v[x as usize] ^ self.v[y as usize];
                self.set_reg(x, val);
                self.bump(2);
            },
            Instruction::Random(x, kk) => {
                self.set_reg(x, rnd & kk);
                self.bump(2);
            },
            _ => {},
        }
        Ok(())
    }

    /// Carries out an instruction on the index register, timers, keypad, memory or display.
    /// Carries out an instruction that computes a register and sets the flag register.
    #[verifier::spinoff_prover]
    fn exec_flags(&mut self, ins: Instruction, rnd: u8) -> (r: Result<(), CpuError>)
        requires
            old(self).wf(),
            old(self)@.mode == Mode::Running,
            old(self)@.pc + 1 < MEMORY,
            operands_ok(ins),
            group(ins) == 3,
        ensures
            final(self).wf(),
            match execute(old(self)@, ins, rnd) {
                Ok(m) => r is Ok && final(self)@ == m,
                Err(e) => r == Err::<(), CpuError>(e) && final(self)@ == old(self)@,
            },
    {
        match ins {
            Instruction::AddReg(x, y) => {
                let sum = self.v[x as usize] as u16 + self.v[y as usize] as u16;
                self.set_reg(15, if sum > 255 { 1 } else { 0 });
                self.set_reg(x, (sum % 256) as u8);
                self.bump(2);
            },
            Instruction::SubReg(x, y) => {
                let vx = self.v[x as usize];
                let vy = self.v[y as usize];
                let val = ((256 + vx as u16 - vy as u16) % 256) as u8;
                self.set_reg(15, if vx >= vy { 1 } else { 0 });
                self.set_reg(x, val);
                self.bump(2);
            },
            Instruction::ShiftRight(x) => {
                let vx = self.v[x as usize];
                self.set_reg(15, vx % 2);
                self.set_reg(x, vx / 2);
                self.bump(2);
            },
            Instruction::SubRev(x, y) => {
                let vx = self.v[x as usize];
                let vy = self.v[y as usize];
                let val = ((256 + vy as u16 - vx as u16) % 256) as u8;
                self.set_reg(15, if vy >= vx { 1 } else { 0 });
                self.set_reg(x, val);
                self.bump(2);
            },
            Instruction::ShiftLeft(x) => {
                let vx = self.v[x as usize];
                self.set_reg(15, if vx >= 128 { 1 } else { 0 });
                self.set_reg(x, ((vx as u16 * 2) % 256) as u8);
                self.bump(2);
            },
            _ => {},
        }
        Ok(())
    }

    /// Carries out an instruction on the index register, timers, keypad, memory or display.
    fn exec_other(&mut self, ins: Instruction, rnd: u8) -> (r: Result<(), CpuError>)
        requires
            old(self).wf(),
            old(self)@.mode == Mode::Running,
            old(self)@.pc + 1 < MEMORY,
            operands_ok(ins),
            group(ins) == 2,
        ensures
            final(self).wf(),
            match execute(old(self)@, ins, rnd) {
                Ok(m) => r is Ok && final(self)@ == m,
                Err(e) => r == Err::<(), CpuError>(e) && final(self)@ == old(self)@,
            },
    {
        match ins {
            Instruction::LoadI(a) => {
                self.i = a;
                self.bump(2);
            },
            Instruction::Draw(x, y, n) => {
                if self.i as usize + n as usize > MEMORY {
                    return Err(CpuError::OutOfBounds);
                }
                let sprite = self.sprite_at(n);
                let vx = self.v[x as usize];
                let vy = self.v[y as usize];
                let hit = self.gpu.draw(vx, vy, sprite.as_slice());
                self.set_reg(15, if hit { 1 } else { 0 });
                self.bump(2);
            },
            Instruction::LoadDelay(x) => {
                let val = self.delay_timer;
                self.set_reg(x, val);
                self.bump(2);
            },
            Instruction::WaitKey(x) => {
                match self.input.any_pressed() {
                    Some(k) => {
                        self.set_reg(x, k);
                        self.bump(2);
                    },
                    None => {
                        self.mode = Mode::AwaitingKey(x);
                    },
                }
            },
            Instruction::SetDelay(x) => {
                self.delay_timer = self.v[x as usize];
                self.bump(2);
            },
            Instruction::SetSound(x) => {
                self.sound_timer = self.v[x as usize];
                self.bump(2);
            },
            Instruction::AddI(x) => {
                self.i = ((self.i as u32 + self.v[x as usize] as u32) % 65536) as u16;
                self.bump(2);
            },
            Instruction::Font(x) => {
                self.i = self.v[x as usize] as u16 * 5;
                self.bump(2);
            },
            Instruction::Bcd(x) => {
                if self.i as usize + 3 > MEMORY {
                    return Err(CpuError::OutOfBounds);
                }
                let b = self.v[x as usize];
                let at = self.i as usize;
                self.ram.set(at, b / 100);
                self.ram.set(at + 1, (b / 10) % 10);
                self.ram.set(at + 2, b % 10);
                self.bump(2);
            },
            Instruction::StoreRegs(x) => {
                if self.i as usize + x as usize + 1 > MEMORY {
                    return Err(CpuError::OutOfBounds);
                }
                self.store_regs(x);
            },
            Instruction::LoadRegs(x) => {
                if self.i as usize + x as usize + 1 > MEMORY {
                    return Err(CpuError::OutOfBounds);
                }
                self.load_regs(x);
            },
            _ => {},
        }
        Ok(())
    }

    /// Carries out `ins`, fetched at the program counter.
    fn execute(&mut self, ins: Instruction, rnd: u8) -> (r: Result<(), CpuError>)
        requires
            old(self).wf(),
            old(self)@.mode == Mode::Running,
            old(self)@.pc + 1 < MEMORY,
            operands_ok(ins),
        ensures
            final(self).wf(),
            match execute(old(self)@, ins, rnd) {
                Ok(m) => r is Ok && final(self)@ == m,
                Err(e) => r == Err::<(), CpuError>(e) && final(self)@ == old(self)@,
            },
    {
        match ins {
            Instruction::Clear | Instruction::Return | Instruction::Jump(..) | Instruction::Call(..) | Instruction::SkipEqByte(..) | Instruction::SkipNeByte(..) | Instruction::SkipEqReg(..) | Instruction::SkipNeReg(..) | Instruction::JumpV0(..) | Instruction::SkipKey(..) | Instruction::SkipNoKey(..) | Instruction::Unknown(..) => self.exec_flow(ins, rnd),
            Instruction::LoadByte(..) | Instruction::AddByte(..) | Instruction::Move(..) | Instruction::Or(..) | Instruction::And(..) | Instruction::Xor(..) | Instruction::Random(..) => self.exec_alu(ins, rnd),
            Instruction::AddReg(..) | Instruction::SubReg(..) | Instruction::ShiftRight(..) | Instruction::SubRev(..) | Instruction::ShiftLeft(..) => self.exec_flags(ins, rnd),
            Instruction::LoadI(..) | Instruction::Draw(..) | Instruction::LoadDelay(..) | Instruction::WaitKey(..) | Instruction::SetDelay(..) | Instruction::SetSound(..) | Instruction::AddI(..) | Instruction::Font(..) | Instruction::Bcd(..) | Instruction::StoreRegs(..) | Instruction::LoadRegs(..) => self.exec_other(ins, rnd),
        }
    }

    /// One step with `rnd` as the random byte for Cxkk: finishes a pending key
    /// wait, or fetches, decodes and carries out the instruction at the program
    /// counter. A fatal error leaves the machine as it was.
    pub fn step_with(&mut self, rnd: u8) -> (r: Result<Status, CpuError>)
        requires
            old(self).wf(),
        ensures
            final(self).wf(),
            stepped(old(self)@, rnd, final(self)@, r),
    {
        match self.mode {
            Mode::AwaitingKey(x) => {
                match self.input.any_pressed() {
                    Some(k) => {
                        self.set_reg(x, k);
                        self.mode = Mode::Running;
                        self.bump(2);
                    },
                    None => {},
                }
                Ok(Status::Waited)
            },
            Mode::Running => {
                let pc = self.pc as usize;
                if pc + 1 >= MEMORY {
                    return Err(CpuError::OutOfBounds);
                }
                let op = self.ram[pc] as u16 * 256 + self.ram[pc + 1] as u16;
                let ins = decode(op);
                match self.execute(ins, rnd) {
                    Ok(()) => Ok(Status::Ran(ins)),
                    Err(e) => Err(e),
                }
            },
        }
    }

    /// One step of the instruction clock, with a fresh random byte for Cxkk.
    pub fn tick(&mut self) -> (r: Result<Status, CpuError>)
        requires
            old(self).wf(),
        ensures
            final(self).wf(),
            exists|rnd: u8| stepped(old(self)@, rnd, final(self)@, r),
    {
        let rnd = random_byte();
        self.step_with(rnd)
    }

    /// One tick of the 60 Hz timer clock: each timer above zero goes down by one.
    pub fn tick_timers(&mut self)
        requires
            old(self).wf(),
        ensures
            final(self).wf(),
            final(self)@ == timers_ticked(old(self)@),
    {
        if self.delay_timer > 0 {
            self.delay_timer = self.delay_timer - 1;
        }
        if self.sound_timer > 0 {
            self.sound_timer = self.sound_timer - 1;
        }
    }

    /// Records a host key event on the keypad; keys off the keypad are ignored.
    pub fn process_key(&mut self, key: HostKey, pressed: bool)
        requires
            old(self).wf(),
        ensures
            final(self).wf(),
            final(self)@ == (Machine {
                keys: match key_code(key) {
                    Some(c) => old(self)@.keys.update(c as int, pressed),
                    None => old(self)@.keys,
                },
                ..old(self)@
            }),
    {
        self.input.process(key, pressed);
    }

    /// Records that keypad key `code` went down (`pressed`) or up.
    pub fn set_key(&mut self, code: u8, pressed: bool)
        requires
            old(self).wf(),
            code < KEYS,
        ensures
            final(self).wf(),
            final(self)@ == (Machine { keys: old(self)@.keys.update(code as int, pressed), ..old(self)@ }),
    {
        self.input.set_key(code, pressed);
    }

    /// Register `Vx`.
    pub fn register(&self, x: u8) -> (r: u8)
        requires
            self.wf(),
            x < 16,
        ensures
            r == self@.v[x as int],
    {
        self.v[x as usize]
    }

    /// The program counter.
    pub fn pc(&self) -> (r: u16)
        ensures
            r == self@.pc,
    {
        self.pc
    }

    /// The index register I.
    pub fn index(&self) -> (r: u16)
        ensures
            r == self@.i,
    {
        self.i
    }

    /// The delay timer.
    pub fn delay_timer(&self) -> (r: u8)
        ensures
            r == self@.delay,
    {
        self.delay_timer
    }

    /// The sound timer; a tone sounds while it is above zero.
    pub fn sound_timer(&self) -> (r: u8)
        ensures
            r == self@.sound,
    {
        self.sound_timer
    }

    /// The byte at `addr`.
    pub fn memory(&self, addr: u16) -> (r: u8)
        requires
            self.wf(),
            addr < MEMORY,
        ensures
            r == self@.ram[addr as int],
    {
        self.ram[addr as usize]
    }

    /// How many return addresses are on the stack.
    pub fn stack_depth(&self) -> (r: usize)
        ensures
            r == self@.stack.len(),
    {
        self.stack.len()
    }

    /// Whether the processor runs or waits for a key.
    pub fn mode(&self) -> (r: Mode)
        ensures
            r == self@.mode,
    {
        self.mode
    }

    /// The display.
    pub fn framebuffer(&self) -> (r: &Gpu)
        ensures
            r@ == self@.screen,
            r.wf() == screen_wf(self@.screen),
    {
        &self.gpu
    }
}

} // verus!
