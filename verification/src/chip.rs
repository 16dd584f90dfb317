//! The machine core: register file, memory, instruction decoder/executor
//! and the compute step of the frame scheduler.

use vstd::prelude::*;

use crate::screen::Interface;

verus! {

/// Size of the flat byte-addressed memory.
pub const MEMSIZE: usize = 4096;

/// Offset at which a program image is loaded and where execution starts.
pub const PROG_POS_START: u16 = 0x200;

/// Offset of the built-in font sprite table (16 glyphs of 5 bytes each).
pub const FONT_POS_START: u16 = 0x50;

/// Instructions executed per second.
pub const INSTRUCTION_FREQUENCY: u32 = 600;

/// Frames presented per second; timers tick once per frame.
pub const SCREEN_REFRESH_RATE: u32 = 60;

/// Every way an instruction can fail. Each failure is fatal to the machine:
/// there is no recovery path, the caller is expected to stop the loop.
#[derive(Clone, Copy, Debug, PartialEq, Eq, Structural)]
pub enum ChipError {
    /// A register index above 0xF was used.
    InvalidRegisterIndex,
    /// A memory access at or beyond `MEMSIZE`.
    OutOfBoundsMemoryAccess,
    /// A call was made with all 16 stack slots in use.
    StackOverflow,
    /// A return was made with no frame on the stack.
    StackUnderflow,
    /// An instruction word that decodes to no known opcode; carries the word.
    IllegalInstruction(u16),
}

/// The register file: sixteen 8-bit general registers v0..=vF, viewed as a
/// sequence of 16 bytes, plus the 16-bit address register `i`.
pub struct Register {
    /// The sixteen general registers, indexed 0x0..=0xF.
    pub v: Vec<u8>,
    /// The 16-bit address register.
    pub i: u16,
}

impl View for Register {
    type V = Seq<u8>;

    open spec fn view(&self) -> Seq<u8> {
        self.v@
    }
}

impl Register {
    /// The general registers are always exactly sixteen.
    pub open spec fn wf(&self) -> bool {
        self@.len() == 16
    }

    /// A fresh register file: all general registers and `i` hold zero.
    pub fn new() -> (r: Register)
        ensures
            r.wf(),
            r@ =~= Seq::new(16, |j: int| 0u8),
            r.i == 0,
    {
        Register { v: vec![0u8; 16], i: 0 }
    }

    /// Store `val` in general register `reg`; an index above 0xF is refused,
    /// never wrapped or clamped.
    pub fn set_reg_v(&mut self, reg: u8, val: u8) -> (r: Result<(), ChipError>)
        requires
            old(self).wf(),
        ensures
            final(self).wf(),
            final(self).i == old(self).i,
            reg <= 0xF ==> r == Ok::<(), ChipError>(()) && final(self)@ == old(self)@.update(
                reg as int,
                val,
            ),
            reg > 0xF ==> r == Err::<(), ChipError>(ChipError::InvalidRegisterIndex)
                && final(self)@ == old(self)@,
    {
        if reg <= 0xF {
            self.v[reg as usize] = val;
            Ok(())
        } else {
            Err(ChipError::InvalidRegisterIndex)
        }
    }

    /// Read general register `reg`; an index above 0xF is refused.
    pub fn get_reg_v(&self, reg: u8) -> (r: Result<u8, ChipError>)
        requires
            self.wf(),
        ensures
            reg <= 0xF ==> r == Ok::<u8, ChipError>(self@[reg as int]),
            reg > 0xF ==> r == Err::<u8, ChipError>(ChipError::InvalidRegisterIndex),
    {
        if reg <= 0xF {
            Ok(self.v[reg as usize])
        } else {
            Err(ChipError::InvalidRegisterIndex)
        }
    }
}

/// The two-phase latch of the blocking key-wait instruction: it fires once
/// a key is pressed and completes only when that key is seen released.
#[derive(Clone, Copy, Debug, PartialEq, Eq, Structural)]
pub enum KeyWait {
    /// No key-wait is pending.
    Idle,
    /// A key was taken; the counter may not advance until it is released.
    AwaitingRelease(u8),
}

/// Relies on rand::random to draw a uniform byte. Nothing is promised of
/// the result: the machine's contract holds of every value that comes back.
#[verifier::external_body]
fn random_byte() -> u8 {
    rand::random::<u8>()
}

/// The font sprite table: 16 hex-digit glyphs of 5 bytes each.
pub open spec fn font_table() -> Seq<u8> {
    seq![
        0xF0u8, 0x90, 0x90, 0x90, 0xF0,
        0x20, 0x60, 0x20, 0x20, 0x70,
        0xF0, 0x10, 0xF0, 0x80, 0xF0,
        0xF0, 0x10, 0xF0, 0x10, 0xF0,
        0x90, 0x90, 0xF0, 0x10, 0x10,
        0xF0, 0x80, 0xF0, 0x10, 0xF0,
        0xF0, 0x80, 0xF0, 0x90, 0xF0,
        0xF0, 0x10, 0x20, 0x40, 0x40,
        0xF0, 0x90, 0xF0, 0x90, 0xF0,
        0xF0, 0x90, 0xF0, 0x10, 0xF0,
        0xF0, 0x90, 0xF0, 0x90, 0x90,
        0xE0, 0x90, 0xE0, 0x90, 0xE0,
        0xF0, 0x80, 0x80, 0x80, 0xF0,
        0xE0, 0x90, 0x90, 0x90, 0xE0,
        0xF0, 0x80, 0xF0, 0x80, 0xF0,
        0xF0, 0x80, 0xF0, 0x80, 0x80,
    ]
}

/// One frame's timer step: count down, with a floor at zero.
pub open spec fn tick(t: u8) -> u8 {
    if t > 0 {
        (t - 1) as u8
    } else {
        0
    }
}

/// `tick` applied `n` times.
pub open spec fn tick_n(n: nat, t: u8) -> u8
    decreases n,
{
    if n == 0 {
        t
    } else {
        tick(tick_n((n - 1) as nat, t))
    }
}

/// A timer already at zero stays at zero under any number of frame
/// decrements; it never wraps around.
pub proof fn lemma_timer_floor(n: nat)
    ensures
        tick_n(n, 0) == 0,
    decreases n,
{
    if n > 0 {
        lemma_timer_floor((n - 1) as nat);
    }
}

/// A decoded instruction: the opcode family of the top nibble together with
/// its operands. `Illegal` stands for every unrecognized combination.
#[derive(Clone, Copy, Debug, PartialEq, Eq, Structural)]
pub enum Instr {
    /// 0nnn other than 00E0/00EE: a machine-code call, treated as a no-op.
    Sys,
    /// 00E0: clear the display.
    ClearScreen,
    /// 00EE: return from subroutine.
    Ret,
    /// 1nnn: unconditional jump.
    Jump(u16),
    /// 2nnn: call subroutine.
    Call(u16),
    /// 3xkk: skip next instruction if vx == kk.
    SkipEqImm(u8, u8),
    /// 4xkk: skip next instruction if vx != kk.
    SkipNeImm(u8, u8),
    /// 5xy0: skip next instruction if vx == vy.
    SkipEqReg(u8, u8),
    /// 6xkk: load kk into vx.
    LoadImm(u8, u8),
    /// 7xkk: add kk to vx with wraparound, no flag.
    AddImm(u8, u8),
    /// 8xy0: copy vy into vx.
    Assign(u8, u8),
    /// 8xy1: vx |= vy, flag reset to 0.
    Or(u8, u8),
    /// 8xy2: vx &= vy, flag reset to 0.
    And(u8, u8),
    /// 8xy3: vx ^= vy, flag reset to 0.
    Xor(u8, u8),
    /// 8xy4: vx += vy, flag = carry.
    Add(u8, u8),
    /// 8xy5: vx -= vy, flag = no-borrow.
    Sub(u8, u8),
    /// 8xy6: vx = vy >> 1, flag = evicted low bit.
    Shr(u8, u8),
    /// 8xy7: vx = vy - vx, flag = no-borrow.
    SubN(u8, u8),
    /// 8xyE: vx = vy << 1, flag = evicted high bit.
    Shl(u8, u8),
    /// 9xy0: skip next instruction if vx != vy.
    SkipNeReg(u8, u8),
    /// Annn: load nnn into the address register.
    LoadI(u16),
    /// Bnnn: jump to nnn + v0.
    JumpV0(u16),
    /// Cxkk: vx = random byte & kk.
    Rand(u8, u8),
    /// Dxyn: draw the n-byte sprite at the address register at (vx, vy).
    Draw(u8, u8, u8),
    /// Ex9E: skip next instruction if the key in vx is pressed.
    SkipKey(u8),
    /// ExA1: skip next instruction if the key in vx is not pressed.
    SkipNoKey(u8),
    /// Fx07: vx = delay timer.
    GetDelay(u8),
    /// Fx0A: block until a key is pressed and then released.
    WaitKey(u8),
    /// Fx15: delay timer = vx.
    SetDelay(u8),
    /// Fx18: sound timer = vx.
    SetSound(u8),
    /// Fx1E: address register += vx, wrapping, no flag.
    AddI(u8),
    /// Fx29: address register = font glyph offset for the digit in vx.
    LoadFont(u8),
    /// Fx33: store the decimal digits of vx at the address register.
    Bcd(u8),
    /// Fx55: store v0..=vx to memory at the address register.
    StoreRegs(u8),
    /// Fx65: load v0..=vx from memory at the address register.
    LoadRegs(u8),
    /// No known opcode.
    Illegal,
}

/// The x operand: the second nibble.
pub open spec fn spec_x(w: u16) -> u8 {
    ((w >> 8) & 0xF) as u8
}

/// The y operand: the third nibble.
pub open spec fn spec_y(w: u16) -> u8 {
    ((w >> 4) & 0xF) as u8
}

/// The n operand: the lowest nibble.
pub open spec fn spec_n(w: u16) -> u8 {
    (w & 0xF) as u8
}

/// The kk operand: the low byte.
pub open spec fn spec_kk(w: u16) -> u8 {
    (w & 0xFF) as u8
}

/// The nnn operand: the low 12 bits.
pub open spec fn spec_nnn(w: u16) -> u16 {
    w & 0xFFF
}

/// Bounds of the operand fields, by their masks.
pub proof fn lemma_instr_fields(w: u16)
    ensures
        spec_x(w) <= 0xF,
        spec_y(w) <= 0xF,
        spec_n(w) <= 0xF,
        spec_nnn(w) <= 0xFFF,
{
    assert(((w >> 8) & 0xF) <= 0xF) by (bit_vector);
    assert(((w >> 4) & 0xF) <= 0xF) by (bit_vector);
    assert((w & 0xF) <= 0xF) by (bit_vector);
    assert((w & 0xFFF) <= 0xFFF) by (bit_vector);
}

/// Decode an instruction word into an opcode family and operands.
pub open spec fn spec_decode(w: u16) -> Instr {
    let a = w >> 12;
    let x = spec_x(w);
    let y = spec_y(w);
    let n = spec_n(w);
    let kk = spec_kk(w);
    let nnn = spec_nnn(w);
    if a == 0x0 {
        if kk == 0xE0 {
            Instr::ClearScreen
        } else if kk == 0xEE {
            Instr::Ret
        } else {
            Instr::Sys
        }
    } else if a == 0x1 {
        Instr::Jump(nnn)
    } else if a == 0x2 {
        Instr::Call(nnn)
    } else if a == 0x3 {
        Instr::SkipEqImm(x, kk)
    } else if a == 0x4 {
        Instr::SkipNeImm(x, kk)
    } else if a == 0x5 {
        if n == 0x0 {
            Instr::SkipEqReg(x, y)
        } else {
            Instr::Illegal
        }
    } else if a == 0x6 {
        Instr::LoadImm(x, kk)
    } else if a == 0x7 {
        Instr::AddImm(x, kk)
    } else if a == 0x8 {
        if n == 0x0 {
            Instr::Assign(x, y)
        } else if n == 0x1 {
            Instr::Or(x, y)
        } else if n == 0x2 {
            Instr::And(x, y)
        } else if n == 0x3 {
            Instr::Xor(x, y)
        } else if n == 0x4 {
            Instr::Add(x, y)
        } else if n == 0x5 {
            Instr::Sub(x, y)
        } else if n == 0x6 {
            Instr::Shr(x, y)
        } else if n == 0x7 {
            Instr::SubN(x, y)
        } else if n == 0xE {
            Instr::Shl(x, y)
        } else {
            Instr::Illegal
        }
    } else if a == 0x9 {
        if n == 0x0 {
            Instr::SkipNeReg(x, y)
        } else {
            Instr::Illegal
        }
    } else if a == 0xA {
        Instr::LoadI(nnn)
    } else if a == 0xB {
        Instr::JumpV0(nnn)
    } else if a == 0xC {
        Instr::Rand(x, kk)
    } else if a == 0xD {
        Instr::Draw(x, y, n)
    } else if a == 0xE {
        if kk == 0x9E {
            Instr::SkipKey(x)
        } else if kk == 0xA1 {
            Instr::SkipNoKey(x)
        } else {
            Instr::Illegal
        }
    } else {
        if kk == 0x07 {
            Instr::GetDelay(x)
        } else if kk == 0x0A {
            Instr::WaitKey(x)
        } else if kk == 0x15 {
            Instr::SetDelay(x)
        } else if kk == 0x18 {
            Instr::SetSound(x)
        } else if kk == 0x1E {
            Instr::AddI(x)
        } else if kk == 0x29 {
            Instr::LoadFont(x)
        } else if kk == 0x33 {
            Instr::Bcd(x)
        } else if kk == 0x55 {
            Instr::StoreRegs(x)
        } else if kk == 0x65 {
            Instr::LoadRegs(x)
        } else {
            Instr::Illegal
        }
    }
}

/// Decode an instruction word.
pub fn decode(w: u16) -> (r: Instr)
    ensures
        r == spec_decode(w),
{
    let a: u16 = w >> 12;
    let x: u8 = ((w >> 8) & 0xF) as u8;
    let y: u8 = ((w >> 4) & 0xF) as u8;
    let n: u8 = (w & 0xF) as u8;
    let kk: u8 = (w & 0xFF) as u8;
    let nnn: u16 = w & 0xFFF;
    if a == 0x0 {
        if kk == 0xE0 {
            Instr::ClearScreen
        } else if kk == 0xEE {
            Instr::Ret
        } else {
            Instr::Sys
        }
    } else if a == 0x1 {
        Instr::Jump(nnn)
    } else if a == 0x2 {
        Instr::Call(nnn)
    } else if a == 0x3 {
        Instr::SkipEqImm(x, kk)
    } else if a == 0x4 {
        Instr::SkipNeImm(x, kk)
    } else if a == 0x5 {
        if n == 0x0 {
            Instr::SkipEqReg(x, y)
        } else {
            Instr::Illegal
        }
    } else if a == 0x6 {
        Instr::LoadImm(x, kk)
    } else if a == 0x7 {
        Instr::AddImm(x, kk)
    } else if a == 0x8 {
        if n == 0x0 {
            Instr::Assign(x, y)
        } else if n == 0x1 {
            Instr::Or(x, y)
        } else if n == 0x2 {
            Instr::And(x, y)
        } else if n == 0x3 {
            Instr::Xor(x, y)
        } else if n == 0x4 {
            Instr::Add(x, y)
        } else if n == 0x5 {
            Instr::Sub(x, y)
        } else if n == 0x6 {
            Instr::Shr(x, y)
        } else if n == 0x7 {
            Instr::SubN(x, y)
        } else if n == 0xE {
            Instr::Shl(x, y)
        } else {
            Instr::Illegal
        }
    } else if a == 0x9 {
        if n == 0x0 {
            Instr::SkipNeReg(x, y)
        } else {
            Instr::Illegal
        }
    } else if a == 0xA {
        Instr::LoadI(nnn)
    } else if a == 0xB {
        Instr::JumpV0(nnn)
    } else if a == 0xC {
        Instr::Rand(x, kk)
    } else if a == 0xD {
        Instr::Draw(x, y, n)
    } else if a == 0xE {
        if kk == 0x9E {
            Instr::SkipKey(x)
        } else if kk == 0xA1 {
            Instr::SkipNoKey(x)
        } else {
            Instr::Illegal
        }
    } else {
        if kk == 0x07 {
            Instr::GetDelay(x)
        } else if kk == 0x0A {
            Instr::WaitKey(x)
        } else if kk == 0x15 {
            Instr::SetDelay(x)
        } else if kk == 0x18 {
            Instr::SetSound(x)
        } else if kk == 0x1E {
            Instr::AddI(x)
        } else if kk == 0x29 {
            Instr::LoadFont(x)
        } else if kk == 0x33 {
            Instr::Bcd(x)
        } else if kk == 0x55 {
            Instr::StoreRegs(x)
        } else if kk == 0x65 {
            Instr::LoadRegs(x)
        } else {
            Instr::Illegal
        }
    }
}

/// The big-endian instruction word at `pc`.
pub open spec fn spec_fetch(mem: Seq<u8>, pc: u16) -> u16 {
    (mem[pc as int] * 256 + mem[pc as int + 1]) as u16
}

/// Byte addition with silent wraparound.
pub open spec fn wrap_add8(a: u8, b: u8) -> u8 {
    if a + b < 256 {
        (a + b) as u8
    } else {
        (a + b - 256) as u8
    }
}

/// Byte subtraction with silent wraparound.
pub open spec fn wrap_sub8(a: u8, b: u8) -> u8 {
    if a >= b {
        (a - b) as u8
    } else {
        (a - b + 256) as u8
    }
}

/// Store `v` in register `x`, then the flag `f` in register 0xF.
pub open spec fn set_with_flag(regs: Seq<u8>, x: int, v: u8, f: u8) -> Seq<u8> {
    regs.update(x, v).update(15, f)
}

/// 8xy1: bitwise or into x; the flag register is reset to 0.
pub open spec fn alu_or(regs: Seq<u8>, x: int, y: int) -> Seq<u8> {
    set_with_flag(regs, x, regs[x] | regs[y], 0)
}

/// 8xy2: bitwise and into x; the flag register is reset to 0.
pub open spec fn alu_and(regs: Seq<u8>, x: int, y: int) -> Seq<u8> {
    set_with_flag(regs, x, regs[x] & regs[y], 0)
}

/// 8xy3: bitwise xor into x; the flag register is reset to 0.
pub open spec fn alu_xor(regs: Seq<u8>, x: int, y: int) -> Seq<u8> {
    set_with_flag(regs, x, regs[x] ^ regs[y], 0)
}

/// 8xy4: wrapping sum into x; the flag register holds the carry.
pub open spec fn alu_add(regs: Seq<u8>, x: int, y: int) -> Seq<u8> {
    set_with_flag(
        regs,
        x,
        wrap_add8(regs[x], regs[y]),
        if regs[x] + regs[y] > 255 {
            1u8
        } else {
            0u8
        },
    )
}

/// 8xy5: wrapping difference x - y into x; flag 1 means no borrow.
pub open spec fn alu_sub(regs: Seq<u8>, x: int, y: int) -> Seq<u8> {
    set_with_flag(
        regs,
        x,
        wrap_sub8(regs[x], regs[y]),
        if regs[x] >= regs[y] {
            1u8
        } else {
            0u8
        },
    )
}

/// 8xy7: wrapping difference y - x into x; flag 1 means no borrow.
pub open spec fn alu_subn(regs: Seq<u8>, x: int, y: int) -> Seq<u8> {
    set_with_flag(
        regs,
        x,
        wrap_sub8(regs[y], regs[x]),
        if regs[y] >= regs[x] {
            1u8
        } else {
            0u8
        },
    )
}

/// 8xy6: y shifted right once into x; the flag holds the evicted low bit.
pub open spec fn alu_shr(regs: Seq<u8>, x: int, y: int) -> Seq<u8> {
    set_with_flag(regs, x, regs[y] >> 1, regs[y] & 1)
}

/// 8xyE: y shifted left once into x; the flag holds the evicted high bit.
pub open spec fn alu_shl(regs: Seq<u8>, x: int, y: int) -> Seq<u8> {
    set_with_flag(regs, x, wrap_add8(regs[y], regs[y]), (regs[y] >> 7) & 1)
}

/// Fx33: the decimal digits of `v` written at `i`, `i + 1`, `i + 2`.
pub open spec fn bcd_mem(mem: Seq<u8>, i: int, v: u8) -> Seq<u8> {
    mem.update(i, v / 100).update(i + 1, (v / 10) % 10).update(i + 2, v % 10)
}

/// Fx55: memory with registers 0..=x stored from base `i`.
pub open spec fn store_regs_mem(mem: Seq<u8>, regs: Seq<u8>, i: int, x: int) -> Seq<u8> {
    Seq::new(
        mem.len(),
        |a: int|
            if i <= a <= i + x {
                regs[a - i]
            } else {
                mem[a]
            },
    )
}

/// Fx65: the register file with registers 0..=x loaded from base `i`.
pub open spec fn load_regs_regs(mem: Seq<u8>, regs: Seq<u8>, i: int, x: int) -> Seq<u8> {
    Seq::new(
        regs.len(),
        |r: int|
            if 0 <= r <= x {
                mem[i + r]
            } else {
                regs[r]
            },
    )
}

/// The frame scheduler's pacing decision: how long to block after a frame,
/// the unspent part of the target duration, floored at zero. A frame that
/// ran long gets no compensation.
pub fn remaining_frame_time(target_ms: u64, elapsed_ms: u64) -> (r: u64)
    ensures
        r as int == if elapsed_ms < target_ms {
            target_ms - elapsed_ms
        } else {
            0int
        },
{
    if elapsed_ms < target_ms {
        target_ms - elapsed_ms
    } else {
        0
    }
}

/// The whole machine: memory, registers, call stack, timers, the key-wait
/// latch and the display/input capability it draws and polls through.
pub struct Chip<T> where T: Interface {
    /// Lifecycle flag; false halts the frame loop.
    pub running: bool,
    /// Flat byte-addressed memory of `MEMSIZE` bytes.
    pub memory: Vec<u8>,
    /// The program counter.
    pub pc: u16,
    /// The register file.
    pub registers: Register,
    /// Sixteen return-address slots.
    pub stack: Vec<u16>,
    /// Index of the next free stack slot; always in 0..=16.
    pub stackpointer: u8,
    /// The display/input capability.
    pub interface: T,
    /// Counts down once per frame to zero.
    pub delay_timer: u8,
    /// Counts down once per frame to zero.
    pub sound_timer: u8,
    /// State of the blocking key-wait instruction.
    pub key_wait: KeyWait,
}

impl<T: Interface> Chip<T> {
    /// Structural well-formedness: the fixed sizes of memory, registers and
    /// stack, the stack pointer in range, and every stacked return address
    /// low enough that returning to it can fetch an instruction.
    pub open spec fn wf(&self) -> bool {
        &&& self.memory@.len() == MEMSIZE
        &&& self.registers.wf()
        &&& self.stack@.len() == 16
        &&& self.stackpointer <= 16
        &&& forall|j: int| 0 <= j < 16 ==> self.stack@[j] <= 4094
    }

    pub open spec fn eq_mem(pre: Self, post: Self) -> bool {
        post.memory@ == pre.memory@
    }

    pub open spec fn eq_regs(pre: Self, post: Self) -> bool {
        post.registers@ == pre.registers@
    }

    pub open spec fn eq_i(pre: Self, post: Self) -> bool {
        post.registers.i == pre.registers.i
    }

    pub open spec fn eq_stack(pre: Self, post: Self) -> bool {
        post.stack@ == pre.stack@ && post.stackpointer == pre.stackpointer
    }

    pub open spec fn eq_timers(pre: Self, post: Self) -> bool {
        post.delay_timer == pre.delay_timer && post.sound_timer == pre.sound_timer
    }

    pub open spec fn eq_kw(pre: Self, post: Self) -> bool {
        post.key_wait == pre.key_wait
    }

    /// Everything of the core but the program counter is unchanged.
    pub open spec fn only_pc(pre: Self, post: Self) -> bool {
        &&& Self::eq_mem(pre, post)
        &&& Self::eq_regs(pre, post)
        &&& Self::eq_i(pre, post)
        &&& Self::eq_stack(pre, post)
        &&& Self::eq_timers(pre, post)
        &&& Self::eq_kw(pre, post)
    }

    /// Only the general registers and the program counter may differ.
    pub open spec fn only_regs_pc(pre: Self, post: Self) -> bool {
        &&& Self::eq_mem(pre, post)
        &&& Self::eq_i(pre, post)
        &&& Self::eq_stack(pre, post)
        &&& Self::eq_timers(pre, post)
        &&& Self::eq_kw(pre, post)
    }

    /// Only the address register and the program counter may differ.
    pub open spec fn only_i_pc(pre: Self, post: Self) -> bool {
        &&& Self::eq_mem(pre, post)
        &&& Self::eq_regs(pre, post)
        &&& Self::eq_stack(pre, post)
        &&& Self::eq_timers(pre, post)
        &&& Self::eq_kw(pre, post)
    }

    /// Only the call stack and the program counter may differ.
    pub open spec fn only_stack_pc(pre: Self, post: Self) -> bool {
        &&& Self::eq_mem(pre, post)
        &&& Self::eq_regs(pre, post)
        &&& Self::eq_i(pre, post)
        &&& Self::eq_timers(pre, post)
        &&& Self::eq_kw(pre, post)
    }

    /// Only the memory and the program counter may differ.
    pub open spec fn only_mem_pc(pre: Self, post: Self) -> bool {
        &&& Self::eq_regs(pre, post)
        &&& Self::eq_i(pre, post)
        &&& Self::eq_stack(pre, post)
        &&& Self::eq_timers(pre, post)
        &&& Self::eq_kw(pre, post)
    }

    /// Only memory, the address register and the program counter may differ.
    pub open spec fn only_mem_i_pc(pre: Self, post: Self) -> bool {
        &&& Self::eq_regs(pre, post)
        &&& Self::eq_stack(pre, post)
        &&& Self::eq_timers(pre, post)
        &&& Self::eq_kw(pre, post)
    }

    /// Only the general registers, the address register and the program
    /// counter may differ.
    pub open spec fn only_regs_i_pc(pre: Self, post: Self) -> bool {
        &&& Self::eq_mem(pre, post)
        &&& Self::eq_stack(pre, post)
        &&& Self::eq_timers(pre, post)
        &&& Self::eq_kw(pre, post)
    }

    /// Only the timers and the program counter may differ.
    pub open spec fn only_timers_pc(pre: Self, post: Self) -> bool {
        &&& Self::eq_mem(pre, post)
        &&& Self::eq_regs(pre, post)
        &&& Self::eq_i(pre, post)
        &&& Self::eq_stack(pre, post)
        &&& Self::eq_kw(pre, post)
    }

    /// Only the key-wait latch, the general registers and the program
    /// counter may differ.
    pub open spec fn only_kw_regs_pc(pre: Self, post: Self) -> bool {
        &&& Self::eq_mem(pre, post)
        &&& Self::eq_i(pre, post)
        &&& Self::eq_stack(pre, post)
        &&& Self::eq_timers(pre, post)
    }

    /// The whole core state, program counter included, is unchanged.
    pub open spec fn unchanged_core(pre: Self, post: Self) -> bool {
        Self::only_pc(pre, post) && post.pc == pre.pc
    }

    /// A fresh machine: zeroed state, the counter at `prog_counter`, and
    /// the font table written at its fixed offset.
    pub fn new(prog_counter: u16, interface: T) -> (r: Self)
        ensures
            r.wf(),
            !r.running,
            r.pc == prog_counter,
            r.registers@ =~= Seq::new(16, |j: int| 0u8),
            r.registers.i == 0,
            r.stack@ =~= Seq::new(16, |j: int| 0u16),
            r.stackpointer == 0,
            r.delay_timer == 0,
            r.sound_timer == 0,
            r.key_wait == KeyWait::Idle,
            forall|a: int|
                0x50 <= a < 0xA0 ==> r.memory@[a] == font_table()[a - 0x50],
            forall|a: int|
                0 <= a < 4096 && !(0x50 <= a < 0xA0) ==> r.memory@[a] == 0,
    {
        let mut chip = Chip {
            running: false,
            memory: vec![0u8; 4096],
            pc: prog_counter,
            registers: Register::new(),
            stack: vec![0u16; 16],
            stackpointer: 0,
            interface,
            delay_timer: 0,
            sound_timer: 0,
            key_wait: KeyWait::Idle,
        };
        chip.load_font();
        chip
    }

    /// The 80 font bytes in their memory order.
    fn font_rows() -> (r: Vec<u8>)
        ensures
            r@ =~= font_table(),
    {
        vec![
            0xF0u8, 0x90, 0x90, 0x90, 0xF0,
            0x20, 0x60, 0x20, 0x20, 0x70,
            0xF0, 0x10, 0xF0, 0x80, 0xF0,
            0xF0, 0x10, 0xF0, 0x10, 0xF0,
            0x90, 0x90, 0xF0, 0x10, 0x10,
            0xF0, 0x80, 0xF0, 0x10, 0xF0,
            0xF0, 0x80, 0xF0, 0x90, 0xF0,
            0xF0, 0x10, 0x20, 0x40, 0x40,
            0xF0, 0x90, 0xF0, 0x90, 0xF0,
            0xF0, 0x90, 0xF0, 0x10, 0xF0,
            0xF0, 0x90, 0xF0, 0x90, 0x90,
            0xE0, 0x90, 0xE0, 0x90, 0xE0,
            0xF0, 0x80, 0x80, 0x80, 0xF0,
            0xE0, 0x90, 0x90, 0x90, 0xE0,
            0xF0, 0x80, 0xF0, 0x80, 0xF0,
            0xF0, 0x80, 0xF0, 0x80, 0x80,
        ]
    }

    /// Write the font sprite table over its reserved region; the rest of
    /// the machine is untouched.
    pub fn load_font(&mut self)
        requires
            old(self).wf(),
        ensures
            final(self).wf(),
            forall|a: int|
                0x50 <= a < 0xA0 ==> final(self).memory@[a] == font_table()[a - 0x50],
            forall|a: int|
                0 <= a < 4096 && !(0x50 <= a < 0xA0)
                    ==> final(self).memory@[a] == old(self).memory@[a],
            final(self).pc == old(self).pc,
            final(self).running == old(self).running,
            Self::only_mem_pc(*old(self), *final(self)),
    {
        let font = Self::font_rows();
        let mut k: usize = 0;
        while k < 80
            invariant
                self.wf(),
                font@ =~= font_table(),
                k <= 80,
                forall|a: int|
                    0x50 <= a < 0x50 + k ==> self.memory@[a] == font_table()[a - 0x50],
                forall|a: int|
                    0 <= a < 4096 && !(0x50 <= a < 0x50 + k)
                        ==> self.memory@[a] == old(self).memory@[a],
                self.pc == old(self).pc,
                self.running == old(self).running,
                Self::only_mem_pc(*old(self), *self),
            decreases 80 - k,
        {
            self.memory[0x50 + k] = font[k];
            k += 1;
        }
    }

    /// Set the program counter to an absolute value.
    pub fn set_pc(&mut self, value: u16)
        ensures
            final(self).pc == value,
            final(self).running == old(self).running,
            Self::only_pc(*old(self), *final(self)),
            old(self).wf() ==> final(self).wf(),
    {
        self.pc = value;
    }

    /// Write one byte of memory; an address at or beyond `MEMSIZE` is
    /// refused, never clamped.
    pub fn set_byte(&mut self, addr: u16, val: u8) -> (r: Result<(), ChipError>)
        requires
            old(self).wf(),
        ensures
            final(self).wf(),
            final(self).running == old(self).running,
            final(self).pc == old(self).pc,
            Self::only_mem_pc(*old(self), *final(self)),
            addr < 4096 ==> r == Ok::<(), ChipError>(()) && final(self).memory@ == old(
                self,
            ).memory@.update(addr as int, val),
            addr >= 4096 ==> r == Err::<(), ChipError>(ChipError::OutOfBoundsMemoryAccess)
                && final(self).memory@ == old(self).memory@,
    {
        if (addr as usize) < MEMSIZE {
            self.memory[addr as usize] = val;
            Ok(())
        } else {
            Err(ChipError::OutOfBoundsMemoryAccess)
        }
    }

    /// Read one byte of memory; an address at or beyond `MEMSIZE` is
    /// refused.
    pub fn get_addr(&self, addr: u16) -> (r: Result<u8, ChipError>)
        requires
            self.wf(),
        ensures
            addr < 4096 ==> r == Ok::<u8, ChipError>(self.memory@[addr as int]),
            addr >= 4096 ==> r == Err::<u8, ChipError>(ChipError::OutOfBoundsMemoryAccess),
    {
        if (addr as usize) < MEMSIZE {
            Ok(self.memory[addr as usize])
        } else {
            Err(ChipError::OutOfBoundsMemoryAccess)
        }
    }

    /// Copy a program image verbatim into memory at the load offset. Any
    /// image of up to `MEMSIZE - PROG_POS_START` bytes is accepted; a longer
    /// one is refused whole.
    pub fn load_prog(&mut self, prog: Vec<u8>) -> (r: Result<(), ChipError>)
        requires
            old(self).wf(),
        ensures
            final(self).wf(),
            final(self).running == old(self).running,
            final(self).pc == old(self).pc,
            Self::only_mem_pc(*old(self), *final(self)),
            prog@.len() <= 4096 - 0x200 ==> {
                &&& r == Ok::<(), ChipError>(())
                &&& forall|a: int|
                    0x200 <= a < 0x200 + prog@.len()
                        ==> final(self).memory@[a] == prog@[a - 0x200]
                &&& forall|a: int|
                    0 <= a < 4096 && !(0x200 <= a < 0x200 + prog@.len())
                        ==> final(self).memory@[a] == old(self).memory@[a]
            },
            prog@.len() > 4096 - 0x200 ==> r == Err::<(), ChipError>(
                ChipError::OutOfBoundsMemoryAccess,
            ) && final(self).memory@ == old(self).memory@,
    {
        if prog.len() > MEMSIZE - PROG_POS_START as usize {
            return Err(ChipError::OutOfBoundsMemoryAccess);
        }
        let mut k: usize = 0;
        while k < prog.len()
            invariant
                self.wf(),
                k <= prog@.len(),
                prog@.len() <= 4096 - 0x200,
                forall|a: int|
                    0x200 <= a < 0x200 + k ==> self.memory@[a] == prog@[a - 0x200],
                forall|a: int|
                    0 <= a < 4096 && !(0x200 <= a < 0x200 + k)
                        ==> self.memory@[a] == old(self).memory@[a],
                self.pc == old(self).pc,
                self.running == old(self).running,
                Self::only_mem_pc(*old(self), *self),
            decreases prog@.len() - k,
        {
            self.memory[0x200 + k] = prog[k];
            k += 1;
        }
        Ok(())
    }

    /// One frame's timer step: both countdown timers lose one, flooring at
    /// zero rather than wrapping.
    pub fn tick_timers(&mut self)
        ensures
            final(self).delay_timer == tick(old(self).delay_timer),
            final(self).sound_timer == tick(old(self).sound_timer),
            final(self).pc == old(self).pc,
            final(self).running == old(self).running,
            Self::eq_mem(*old(self), *final(self)),
            Self::eq_regs(*old(self), *final(self)),
            Self::eq_i(*old(self), *final(self)),
            Self::eq_stack(*old(self), *final(self)),
            Self::eq_kw(*old(self), *final(self)),
            old(self).wf() ==> final(self).wf(),
    {
        if self.delay_timer > 0 {
            self.delay_timer = self.delay_timer - 1;
        }
        if self.sound_timer > 0 {
            self.sound_timer = self.sound_timer - 1;
        }
    }

    /// How one instruction step relates the machine after (`post`) to the
    /// machine before (`pre`), together with its result `r`. The error cases
    /// hold if and only if stated: a fetch beyond memory, a stack fault, an
    /// out-of-range memory operand, or an unknown opcode; every error leaves
    /// the core untouched. Results of the display/input capability and of
    /// the random source are not functions of the machine state, so those
    /// cases state what holds of every outcome.
    pub open spec fn step_post(pre: Self, post: Self, r: Result<(), ChipError>) -> bool {
        if pre.pc as int + 1 >= 4096 {
            r == Err::<(), ChipError>(ChipError::OutOfBoundsMemoryAccess)
                && Self::unchanged_core(pre, post)
        } else {
            let w = spec_fetch(pre.memory@, pre.pc);
            let regs = pre.registers@;
            let i = pre.registers.i;
            match spec_decode(w) {
                Instr::Sys => r == Ok::<(), ChipError>(()) && Self::only_pc(pre, post)
                    && post.pc == pre.pc + 2,
                Instr::ClearScreen => r == Ok::<(), ChipError>(()) && Self::only_pc(pre, post)
                    && post.pc == pre.pc + 2,
                Instr::Ret => if pre.stackpointer == 0 {
                    r == Err::<(), ChipError>(ChipError::StackUnderflow)
                        && Self::unchanged_core(pre, post)
                } else {
                    &&& r == Ok::<(), ChipError>(())
                    &&& Self::only_stack_pc(pre, post)
                    &&& post.stack@ == pre.stack@
                    &&& post.stackpointer == pre.stackpointer - 1
                    &&& post.pc == pre.stack@[pre.stackpointer - 1] + 2
                },
                Instr::Jump(nnn) => r == Ok::<(), ChipError>(()) && Self::only_pc(pre, post)
                    && post.pc == nnn,
                Instr::Call(nnn) => if pre.stackpointer >= 16 {
                    r == Err::<(), ChipError>(ChipError::StackOverflow)
                        && Self::unchanged_core(pre, post)
                } else {
                    &&& r == Ok::<(), ChipError>(())
                    &&& Self::only_stack_pc(pre, post)
                    &&& post.stack@ == pre.stack@.update(pre.stackpointer as int, pre.pc)
                    &&& post.stackpointer == pre.stackpointer + 1
                    &&& post.pc == nnn
                },
                Instr::SkipEqImm(x, kk) => {
                    &&& r == Ok::<(), ChipError>(())
                    &&& Self::only_pc(pre, post)
                    &&& post.pc == pre.pc + (if regs[x as int] == kk {
                        4int
                    } else {
                        2int
                    })
                },
                Instr::SkipNeImm(x, kk) => {
                    &&& r == Ok::<(), ChipError>(())
                    &&& Self::only_pc(pre, post)
                    &&& post.pc == pre.pc + (if regs[x as int] != kk {
                        4int
                    } else {
                        2int
                    })
                },
                Instr::SkipEqReg(x, y) => {
                    &&& r == Ok::<(), ChipError>(())
                    &&& Self::only_pc(pre, post)
                    &&& post.pc == pre.pc + (if regs[x as int] == regs[y as int] {
                        4int
                    } else {
                        2int
                    })
                },
                Instr::SkipNeReg(x, y) => {
                    &&& r == Ok::<(), ChipError>(())
                    &&& Self::only_pc(pre, post)
                    &&& post.pc == pre.pc + (if regs[x as int] != regs[y as int] {
                        4int
                    } else {
                        2int
                    })
                },
                Instr::LoadImm(x, kk) => {
                    &&& r == Ok::<(), ChipError>(())
                    &&& Self::only_regs_pc(pre, post)
                    &&& post.registers@ == regs.update(x as int, kk)
                    &&& post.pc == pre.pc + 2
                },
                Instr::AddImm(x, kk) => {
                    &&& r == Ok::<(), ChipError>(())
                    &&& Self::only_regs_pc(pre, post)
                    &&& post.registers@ == regs.update(x as int, wrap_add8(regs[x as int], kk))
                    &&& post.pc == pre.pc + 2
                },
                Instr::Assign(x, y) => {
                    &&& r == Ok::<(), ChipError>(())
                    &&& Self::only_regs_pc(pre, post)
                    &&& post.registers@ == regs.update(x as int, regs[y as int])
                    &&& post.pc == pre.pc + 2
                },
                Instr::Or(x, y) => {
                    &&& r == Ok::<(), ChipError>(())
                    &&& Self::only_regs_pc(pre, post)
                    &&& post.registers@ == alu_or(regs, x as int, y as int)
                    &&& post.pc == pre.pc + 2
                },
                Instr::And(x, y) => {
                    &&& r == Ok::<(), ChipError>(())
                    &&& Self::only_regs_pc(pre, post)
                    &&& post.registers@ == alu_and(regs, x as int, y as int)
                    &&& post.pc == pre.pc + 2
                },
                Instr::Xor(x, y) => {
                    &&& r == Ok::<(), ChipError>(())
                    &&& Self::only_regs_pc(pre, post)
                    &&& post.registers@ == alu_xor(regs, x as int, y as int)
                    &&& post.pc == pre.pc + 2
                },
                Instr::Add(x, y) => {
                    &&& r == Ok::<(), ChipError>(())
                    &&& Self::only_regs_pc(pre, post)
                    &&& post.registers@ == alu_add(regs, x as int, y as int)
                    &&& post.pc == pre.pc + 2
                },
                Instr::Sub(x, y) => {
                    &&& r == Ok::<(), ChipError>(())
                    &&& Self::only_regs_pc(pre, post)
                    &&& post.registers@ == alu_sub(regs, x as int, y as int)
                    &&& post.pc == pre.pc + 2
                },
                Instr::Shr(x, y) => {
                    &&& r == Ok::<(), ChipError>(())
                    &&& Self::only_regs_pc(pre, post)
                    &&& post.registers@ == alu_shr(regs, x as int, y as int)
                    &&& post.pc == pre.pc + 2
                },
                Instr::SubN(x, y) => {
                    &&& r == Ok::<(), ChipError>(())
                    &&& Self::only_regs_pc(pre, post)
                    &&& post.registers@ == alu_subn(regs, x as int, y as int)
                    &&& post.pc == pre.pc + 2
                },
                Instr::Shl(x, y) => {
                    &&& r == Ok::<(), ChipError>(())
                    &&& Self::only_regs_pc(pre, post)
                    &&& post.registers@ == alu_shl(regs, x as int, y as int)
                    &&& post.pc == pre.pc + 2
                },
                Instr::LoadI(nnn) => {
                    &&& r == Ok::<(), ChipError>(())
                    &&& Self::only_i_pc(pre, post)
                    &&& post.registers.i == nnn
                    &&& post.pc == pre.pc + 2
                },
                Instr::JumpV0(nnn) => {
                    &&& r == Ok::<(), ChipError>(())
                    &&& Self::only_pc(pre, post)
                    &&& post.pc == nnn + regs[0]
                },
                Instr::Rand(x, kk) => {
                    &&& r == Ok::<(), ChipError>(())
                    &&& Self::only_regs_pc(pre, post)
                    &&& exists|b: u8| post.registers@ == regs.update(x as int, b & kk)
                    &&& post.pc == pre.pc + 2
                },
                Instr::Draw(x, y, n) => if i as int + n > 4096 {
                    r == Err::<(), ChipError>(ChipError::OutOfBoundsMemoryAccess)
                        && Self::unchanged_core(pre, post)
                } else {
                    &&& r == Ok::<(), ChipError>(())
                    &&& Self::only_regs_pc(pre, post)
                    &&& (post.registers@ == regs.update(15, 0u8) || post.registers@ == regs.update(
                        15,
                        1u8,
                    ))
                    &&& post.pc == pre.pc + 2
                },
                Instr::SkipKey(x) => {
                    &&& r == Ok::<(), ChipError>(())
                    &&& Self::only_pc(pre, post)
                    &&& (post.pc == pre.pc + 2 || post.pc == pre.pc + 4)
                },
                Instr::SkipNoKey(x) => {
                    &&& r == Ok::<(), ChipError>(())
                    &&& Self::only_pc(pre, post)
                    &&& (post.pc == pre.pc + 2 || post.pc == pre.pc + 4)
                },
                Instr::GetDelay(x) => {
                    &&& r == Ok::<(), ChipError>(())
                    &&& Self::only_regs_pc(pre, post)
                    &&& post.registers@ == regs.update(x as int, pre.delay_timer)
                    &&& post.pc == pre.pc + 2
                },
                Instr::WaitKey(x) => match pre.key_wait {
                    KeyWait::AwaitingRelease(k) => {
                        &&& r == Ok::<(), ChipError>(())
                        &&& Self::only_kw_regs_pc(pre, post)
                        &&& Self::eq_regs(pre, post)
                        &&& ((post.key_wait == pre.key_wait && post.pc == pre.pc) || (
                        post.key_wait == KeyWait::Idle && post.pc == pre.pc + 2))
                    },
                    KeyWait::Idle => {
                        &&& r == Ok::<(), ChipError>(())
                        &&& Self::only_kw_regs_pc(pre, post)
                        &&& post.pc == pre.pc
                        &&& ((post.key_wait == KeyWait::Idle && Self::eq_regs(pre, post)) || (
                        post.key_wait matches KeyWait::AwaitingRelease(k) && post.registers@
                            == regs.update(x as int, k)))
                    },
                },
                Instr::SetDelay(x) => {
                    &&& r == Ok::<(), ChipError>(())
                    &&& Self::only_timers_pc(pre, post)
                    &&& post.delay_timer == regs[x as int]
                    &&& post.sound_timer == pre.sound_timer
                    &&& post.pc == pre.pc + 2
                },
                Instr::SetSound(x) => {
                    &&& r == Ok::<(), ChipError>(())
                    &&& Self::only_timers_pc(pre, post)
                    &&& post.sound_timer == regs[x as int]
                    &&& post.delay_timer == pre.delay_timer
                    &&& post.pc == pre.pc + 2
                },
                Instr::AddI(x) => {
                    &&& r == Ok::<(), ChipError>(())
                    &&& Self::only_i_pc(pre, post)
                    &&& post.registers.i == (i + regs[x as int]) % 0x10000
                    &&& post.pc == pre.pc + 2
                },
                Instr::LoadFont(x) => {
                    &&& r == Ok::<(), ChipError>(())
                    &&& Self::only_i_pc(pre, post)
                    &&& post.registers.i == 0x50 + 5 * regs[x as int]
                    &&& post.pc == pre.pc + 2
                },
                Instr::Bcd(x) => if i as int + 2 >= 4096 {
                    r == Err::<(), ChipError>(ChipError::OutOfBoundsMemoryAccess)
                        && Self::unchanged_core(pre, post)
                } else {
                    &&& r == Ok::<(), ChipError>(())
                    &&& Self::only_mem_pc(pre, post)
                    &&& post.memory@ == bcd_mem(pre.memory@, i as int, regs[x as int])
                    &&& post.pc == pre.pc + 2
                },
                Instr::StoreRegs(x) => if i as int + x >= 4096 {
                    r == Err::<(), ChipError>(ChipError::OutOfBoundsMemoryAccess)
                        && Self::unchanged_core(pre, post)
                } else {
                    &&& r == Ok::<(), ChipError>(())
                    &&& Self::only_mem_i_pc(pre, post)
                    &&& post.memory@ == store_regs_mem(pre.memory@, regs, i as int, x as int)
                    &&& post.registers.i == i + x + 1
                    &&& post.registers@ == regs
                    &&& post.pc == pre.pc + 2
                },
                Instr::LoadRegs(x) => if i as int + x >= 4096 {
                    r == Err::<(), ChipError>(ChipError::OutOfBoundsMemoryAccess)
                        && Self::unchanged_core(pre, post)
                } else {
                    &&& r == Ok::<(), ChipError>(())
                    &&& Self::only_regs_i_pc(pre, post)
                    &&& post.registers@ == load_regs_regs(pre.memory@, regs, i as int, x as int)
                    &&& post.registers.i == i + x + 1
                    &&& post.pc == pre.pc + 2
                },
                Instr::Illegal => r == Err::<(), ChipError>(ChipError::IllegalInstruction(w))
                    && Self::unchanged_core(pre, post),
            }
        }
    }

    /// `post` is reachable from `pre` by exactly `n` instruction steps,
    /// each of which returned success.
    pub open spec fn steps_ok(pre: Self, post: Self, n: nat) -> bool
        decreases n,
    {
        if n == 0 {
            post == pre
        } else {
            exists|mid: Self|
                #[trigger] Self::step_post(pre, mid, Ok::<(), ChipError>(()))
                    && Self::steps_ok(mid, post, (n - 1) as nat)
        }
    }

    /// A successful batch extends by one more successful step at its end.
    proof fn lemma_steps_ok_snoc(a: Self, b: Self, c: Self, n: nat)
        requires
            Self::steps_ok(a, b, n),
            Self::step_post(b, c, Ok::<(), ChipError>(())),
        ensures
            Self::steps_ok(a, c, n + 1),
        decreases n,
    {
        if n == 0 {
            assert(Self::steps_ok(c, c, 0));
        } else {
            let mid = choose|mid: Self|
                #[trigger] Self::step_post(a, mid, Ok::<(), ChipError>(())) && Self::steps_ok(
                    mid,
                    b,
                    (n - 1) as nat,
                );
            Self::lemma_steps_ok_snoc(mid, b, c, (n - 1) as nat);
        }
    }

    /// The `n` sprite rows at base address `i`: the bytes `memory[i..i+n]`
    /// that the draw instruction hands to the display capability.
    pub fn sprite_rows(&self, i: u16, n: u8) -> (r: Vec<u8>)
        requires
            self.wf(),
            i as int + n <= 4096,
        ensures
            r@ == self.memory@.subrange(i as int, i as int + n),
    {
        let mut sprite: Vec<u8> = Vec::new();
        let mut k: usize = 0;
        while k < n as usize
            invariant
                self.wf(),
                i as int + n <= 4096,
                k <= n,
                sprite@ =~= self.memory@.subrange(i as int, i as int + k),
            decreases n as int - k,
        {
            sprite.push(self.memory[i as usize + k]);
            k += 1;
        }
        proof {
            assert(sprite@ =~= self.memory@.subrange(i as int, i as int + n as int));
        }
        sprite
    }

    /// Fetch, decode and execute the instruction at the program counter.
    /// The relation between the machine before and after, and every error,
    /// is given exactly by [`Self::step_post`].
    #[verifier::rlimit(100)]
    pub fn execute_inst(&mut self) -> (r: Result<(), ChipError>)
        requires
            old(self).wf(),
        ensures
            final(self).wf(),
            final(self).running == old(self).running,
            Self::step_post(*old(self), *final(self), r),
    {
        if self.pc as usize + 1 >= MEMSIZE {
            return Err(ChipError::OutOfBoundsMemoryAccess);
        }
        let hi = self.memory[self.pc as usize];
        let lo = self.memory[self.pc as usize + 1];
        let w: u16 = (hi as u16) * 256 + (lo as u16);
        proof {
            lemma_instr_fields(w);
        }
        match decode(w) {
            Instr::Sys => {
                self.pc = self.pc + 2;
                Ok(())
            },
            Instr::ClearScreen => {
                self.interface.clear_screen();
                self.pc = self.pc + 2;
                Ok(())
            },
            Instr::Ret => {
                if self.stackpointer == 0 {
                    return Err(ChipError::StackUnderflow);
                }
                self.stackpointer = self.stackpointer - 1;
                self.pc = self.stack[self.stackpointer as usize] + 2;
                Ok(())
            },
            Instr::Jump(nnn) => {
                self.pc = nnn;
                Ok(())
            },
            Instr::Call(nnn) => {
                if self.stackpointer >= 16 {
                    return Err(ChipError::StackOverflow);
                }
                self.stack[self.stackpointer as usize] = self.pc;
                self.stackpointer = self.stackpointer + 1;
                self.pc = nnn;
                Ok(())
            },
            Instr::SkipEqImm(x, kk) => {
                if self.registers.v[x as usize] == kk {
                    self.pc = self.pc + 2;
                }
                self.pc = self.pc + 2;
                Ok(())
            },
            Instr::SkipNeImm(x, kk) => {
                if self.registers.v[x as usize] != kk {
                    self.pc = self.pc + 2;
                }
                self.pc = self.pc + 2;
                Ok(())
            },
            Instr::SkipEqReg(x, y) => {
                if self.registers.v[x as usize] == self.registers.v[y as usize] {
                    self.pc = self.pc + 2;
                }
                self.pc = self.pc + 2;
                Ok(())
            },
            Instr::SkipNeReg(x, y) => {
                if self.registers.v[x as usize] != self.registers.v[y as usize] {
                    self.pc = self.pc + 2;
                }
                self.pc = self.pc + 2;
                Ok(())
            },
            Instr::LoadImm(x, kk) => {
                self.registers.v[x as usize] = kk;
                self.pc = self.pc + 2;
                Ok(())
            },
            Instr::AddImm(x, kk) => {
                let vx = self.registers.v[x as usize];
                let sum: u16 = vx as u16 + kk as u16;
                self.registers.v[x as usize] = (sum % 256) as u8;
                self.pc = self.pc + 2;
                Ok(())
            },
            Instr::Assign(x, y) => {
                self.registers.v[x as usize] = self.registers.v[y as usize];
                self.pc = self.pc + 2;
                Ok(())
            },
            Instr::Or(x, y) => {
                let v = self.registers.v[x as usize] | self.registers.v[y as usize];
                self.registers.v[x as usize] = v;
                self.registers.v[0xF] = 0;
                self.pc = self.pc + 2;
                Ok(())
            },
            Instr::And(x, y) => {
                let v = self.registers.v[x as usize] & self.registers.v[y as usize];
                self.registers.v[x as usize] = v;
                self.registers.v[0xF] = 0;
                self.pc = self.pc + 2;
                Ok(())
            },
            Instr::Xor(x, y) => {
                let v = self.registers.v[x as usize] ^ self.registers.v[y as usize];
                self.registers.v[x as usize] = v;
                self.registers.v[0xF] = 0;
                self.pc = self.pc + 2;
                Ok(())
            },
            Instr::Add(x, y) => {
                let vx = self.registers.v[x as usize];
                let vy = self.registers.v[y as usize];
                let sum: u16 = vx as u16 + vy as u16;
                self.registers.v[x as usize] = (sum % 256) as u8;
                self.registers.v[0xF] = if sum > 255 {
                    1
                } else {
                    0
                };
                self.pc = self.pc + 2;
                Ok(())
            },
            Instr::Sub(x, y) => {
                let vx = self.registers.v[x as usize];
                let vy = self.registers.v[y as usize];
                let diff: u8 = if vx >= vy {
                    vx - vy
                } else {
                    (vx as u16 + 256 - vy as u16) as u8
                };
                self.registers.v[x as usize] = diff;
                self.registers.v[0xF] = if vx >= vy {
                    1
                } else {
                    0
                };
                self.pc = self.pc + 2;
                Ok(())
            },
            Instr::Shr(x, y) => {
                let vy = self.registers.v[y as usize];
                self.registers.v[x as usize] = vy >> 1;
                self.registers.v[0xF] = vy & 1;
                self.pc = self.pc + 2;
                Ok(())
            },
            Instr::SubN(x, y) => {
                let vx = self.registers.v[x as usize];
                let vy = self.registers.v[y as usize];
                let diff: u8 = if vy >= vx {
                    vy - vx
                } else {
                    (vy as u16 + 256 - vx as u16) as u8
                };
                self.registers.v[x as usize] = diff;
                self.registers.v[0xF] = if vy >= vx {
                    1
                } else {
                    0
                };
                self.pc = self.pc + 2;
                Ok(())
            },
            Instr::Shl(x, y) => {
                let vy = self.registers.v[y as usize];
                let doubled: u16 = vy as u16 + vy as u16;
                self.registers.v[x as usize] = (doubled % 256) as u8;
                self.registers.v[0xF] = (vy >> 7) & 1;
                self.pc = self.pc + 2;
                Ok(())
            },
            Instr::LoadI(nnn) => {
                self.registers.i = nnn;
                self.pc = self.pc + 2;
                Ok(())
            },
            Instr::JumpV0(nnn) => {
                self.pc = nnn + self.registers.v[0] as u16;
                Ok(())
            },
            Instr::Rand(x, kk) => {
                let b = random_byte();
                self.registers.v[x as usize] = b & kk;
                proof {
                    assert(self.registers@ == old(self).registers@.update(x as int, b & kk));
                }
                self.pc = self.pc + 2;
                Ok(())
            },
            Instr::Draw(x, y, n) => {
                let i = self.registers.i;
                if i as usize + n as usize > MEMSIZE {
                    return Err(ChipError::OutOfBoundsMemoryAccess);
                }
                let sprite = self.sprite_rows(i, n);
                let vx = self.registers.v[x as usize];
                let vy = self.registers.v[y as usize];
                let col = self.interface.draw_sprite(vx, vy, sprite);
                self.registers.v[0xF] = if col {
                    1
                } else {
                    0
                };
                self.pc = self.pc + 2;
                Ok(())
            },
            Instr::SkipKey(x) => {
                let target = self.registers.v[x as usize];
                if self.interface.get_key(target) {
                    self.pc = self.pc + 2;
                }
                self.pc = self.pc + 2;
                Ok(())
            },
            Instr::SkipNoKey(x) => {
                let target = self.registers.v[x as usize];
                if !self.interface.get_key(target) {
                    self.pc = self.pc + 2;
                }
                self.pc = self.pc + 2;
                Ok(())
            },
            Instr::GetDelay(x) => {
                self.registers.v[x as usize] = self.delay_timer;
                self.pc = self.pc + 2;
                Ok(())
            },
            Instr::WaitKey(x) => {
                match self.key_wait {
                    KeyWait::AwaitingRelease(k) => {
                        if !self.interface.get_key(k) {
                            self.key_wait = KeyWait::Idle;
                            self.pc = self.pc + 2;
                        }
                    },
                    KeyWait::Idle => {
                        let ks = self.interface.get_keys_pressed();
                        if ks.len() > 0 {
                            let k0 = ks[0];
                            self.registers.v[x as usize] = k0;
                            self.key_wait = KeyWait::AwaitingRelease(k0);
                        }
                    },
                }
                Ok(())
            },
            Instr::SetDelay(x) => {
                self.delay_timer = self.registers.v[x as usize];
                self.pc = self.pc + 2;
                Ok(())
            },
            Instr::SetSound(x) => {
                self.sound_timer = self.registers.v[x as usize];
                self.pc = self.pc + 2;
                Ok(())
            },
            Instr::AddI(x) => {
                let vx = self.registers.v[x as usize];
                let wide: u32 = self.registers.i as u32 + vx as u32;
                self.registers.i = (wide % 0x10000) as u16;
                self.pc = self.pc + 2;
                Ok(())
            },
            Instr::LoadFont(x) => {
                let vx = self.registers.v[x as usize];
                self.registers.i = FONT_POS_START + 5 * vx as u16;
                self.pc = self.pc + 2;
                Ok(())
            },
            Instr::Bcd(x) => {
                let i = self.registers.i;
                if i as usize + 2 >= MEMSIZE {
                    return Err(ChipError::OutOfBoundsMemoryAccess);
                }
                let v = self.registers.v[x as usize];
                self.memory[i as usize] = v / 100;
                self.memory[i as usize + 1] = (v / 10) % 10;
                self.memory[i as usize + 2] = v % 10;
                self.pc = self.pc + 2;
                Ok(())
            },
            Instr::StoreRegs(x) => {
                let i = self.registers.i;
                if i as usize + x as usize >= MEMSIZE {
                    return Err(ChipError::OutOfBoundsMemoryAccess);
                }
                let mut k: u8 = 0;
                while k <= x
                    invariant
                        self.wf(),
                        x <= 0xF,
                        k <= x + 1,
                        i == self.registers.i,
                        i as int + x < 4096,
                        self.pc == old(self).pc,
                        self.running == old(self).running,
                        Self::only_mem_pc(*old(self), *self),
                        forall|a: int|
                            i <= a < i + k ==> self.memory@[a] == old(self).registers@[a - i],
                        forall|a: int|
                            0 <= a < 4096 && !(i <= a < i + k) ==> self.memory@[a] == old(
                                self,
                            ).memory@[a],
                    decreases x + 1 - k,
                {
                    self.memory[i as usize + k as usize] = self.registers.v[k as usize];
                    k += 1;
                }
                proof {
                    assert(self.memory@ =~= store_regs_mem(
                        old(self).memory@,
                        old(self).registers@,
                        i as int,
                        x as int,
                    ));
                }
                self.registers.i = i + x as u16 + 1;
                self.pc = self.pc + 2;
                Ok(())
            },
            Instr::LoadRegs(x) => {
                let i = self.registers.i;
                if i as usize + x as usize >= MEMSIZE {
                    return Err(ChipError::OutOfBoundsMemoryAccess);
                }
                let mut k: u8 = 0;
                while k <= x
                    invariant
                        self.wf(),
                        x <= 0xF,
                        k <= x + 1,
                        i == self.registers.i,
                        i as int + x < 4096,
                        self.pc == old(self).pc,
                        self.running == old(self).running,
                        Self::only_regs_i_pc(*old(self), *self),
                        self.registers.i == old(self).registers.i,
                        forall|j: int|
                            0 <= j < k ==> self.registers@[j] == old(self).memory@[i + j],
                        forall|j: int|
                            k <= j < 16 ==> self.registers@[j] == old(self).registers@[j],
                    decreases x + 1 - k,
                {
                    self.registers.v[k as usize] = self.memory[i as usize + k as usize];
                    k += 1;
                }
                proof {
                    assert(self.registers@ =~= load_regs_regs(
                        old(self).memory@,
                        old(self).registers@,
                        i as int,
                        x as int,
                    ));
                }
                self.registers.i = i + x as u16 + 1;
                self.pc = self.pc + 2;
                Ok(())
            },
            Instr::Illegal => Err(ChipError::IllegalInstruction(w)),
        }
    }

    /// One frame's compute step: execute the frame's batch of
    /// `INSTRUCTION_FREQUENCY / SCREEN_REFRESH_RATE` instructions, have the
    /// capability present the screen, then tick the timers down. On success
    /// the machine is exactly a full batch of successful steps followed by
    /// the floored timer decrement; the first instruction error aborts the
    /// frame after a shorter such batch and is handed back, the failing
    /// step related to the result by [`Self::step_post`].
    pub fn run_frame(&mut self) -> (r: Result<(), ChipError>)
        requires
            old(self).wf(),
        ensures
            final(self).wf(),
            final(self).running == old(self).running,
            r is Ok ==> exists|mid: Self|
                #[trigger] Self::steps_ok(
                    *old(self),
                    mid,
                    (INSTRUCTION_FREQUENCY / SCREEN_REFRESH_RATE) as nat,
                ) && Self::only_timers_pc(mid, *final(self)) && final(self).pc == mid.pc
                    && final(self).delay_timer == tick(mid.delay_timer)
                    && final(self).sound_timer == tick(mid.sound_timer),
            r is Err ==> exists|mid: Self, j: nat|
                j < (INSTRUCTION_FREQUENCY / SCREEN_REFRESH_RATE) as nat && #[trigger] Self::steps_ok(
                    *old(self),
                    mid,
                    j,
                ) && Self::step_post(mid, *final(self), r),
    {
        let mut k: u32 = 0;
        while k < INSTRUCTION_FREQUENCY / SCREEN_REFRESH_RATE
            invariant
                self.wf(),
                self.running == old(self).running,
                k <= INSTRUCTION_FREQUENCY / SCREEN_REFRESH_RATE,
                Self::steps_ok(*old(self), *self, k as nat),
            decreases INSTRUCTION_FREQUENCY / SCREEN_REFRESH_RATE - k,
        {
            let ghost pre = *self;
            let r = self.execute_inst();
            if r.is_err() {
                return r;
            }
            proof {
                assert(r == Ok::<(), ChipError>(()));
                Self::lemma_steps_ok_snoc(*old(self), pre, *self, k as nat);
            }
            k += 1;
        }
        let ghost mid = *self;
        self.interface.update_screen();
        self.tick_timers();
        Ok(())
    }

    /// Prepare the display/input capability's surface.
    pub fn init_interface(&self) {
        self.interface.init();
    }

    /// Restore the display/input capability's surface.
    pub fn stop_interface(&self) {
        self.interface.stop();
    }
}

/// Law: writing value `v` to register `r` and then reading register `r`
/// yields `v` again, for every register index and value. Stated over the
/// register-file model that `set_reg_v` and `get_reg_v` are proved against.
pub proof fn lemma_set_then_get(regs: Seq<u8>, r: int, v: u8)
    requires
        regs.len() == 16,
        0 <= r < 16,
    ensures
        regs.update(r, v)[r] == v,
{
}

/// Law: the add-immediate instruction wraps silently and leaves the flag
/// register untouched whenever it is not itself the destination.
pub proof fn lemma_add_imm_no_flag(regs: Seq<u8>, x: int, kk: u8)
    requires
        regs.len() == 16,
        0 <= x < 16,
        x != 15,
    ensures
        regs.update(x, wrap_add8(regs[x], kk))[15] == regs[15],
        regs.update(x, wrap_add8(regs[x], kk))[x] as int == (regs[x] + kk) % 256,
{
}

/// Law: register add stores the sum mod 256 and sets the flag register to
/// 1 exactly when the unsigned sum of the operands exceeds 255, else to 0.
pub proof fn lemma_add_carry(regs: Seq<u8>, x: int, y: int)
    requires
        regs.len() == 16,
        0 <= x < 16,
        0 <= y < 16,
    ensures
        alu_add(regs, x, y)[15] == 1u8 <==> regs[x] + regs[y] > 255,
        alu_add(regs, x, y)[15] == 1u8 || alu_add(regs, x, y)[15] == 0u8,
        x != 15 ==> alu_add(regs, x, y)[x] as int == (regs[x] + regs[y]) % 256,
{
}

/// Law: register subtract sets the flag to 1 exactly when x's register is
/// at least y's (no borrow), else to 0; the reversed subtract mirrors this
/// with its operands exchanged.
pub proof fn lemma_sub_borrow(regs: Seq<u8>, x: int, y: int)
    requires
        regs.len() == 16,
        0 <= x < 16,
        0 <= y < 16,
    ensures
        alu_sub(regs, x, y)[15] == 1u8 <==> regs[x] >= regs[y],
        alu_sub(regs, x, y)[15] == 1u8 || alu_sub(regs, x, y)[15] == 0u8,
        alu_subn(regs, x, y)[15] == 1u8 <==> regs[y] >= regs[x],
        alu_subn(regs, x, y)[15] == 1u8 || alu_subn(regs, x, y)[15] == 0u8,
{
}

/// Law: the right shift stores the evicted low bit of the source register
/// in the flag, the left shift the evicted high bit.
pub proof fn lemma_shift_evicted_bit(regs: Seq<u8>, x: int, y: int)
    requires
        regs.len() == 16,
        0 <= x < 16,
        0 <= y < 16,
    ensures
        alu_shr(regs, x, y)[15] == regs[y] % 2,
        alu_shl(regs, x, y)[15] == regs[y] / 128,
        x != 15 ==> alu_shr(regs, x, y)[x] == regs[y] / 2,
{
    let vy = regs[y];
    assert(vy & 1 == vy % 2) by (bit_vector);
    assert((vy >> 7) & 1 == vy / 128) by (bit_vector);
    assert(vy >> 1 == vy / 2) by (bit_vector);
}

/// Law: the decimal digits stored by the BCD instruction are the hundreds,
/// tens and units of the register value, each below 10 but the hundreds,
/// and they reassemble to the value.
pub proof fn lemma_bcd_digits(mem: Seq<u8>, i: int, v: u8)
    requires
        mem.len() == 4096,
        0 <= i,
        i + 2 < 4096,
    ensures
        bcd_mem(mem, i, v)[i] == v / 100,
        bcd_mem(mem, i, v)[i + 1] == (v / 10) % 10,
        bcd_mem(mem, i, v)[i + 2] == v % 10,
        (bcd_mem(mem, i, v)[i] * 100 + bcd_mem(mem, i, v)[i + 1] * 10 + bcd_mem(mem, i, v)[i
            + 2]) == v,
{
    assert(v / 100 * 100 + (v / 10) % 10 * 10 + v % 10 == v) by (nonlinear_arith);
}

/// Law: storing registers 0..=x at a base address and loading them back
/// from the same base restores the register file exactly; both operations
/// advance the address register by x + 1 (stated in [`Chip::step_post`]).
pub proof fn lemma_store_load_roundtrip(mem: Seq<u8>, regs: Seq<u8>, i: int, x: int)
    requires
        mem.len() == 4096,
        regs.len() == 16,
        0 <= x < 16,
        0 <= i,
        i + x < 4096,
    ensures
        load_regs_regs(store_regs_mem(mem, regs, i, x), regs, i, x) =~= regs,
{
}

} // verus!
