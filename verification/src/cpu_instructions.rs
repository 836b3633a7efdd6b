//! Decoded operand types and the instruction executors.
//!
//! Each instruction has a spec transition function over [`MachineView`] and
//! an executable twin whose contract says the machine lands exactly on that
//! transition. PC advances by 2 after every instruction except the jumps,
//! calls and returns, which write it directly; every PC and I transition
//! masks to 12 bits.

use vstd::prelude::*;
use crate::cpu::{CPUState, CpuError, MachineView, mask12};
use crate::cpu_decoder::Instruction;
use crate::screen::{ScreenDraw, blank_grid, grid_wf};

verus! {

/// First register operand of an opcode: `(op >> 8) & 0xF`.
#[derive(Clone, Copy, PartialEq, Eq, Structural, Debug)]
pub struct X(pub usize);

/// Second register operand of an opcode: `(op >> 4) & 0xF`.
#[derive(Clone, Copy, PartialEq, Eq, Structural, Debug)]
pub struct Y(pub usize);

/// 8-bit literal operand: `op & 0xFF`.
#[derive(Clone, Copy, PartialEq, Eq, Structural, Debug)]
pub struct KK(pub u8);

/// 12-bit address operand: `op & 0xFFF`.
#[derive(Clone, Copy, PartialEq, Eq, Structural, Debug)]
pub struct NNN(pub u16);

/// 4-bit literal operand: `op & 0xF`.
#[derive(Clone, Copy, PartialEq, Eq, Structural, Debug)]
pub struct N(pub u16);

/// `0nnn - SYS addr`: ignored by modern interpreters; PC just advances.
pub open spec fn spec_sys(m: MachineView) -> MachineView {
    MachineView { pc: mask12(m.pc + 2), ..m }
}

pub fn sys(state: &mut CPUState)
    requires
        old(state).wf(),
    ensures
        final(state).wf(),
        final(state)@ == spec_sys(old(state)@),
{
    state.inc_pc_2();
}

/// `00E0 - CLS`: clear the display and request a repaint.
pub open spec fn spec_cls(m: MachineView) -> MachineView {
    MachineView { repaint: true, pc: mask12(m.pc + 2), ..m }
}

pub fn cls<S: ScreenDraw>(state: &mut CPUState, screen_draw: &mut S)
    requires
        old(state).wf(),
        old(screen_draw).wf(),
    ensures
        final(state).wf(),
        final(screen_draw).wf(),
        final(state)@ == spec_cls(old(state)@),
        final(screen_draw).grid() == blank_grid(),
        final(screen_draw).presented() == old(screen_draw).presented(),
{
    screen_draw.clear();
    state.repaint = true;
    state.inc_pc_2();
}

/// `8xy0 - LD Vx, Vy`: Vx <- Vy.
pub open spec fn spec_ld_vx_vy(m: MachineView, x: X, y: Y) -> MachineView {
    MachineView { v: m.v.update(x.0 as int, m.v[y.0 as int]), pc: mask12(m.pc + 2), ..m }
}

pub fn ld_vx_vy(state: &mut CPUState, x: X, y: Y)
    requires
        old(state).wf(),
        x.0 < 16,
        y.0 < 16,
    ensures
        final(state).wf(),
        final(state)@ == spec_ld_vx_vy(old(state)@, x, y),
{
    let val = state.v[y.0];
    state.v.set(x.0, val);
    state.inc_pc_2();
}

/// `6xkk - LD Vx, kk`: Vx <- kk.
pub open spec fn spec_ld_vx_kk(m: MachineView, x: X, kk: KK) -> MachineView {
    MachineView { v: m.v.update(x.0 as int, kk.0), pc: mask12(m.pc + 2), ..m }
}

pub fn ld_vx_kk(state: &mut CPUState, x: X, kk: KK)
    requires
        old(state).wf(),
        x.0 < 16,
    ensures
        final(state).wf(),
        final(state)@ == spec_ld_vx_kk(old(state)@, x, kk),
{
    state.v.set(x.0, kk.0);
    state.inc_pc_2();
}

/// `8xy1 - OR Vx, Vy`: Vx <- Vx | Vy.
pub open spec fn spec_or_vx_vy(m: MachineView, x: X, y: Y) -> MachineView {
    MachineView {
        v: m.v.update(x.0 as int, m.v[x.0 as int] | m.v[y.0 as int]),
        pc: mask12(m.pc + 2),
        ..m
    }
}

pub fn or_vx_vy(state: &mut CPUState, x: X, y: Y)
    requires
        old(state).wf(),
        x.0 < 16,
        y.0 < 16,
    ensures
        final(state).wf(),
        final(state)@ == spec_or_vx_vy(old(state)@, x, y),
{
    let val = state.v[x.0] | state.v[y.0];
    state.v.set(x.0, val);
    state.inc_pc_2();
}

/// `8xy2 - AND Vx, Vy`: Vx <- Vx & Vy.
pub open spec fn spec_and_vx_vy(m: MachineView, x: X, y: Y) -> MachineView {
    MachineView {
        v: m.v.update(x.0 as int, m.v[x.0 as int] & m.v[y.0 as int]),
        pc: mask12(m.pc + 2),
        ..m
    }
}

pub fn and_vx_vy(state: &mut CPUState, x: X, y: Y)
    requires
        old(state).wf(),
        x.0 < 16,
        y.0 < 16,
    ensures
        final(state).wf(),
        final(state)@ == spec_and_vx_vy(old(state)@, x, y),
{
    let val = state.v[x.0] & state.v[y.0];
    state.v.set(x.0, val);
    state.inc_pc_2();
}

/// `8xy3 - XOR Vx, Vy`: Vx <- Vx ^ Vy.
pub open spec fn spec_xor_vx_vy(m: MachineView, x: X, y: Y) -> MachineView {
    MachineView {
        v: m.v.update(x.0 as int, m.v[x.0 as int] ^ m.v[y.0 as int]),
        pc: mask12(m.pc + 2),
        ..m
    }
}

pub fn xor_vx_vy(state: &mut CPUState, x: X, y: Y)
    requires
        old(state).wf(),
        x.0 < 16,
        y.0 < 16,
    ensures
        final(state).wf(),
        final(state)@ == spec_xor_vx_vy(old(state)@, x, y),
{
    let val = state.v[x.0] ^ state.v[y.0];
    state.v.set(x.0, val);
    state.inc_pc_2();
}

/// `8xy4 - ADD Vx, Vy`: Vx <- (Vx + Vy) mod 256; VF is 1 exactly when the
/// unsigned sum overflows 8 bits.
pub open spec fn spec_add_vx_vy(m: MachineView, x: X, y: Y) -> MachineView {
    let sum = m.v[x.0 as int] + m.v[y.0 as int];
    let carry: u8 = if sum > 255 {
        1
    } else {
        0
    };
    MachineView {
        v: m.v.update(15, carry).update(x.0 as int, (sum % 256) as u8),
        pc: mask12(m.pc + 2),
        ..m
    }
}

pub fn add_vx_vy(state: &mut CPUState, x: X, y: Y)
    requires
        old(state).wf(),
        x.0 < 16,
        y.0 < 16,
    ensures
        final(state).wf(),
        final(state)@ == spec_add_vx_vy(old(state)@, x, y),
{
    let sum: u16 = state.v[x.0] as u16 + state.v[y.0] as u16;
    let carry: u8 = if sum > 255 {
        1
    } else {
        0
    };
    state.v.set(15, carry);
    state.v.set(x.0, (sum % 256) as u8);
    state.inc_pc_2();
}

/// `8xy5 - SUB Vx, Vy`: Vx <- (Vx - Vy) mod 256; VF is 1 exactly when
/// Vx >= Vy (NOT borrow).
pub open spec fn spec_sub_vx_vy(m: MachineView, x: X, y: Y) -> MachineView {
    let vx = m.v[x.0 as int];
    let vy = m.v[y.0 as int];
    let not_borrow: u8 = if vx >= vy {
        1
    } else {
        0
    };
    MachineView {
        v: m.v.update(15, not_borrow).update(x.0 as int, ((vx - vy) % 256) as u8),
        pc: mask12(m.pc + 2),
        ..m
    }
}

pub fn sub_vx_vy(state: &mut CPUState, x: X, y: Y)
    requires
        old(state).wf(),
        x.0 < 16,
        y.0 < 16,
    ensures
        final(state).wf(),
        final(state)@ == spec_sub_vx_vy(old(state)@, x, y),
{
    let vx = state.v[x.0];
    let vy = state.v[y.0];
    let not_borrow: u8 = if vx >= vy {
        1
    } else {
        0
    };
    let diff: u8 = if vx >= vy {
        vx - vy
    } else {
        (256 + vx as u16 - vy as u16) as u8
    };
    state.v.set(15, not_borrow);
    state.v.set(x.0, diff);
    state.inc_pc_2();
}

/// `8xy7 - SUBN Vx, Vy`: Vx <- (Vy - Vx) mod 256; VF is 1 exactly when
/// Vy >= Vx (NOT borrow).
pub open spec fn spec_subn_vx_vy(m: MachineView, x: X, y: Y) -> MachineView {
    let vx = m.v[x.0 as int];
    let vy = m.v[y.0 as int];
    let not_borrow: u8 = if vy >= vx {
        1
    } else {
        0
    };
    MachineView {
        v: m.v.update(15, not_borrow).update(x.0 as int, ((vy - vx) % 256) as u8),
        pc: mask12(m.pc + 2),
        ..m
    }
}

pub fn subn_vx_vy(state: &mut CPUState, x: X, y: Y)
    requires
        old(state).wf(),
        x.0 < 16,
        y.0 < 16,
    ensures
        final(state).wf(),
        final(state)@ == spec_subn_vx_vy(old(state)@, x, y),
{
    let vx = state.v[x.0];
    let vy = state.v[y.0];
    let not_borrow: u8 = if vy >= vx {
        1
    } else {
        0
    };
    let diff: u8 = if vy >= vx {
        vy - vx
    } else {
        (256 + vy as u16 - vx as u16) as u8
    };
    state.v.set(15, not_borrow);
    state.v.set(x.0, diff);
    state.inc_pc_2();
}

/// `8xy6 - SHR Vx, Vy`: the source is Vy, or Vx under the shift quirk;
/// Vx <- source >> 1 and VF <- the shifted-out low bit, both read from the
/// state before the instruction.
pub open spec fn spec_shr_vx_vy(m: MachineView, x: X, y: Y) -> MachineView {
    let src = if m.quirks.shift {
        m.v[x.0 as int]
    } else {
        m.v[y.0 as int]
    };
    MachineView {
        v: m.v.update(15, (src % 2) as u8).update(x.0 as int, (src / 2) as u8),
        pc: mask12(m.pc + 2),
        ..m
    }
}

pub fn shr_vx_vy(state: &mut CPUState, x: X, y: Y)
    requires
        old(state).wf(),
        x.0 < 16,
        y.0 < 16,
    ensures
        final(state).wf(),
        final(state)@ == spec_shr_vx_vy(old(state)@, x, y),
{
    let src = if state.quirks.shift {
        state.v[x.0]
    } else {
        state.v[y.0]
    };
    state.v.set(15, src % 2);
    state.v.set(x.0, src / 2);
    state.inc_pc_2();
}

/// `8xyE - SHL Vx, Vy`: the source is Vy, or Vx under the shift quirk;
/// Vx <- (source << 1) mod 256 and VF <- the shifted-out high bit, both
/// read from the state before the instruction.
pub open spec fn spec_shl_vx_vy(m: MachineView, x: X, y: Y) -> MachineView {
    let src = if m.quirks.shift {
        m.v[x.0 as int]
    } else {
        m.v[y.0 as int]
    };
    MachineView {
        v: m.v.update(15, (src / 128) as u8).update(x.0 as int, ((src * 2) % 256) as u8),
        pc: mask12(m.pc + 2),
        ..m
    }
}

pub fn shl_vx_vy(state: &mut CPUState, x: X, y: Y)
    requires
        old(state).wf(),
        x.0 < 16,
        y.0 < 16,
    ensures
        final(state).wf(),
        final(state)@ == spec_shl_vx_vy(old(state)@, x, y),
{
    let src = state.v[if state.quirks.shift {
        x.0
    } else {
        y.0
    }];
    state.v.set(15, src / 128);
    state.v.set(x.0, ((src as u16 * 2) % 256) as u8);
    state.inc_pc_2();
}

/// `7xkk - ADD Vx, kk`: 8-bit wrapping add; no flag is touched.
pub open spec fn spec_add_vx_kk(m: MachineView, x: X, kk: KK) -> MachineView {
    MachineView {
        v: m.v.update(x.0 as int, ((m.v[x.0 as int] + kk.0) % 256) as u8),
        pc: mask12(m.pc + 2),
        ..m
    }
}

pub fn add_vx_kk(state: &mut CPUState, x: X, kk: KK)
    requires
        old(state).wf(),
        x.0 < 16,
    ensures
        final(state).wf(),
        final(state)@ == spec_add_vx_kk(old(state)@, x, kk),
{
    let sum: u16 = state.v[x.0] as u16 + kk.0 as u16;
    state.v.set(x.0, (sum % 256) as u8);
    state.inc_pc_2();
}

/// The skip distance: 4 to skip the next opcode, else 2.
pub open spec fn skip_pc(m: MachineView, cond: bool) -> u16 {
    if cond {
        mask12(m.pc + 4)
    } else {
        mask12(m.pc + 2)
    }
}

/// `9xy0 - SNE Vx, Vy`: skip the next opcode when Vx != Vy.
pub open spec fn spec_sne_vx_vy(m: MachineView, x: X, y: Y) -> MachineView {
    MachineView { pc: skip_pc(m, m.v[x.0 as int] != m.v[y.0 as int]), ..m }
}

pub fn sne_vx_vy(state: &mut CPUState, x: X, y: Y)
    requires
        old(state).wf(),
        x.0 < 16,
        y.0 < 16,
    ensures
        final(state).wf(),
        final(state)@ == spec_sne_vx_vy(old(state)@, x, y),
{
    let off: u16 = if state.v[x.0] != state.v[y.0] {
        4
    } else {
        2
    };
    state.pc = (state.pc + off) % 4096;
}

/// `4xkk - SNE Vx, kk`: skip the next opcode when Vx != kk.
pub open spec fn spec_sne_vx_kk(m: MachineView, x: X, kk: KK) -> MachineView {
    MachineView { pc: skip_pc(m, m.v[x.0 as int] != kk.0), ..m }
}

pub fn sne_vx_kk(state: &mut CPUState, x: X, kk: KK)
    requires
        old(state).wf(),
        x.0 < 16,
    ensures
        final(state).wf(),
        final(state)@ == spec_sne_vx_kk(old(state)@, x, kk),
{
    let off: u16 = if state.v[x.0] != kk.0 {
        4
    } else {
        2
    };
    state.pc = (state.pc + off) % 4096;
}

/// `3xkk - SE Vx, kk`: skip the next opcode when Vx == kk.
pub open spec fn spec_se_vx_kk(m: MachineView, x: X, kk: KK) -> MachineView {
    MachineView { pc: skip_pc(m, m.v[x.0 as int] == kk.0), ..m }
}

pub fn se_vx_kk(state: &mut CPUState, x: X, kk: KK)
    requires
        old(state).wf(),
        x.0 < 16,
    ensures
        final(state).wf(),
        final(state)@ == spec_se_vx_kk(old(state)@, x, kk),
{
    let off: u16 = if state.v[x.0] == kk.0 {
        4
    } else {
        2
    };
    state.pc = (state.pc + off) % 4096;
}

/// `5xy0 - SE Vx, Vy`: skip the next opcode when Vx == Vy.
pub open spec fn spec_se_vx_vy(m: MachineView, x: X, y: Y) -> MachineView {
    MachineView { pc: skip_pc(m, m.v[x.0 as int] == m.v[y.0 as int]), ..m }
}

pub fn se_vx_vy(state: &mut CPUState, x: X, y: Y)
    requires
        old(state).wf(),
        x.0 < 16,
        y.0 < 16,
    ensures
        final(state).wf(),
        final(state)@ == spec_se_vx_vy(old(state)@, x, y),
{
    let off: u16 = if state.v[x.0] == state.v[y.0] {
        4
    } else {
        2
    };
    state.pc = (state.pc + off) % 4096;
}

/// `1nnn - JP nnn`: jump to nnn.
pub open spec fn spec_jp_nnn(m: MachineView, nnn: NNN) -> MachineView {
    MachineView { pc: nnn.0, ..m }
}

pub fn jp_nnn(state: &mut CPUState, nnn: NNN)
    requires
        old(state).wf(),
        nnn.0 < 4096,
    ensures
        final(state).wf(),
        final(state)@ == spec_jp_nnn(old(state)@, nnn),
{
    state.pc = nnn.0;
}

/// `00EE - RET`: pop the return address and resume after the call.
pub open spec fn spec_ret(m: MachineView) -> MachineView {
    MachineView {
        pc: mask12(m.stack[m.sp - 1] + 2),
        sp: (m.sp - 1) as u8,
        ..m
    }
}

/// Returning with an empty stack has no defined return address; it is
/// surfaced as a fatal error and the machine is left untouched.
pub fn ret(state: &mut CPUState) -> (r: Result<(), CpuError>)
    requires
        old(state).wf(),
    ensures
        final(state).wf(),
        old(state)@.sp == 0 ==> r == Result::<(), CpuError>::Err(CpuError::StackUnderflow)
            && final(state)@ == old(state)@,
        old(state)@.sp > 0 ==> r == Result::<(), CpuError>::Ok(())
            && final(state)@ == spec_ret(old(state)@),
{
    if state.sp == 0 {
        return Err(CpuError::StackUnderflow);
    }
    state.pc = (state.stack[(state.sp - 1) as usize] + 2) % 4096;
    state.sp = state.sp - 1;
    Ok(())
}

/// `2nnn - CALL nnn`: push PC, advance SP modulo 16, jump to nnn.
pub open spec fn spec_call_nnn(m: MachineView, nnn: NNN) -> MachineView {
    MachineView {
        stack: m.stack.update(m.sp as int, m.pc),
        sp: ((m.sp + 1) % 16) as u8,
        pc: nnn.0,
        ..m
    }
}

pub fn call_nnn(state: &mut CPUState, nnn: NNN)
    requires
        old(state).wf(),
        nnn.0 < 4096,
    ensures
        final(state).wf(),
        final(state)@ == spec_call_nnn(old(state)@, nnn),
{
    let pc = state.pc;
    state.stack.set(state.sp as usize, pc);
    state.sp = (state.sp + 1) % 16;
    state.pc = nnn.0;
}

/// `Annn - LD I, nnn`: I <- nnn.
pub open spec fn spec_ld_i_nnn(m: MachineView, nnn: NNN) -> MachineView {
    MachineView { i: nnn.0, pc: mask12(m.pc + 2), ..m }
}

pub fn ld_i_nnn(state: &mut CPUState, nnn: NNN)
    requires
        old(state).wf(),
        nnn.0 < 4096,
    ensures
        final(state).wf(),
        final(state)@ == spec_ld_i_nnn(old(state)@, nnn),
{
    state.i = nnn.0;
    state.inc_pc_2();
}

/// `Bnnn - JP V0, nnn`: jump to nnn + V0, wrapping at 12 bits.
pub open spec fn spec_jp_v0_nnn(m: MachineView, nnn: NNN) -> MachineView {
    MachineView { pc: mask12(nnn.0 + m.v[0]), ..m }
}

pub fn jp_v0_nnn(state: &mut CPUState, nnn: NNN)
    requires
        old(state).wf(),
        nnn.0 < 4096,
    ensures
        final(state).wf(),
        final(state)@ == spec_jp_v0_nnn(old(state)@, nnn),
{
    state.pc = (nnn.0 + state.v[0] as u16) % 4096;
}

/// `Cxkk - RND Vx, kk`: Vx <- (uniform byte) & kk; the seed rolls forward.
pub open spec fn spec_rnd_vx_kk(m: MachineView, x: X, kk: KK) -> MachineView {
    MachineView {
        v: m.v.update(x.0 as int, crate::cpu::chacha_sample(m.rng_seed) & kk.0),
        rng_seed: crate::cpu::chacha_next_seed(m.rng_seed),
        pc: mask12(m.pc + 2),
        ..m
    }
}

pub fn rnd_vx_kk(state: &mut CPUState, x: X, kk: KK)
    requires
        old(state).wf(),
        x.0 < 16,
    ensures
        final(state).wf(),
        final(state)@ == spec_rnd_vx_kk(old(state)@, x, kk),
{
    let r: u8 = state.run_rng();
    state.v.set(x.0, r & kk.0);
    state.inc_pc_2();
}

/// `Fx33 - LD B, Vx`: store the decimal digits of Vx at I (hundreds),
/// I+1 (tens) and I+2 (ones), the addresses wrapping at 12 bits.
pub open spec fn spec_ld_b_vx(m: MachineView, x: X) -> MachineView {
    let vx = m.v[x.0 as int];
    MachineView {
        mem: m.mem
            .update(m.i as int, (vx / 100) as u8)
            .update(mask12(m.i + 1) as int, ((vx % 100) / 10) as u8)
            .update(mask12(m.i + 2) as int, (vx % 10) as u8),
        pc: mask12(m.pc + 2),
        ..m
    }
}

pub fn ld_b_vx(state: &mut CPUState, x: X)
    requires
        old(state).wf(),
        x.0 < 16,
    ensures
        final(state).wf(),
        final(state)@ == spec_ld_b_vx(old(state)@, x),
{
    let vx = state.v[x.0];
    let i = state.i as usize;
    state.mem.set(i, vx / 100);
    state.mem.set((i + 1) % 4096, vx % 100 / 10);
    state.mem.set((i + 2) % 4096, vx % 10);
    state.inc_pc_2();
}

/// `Fx07 - LD Vx, DT`: Vx <- delay timer.
pub open spec fn spec_ld_vx_dt(m: MachineView, x: X) -> MachineView {
    MachineView { v: m.v.update(x.0 as int, m.dt), pc: mask12(m.pc + 2), ..m }
}

pub fn ld_vx_dt(state: &mut CPUState, x: X)
    requires
        old(state).wf(),
        x.0 < 16,
    ensures
        final(state).wf(),
        final(state)@ == spec_ld_vx_dt(old(state)@, x),
{
    let dt = state.dt;
    state.v.set(x.0, dt);
    state.inc_pc_2();
}

/// `Fx15 - LD DT, Vx`: delay timer <- Vx.
pub open spec fn spec_ld_dt_vx(m: MachineView, x: X) -> MachineView {
    MachineView { dt: m.v[x.0 as int], pc: mask12(m.pc + 2), ..m }
}

pub fn ld_dt_vx(state: &mut CPUState, x: X)
    requires
        old(state).wf(),
        x.0 < 16,
    ensures
        final(state).wf(),
        final(state)@ == spec_ld_dt_vx(old(state)@, x),
{
    state.dt = state.v[x.0];
    state.inc_pc_2();
}

/// `Fx18 - LD ST, Vx`: sound timer <- Vx.
pub open spec fn spec_ld_st_vx(m: MachineView, x: X) -> MachineView {
    MachineView { st: m.v[x.0 as int], pc: mask12(m.pc + 2), ..m }
}

pub fn ld_st_vx(state: &mut CPUState, x: X)
    requires
        old(state).wf(),
        x.0 < 16,
    ensures
        final(state).wf(),
        final(state)@ == spec_ld_st_vx(old(state)@, x),
{
    state.st = state.v[x.0];
    state.inc_pc_2();
}

/// `Fx1E - ADD I, Vx`: I <- (I + Vx) mod 4096; no flag is touched.
pub open spec fn spec_add_i_vx(m: MachineView, x: X) -> MachineView {
    MachineView { i: mask12(m.i + m.v[x.0 as int]), pc: mask12(m.pc + 2), ..m }
}

pub fn add_i_vx(state: &mut CPUState, x: X)
    requires
        old(state).wf(),
        x.0 < 16,
    ensures
        final(state).wf(),
        final(state)@ == spec_add_i_vx(old(state)@, x),
{
    state.i = (state.i + state.v[x.0] as u16) % 4096;
    state.inc_pc_2();
}

/// Memory after storing V0..=V(count-1) at I, I+1, ..., each address
/// wrapping at 12 bits; register k is written after register k-1.
pub open spec fn store_regs(mem: Seq<u8>, i: u16, v: Seq<u8>, count: nat) -> Seq<u8>
    decreases count,
{
    if count == 0 {
        mem
    } else {
        store_regs(mem, i, v, (count - 1) as nat)
            .update(mask12(i + count - 1) as int, v[count - 1])
    }
}

/// Registers after loading V0..=V(count-1) from memory at I, I+1, ...,
/// each address wrapping at 12 bits.
pub open spec fn load_regs(v: Seq<u8>, mem: Seq<u8>, i: u16, count: nat) -> Seq<u8>
    decreases count,
{
    if count == 0 {
        v
    } else {
        load_regs(v, mem, i, (count - 1) as nat)
            .update(count - 1, mem[mask12(i + count - 1) as int])
    }
}

/// I after a register load/store: post-incremented by x+1, or left alone
/// under the load/store quirk.
pub open spec fn load_store_i(m: MachineView, x: X) -> u16 {
    if m.quirks.load_store {
        m.i
    } else {
        mask12(m.i + x.0 + 1)
    }
}

/// `Fx55 - LD [I], Vx`: copy V0..=Vx into memory starting at I.
pub open spec fn spec_ld_i_vx(m: MachineView, x: X) -> MachineView {
    MachineView {
        mem: store_regs(m.mem, m.i, m.v, (x.0 + 1) as nat),
        i: load_store_i(m, x),
        pc: mask12(m.pc + 2),
        ..m
    }
}

pub fn ld_i_vx(state: &mut CPUState, x: X)
    requires
        old(state).wf(),
        x.0 < 16,
    ensures
        final(state).wf(),
        final(state)@ == spec_ld_i_vx(old(state)@, x),
{
    let mut k: usize = 0;
    while k <= x.0
        invariant
            old(state).wf(),
            x.0 < 16,
            k <= x.0 + 1,
            state.mem@.len() == 4096,
            state.v@ == old(state)@.v,
            state.i == old(state)@.i,
            state.pc == old(state)@.pc,
            state.stack@ == old(state)@.stack,
            state.sp == old(state)@.sp,
            state.repaint == old(state)@.repaint,
            state.halted == old(state)@.halted,
            state.dt == old(state)@.dt,
            state.st == old(state)@.st,
            state.quirks == old(state)@.quirks,
            state.rng_seed == old(state)@.rng_seed,
            state.keyboard@ == old(state)@.keys,
            state.waiting_key == old(state)@.waiting_key,
            state.mem@ == store_regs(old(state)@.mem, old(state)@.i, old(state)@.v, k as nat),
        decreases x.0 + 1 - k,
    {
        let addr = (state.i as usize + k) % 4096;
        let val = state.v[k];
        state.mem.set(addr, val);
        k = k + 1;
    }
    if !state.quirks.load_store {
        state.i = (state.i + x.0 as u16 + 1) % 4096;
    }
    state.inc_pc_2();
    proof {
        assert(state@ =~= spec_ld_i_vx(old(state)@, x));
    }
}

/// `Fx65 - LD Vx, [I]`: read V0..=Vx from memory starting at I.
pub open spec fn spec_ld_vx_i(m: MachineView, x: X) -> MachineView {
    MachineView {
        v: load_regs(m.v, m.mem, m.i, (x.0 + 1) as nat),
        i: load_store_i(m, x),
        pc: mask12(m.pc + 2),
        ..m
    }
}

pub fn ld_vx_i(state: &mut CPUState, x: X)
    requires
        old(state).wf(),
        x.0 < 16,
    ensures
        final(state).wf(),
        final(state)@ == spec_ld_vx_i(old(state)@, x),
{
    let mut k: usize = 0;
    while k <= x.0
        invariant
            old(state).wf(),
            x.0 < 16,
            k <= x.0 + 1,
            state.v@.len() == 16,
            state.mem@ == old(state)@.mem,
            state.i == old(state)@.i,
            state.pc == old(state)@.pc,
            state.stack@ == old(state)@.stack,
            state.sp == old(state)@.sp,
            state.repaint == old(state)@.repaint,
            state.halted == old(state)@.halted,
            state.dt == old(state)@.dt,
            state.st == old(state)@.st,
            state.quirks == old(state)@.quirks,
            state.rng_seed == old(state)@.rng_seed,
            state.keyboard@ == old(state)@.keys,
            state.waiting_key == old(state)@.waiting_key,
            state.v@ == load_regs(old(state)@.v, old(state)@.mem, old(state)@.i, k as nat),
        decreases x.0 + 1 - k,
    {
        let addr = (state.i as usize + k) % 4096;
        let val = state.mem[addr];
        state.v.set(k, val);
        k = k + 1;
    }
    if !state.quirks.load_store {
        state.i = (state.i + x.0 as u16 + 1) % 4096;
    }
    state.inc_pc_2();
    proof {
        assert(state@ =~= spec_ld_vx_i(old(state)@, x));
    }
}

/// `Fx0A - LD Vx, K`: halt and wait; the next key-down event stores the
/// key in Vx, advances PC and wakes the machine (see
/// [`crate::cpu::spec_key_down`]). The instruction itself does not
/// advance PC.
pub open spec fn spec_ld_vx_k(m: MachineView, x: X) -> MachineView {
    MachineView { halted: true, waiting_key: Some(x.0 as u8), ..m }
}

pub fn ld_vx_k(state: &mut CPUState, x: X)
    requires
        old(state).wf(),
        x.0 < 16,
    ensures
        final(state).wf(),
        final(state)@ == spec_ld_vx_k(old(state)@, x),
{
    state.halted = true;
    state.waiting_key = Some(x.0 as u8);
}

/// `Ex9E - SKP Vx`: skip the next opcode when the key named by the low
/// nibble of Vx is pressed.
pub open spec fn spec_skp_vx(m: MachineView, x: X) -> MachineView {
    MachineView { pc: skip_pc(m, m.keys[(m.v[x.0 as int] % 16) as int]), ..m }
}

pub fn skp_vx(state: &mut CPUState, x: X)
    requires
        old(state).wf(),
        x.0 < 16,
    ensures
        final(state).wf(),
        final(state)@ == spec_skp_vx(old(state)@, x),
{
    let k: u8 = state.v[x.0] % 16;
    let off: u16 = if state.keyboard.is_key_pressed(&k) {
        4
    } else {
        2
    };
    state.pc = (state.pc + off) % 4096;
}

/// `ExA1 - SKNP Vx`: skip the next opcode when the key named by the low
/// nibble of Vx is not pressed.
pub open spec fn spec_sknp_vx(m: MachineView, x: X) -> MachineView {
    MachineView { pc: skip_pc(m, !m.keys[(m.v[x.0 as int] % 16) as int]), ..m }
}

pub fn sknp_vx(state: &mut CPUState, x: X)
    requires
        old(state).wf(),
        x.0 < 16,
    ensures
        final(state).wf(),
        final(state)@ == spec_sknp_vx(old(state)@, x),
{
    let k: u8 = state.v[x.0] % 16;
    let off: u16 = if !state.keyboard.is_key_pressed(&k) {
        4
    } else {
        2
    };
    state.pc = (state.pc + off) % 4096;
}

/// `Fx29 - LD F, Vx`: I <- Vx * 5, the address of the built-in glyph for
/// the low nibble of Vx (each glyph is 5 bytes).
pub open spec fn spec_ld_f_vx(m: MachineView, x: X) -> MachineView {
    MachineView { i: (m.v[x.0 as int] * 5) as u16, pc: mask12(m.pc + 2), ..m }
}

pub fn ld_f_vx(state: &mut CPUState, x: X)
    requires
        old(state).wf(),
        x.0 < 16,
    ensures
        final(state).wf(),
        final(state)@ == spec_ld_f_vx(old(state)@, x),
{
    state.i = state.v[x.0] as u16 * 5;
    state.inc_pc_2();
}

/// Two offsets into a window narrower than the modulus land on the same
/// wrapped position only when they are the same offset.
proof fn lemma_mod_window_inj(a: int, m: int, j1: int, j2: int)
    requires
        0 <= a,
        0 < m,
        0 <= j1 < m,
        0 <= j2 < m,
        (a + j1) % m == (a + j2) % m,
    ensures
        j1 == j2,
{
    vstd::arithmetic::div_mod::lemma_mod_equivalence(a + j1, a + j2, m);
    let d = j1 - j2;
    assert(d % m == 0);
    vstd::arithmetic::div_mod::lemma_fundamental_div_mod(d, m);
    let q = d / m;
    assert(j1 == j2) by (nonlinear_arith)
        requires
            d == m * q,
            -m < d < m,
            m > 0,
            d == j1 - j2,
    ;
}

/// Bit `j` (0 is the leftmost) of a sprite byte.
pub open spec fn sprite_bit(b: u8, j: int) -> bool {
    b & (0x80u8 >> (j as u8)) != 0
}

/// Whether sprite row `h` of a DRW at `(vx, vy)` with index `iv` puts a set
/// bit with index below `jb` on pixel `(c, r)`.
pub open spec fn drw_row_hit(
    mem: Seq<u8>,
    iv: u16,
    vx: u8,
    vy: u8,
    h: int,
    jb: int,
    r: int,
    c: int,
) -> bool {
    exists|j: int|
        0 <= j < jb && #[trigger] sprite_bit(mem[mask12(iv + h) as int], j)
            && r == (vy + h) % 32 && c == (vx + j) % 64
}

/// Whether any of the first `hb` sprite rows puts a set bit on pixel
/// `(c, r)`; with `hb = n` this says pixel `(c, r)` is toggled by the draw.
pub open spec fn drw_hit(
    mem: Seq<u8>,
    iv: u16,
    vx: u8,
    vy: u8,
    hb: int,
    r: int,
    c: int,
) -> bool {
    exists|h: int| 0 <= h < hb && #[trigger] drw_row_hit(mem, iv, vx, vy, h, 8, r, c)
}

/// Whether sprite row `h` (bits below `jb`) toggles a pixel that is ON in
/// grid `g0`, i.e. turns a pixel off.
pub open spec fn drw_row_coll(
    g0: Seq<Seq<bool>>,
    mem: Seq<u8>,
    iv: u16,
    vx: u8,
    vy: u8,
    h: int,
    jb: int,
) -> bool {
    exists|j: int|
        0 <= j < jb && #[trigger] sprite_bit(mem[mask12(iv + h) as int], j)
            && g0[(vy + h) % 32][(vx + j) % 64]
}

/// Whether any of the first `hb` sprite rows turns a pixel off: the
/// collision signal reported in VF.
pub open spec fn drw_coll(
    g0: Seq<Seq<bool>>,
    mem: Seq<u8>,
    iv: u16,
    vx: u8,
    vy: u8,
    hb: int,
) -> bool {
    exists|h: int| 0 <= h < hb && #[trigger] drw_row_coll(g0, mem, iv, vx, vy, h, 8)
}

/// The grid after the draw: each pixel XORed with whether a set sprite bit
/// lands on it; coordinates wrap on both axes.
pub open spec fn drw_grid(
    g0: Seq<Seq<bool>>,
    mem: Seq<u8>,
    iv: u16,
    vx: u8,
    vy: u8,
    n: int,
) -> Seq<Seq<bool>> {
    Seq::new(32, |r: int| Seq::new(64, |c: int| g0[r][c] != drw_hit(mem, iv, vx, vy, n, r, c)))
}

/// `Dxyn - DRW Vx, Vy, n`: the machine after the draw; VF is 1 exactly
/// when some pixel was turned off, the repaint flag is set, PC advances.
pub open spec fn spec_drw_vx_vy_n(
    m: MachineView,
    x: X,
    y: Y,
    n: N,
    g0: Seq<Seq<bool>>,
) -> MachineView {
    let coll = drw_coll(g0, m.mem, m.i, m.v[x.0 as int], m.v[y.0 as int], n.0 as int);
    MachineView {
        v: m.v.update(15, if coll { 1u8 } else { 0u8 }),
        repaint: true,
        pc: mask12(m.pc + 2),
        ..m
    }
}

/// `Dxyn - DRW Vx, Vy, n`: draw the n-byte sprite at memory[I..] XOR-wise
/// at (Vx, Vy), wrapping on both axes; report collisions in VF and request
/// a repaint.
#[verifier::loop_isolation(false)]
pub fn drw_vx_vy_n<S: ScreenDraw>(state: &mut CPUState, screen_draw: &mut S, x: X, y: Y, n: N)
    requires
        old(state).wf(),
        old(screen_draw).wf(),
        x.0 < 16,
        y.0 < 16,
        n.0 < 16,
    ensures
        final(state).wf(),
        final(screen_draw).wf(),
        final(state)@ == spec_drw_vx_vy_n(
            old(state)@,
            x,
            y,
            n,
            old(screen_draw).grid(),
        ),
        final(screen_draw).grid() == drw_grid(
            old(screen_draw).grid(),
            old(state)@.mem,
            old(state)@.i,
            old(state)@.v[x.0 as int],
            old(state)@.v[y.0 as int],
            n.0 as int,
        ),
        final(screen_draw).presented() == old(screen_draw).presented(),
{
    let ghost g0 = old(screen_draw).grid();
    let ghost mem0 = old(state)@.mem;
    let ghost i0 = old(state)@.i;
    proof {
        old(screen_draw).wf_grid();
    }
    let vx = state.v[x.0];
    let vy = state.v[y.0];
    state.v.set(15, 0);
    let mut hline: u16 = 0;
    while hline < n.0
        invariant
            hline <= n.0,
            screen_draw.wf(),
            screen_draw.presented() == old(screen_draw).presented(),
            grid_wf(screen_draw.grid()),
            forall|r: int, c: int| 0 <= r < 32 && 0 <= c < 64
                ==> #[trigger] screen_draw.grid()[r][c]
                    == (g0[r][c] != drw_hit(mem0, i0, vx, vy, hline as int, r, c)),
            state.v@ == old(state)@.v.update(
                15,
                if drw_coll(g0, mem0, i0, vx, vy, hline as int) { 1u8 } else { 0u8 },
            ),
            state.mem@ == old(state)@.mem,
            state.pc == old(state)@.pc,
            state.i == old(state)@.i,
            state.stack@ == old(state)@.stack,
            state.sp == old(state)@.sp,
            state.repaint == old(state)@.repaint,
            state.halted == old(state)@.halted,
            state.dt == old(state)@.dt,
            state.st == old(state)@.st,
            state.quirks == old(state)@.quirks,
            state.rng_seed == old(state)@.rng_seed,
            state.keyboard@ == old(state)@.keys,
            state.waiting_key == old(state)@.waiting_key,
        decreases n.0 - hline,
    {
        let membyte = state.mem[(state.i as usize + hline as usize) % 4096];
        proof {
            assert(membyte == mem0[mask12(i0 + hline) as int]);
        }
        let mut vline: u8 = 0;
        while vline < 8
            invariant
                hline < n.0,
                vline <= 8,
                membyte == mem0[mask12(i0 + hline) as int],
                screen_draw.wf(),
                screen_draw.presented() == old(screen_draw).presented(),
                grid_wf(screen_draw.grid()),
                forall|r: int, c: int| 0 <= r < 32 && 0 <= c < 64
                    ==> #[trigger] screen_draw.grid()[r][c]
                        == (g0[r][c] != (drw_hit(mem0, i0, vx, vy, hline as int, r, c)
                            || drw_row_hit(mem0, i0, vx, vy, hline as int, vline as int, r, c))),
                state.v@ == old(state)@.v.update(
                    15,
                    if (drw_coll(g0, mem0, i0, vx, vy, hline as int)
                        || drw_row_coll(g0, mem0, i0, vx, vy, hline as int, vline as int)) {
                        1u8
                    } else {
                        0u8
                    },
                ),
                state.mem@ == old(state)@.mem,
                state.pc == old(state)@.pc,
                state.i == old(state)@.i,
                state.stack@ == old(state)@.stack,
                state.sp == old(state)@.sp,
                state.repaint == old(state)@.repaint,
                state.halted == old(state)@.halted,
                state.dt == old(state)@.dt,
                state.st == old(state)@.st,
                state.quirks == old(state)@.quirks,
                state.rng_seed == old(state)@.rng_seed,
                state.keyboard@ == old(state)@.keys,
                state.waiting_key == old(state)@.waiting_key,
            decreases 8 - vline,
        {
            let ghost hh = hline as int;
            let ghost jj = vline as int;
            if membyte & (0x80u8 >> vline) != 0 {
                proof {
                    assert(sprite_bit(mem0[mask12(i0 + hh) as int], jj));
                }
                let nx = X((vx as usize + vline as usize) % 64);
                let ny = Y((vy as usize + hline as usize) % 32);
                let ghost nxi = nx.0 as int;
                let ghost nyi = ny.0 as int;
                proof {
                    assert(nxi == (vx + jj) % 64);
                    assert(nyi == (vy + hh) % 32);
                    // the target pixel has not been touched yet in this draw
                    assert(!drw_hit(mem0, i0, vx, vy, hh, nyi, nxi)) by {
                        if drw_hit(mem0, i0, vx, vy, hh, nyi, nxi) {
                            let h = choose|h: int|
                                0 <= h < hh && #[trigger] drw_row_hit(
                                    mem0, i0, vx, vy, h, 8, nyi, nxi);
                            assert(nyi == (vy + h) % 32);
                            lemma_mod_window_inj(vy as int, 32, h, hh);
                        }
                    };
                    assert(!drw_row_hit(mem0, i0, vx, vy, hh, jj, nyi, nxi)) by {
                        if drw_row_hit(mem0, i0, vx, vy, hh, jj, nyi, nxi) {
                            let j = choose|j: int|
                                0 <= j < jj && #[trigger] sprite_bit(
                                    mem0[mask12(i0 + hh) as int], j)
                                    && nyi == (vy + hh) % 32 && nxi == (vx + j) % 64;
                            lemma_mod_window_inj(vx as int, 64, j, jj);
                        }
                    };
                }
                let coll = screen_draw.toggle_pixel(nx, ny);
                if coll.0 {
                    state.v.set(15, 1);
                }
                proof {
                    assert(coll.0 == g0[nyi][nxi]);
                    // the new set bit extends row-hit and row-collision by
                    // exactly the pixel just toggled
                    assert(drw_row_hit(mem0, i0, vx, vy, hh, jj + 1, nyi, nxi));
                    assert forall|r: int, c: int|
                        0 <= r < 32 && 0 <= c < 64 && !(r == nyi && c == nxi) implies
                        (drw_row_hit(mem0, i0, vx, vy, hh, jj + 1, r, c)
                            == drw_row_hit(mem0, i0, vx, vy, hh, jj, r, c)) by {
                        if drw_row_hit(mem0, i0, vx, vy, hh, jj + 1, r, c) {
                            let j = choose|j: int|
                                0 <= j < jj + 1 && #[trigger] sprite_bit(
                                    mem0[mask12(i0 + hh) as int], j)
                                    && r == (vy + hh) % 32 && c == (vx + j) % 64;
                            if j == jj {
                                assert(r == nyi && c == nxi);
                            } else {
                                assert(drw_row_hit(mem0, i0, vx, vy, hh, jj, r, c));
                            }
                        }
                    };
                    if g0[nyi][nxi] {
                        assert(drw_row_coll(g0, mem0, i0, vx, vy, hh, jj + 1));
                    } else {
                        assert(drw_row_coll(g0, mem0, i0, vx, vy, hh, jj + 1)
                            == drw_row_coll(g0, mem0, i0, vx, vy, hh, jj)) by {
                            if drw_row_coll(g0, mem0, i0, vx, vy, hh, jj + 1) {
                                let j = choose|j: int|
                                    0 <= j < jj + 1 && #[trigger] sprite_bit(
                                        mem0[mask12(i0 + hh) as int], j)
                                        && g0[(vy + hh) % 32][(vx + j) % 64];
                                if j == jj {
                                    assert(g0[nyi][nxi]);
                                } else {
                                    assert(drw_row_coll(g0, mem0, i0, vx, vy, hh, jj));
                                }
                            }
                        };
                    }
                    if drw_coll(g0, mem0, i0, vx, vy, hh) {
                        assert(state.v@ =~= old(state)@.v.update(15, 1u8));
                    }
                }
            } else {
                proof {
                    assert(!sprite_bit(mem0[mask12(i0 + hh) as int], jj));
                    assert forall|r: int, c: int| 0 <= r < 32 && 0 <= c < 64 implies
                        (drw_row_hit(mem0, i0, vx, vy, hh, jj + 1, r, c)
                            == drw_row_hit(mem0, i0, vx, vy, hh, jj, r, c)) by {
                        if drw_row_hit(mem0, i0, vx, vy, hh, jj + 1, r, c) {
                            let j = choose|j: int|
                                0 <= j < jj + 1 && #[trigger] sprite_bit(
                                    mem0[mask12(i0 + hh) as int], j)
                                    && r == (vy + hh) % 32 && c == (vx + j) % 64;
                            assert(j != jj);
                        }
                    };
                    assert(drw_row_coll(g0, mem0, i0, vx, vy, hh, jj + 1)
                        == drw_row_coll(g0, mem0, i0, vx, vy, hh, jj)) by {
                        if drw_row_coll(g0, mem0, i0, vx, vy, hh, jj + 1) {
                            let j = choose|j: int|
                                0 <= j < jj + 1 && #[trigger] sprite_bit(
                                    mem0[mask12(i0 + hh) as int], j)
                                    && g0[(vy + hh) % 32][(vx + j) % 64];
                            assert(j != jj);
                        }
                    };
                }
            }
            vline = vline + 1;
        }
        proof {
            let hh = hline as int;
            // a completed row folds into the row-count bound
            assert forall|r: int, c: int| 0 <= r < 32 && 0 <= c < 64 implies
                (drw_hit(mem0, i0, vx, vy, hh + 1, r, c)
                    == (drw_hit(mem0, i0, vx, vy, hh, r, c)
                        || drw_row_hit(mem0, i0, vx, vy, hh, 8, r, c))) by {
                if drw_hit(mem0, i0, vx, vy, hh + 1, r, c) {
                    let h = choose|h: int|
                        0 <= h < hh + 1 && #[trigger] drw_row_hit(mem0, i0, vx, vy, h, 8, r, c);
                    if h < hh {
                        assert(drw_hit(mem0, i0, vx, vy, hh, r, c));
                    }
                }
                if drw_hit(mem0, i0, vx, vy, hh, r, c) {
                    let h = choose|h: int|
                        0 <= h < hh && #[trigger] drw_row_hit(mem0, i0, vx, vy, h, 8, r, c);
                    assert(drw_row_hit(mem0, i0, vx, vy, h, 8, r, c));
                    assert(drw_hit(mem0, i0, vx, vy, hh + 1, r, c));
                }
            };
            assert(drw_coll(g0, mem0, i0, vx, vy, hh + 1)
                == (drw_coll(g0, mem0, i0, vx, vy, hh)
                    || drw_row_coll(g0, mem0, i0, vx, vy, hh, 8))) by {
                if drw_coll(g0, mem0, i0, vx, vy, hh + 1) {
                    let h = choose|h: int|
                        0 <= h < hh + 1 && #[trigger] drw_row_coll(g0, mem0, i0, vx, vy, h, 8);
                    if h < hh {
                        assert(drw_coll(g0, mem0, i0, vx, vy, hh));
                    }
                }
                if drw_coll(g0, mem0, i0, vx, vy, hh) {
                    let h = choose|h: int|
                        0 <= h < hh && #[trigger] drw_row_coll(g0, mem0, i0, vx, vy, h, 8);
                    assert(drw_coll(g0, mem0, i0, vx, vy, hh + 1));
                }
            };
        }
        hline = hline + 1;
    }
    state.repaint = true;
    state.inc_pc_2();
    proof {
        assert(state@ =~= spec_drw_vx_vy_n(old(state)@, x, y, n, g0));
        assert(screen_draw.grid() =~~= drw_grid(g0, mem0, i0, vx, vy, n.0 as int));
    }
}

/// Storing registers does not change the size of memory.
pub proof fn lemma_store_regs_len(mem: Seq<u8>, i: u16, v: Seq<u8>, count: nat)
    requires
        mem.len() == 4096,
    ensures
        store_regs(mem, i, v, count).len() == mem.len(),
    decreases count,
{
    if count > 0 {
        lemma_store_regs_len(mem, i, v, (count - 1) as nat);
    }
}

/// After storing registers 0..count at I, the wrapped address of slot k
/// holds register k.
proof fn lemma_store_regs_at(mem: Seq<u8>, i: u16, v: Seq<u8>, count: nat, k: int)
    requires
        mem.len() == 4096,
        count <= 16,
        0 <= k < count,
    ensures
        store_regs(mem, i, v, count)[mask12(i + k) as int] == v[k],
    decreases count,
{
    lemma_store_regs_len(mem, i, v, (count - 1) as nat);
    if k == count - 1 {
    } else {
        lemma_store_regs_at(mem, i, v, (count - 1) as nat, k);
        // the final write lands on a different wrapped address
        if mask12(i + count - 1) == mask12(i + k) {
            lemma_mod_window_inj(i as int, 4096, k, count - 1);
        }
    }
}

/// Loading registers keeps the size of the register file.
pub proof fn lemma_load_regs_len(v: Seq<u8>, mem: Seq<u8>, i: u16, count: nat)
    requires
        v.len() == 16,
        count <= 16,
    ensures
        load_regs(v, mem, i, count).len() == v.len(),
    decreases count,
{
    if count > 0 {
        lemma_load_regs_len(v, mem, i, (count - 1) as nat);
    }
}

/// After loading registers 0..count from I, register k holds the byte at
/// the wrapped address of slot k; the registers above count are untouched.
proof fn lemma_load_regs_at(v: Seq<u8>, mem: Seq<u8>, i: u16, count: nat, k: int)
    requires
        v.len() == 16,
        count <= 16,
        0 <= k < 16,
    ensures
        k < count ==> load_regs(v, mem, i, count)[k] == mem[mask12(i + k) as int],
        k >= count ==> load_regs(v, mem, i, count)[k] == v[k],
    decreases count,
{
    if count > 0 {
        lemma_load_regs_len(v, mem, i, (count - 1) as nat);
        lemma_load_regs_at(v, mem, i, (count - 1) as nat, k);
    }
}

/// `LD [I], Vx` followed by `LD Vy, [I]` with the load/store quirk enabled
/// (so I is left alone) restores V0..=Vx exactly and leaves the whole
/// register file as it was.
pub proof fn lemma_store_load_roundtrip(m: MachineView, x: X)
    requires
        m.wf(),
        x.0 < 16,
        m.quirks.load_store,
    ensures
        spec_ld_vx_i(spec_ld_i_vx(m, x), x).v == m.v,
        spec_ld_vx_i(spec_ld_i_vx(m, x), x).i == m.i,
{
    let m1 = spec_ld_i_vx(m, x);
    let count = (x.0 + 1) as nat;
    lemma_store_regs_len(m.mem, m.i, m.v, count);
    lemma_load_regs_len(m.v, m1.mem, m.i, count);
    assert forall|k: int| 0 <= k < 16 implies
        load_regs(m.v, m1.mem, m.i, count)[k] == m.v[k] by {
        lemma_load_regs_at(m.v, m1.mem, m.i, count, k);
        if k < count {
            lemma_store_regs_at(m.mem, m.i, m.v, count, k);
        }
    };
    assert(spec_ld_vx_i(m1, x).v =~= m.v);
}

/// Two consecutive `DRW` with identical operands leave the framebuffer
/// unchanged (XOR is self-inverse), and VF carries the collision signal of
/// the second draw. Excluded are x = 15 and y = 15: there the first draw
/// overwrites an operand register, so the second draw is not the same
/// draw.
pub proof fn lemma_drw_twice(m: MachineView, g: Seq<Seq<bool>>, x: X, y: Y, n: N)
    requires
        m.wf(),
        grid_wf(g),
        x.0 < 16,
        y.0 < 16,
        x.0 != 15,
        y.0 != 15,
        n.0 < 16,
    ensures
        ({
            let m1 = spec_drw_vx_vy_n(m, x, y, n, g);
            let g1 = drw_grid(g, m.mem, m.i, m.v[x.0 as int], m.v[y.0 as int], n.0 as int);
            let m2 = spec_drw_vx_vy_n(m1, x, y, n, g1);
            let g2 = drw_grid(
                g1,
                m1.mem,
                m1.i,
                m1.v[x.0 as int],
                m1.v[y.0 as int],
                n.0 as int,
            );
            &&& g2 == g
            &&& m2.v == m.v.update(
                15,
                if drw_coll(g1, m.mem, m.i, m.v[x.0 as int], m.v[y.0 as int], n.0 as int) {
                    1u8
                } else {
                    0u8
                },
            )
        }),
{
    let m1 = spec_drw_vx_vy_n(m, x, y, n, g);
    let g1 = drw_grid(g, m.mem, m.i, m.v[x.0 as int], m.v[y.0 as int], n.0 as int);
    let g2 = drw_grid(g1, m1.mem, m1.i, m1.v[x.0 as int], m1.v[y.0 as int], n.0 as int);
    assert(m1.v[x.0 as int] == m.v[x.0 as int]);
    assert(m1.v[y.0 as int] == m.v[y.0 as int]);
    assert(g2 =~~= g);
    let m2 = spec_drw_vx_vy_n(m1, x, y, n, g1);
    assert(m2.v =~= m.v.update(
        15,
        if drw_coll(g1, m.mem, m.i, m.v[x.0 as int], m.v[y.0 as int], n.0 as int) {
            1u8
        } else {
            0u8
        },
    ));
}

/// `CLS` is idempotent: a second clear leaves the blank framebuffer blank,
/// and the machine differs only by the second PC advance.
pub proof fn lemma_cls_idempotent(m: MachineView, g: Seq<Seq<bool>>)
    ensures
        ({
            let (m1, g1, r1) = crate::cpu::spec_execute(m, g, Instruction::Cls);
            let (m2, g2, r2) = crate::cpu::spec_execute(m1, g1, Instruction::Cls);
            &&& g1 == blank_grid()
            &&& g2 == g1
            &&& r1 == Result::<(), CpuError>::Ok(())
            &&& r2 == Result::<(), CpuError>::Ok(())
            &&& m2 == (MachineView { pc: mask12(m1.pc + 2), ..m1 })
        }),
{
}

/// After a `DRW`, VF is 1 exactly when the draw turned some pixel off:
/// some pixel that was ON before is OFF after.
pub proof fn lemma_drw_vf_iff_pixel_off(m: MachineView, g: Seq<Seq<bool>>, x: X, y: Y, n: N)
    requires
        m.wf(),
        grid_wf(g),
        x.0 < 16,
        y.0 < 16,
        n.0 < 16,
    ensures
        ({
            let m1 = spec_drw_vx_vy_n(m, x, y, n, g);
            let g1 = drw_grid(g, m.mem, m.i, m.v[x.0 as int], m.v[y.0 as int], n.0 as int);
            m1.v[15] == 1 <==> exists|r: int, c: int|
                0 <= r < 32 && 0 <= c < 64 && #[trigger] g[r][c] && !(#[trigger] g1[r][c])
        }),
{
    let vx = m.v[x.0 as int];
    let vy = m.v[y.0 as int];
    let m1 = spec_drw_vx_vy_n(m, x, y, n, g);
    let g1 = drw_grid(g, m.mem, m.i, vx, vy, n.0 as int);
    if drw_coll(g, m.mem, m.i, vx, vy, n.0 as int) {
        let h = choose|h: int|
            0 <= h < n.0 && #[trigger] drw_row_coll(g, m.mem, m.i, vx, vy, h, 8);
        let j = choose|j: int|
            0 <= j < 8 && #[trigger] sprite_bit(m.mem[mask12(m.i + h) as int], j)
                && g[(vy + h) % 32][(vx + j) % 64];
        let r = (vy + h) % 32;
        let c = (vx + j) % 64;
        assert(drw_row_hit(m.mem, m.i, vx, vy, h, 8, r, c));
        assert(drw_hit(m.mem, m.i, vx, vy, n.0 as int, r, c));
        assert(g[r][c] && !g1[r][c]);
    }
    if exists|r: int, c: int|
        0 <= r < 32 && 0 <= c < 64 && #[trigger] g[r][c] && !(#[trigger] g1[r][c]) {
        let (r, c) = choose|r: int, c: int|
            0 <= r < 32 && 0 <= c < 64 && #[trigger] g[r][c] && !(#[trigger] g1[r][c]);
        assert(drw_hit(m.mem, m.i, vx, vy, n.0 as int, r, c));
        let h = choose|h: int|
            0 <= h < n.0 && #[trigger] drw_row_hit(m.mem, m.i, vx, vy, h, 8, r, c);
        let j = choose|j: int|
            0 <= j < 8 && #[trigger] sprite_bit(m.mem[mask12(m.i + h) as int], j)
                && r == (vy + h) % 32 && c == (vx + j) % 64;
        assert(g[(vy + h) % 32][(vx + j) % 64]);
        assert(drw_row_coll(g, m.mem, m.i, vx, vy, h, 8));
        assert(drw_coll(g, m.mem, m.i, vx, vy, n.0 as int));
    }
}

} // verus!
