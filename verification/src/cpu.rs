//! The machine state of the CHIP-8 virtual machine and the execution engine
//! that drives it: 4096 bytes of memory with the built-in font, sixteen 8-bit
//! registers, a 12-bit program counter and index register, a 16-slot call
//! stack, two 60 Hz timers, the quirk switches and the random-number seed.

use vstd::prelude::*;
use crate::keyboard::KeyboardState;
use crate::cpu_decoder::Instruction;
use crate::cpu_instructions::{
    sys, cls, ld_vx_vy, ld_vx_kk, or_vx_vy, and_vx_vy, xor_vx_vy, add_vx_vy, sub_vx_vy,
    subn_vx_vy, shr_vx_vy, shl_vx_vy, add_vx_kk, sne_vx_vy, sne_vx_kk, se_vx_kk, se_vx_vy,
    jp_nnn, ret, call_nnn, ld_i_nnn, jp_v0_nnn, rnd_vx_kk, ld_b_vx, ld_vx_dt, ld_dt_vx,
    ld_st_vx, add_i_vx, ld_i_vx, ld_vx_i, ld_vx_k, skp_vx, sknp_vx, ld_f_vx, drw_vx_vy_n,
    spec_sys, spec_cls, spec_ld_vx_vy, spec_ld_vx_kk, spec_or_vx_vy, spec_and_vx_vy,
    spec_xor_vx_vy, spec_add_vx_vy, spec_sub_vx_vy, spec_subn_vx_vy, spec_shr_vx_vy,
    spec_shl_vx_vy, spec_add_vx_kk, spec_sne_vx_vy, spec_sne_vx_kk, spec_se_vx_kk,
    spec_se_vx_vy, spec_jp_nnn, spec_ret, spec_call_nnn, spec_ld_i_nnn, spec_jp_v0_nnn,
    spec_rnd_vx_kk, spec_ld_b_vx, spec_ld_vx_dt, spec_ld_dt_vx, spec_ld_st_vx, spec_add_i_vx,
    spec_ld_i_vx, spec_ld_vx_i, spec_ld_vx_k, spec_skp_vx, spec_sknp_vx, spec_ld_f_vx,
    spec_drw_vx_vy_n,
};
use crate::screen::ScreenDraw;
use rand::{Rng, RngCore, SeedableRng};

verus! {

pub const MEM_SIZE: usize = 4096;
pub const PROGRAM_START_ADDR: u16 = 0x200;
pub const STACK_SIZE: usize = 16;
pub const REGISTERS_SIZE: usize = 16;
pub const STEPS_PER_CYCLE: usize = 10;
/// Tick rate of the run loop and the timers, in Hertz.
pub const SPEED: u64 = 60;
/// The largest ROM that fits between 0x200 and the end of memory.
pub const MAX_PROGRAM_LEN: usize = 3584;

/// Compatibility switches, fixed at construction.
///
/// `shift`: the shift instructions read Vx instead of Vy.
/// `load_store`: the register load/store instructions leave I unchanged
/// instead of post-incrementing it.
#[derive(Clone, Copy, PartialEq, Eq, Structural, Debug)]
pub struct CPUQuirks {
    pub shift: bool,
    pub load_store: bool,
}

impl CPUQuirks {
    pub fn new() -> (q: CPUQuirks)
        ensures
            q == (CPUQuirks { shift: false, load_store: false }),
    {
        CPUQuirks { shift: false, load_store: false }
    }
}

/// The errors the machine can surface: an opcode outside the ISA, a return
/// with an empty call stack, or a ROM that does not fit in memory.
#[derive(Clone, Copy, PartialEq, Eq, Structural, Debug)]
pub enum CpuError {
    Decode(crate::cpu_decoder::DecodeError),
    StackUnderflow,
    ProgramTooLarge,
}

/// The machine state as mathematics: every register file is a sequence of
/// plain values. All contracts of the machine are stated over this view.
#[verifier::ext_equal]
pub ghost struct MachineView {
    pub mem: Seq<u8>,
    pub v: Seq<u8>,
    pub pc: u16,
    pub i: u16,
    pub stack: Seq<u16>,
    pub sp: u8,
    pub repaint: bool,
    pub halted: bool,
    pub dt: u8,
    pub st: u8,
    pub quirks: CPUQuirks,
    pub rng_seed: u64,
    pub keys: Seq<bool>,
    pub waiting_key: Option<u8>,
}

impl MachineView {
    /// The data-model invariant: memory is 4096 bytes, sixteen registers,
    /// PC and I are 12-bit, sixteen 12-bit stack slots, a 4-bit stack
    /// pointer, sixteen keys, and a pending key wait names a real register.
    pub open spec fn wf(self) -> bool {
        &&& self.mem.len() == 4096
        &&& self.v.len() == 16
        &&& self.pc < 4096
        &&& self.i < 4096
        &&& self.stack.len() == 16
        &&& (forall|j: int| 0 <= j < 16 ==> #[trigger] self.stack[j] < 4096)
        &&& self.sp < 16
        &&& self.keys.len() == 16
        &&& (self.waiting_key matches Some(x) ==> x < 16)
    }
}

/// The invariants of every reachable machine: PC and I stay below 4096,
/// every register is a byte, SP stays below 16, and the timers are bytes
/// and so never negative. Constructors establish `wf` and every operation
/// of the machine preserves it, so these bounds hold in every reachable
/// state.
pub proof fn lemma_machine_bounds(m: MachineView)
    requires
        m.wf(),
    ensures
        0 <= m.pc < 4096,
        0 <= m.i < 4096,
        forall|k: int| 0 <= k < 16 ==> 0 <= #[trigger] m.v[k] < 256,
        0 <= m.sp < 16,
        0 <= m.dt < 256,
        0 <= m.st < 256,
{
}

/// A 12-bit address: every program counter and index transition masks to
/// this range.
pub open spec fn mask12(a: int) -> u16 {
    (a % 4096) as u16
}

/// One 60 Hz timer tick: decrement, saturating at zero.
pub open spec fn tick(t: u8) -> u8 {
    if t > 0 {
        (t - 1) as u8
    } else {
        0
    }
}

/// The big-endian 16-bit opcode at the program counter; the second byte
/// wraps at the 12-bit boundary.
pub open spec fn spec_fetch(m: MachineView) -> u16 {
    (m.mem[m.pc as int] * 256 + m.mem[mask12(m.pc + 1) as int]) as u16
}

/// The executable machine state. The fields are public so that hosts and
/// tests can inspect the machine; the contracts speak of the view `@`.
pub struct CPUState {
    pub mem: Vec<u8>,
    pub v: Vec<u8>,
    pub pc: u16,
    pub i: u16,
    pub stack: Vec<u16>,
    pub sp: u8,
    pub repaint: bool,
    pub halted: bool,
    pub dt: u8,
    pub st: u8,
    pub quirks: CPUQuirks,
    pub rng_seed: u64,
    pub keyboard: KeyboardState,
    pub waiting_key: Option<u8>,
}

impl CPUState {
    pub open spec fn view(&self) -> MachineView {
        MachineView {
            mem: self.mem@,
            v: self.v@,
            pc: self.pc,
            i: self.i,
            stack: self.stack@,
            sp: self.sp,
            repaint: self.repaint,
            halted: self.halted,
            dt: self.dt,
            st: self.st,
            quirks: self.quirks,
            rng_seed: self.rng_seed,
            keys: self.keyboard@,
            waiting_key: self.waiting_key,
        }
    }

    pub open spec fn wf(&self) -> bool {
        self@.wf()
    }

    /// Runtime check of the data-model invariant, for hosts that cannot see
    /// the ghost view.
    pub fn is_well_formed(&self) -> (b: bool)
        ensures
            b == self.wf(),
    {
        if !(self.mem.len() == 4096 && self.v.len() == 16 && self.pc < 4096 && self.i < 4096
            && self.stack.len() == 16 && self.sp < 16 && self.keyboard.len() == 16) {
            return false;
        }
        let waiting_ok = match self.waiting_key {
            Some(x) => x < 16,
            None => true,
        };
        if !waiting_ok {
            return false;
        }
        let mut j: usize = 0;
        while j < 16
            invariant
                self.stack@.len() == 16,
                j <= 16,
                forall|q: int| 0 <= q < j ==> #[trigger] self.stack@[q] < 4096,
            decreases 16 - j,
        {
            if self.stack[j] >= 4096 {
                return false;
            }
            j = j + 1;
        }
        true
    }

    /// The program counter as a memory index.
    pub fn pci(&self) -> (r: usize)
        ensures
            r == self@.pc,
    {
        self.pc as usize
    }

    /// Fetch the big-endian opcode at PC.
    pub fn fetch(&self) -> (op: u16)
        requires
            self.wf(),
        ensures
            op == spec_fetch(self@),
    {
        let hi = self.mem[self.pc as usize];
        let lo = self.mem[((self.pc + 1) % 4096) as usize];
        (hi as u16) * 256 + (lo as u16)
    }

    /// Advance PC past the current opcode, wrapping at 12 bits.
    pub fn inc_pc_2(&mut self)
        requires
            old(self).wf(),
        ensures
            final(self).wf(),
            final(self)@ == (MachineView { pc: mask12(old(self)@.pc + 2), ..old(self)@ }),
    {
        self.pc = (self.pc + 2) % 4096;
    }

    /// One 60 Hz tick: DT and ST each decrement by 1 if positive.
    pub fn update_timers(&mut self)
        requires
            old(self).wf(),
        ensures
            final(self).wf(),
            final(self)@ == (MachineView {
                dt: tick(old(self)@.dt),
                st: tick(old(self)@.st),
                ..old(self)@
            }),
    {
        if self.dt > 0 {
            self.dt = self.dt - 1;
        }
        if self.st > 0 {
            self.st = self.st - 1;
        }
    }

    /// Draw one uniform byte from the seeded generator and roll the seed
    /// forward. Reseeding happens per draw, so the whole stream is a
    /// function of the stored seed.
    pub fn run_rng(&mut self) -> (r: u8)
        requires
            old(self).wf(),
        ensures
            final(self).wf(),
            final(self)@ == (MachineView {
                rng_seed: chacha_next_seed(old(self)@.rng_seed),
                ..old(self)@
            }),
            r == chacha_sample(old(self)@.rng_seed),
    {
        let (next, sample) = chacha_draw(self.rng_seed);
        self.rng_seed = next;
        sample
    }
}

/// The 64-bit value ChaCha8 seeded with `seed` yields as its first `u64`.
pub uninterp spec fn chacha_next_seed(seed: u64) -> u64;

/// The byte ChaCha8 seeded with `seed` yields right after its first `u64`.
pub uninterp spec fn chacha_sample(seed: u64) -> u8;

/// Relies on rand_chacha's `ChaCha8Rng`: seeded from a 64-bit value it is a
/// deterministic, platform-independent stream, so the first `u64` drawn and
/// the byte sampled after it are functions of the seed alone.
#[verifier::external_body]
fn chacha_draw(seed: u64) -> (r: (u64, u8))
    ensures
        r.0 == chacha_next_seed(seed),
        r.1 == chacha_sample(seed),
{
    let mut rng = rand_chacha::ChaCha8Rng::seed_from_u64(seed);
    let next = rng.next_u64();
    (next, rng.gen())
}

/// Relies on rand's `thread_rng` for an operating-system-seeded generator;
/// nothing is promised of the value drawn from it.
#[verifier::external_body]
fn os_seed() -> u64 {
    rand::thread_rng().next_u64()
}

/// The built-in hexadecimal font: sixteen glyphs of five bytes each,
/// installed at addresses 0x000..0x050.
pub open spec fn spec_font() -> Seq<u8> {
    seq![
        0xF0u8, 0x90, 0x90, 0x90, 0xF0, // 0
        0x20, 0x60, 0x20, 0x20, 0x70, // 1
        0xF0, 0x10, 0xF0, 0x80, 0xF0, // 2
        0xF0, 0x10, 0xF0, 0x10, 0xF0, // 3
        0x90, 0x90, 0xF0, 0x10, 0x10, // 4
        0xF0, 0x80, 0xF0, 0x10, 0xF0, // 5
        0xF0, 0x80, 0xF0, 0x90, 0xF0, // 6
        0xF0, 0x10, 0x20, 0x40, 0x40, // 7
        0xF0, 0x90, 0xF0, 0x90, 0xF0, // 8
        0xF0, 0x90, 0xF0, 0x10, 0xF0, // 9
        0xF0, 0x90, 0xF0, 0x90, 0x90, // A
        0xE0, 0x90, 0xE0, 0x90, 0xE0, // B
        0xF0, 0x80, 0x80, 0x80, 0xF0, // C
        0xE0, 0x90, 0x90, 0x90, 0xE0, // D
        0xF0, 0x80, 0xF0, 0x80, 0xF0, // E
        0xF0, 0x80, 0xF0, 0x80, 0x80, // F
    ]
}

/// The font bytes as a vector.
fn font_bytes() -> (f: Vec<u8>)
    ensures
        f@ == spec_font(),
{
    let f: Vec<u8> = vec![
        0xF0u8, 0x90, 0x90, 0x90, 0xF0, // 0
        0x20, 0x60, 0x20, 0x20, 0x70, // 1
        0xF0, 0x10, 0xF0, 0x80, 0xF0, // 2
        0xF0, 0x10, 0xF0, 0x10, 0xF0, // 3
        0x90, 0x90, 0xF0, 0x10, 0x10, // 4
        0xF0, 0x80, 0xF0, 0x10, 0xF0, // 5
        0xF0, 0x80, 0xF0, 0x90, 0xF0, // 6
        0xF0, 0x10, 0x20, 0x40, 0x40, // 7
        0xF0, 0x90, 0xF0, 0x90, 0xF0, // 8
        0xF0, 0x90, 0xF0, 0x10, 0xF0, // 9
        0xF0, 0x90, 0xF0, 0x90, 0x90, // A
        0xE0, 0x90, 0xE0, 0x90, 0xE0, // B
        0xF0, 0x80, 0x80, 0x80, 0xF0, // C
        0xE0, 0x90, 0x90, 0x90, 0xE0, // D
        0xF0, 0x80, 0xF0, 0x80, 0xF0, // E
        0xF0, 0x80, 0xF0, 0x80, 0x80, // F
    ];
    proof {
        assert(f@ =~= spec_font());
    }
    f
}

/// Write the font over the first 80 bytes of memory.
pub fn load_font_set(mem: &mut Vec<u8>)
    requires
        old(mem)@.len() == 4096,
    ensures
        final(mem)@.len() == 4096,
        forall|j: int| 0 <= j < 80 ==> final(mem)@[j] == spec_font()[j],
        forall|j: int| 80 <= j < 4096 ==> final(mem)@[j] == old(mem)@[j],
{
    let font = font_bytes();
    let mut j: usize = 0;
    while j < 80
        invariant
            mem@.len() == 4096,
            font@ == spec_font(),
            j <= 80,
            forall|q: int| 0 <= q < j ==> mem@[q] == spec_font()[q],
            forall|q: int| j <= q < 4096 ==> mem@[q] == old(mem)@[q],
        decreases 80 - j,
    {
        let b = font[j];
        mem.set(j, b);
        j = j + 1;
    }
}

/// The machine as constructed: font installed, PC at the program start,
/// everything else zeroed, quirks off, seed as given.
pub open spec fn init_view(seed: u64) -> MachineView {
    MachineView {
        mem: Seq::new(4096, |j: int| if j < 80 { spec_font()[j] } else { 0u8 }),
        v: Seq::new(16, |j: int| 0u8),
        pc: 0x200,
        i: 0,
        stack: Seq::new(16, |j: int| 0u16),
        sp: 0,
        repaint: false,
        halted: false,
        dt: 0,
        st: 0,
        quirks: CPUQuirks { shift: false, load_store: false },
        rng_seed: seed,
        keys: Seq::new(16, |j: int| false),
        waiting_key: None,
    }
}

/// The whole machine: its state plus the host's stop request.
pub struct CPU {
    pub state: CPUState,
    pub stopped: bool,
}

impl CPU {
    /// A fresh machine with the given random seed; tests use a fixed seed
    /// for reproducible draws.
    pub fn new_with_seed(seed: u64) -> (cpu: CPU)
        ensures
            cpu.state.wf(),
            cpu.state@ == init_view(seed),
            !cpu.stopped,
    {
        let mut mem: Vec<u8> = Vec::new();
        let mut j: usize = 0;
        while j < MEM_SIZE
            invariant
                j <= 4096,
                mem@.len() == j,
                forall|q: int| 0 <= q < j ==> mem@[q] == 0u8,
            decreases 4096 - j,
        {
            mem.push(0u8);
            j = j + 1;
        }
        load_font_set(&mut mem);

        let mut v: Vec<u8> = Vec::new();
        let mut stack: Vec<u16> = Vec::new();
        let mut k: usize = 0;
        while k < REGISTERS_SIZE
            invariant
                k <= 16,
                v@.len() == k,
                stack@.len() == k,
                forall|q: int| 0 <= q < k ==> v@[q] == 0u8,
                forall|q: int| 0 <= q < k ==> stack@[q] == 0u16,
            decreases 16 - k,
        {
            v.push(0u8);
            stack.push(0u16);
            k = k + 1;
        }

        let state = CPUState {
            mem,
            v,
            pc: PROGRAM_START_ADDR,
            i: 0,
            stack,
            sp: 0,
            repaint: false,
            halted: false,
            dt: 0,
            st: 0,
            quirks: CPUQuirks::new(),
            rng_seed: seed,
            keyboard: KeyboardState::new(),
            waiting_key: None,
        };
        proof {
            assert(state@ =~= init_view(seed));
        }
        CPU { state, stopped: false }
    }

    /// A fresh machine seeded from the operating system.
    pub fn new() -> (cpu: CPU)
        ensures
            cpu.state.wf(),
            cpu.state@ == init_view(cpu.state@.rng_seed),
            !cpu.stopped,
    {
        CPU::new_with_seed(os_seed())
    }

    /// Copy a ROM into memory starting at 0x200. Fails, leaving the machine
    /// untouched, exactly when the ROM is longer than the 3584 bytes that
    /// fit.
    pub fn load_program(&mut self, data: Vec<u8>) -> (r: Result<(), CpuError>)
        requires
            old(self).state.wf(),
        ensures
            final(self).state.wf(),
            final(self).stopped == old(self).stopped,
            data@.len() > 3584 ==> r == Result::<(), CpuError>::Err(CpuError::ProgramTooLarge)
                && final(self).state@ == old(self).state@,
            data@.len() <= 3584 ==> r == Result::<(), CpuError>::Ok(())
                && final(self).state@ == (MachineView {
                    mem: Seq::new(4096, |j: int|
                        if 0x200 <= j < 0x200 + data@.len() {
                            data@[j - 0x200]
                        } else {
                            old(self).state@.mem[j]
                        }),
                    ..old(self).state@
                }),
    {
        if data.len() > MAX_PROGRAM_LEN {
            return Err(CpuError::ProgramTooLarge);
        }
        let mut j: usize = 0;
        while j < data.len()
            invariant
                data@.len() <= 3584,
                j <= data@.len(),
                self.state.mem@.len() == 4096,
                forall|q: int| 0 <= q < j ==> self.state.mem@[0x200 + q] == data@[q],
                forall|q: int| 0 <= q < 4096 && !(0x200 <= q < 0x200 + j)
                    ==> self.state.mem@[q] == old(self).state@.mem[q],
                self.state.v@ == old(self).state@.v,
                self.state.pc == old(self).state@.pc,
                self.state.i == old(self).state@.i,
                self.state.stack@ == old(self).state@.stack,
                self.state.sp == old(self).state@.sp,
                self.state.repaint == old(self).state@.repaint,
                self.state.halted == old(self).state@.halted,
                self.state.dt == old(self).state@.dt,
                self.state.st == old(self).state@.st,
                self.state.quirks == old(self).state@.quirks,
                self.state.rng_seed == old(self).state@.rng_seed,
                self.state.keyboard@ == old(self).state@.keys,
                self.state.waiting_key == old(self).state@.waiting_key,
                self.stopped == old(self).stopped,
            decreases data@.len() - j,
        {
            let b = data[j];
            self.state.mem.set(0x200 + j, b);
            j = j + 1;
        }
        proof {
            assert(self.state@ =~= (MachineView {
                mem: Seq::new(4096, |q: int|
                    if 0x200 <= q < 0x200 + data@.len() {
                        data@[q - 0x200]
                    } else {
                        old(self).state@.mem[q]
                    }),
                ..old(self).state@
            }));
        }
        Ok(())
    }

    /// The machine is finished either because a program halted it or
    /// because the host asked it to stop.
    pub fn is_done(&self) -> (done: bool)
        ensures
            done == (self.state@.halted || self.stopped),
    {
        self.state.halted || self.stopped
    }

    /// Ask the run loop to stop at its next check; the state is untouched.
    pub fn stop(&mut self)
        ensures
            final(self).state@ == old(self).state@,
            final(self).stopped,
    {
        self.stopped = true;
    }
}

/// The machine after a key-down event: key `k` latches when it names one of
/// the sixteen pad keys, and a pending "wait for key" consumes the event:
/// the key value lands in the waited-on register, PC advances, and the
/// machine wakes.
pub open spec fn spec_key_down(m: MachineView, k: u8) -> MachineView {
    let keys1 = if k < 16 {
        m.keys.update(k as int, true)
    } else {
        m.keys
    };
    match m.waiting_key {
        Some(x) => MachineView {
            keys: keys1,
            v: m.v.update(x as int, k),
            pc: mask12(m.pc + 2),
            halted: false,
            waiting_key: None,
            ..m
        },
        None => MachineView { keys: keys1, ..m },
    }
}

/// The machine after a key-up event: the key unlatches if it names a pad
/// key; nothing else changes.
pub open spec fn spec_key_up(m: MachineView, k: u8) -> MachineView {
    if k < 16 {
        MachineView { keys: m.keys.update(k as int, false), ..m }
    } else {
        m
    }
}

impl CPU {
    /// Deliver a key-down event from the host.
    pub fn key_down(&mut self, k: u8)
        requires
            old(self).state.wf(),
        ensures
            final(self).state.wf(),
            final(self).state@ == spec_key_down(old(self).state@, k),
            final(self).stopped == old(self).stopped,
    {
        if k < 16 {
            self.state.keyboard.key_down(&k);
        }
        match self.state.waiting_key {
            Some(x) => {
                self.state.v.set(x as usize, k);
                self.state.inc_pc_2();
                self.state.halted = false;
                self.state.waiting_key = None;
            }
            None => {}
        }
        proof {
            assert(self.state@ =~= spec_key_down(old(self).state@, k));
        }
    }

    /// Deliver a key-up event from the host.
    pub fn key_up(&mut self, k: u8)
        requires
            old(self).state.wf(),
        ensures
            final(self).state.wf(),
            final(self).state@ == spec_key_up(old(self).state@, k),
            final(self).stopped == old(self).stopped,
    {
        if k < 16 {
            self.state.keyboard.key_up(&k);
        }
        proof {
            assert(self.state@ =~= spec_key_up(old(self).state@, k));
        }
    }
}

/// Everything one step can touch: the machine, the display's pixel grid,
/// and whether a frame has been committed for presentation.
#[verifier::ext_equal]
pub ghost struct StepView {
    pub m: MachineView,
    pub grid: Seq<Seq<bool>>,
    pub presented: bool,
}

/// What executing one decoded instruction does to the machine and the
/// grid, and whether it fails (only RET on an empty stack can).
pub open spec fn spec_execute(
    m: MachineView,
    g: Seq<Seq<bool>>,
    instr: Instruction,
) -> (MachineView, Seq<Seq<bool>>, Result<(), CpuError>) {
    match instr {
        Instruction::Sys => (spec_sys(m), g, Ok(())),
        Instruction::Cls => (spec_cls(m), crate::screen::blank_grid(), Ok(())),
        Instruction::Ret => if m.sp == 0 {
            (m, g, Err(CpuError::StackUnderflow))
        } else {
            (spec_ret(m), g, Ok(()))
        },
        Instruction::JpNnn(nnn) => (spec_jp_nnn(m, nnn), g, Ok(())),
        Instruction::CallNnn(nnn) => (spec_call_nnn(m, nnn), g, Ok(())),
        Instruction::SeVxKk(x, kk) => (spec_se_vx_kk(m, x, kk), g, Ok(())),
        Instruction::SneVxKk(x, kk) => (spec_sne_vx_kk(m, x, kk), g, Ok(())),
        Instruction::SeVxVy(x, y) => (spec_se_vx_vy(m, x, y), g, Ok(())),
        Instruction::LdVxKk(x, kk) => (spec_ld_vx_kk(m, x, kk), g, Ok(())),
        Instruction::AddVxKk(x, kk) => (spec_add_vx_kk(m, x, kk), g, Ok(())),
        Instruction::LdVxVy(x, y) => (spec_ld_vx_vy(m, x, y), g, Ok(())),
        Instruction::OrVxVy(x, y) => (spec_or_vx_vy(m, x, y), g, Ok(())),
        Instruction::AndVxVy(x, y) => (spec_and_vx_vy(m, x, y), g, Ok(())),
        Instruction::XorVxVy(x, y) => (spec_xor_vx_vy(m, x, y), g, Ok(())),
        Instruction::AddVxVy(x, y) => (spec_add_vx_vy(m, x, y), g, Ok(())),
        Instruction::SubVxVy(x, y) => (spec_sub_vx_vy(m, x, y), g, Ok(())),
        Instruction::ShrVxVy(x, y) => (spec_shr_vx_vy(m, x, y), g, Ok(())),
        Instruction::SubnVxVy(x, y) => (spec_subn_vx_vy(m, x, y), g, Ok(())),
        Instruction::ShlVxVy(x, y) => (spec_shl_vx_vy(m, x, y), g, Ok(())),
        Instruction::SneVxVy(x, y) => (spec_sne_vx_vy(m, x, y), g, Ok(())),
        Instruction::LdINnn(nnn) => (spec_ld_i_nnn(m, nnn), g, Ok(())),
        Instruction::JpV0Nnn(nnn) => (spec_jp_v0_nnn(m, nnn), g, Ok(())),
        Instruction::RndVxKk(x, kk) => (spec_rnd_vx_kk(m, x, kk), g, Ok(())),
        Instruction::DrwVxVyN(x, y, n) => (
            spec_drw_vx_vy_n(m, x, y, n, g),
            crate::cpu_instructions::drw_grid(
                g,
                m.mem,
                m.i,
                m.v[x.0 as int],
                m.v[y.0 as int],
                n.0 as int,
            ),
            Ok(()),
        ),
        Instruction::SkpVx(x) => (spec_skp_vx(m, x), g, Ok(())),
        Instruction::SknpVx(x) => (spec_sknp_vx(m, x), g, Ok(())),
        Instruction::LdVxDt(x) => (spec_ld_vx_dt(m, x), g, Ok(())),
        Instruction::LdVxK(x) => (spec_ld_vx_k(m, x), g, Ok(())),
        Instruction::LdDtVx(x) => (spec_ld_dt_vx(m, x), g, Ok(())),
        Instruction::LdStVx(x) => (spec_ld_st_vx(m, x), g, Ok(())),
        Instruction::AddIVx(x) => (spec_add_i_vx(m, x), g, Ok(())),
        Instruction::LdFVx(x) => (spec_ld_f_vx(m, x), g, Ok(())),
        Instruction::LdBVx(x) => (spec_ld_b_vx(m, x), g, Ok(())),
        Instruction::LdIVx(x) => (spec_ld_i_vx(m, x), g, Ok(())),
        Instruction::LdVxI(x) => (spec_ld_vx_i(m, x), g, Ok(())),
    }
}

/// One engine step: fetch the opcode at PC, decode it, execute it, and if
/// the instruction asked for a repaint, commit the frame and clear the
/// flag. A decode error or a stack underflow stops the step with the
/// machine as it stood.
pub open spec fn spec_step(s: StepView) -> (StepView, Result<(), CpuError>) {
    let op = spec_fetch(s.m);
    match crate::cpu_decoder::spec_decode(op) {
        Err(e) => (s, Err(CpuError::Decode(e))),
        Ok(instr) => {
            let (m1, g1, r1) = spec_execute(s.m, s.grid, instr);
            match r1 {
                Err(e) => (StepView { m: m1, grid: g1, ..s }, Err(e)),
                Ok(_) => if m1.repaint {
                    (
                        StepView {
                            m: MachineView { repaint: false, ..m1 },
                            grid: g1,
                            presented: true,
                        },
                        Ok(()),
                    )
                } else {
                    (StepView { m: m1, grid: g1, ..s }, Ok(()))
                },
            }
        },
    }
}

/// `k` engine steps in a row; the first error stops the batch with the
/// machine as it stood at that point.
pub open spec fn spec_run_steps(s: StepView, k: nat) -> (StepView, Result<(), CpuError>)
    decreases k,
{
    if k == 0 {
        (s, Ok(()))
    } else {
        let (s1, r1) = spec_step(s);
        if r1 is Err {
            (s1, r1)
        } else {
            spec_run_steps(s1, (k - 1) as nat)
        }
    }
}

/// One cycle: nothing happens on a halted machine; otherwise a batch of
/// `STEPS_PER_CYCLE` steps runs and, if none failed, both timers tick
/// once.
pub open spec fn spec_cycle(s: StepView) -> (StepView, Result<(), CpuError>) {
    if s.m.halted {
        (s, Ok(()))
    } else {
        let (s1, r1) = spec_run_steps(s, 10);
        if r1 is Err {
            (s1, r1)
        } else {
            (
                StepView {
                    m: MachineView { dt: tick(s1.m.dt), st: tick(s1.m.st), ..s1.m },
                    ..s1
                },
                Ok(()),
            )
        }
    }
}

/// Executing any well-formed instruction preserves the data-model
/// invariant: together with [`lemma_machine_bounds`], the bounds on PC, I,
/// the registers, SP and the timers hold in every reachable machine.
#[verifier::rlimit(60)]
pub proof fn lemma_execute_preserves_wf(m: MachineView, g: Seq<Seq<bool>>, instr: Instruction)
    requires
        m.wf(),
        crate::cpu_decoder::instr_wf(instr),
    ensures
        spec_execute(m, g, instr).0.wf(),
{
    match instr {
        Instruction::LdIVx(x) => {
            crate::cpu_instructions::lemma_store_regs_len(m.mem, m.i, m.v, (x.0 + 1) as nat);
        },
        Instruction::LdVxI(x) => {
            crate::cpu_instructions::lemma_load_regs_len(m.v, m.mem, m.i, (x.0 + 1) as nat);
        },
        _ => {},
    }
}

/// One engine step preserves the data-model invariant.
pub proof fn lemma_step_preserves_wf(s: StepView)
    requires
        s.m.wf(),
    ensures
        spec_step(s).0.m.wf(),
{
    let op = spec_fetch(s.m);
    crate::cpu_decoder::lemma_decode_wf(op);
    match crate::cpu_decoder::spec_decode(op) {
        Err(_) => {},
        Ok(instr) => {
            lemma_execute_preserves_wf(s.m, s.grid, instr);
        },
    }
}

/// A batch of steps preserves the data-model invariant.
pub proof fn lemma_run_steps_preserves_wf(s: StepView, k: nat)
    requires
        s.m.wf(),
    ensures
        spec_run_steps(s, k).0.m.wf(),
    decreases k,
{
    if k > 0 {
        lemma_step_preserves_wf(s);
        let (s1, r1) = spec_step(s);
        if !(r1 is Err) {
            lemma_run_steps_preserves_wf(s1, (k - 1) as nat);
        }
    }
}

/// A whole cycle preserves the data-model invariant, so the invariant holds
/// of every state the machine can reach from a well-formed one.
pub proof fn lemma_cycle_preserves_wf(s: StepView)
    requires
        s.m.wf(),
    ensures
        spec_cycle(s).0.m.wf(),
{
    if !s.m.halted {
        lemma_run_steps_preserves_wf(s, 10);
    }
}

impl CPU {
    /// Run one decoded instruction against the machine and the display.
    pub fn execute<S: ScreenDraw>(
        state: &mut CPUState,
        screen_draw: &mut S,
        op: Instruction,
    ) -> (r: Result<(), CpuError>)
        requires
            old(state).wf(),
            old(screen_draw).wf(),
            crate::cpu_decoder::instr_wf(op),
        ensures
            final(state).wf(),
            final(screen_draw).wf(),
            ({
                let (m1, g1, r1) = spec_execute(old(state)@, old(screen_draw).grid(), op);
                &&& r == r1
                &&& final(state)@ == m1
                &&& final(screen_draw).grid() == g1
                &&& final(screen_draw).presented() == old(screen_draw).presented()
            }),
    {
        match op {
            Instruction::Sys => sys(state),
            Instruction::Cls => cls(state, screen_draw),
            Instruction::Ret => {
                return ret(state);
            },
            Instruction::JpNnn(nnn) => jp_nnn(state, nnn),
            Instruction::CallNnn(nnn) => call_nnn(state, nnn),
            Instruction::SeVxKk(x, kk) => se_vx_kk(state, x, kk),
            Instruction::SneVxKk(x, kk) => sne_vx_kk(state, x, kk),
            Instruction::SeVxVy(x, y) => se_vx_vy(state, x, y),
            Instruction::LdVxKk(x, kk) => ld_vx_kk(state, x, kk),
            Instruction::AddVxKk(x, kk) => add_vx_kk(state, x, kk),
            Instruction::LdVxVy(x, y) => ld_vx_vy(state, x, y),
            Instruction::OrVxVy(x, y) => or_vx_vy(state, x, y),
            Instruction::AndVxVy(x, y) => and_vx_vy(state, x, y),
            Instruction::XorVxVy(x, y) => xor_vx_vy(state, x, y),
            Instruction::AddVxVy(x, y) => add_vx_vy(state, x, y),
            Instruction::SubVxVy(x, y) => sub_vx_vy(state, x, y),
            Instruction::ShrVxVy(x, y) => shr_vx_vy(state, x, y),
            Instruction::SubnVxVy(x, y) => subn_vx_vy(state, x, y),
            Instruction::ShlVxVy(x, y) => shl_vx_vy(state, x, y),
            Instruction::SneVxVy(x, y) => sne_vx_vy(state, x, y),
            Instruction::LdINnn(nnn) => ld_i_nnn(state, nnn),
            Instruction::JpV0Nnn(nnn) => jp_v0_nnn(state, nnn),
            Instruction::RndVxKk(x, kk) => rnd_vx_kk(state, x, kk),
            Instruction::DrwVxVyN(x, y, n) => drw_vx_vy_n(state, screen_draw, x, y, n),
            Instruction::SkpVx(x) => skp_vx(state, x),
            Instruction::SknpVx(x) => sknp_vx(state, x),
            Instruction::LdVxDt(x) => ld_vx_dt(state, x),
            Instruction::LdVxK(x) => ld_vx_k(state, x),
            Instruction::LdDtVx(x) => ld_dt_vx(state, x),
            Instruction::LdStVx(x) => ld_st_vx(state, x),
            Instruction::AddIVx(x) => add_i_vx(state, x),
            Instruction::LdFVx(x) => ld_f_vx(state, x),
            Instruction::LdBVx(x) => ld_b_vx(state, x),
            Instruction::LdIVx(x) => ld_i_vx(state, x),
            Instruction::LdVxI(x) => ld_vx_i(state, x),
        }
        Ok(())
    }

    /// Fetch, decode and execute the opcode at PC, then commit a frame if
    /// the instruction asked for one.
    pub fn step<S: ScreenDraw>(state: &mut CPUState, screen_draw: &mut S) -> (r: Result<
        (),
        CpuError,
    >)
        requires
            old(state).wf(),
            old(screen_draw).wf(),
        ensures
            final(state).wf(),
            final(screen_draw).wf(),
            ({
                let (s1, r1) = spec_step(StepView {
                    m: old(state)@,
                    grid: old(screen_draw).grid(),
                    presented: old(screen_draw).presented(),
                });
                &&& r == r1
                &&& final(state)@ == s1.m
                &&& final(screen_draw).grid() == s1.grid
                &&& final(screen_draw).presented() == s1.presented
            }),
    {
        let opcode = state.fetch();
        let op = match crate::cpu_decoder::decode(opcode) {
            Ok(op) => op,
            Err(e) => {
                return Err(CpuError::Decode(e));
            },
        };
        proof {
            crate::cpu_decoder::lemma_decode_wf(opcode);
        }
        match CPU::execute(state, screen_draw, op) {
            Ok(_) => {},
            Err(e) => {
                return Err(e);
            },
        }
        if state.repaint {
            screen_draw.repaint();
            state.repaint = false;
        }
        Ok(())
    }

    /// Run `k` steps, stopping at the first error.
    fn run_steps<S: ScreenDraw>(state: &mut CPUState, screen_draw: &mut S, k: usize) -> (r:
        Result<(), CpuError>)
        requires
            old(state).wf(),
            old(screen_draw).wf(),
        ensures
            final(state).wf(),
            final(screen_draw).wf(),
            ({
                let (s1, r1) = spec_run_steps(
                    StepView {
                        m: old(state)@,
                        grid: old(screen_draw).grid(),
                        presented: old(screen_draw).presented(),
                    },
                    k as nat,
                );
                &&& r == r1
                &&& final(state)@ == s1.m
                &&& final(screen_draw).grid() == s1.grid
                &&& final(screen_draw).presented() == s1.presented
            }),
        decreases k,
    {
        if k == 0 {
            return Ok(());
        }
        match CPU::step(state, screen_draw) {
            Ok(_) => {},
            Err(e) => {
                return Err(e);
            },
        }
        CPU::run_steps(state, screen_draw, k - 1)
    }

    /// One cycle of the engine: on a live machine, `STEPS_PER_CYCLE` steps
    /// followed by one timer tick; the first error propagates out and
    /// skips the tick. A halted machine is left untouched.
    pub fn cycle<S: ScreenDraw>(state: &mut CPUState, screen_draw: &mut S) -> (r: Result<
        (),
        CpuError,
    >)
        requires
            old(state).wf(),
            old(screen_draw).wf(),
        ensures
            final(state).wf(),
            final(screen_draw).wf(),
            ({
                let (s1, r1) = spec_cycle(StepView {
                    m: old(state)@,
                    grid: old(screen_draw).grid(),
                    presented: old(screen_draw).presented(),
                });
                &&& r == r1
                &&& final(state)@ == s1.m
                &&& final(screen_draw).grid() == s1.grid
                &&& final(screen_draw).presented() == s1.presented
            }),
    {
        if state.halted {
            return Ok(());
        }
        match CPU::run_steps(state, screen_draw, STEPS_PER_CYCLE) {
            Ok(_) => {},
            Err(e) => {
                return Err(e);
            },
        }
        state.update_timers();
        Ok(())
    }
}

} // verus!
