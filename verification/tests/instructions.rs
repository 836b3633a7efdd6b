// One test per instruction, mirroring the execution-engine harness: the
// opcode is written at PC, one engine step runs against a fresh console
// screen, then the timers tick once.

use chip8_core::console_screen::ConsoleScreen;
use chip8_core::cpu::{CPU, CPUState};

fn write_op(state: &mut CPUState, addr: usize, op: u16) {
    state.mem[addr] = (op >> 8) as u8;
    state.mem[addr + 1] = (op & 0xFF) as u8;
}

struct Harness {
    cpu: CPU,
    screen: ConsoleScreen,
    old_pc: u16,
}

fn run_one(op: u16, pre: impl FnOnce(&mut CPU)) -> Harness {
    let mut cpu = CPU::new_with_seed(0xC8C8);
    let pc = cpu.state.pc as usize;
    write_op(&mut cpu.state, pc, op);
    pre(&mut cpu);
    let mut screen = ConsoleScreen::new();
    let old_pc = cpu.state.pc;
    assert!(cpu.state.is_well_formed());
    CPU::step(&mut cpu.state, &mut screen).expect("expected to run successfully");
    cpu.state.update_timers();
    Harness { cpu, screen, old_pc }
}

fn expect_inc(h: &Harness) {
    assert_eq!(h.cpu.state.pc, h.old_pc + 2);
}

#[test]
fn test_sys() {
    let h = run_one(0x0666, |_| {});
    expect_inc(&h);
}

#[test]
fn test_cls() {
    let h = run_one(0x00E0, |_| {});
    for y in 0..32 {
        for x in 0..64 {
            assert!(!h.screen.state.pixel(x, y));
        }
    }
    assert!(h.screen.drawn);
    expect_inc(&h);
}

#[test]
fn test_ld_vx_vy() {
    let h = run_one(0x8000 | 0 << 8 | 1 << 4, |cpu| {
        cpu.state.v[0] = 0xAA;
        cpu.state.v[1] = 0xBB;
    });
    let vy = h.cpu.state.v[1];
    assert_eq!(h.cpu.state.v[0], vy);
    assert_eq!(vy, 0xBB);
    expect_inc(&h);
}

#[test]
fn test_ld_vx_kk() {
    let h = run_one(0x6000 | 9 << 8 | 0xFF, |_| {});
    assert_eq!(h.cpu.state.v[9], 0xFF);
    expect_inc(&h);
}

#[test]
fn test_or_vx_vy() {
    let h = run_one(0x8001 | 1 << 8 | 2 << 4, |cpu| {
        cpu.state.v[1] = 0xBB;
        cpu.state.v[2] = 0xCC;
    });
    assert_eq!(h.cpu.state.v[1], 0xFF);
    assert_eq!(h.cpu.state.v[2], 0xCC);
    expect_inc(&h);
}

#[test]
fn test_and_vx_vy() {
    let h = run_one(0x8002 | 2 << 8 | 3 << 4, |cpu| {
        cpu.state.v[2] = 0xCC;
        cpu.state.v[3] = 0xDD;
    });
    assert_eq!(h.cpu.state.v[2], 0xCC);
    assert_eq!(h.cpu.state.v[3], 0xDD);
    expect_inc(&h);
}

fn xor_case(x: u16, y: u16) {
    let h = run_one(0x8003 | x << 8 | y << 4, move |cpu| {
        cpu.state.v[x as usize] = 0xDD;
        cpu.state.v[y as usize] = 0xEE;
    });
    assert_eq!(h.cpu.state.v[x as usize], 0x33);
    assert_eq!(h.cpu.state.v[y as usize], 0xEE);
    expect_inc(&h);
}

#[test]
fn test_xor_vx_vy() {
    xor_case(3, 4);
}

fn add_case(x: u16, y: u16, x_val: u8, y_val: u8, carry: bool, result: u16) {
    let h = run_one(0x8004 | x << 8 | y << 4, move |cpu| {
        cpu.state.v[x as usize] = x_val;
        cpu.state.v[y as usize] = y_val;
    });
    assert_eq!(h.cpu.state.v[x as usize], result as u8);
    assert_eq!(h.cpu.state.v[y as usize], y_val);
    assert_eq!(h.cpu.state.v[0xF], if carry { 1 } else { 0 });
    expect_inc(&h);
}

#[test]
fn test_add_vx_vy() {
    add_case(4, 5, 0x44, 0xAA, false, 0xEE);
    add_case(4, 5, 0xAA, 0xAA, true, 0x54);
}

fn subx_case(x: u16, y: u16, x_val: u8, y_val: u8, no_borrow: bool, result: u16, op_code: u16) {
    let h = run_one(op_code | x << 8 | y << 4, move |cpu| {
        cpu.state.v[x as usize] = x_val;
        cpu.state.v[y as usize] = y_val;
    });
    assert_eq!(h.cpu.state.v[x as usize], result as u8);
    assert_eq!(h.cpu.state.v[y as usize], y_val);
    assert_eq!(h.cpu.state.v[0xF], if no_borrow { 1 } else { 0 });
    expect_inc(&h);
}

#[test]
fn test_sub_vx_vy() {
    subx_case(4, 5, 0xAA, 0x22, true, 0x88, 0x8005);
    subx_case(4, 5, 0x22, 0xDD, false, 0x45, 0x8005);
    subx_case(4, 5, 0x01, 0x01, true, 0x00, 0x8005);
}

#[test]
fn test_subn_vx_vy() {
    subx_case(6, 7, 0x22, 0xAA, true, 0x88, 0x8007);
    subx_case(6, 7, 0xDD, 0x22, false, 0x45, 0x8007);
}

fn shx_case(
    x: u16,
    y: u16,
    x_val: u8,
    y_val: u8,
    exp_x: u8,
    exp_y: u8,
    reg_f: u8,
    quirks_enabled: bool,
    op_code: u16,
) {
    let h = run_one(op_code | x << 8 | y << 4, move |cpu| {
        cpu.state.quirks.shift = quirks_enabled;
        cpu.state.v[x as usize] = x_val;
        cpu.state.v[y as usize] = y_val;
    });
    assert_eq!(h.cpu.state.v[x as usize], exp_x);
    assert_eq!(h.cpu.state.v[y as usize], exp_y);
    assert_eq!(h.cpu.state.v[0xF], reg_f);
    expect_inc(&h);
}

#[test]
fn test_shr_vx_vy_quirks_disabled() {
    shx_case(5, 6, 0x11, 0x44, 0x22, 0x44, 0x0, false, 0x8006);
    shx_case(5, 6, 0x11, 0x45, 0x22, 0x45, 0x1, false, 0x8006);
}

#[test]
fn test_shr_vx_vy_quirks_enabled() {
    shx_case(5, 6, 0x44, 0x11, 0x22, 0x11, 0x0, true, 0x8006);
    shx_case(5, 6, 0x45, 0x11, 0x22, 0x11, 0x1, true, 0x8006);
}

#[test]
fn test_shl_vx_vy_quirks_disabled() {
    shx_case(0x4, 0x5, 0x22, 0x44, 0x88, 0x44, 0x0, false, 0x800E);
    shx_case(0x4, 0x5, 0x22, 0x45, 0x8A, 0x45, 0x0, false, 0x800E);
    shx_case(0x4, 6, 0x22, 0xFF, 0xFE, 0xFF, 0x1, false, 0x800E);
    shx_case(0x4, 7, 0x22, 0x7F, 0xFE, 0x7F, 0x0, false, 0x800E);
}

#[test]
fn test_shl_vx_vy_quirks_enabled() {
    shx_case(0x4, 0x5, 0x44, 0x22, 0x88, 0x22, 0x0, true, 0x800E);
    shx_case(0x4, 0x5, 0x45, 0x22, 0x8A, 0x22, 0x0, true, 0x800E);
    shx_case(0x4, 6, 0xFF, 0x22, 0xFE, 0x22, 0x1, true, 0x800E);
    shx_case(0x4, 7, 0x7F, 0x22, 0xFE, 0x22, 0x0, true, 0x800E);
}

#[test]
fn test_add_vx_kk() {
    let h = run_one(0x7000 | 0x8 << 8 | 0x55, |cpu| {
        cpu.state.v[0x8] = 0x30;
    });
    assert_eq!(h.cpu.state.v[0x8], 0x85);
    expect_inc(&h);
}

fn sne_vx_vy_case(x: u16, y: u16, x_val: u8, y_val: u8, pc_offset: u16) {
    let h = run_one(0x9000 | x << 8 | y << 4, move |cpu| {
        cpu.state.v[x as usize] = x_val;
        cpu.state.v[y as usize] = y_val;
    });
    assert_eq!(h.cpu.state.pc, h.old_pc + pc_offset);
    assert_eq!(h.cpu.state.v[x as usize], x_val);
    assert_eq!(h.cpu.state.v[y as usize], y_val);
}

#[test]
fn test_sne_vx_vy() {
    sne_vx_vy_case(6, 7, 10, 10, 2);
    sne_vx_vy_case(6, 7, 10, 20, 4);
}

fn snx_vx_kk_case(x: u16, x_val: u8, byte: u8, pc_offset: u16, op_code: u16) {
    let h = run_one(op_code | x << 8 | byte as u16, move |cpu| {
        cpu.state.v[x as usize] = x_val;
    });
    assert_eq!(h.cpu.state.pc, h.old_pc + pc_offset);
    assert_eq!(h.cpu.state.v[x as usize], x_val);
}

#[test]
fn test_sne_vx_kk() {
    snx_vx_kk_case(6, 10, 10, 2, 0x4000);
    snx_vx_kk_case(8, 10, 60, 4, 0x4000);
}

#[test]
fn test_se_vx_kk() {
    snx_vx_kk_case(0xA, 0x60, 0x60, 4, 0x3000);
    snx_vx_kk_case(0xA, 0x30, 0x60, 2, 0x3000);
}

fn se_vx_vy_case(x: u16, y: u16, x_val: u8, y_val: u8, pc_offset: u16) {
    let h = run_one(0x5000 | x << 8 | y << 4, move |cpu| {
        cpu.state.v[x as usize] = x_val;
        cpu.state.v[y as usize] = y_val;
    });
    assert_eq!(h.cpu.state.pc, h.old_pc + pc_offset);
    assert_eq!(h.cpu.state.v[x as usize], x_val);
    assert_eq!(h.cpu.state.v[y as usize], y_val);
}

#[test]
fn test_se_vx_vy() {
    se_vx_vy_case(8, 9, 20, 20, 4);
    se_vx_vy_case(8, 9, 20, 40, 2);
}

fn jp_nnn_case(addr: u16) {
    let h = run_one(0x1000 | addr, |_| {});
    assert_eq!(h.cpu.state.pc, addr);
}

#[test]
fn test_jp_nnn() {
    jp_nnn_case(0x0AAA);
    jp_nnn_case(0x0FFF);
}

fn ret_case(stack: Vec<u16>, sp: u8, expected_pc: u16) {
    let h = run_one(0x00EE, move |cpu| {
        for (i, x) in stack.iter().enumerate() {
            cpu.state.stack[i] = *x;
        }
        cpu.state.sp = sp;
    });
    assert_eq!(h.cpu.state.pc, expected_pc);
    assert_eq!(h.cpu.state.sp, sp - 1);
}

#[test]
fn test_ret() {
    ret_case(vec![0x33], 1, 0x35);
    ret_case(vec![0xAA, 0xBB, 0xCC], 3, 0xCE);
}

fn call_nnn_case(addr: u16) {
    let h = run_one(0x2000 | addr, |_| {});
    assert_eq!(h.cpu.state.pc, addr);
    assert_eq!(h.cpu.state.stack[0], h.old_pc);
    assert_eq!(h.cpu.state.sp, 1);
}

#[test]
fn test_call_nnn() {
    call_nnn_case(0xAA);
    call_nnn_case(0xBB);
    call_nnn_case(0xCC);
}

#[test]
fn test_ld_i_nnn() {
    let h = run_one(0xA000 | 0xCCC, |_| {});
    assert_eq!(h.cpu.state.i, 0xCCC);
    expect_inc(&h);
}

fn jp_v0_nnn_case(v0: u8, addr: u16, expected_pc: u16) {
    let h = run_one(0xB000 | addr, move |cpu| {
        cpu.state.v[0] = v0;
    });
    assert_eq!(h.cpu.state.pc, expected_pc);
    assert_eq!(h.cpu.state.v[0], v0);
}

#[test]
fn test_jp_v0_nnn() {
    jp_v0_nnn_case(0x44, 0x555, 0x599);
    jp_v0_nnn_case(0x1, 0xFFF, 0x000);
}

#[test]
fn test_rnd_vx_kk() {
    let x: u16 = 0xA;
    let h = run_one(0xC000 | x << 8 | 1, |_| {});
    assert!([0u8, 1u8].contains(&h.cpu.state.v[x as usize]));
    expect_inc(&h);
}

#[test]
fn test_ld_b_vx() {
    let x: u16 = 0xA;
    let h = run_one(0xF033 | x << 8, |cpu| {
        cpu.state.i = 0x0AAA;
        cpu.state.v[0xA] = 123;
    });
    assert_eq!(h.cpu.state.i, 0x0AAA);
    let i = h.cpu.state.i as usize;
    assert_eq!(h.cpu.state.mem[i], 1);
    assert_eq!(h.cpu.state.mem[i + 1], 2);
    assert_eq!(h.cpu.state.mem[i + 2], 3);
    expect_inc(&h);
}

#[test]
fn test_ld_vx_dt() {
    let x: u16 = 0xE;
    let dt: u8 = 0x20;
    let h = run_one(0xF007 | x << 8, move |cpu| {
        cpu.state.dt = dt;
    });
    assert_eq!(h.cpu.state.v[x as usize], dt);
    assert_eq!(h.cpu.state.dt, dt - 1);
    expect_inc(&h);
}

#[test]
fn test_ld_dt_vx() {
    let x: u16 = 0xD;
    let x_val: u8 = 0x55;
    let h = run_one(0xF015 | x << 8, move |cpu| {
        cpu.state.v[x as usize] = x_val;
    });
    assert_eq!(h.cpu.state.v[x as usize], x_val);
    expect_inc(&h);
}

#[test]
fn test_ld_st_vx() {
    let x: u16 = 0xC;
    let x_val: u8 = 0x66;
    let h = run_one(0xF018 | x << 8, move |cpu| {
        cpu.state.v[x as usize] = x_val;
    });
    assert_eq!(h.cpu.state.v[x as usize], x_val);
    assert_eq!(h.cpu.state.st, x_val - 1);
    expect_inc(&h);
}

fn add_i_vx_case(x: u16, x_val: u8, i: u16, result: u16) {
    let h = run_one(0xF01E | x << 8, move |cpu| {
        cpu.state.i = i;
        cpu.state.v[x as usize] = x_val;
    });
    assert_eq!(h.cpu.state.i, result);
    assert_eq!(h.cpu.state.v[x as usize], x_val);
    expect_inc(&h);
}

#[test]
fn test_add_i_vx() {
    add_i_vx_case(0xB, 0x33, 0x22, 0x55);
    add_i_vx_case(0xA, 0xFF, 0x1, 0x100);
    add_i_vx_case(0xC, 0x01, 0xFFF, 0);
}

fn ld_i_vx_case(x: u16, i_val: u16, i_expected: u16, regs: Vec<u8>, quirks_enabled: bool) {
    let h = run_one(0xF055 | x << 8, move |cpu| {
        cpu.state.i = i_val;
        cpu.state.quirks.load_store = quirks_enabled;
        for (i, r) in regs.iter().enumerate() {
            cpu.state.v[i] = *r;
        }
    });
    assert_eq!(h.cpu.state.i, i_expected);
    for k in 0..=(x as usize) {
        assert_eq!(h.cpu.state.mem[i_val as usize + k], h.cpu.state.v[k]);
    }
    expect_inc(&h);
}

#[test]
fn test_ld_i_vx_quirks_disabled() {
    ld_i_vx_case(0x5, 0x0A00, 0x0A06, vec![0x5, 0x6, 0x7, 0x8, 0x9, 0xA], false);
    ld_i_vx_case(
        0xF,
        0x0A00,
        0x0A10,
        vec![0x0, 0x1, 0x2, 0x3, 0x4, 0x5, 0x6, 0x7, 0x8, 0x9, 0xA, 0xB, 0xC, 0xD, 0xE, 0xF],
        false,
    );
}

#[test]
fn test_ld_i_vx_quirks_enabled() {
    ld_i_vx_case(0x5, 0x0A00, 0x0A00, vec![0x5, 0x6, 0x7, 0x8, 0x9, 0xA], true);
    ld_i_vx_case(
        0xF,
        0x0A00,
        0x0A00,
        vec![0x0, 0x1, 0x2, 0x3, 0x4, 0x5, 0x6, 0x7, 0x8, 0x9, 0xA, 0xB, 0xC, 0xD, 0xE, 0xF],
        true,
    );
}

fn ld_vx_i_case(x: u16, i_val: u16, i_expected: u16, mem: Vec<u8>, quirks_enabled: bool) {
    let h = run_one(0xF065 | x << 8, move |cpu| {
        cpu.state.i = i_val;
        cpu.state.quirks.load_store = quirks_enabled;
        for (i, b) in mem.iter().enumerate() {
            cpu.state.mem[i_val as usize + i] = *b;
        }
    });
    assert_eq!(h.cpu.state.i, i_expected);
    for k in 0..=(x as usize) {
        assert_eq!(h.cpu.state.mem[i_val as usize + k], h.cpu.state.v[k]);
    }
    expect_inc(&h);
}

#[test]
fn test_ld_vx_i_quirks_disabled() {
    ld_vx_i_case(0x6, 0x0B00, 0x0B07, vec![0x3, 0x4, 0x5, 0x6, 0x7, 0x8, 0x9], false);
    ld_vx_i_case(
        0xF,
        0x0B00,
        0x0B10,
        vec![0x0, 0x1, 0x2, 0x3, 0x4, 0x5, 0x6, 0x7, 0x8, 0x9, 0xA, 0xB, 0xC, 0xD, 0xE, 0xF],
        false,
    );
}

#[test]
fn test_ld_vx_i_quirks_enabled() {
    ld_vx_i_case(0x6, 0x0B00, 0x0B00, vec![0x3, 0x4, 0x5, 0x6, 0x7, 0x8, 0x9], true);
    ld_vx_i_case(
        0xF,
        0x0B00,
        0x0B00,
        vec![0x0, 0x1, 0x2, 0x3, 0x4, 0x5, 0x6, 0x7, 0x8, 0x9, 0xA, 0xB, 0xC, 0xD, 0xE, 0xF],
        true,
    );
}

#[test]
fn test_ld_vx_k() {
    let x: u16 = 0x5;
    let key = '6';
    let mut h = run_one(0xF00A | x << 8, |_| {});
    assert!(h.cpu.state.halted);
    h.cpu.key_down(key as u8);
    assert_eq!(h.cpu.state.v[x as usize], key as u8);
    assert!(!h.cpu.state.halted);
}

fn skp_case(x: u16, x_val: u8, pressed: bool, key: u8, should_skip: bool, op_code: u16) {
    let h = run_one(op_code | x << 8, move |cpu| {
        cpu.state.v[x as usize] = x_val;
        if pressed {
            cpu.key_down(key);
        }
    });
    if should_skip {
        assert_eq!(h.cpu.state.pc, h.old_pc + 4);
    } else {
        assert_eq!(h.cpu.state.pc, h.old_pc + 2);
    }
}

#[test]
fn test_skp_vx() {
    skp_case(0x6, 0xA, true, 0xA, true, 0xE09E);
    skp_case(0x6, 0xB, true, 0xA, false, 0xE09E);
    skp_case(0x6, 0xC, false, 0xA, false, 0xE09E);
}

#[test]
fn test_sknp_vx() {
    skp_case(0x6, 0xA, false, 0xA, true, 0xE0A1);
    skp_case(0x6, 0xB, true, 0xA, true, 0xE0A1);
    skp_case(0x6, 0xB, true, 0xB, false, 0xE0A1);
}
