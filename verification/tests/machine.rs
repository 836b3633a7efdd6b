// End-to-end scenarios run through `load_program` and the engine, the
// boundary cases of the arithmetic instructions, the error paths, and the
// round-trip / idempotence properties on concrete values.

use chip8_core::console_screen::ConsoleScreen;
use chip8_core::cpu::{CPU, CpuError};
use chip8_core::cpu_decoder::{decode, DecodeError, Instruction};
use chip8_core::cpu_instructions::{X, KK, NNN};

fn program_words(words: &[u16]) -> Vec<u8> {
    let mut bytes = Vec::new();
    for w in words {
        bytes.push((w >> 8) as u8);
        bytes.push((w & 0xFF) as u8);
    }
    bytes
}

fn boot(words: &[u16]) -> (CPU, ConsoleScreen) {
    let mut cpu = CPU::new_with_seed(7);
    cpu.load_program(program_words(words)).expect("program fits");
    (cpu, ConsoleScreen::new())
}

fn steps(cpu: &mut CPU, screen: &mut ConsoleScreen, n: usize) {
    for _ in 0..n {
        CPU::step(&mut cpu.state, screen).expect("step runs");
    }
}

#[test]
fn scenario_arithmetic_and_cls() {
    let (mut cpu, mut screen) = boot(&[0x6005, 0x610A, 0x8014, 0x00E0]);
    steps(&mut cpu, &mut screen, 4);
    assert_eq!(cpu.state.v[0], 0x0F);
    assert_eq!(cpu.state.v[1], 0x0A);
    assert_eq!(cpu.state.v[0xF], 0);
    for y in 0..32 {
        for x in 0..64 {
            assert!(!screen.state.pixel(x, y));
        }
    }
    assert_eq!(cpu.state.pc, 0x208);
}

#[test]
fn scenario_bcd() {
    let (mut cpu, mut screen) = boot(&[0x6A7B, 0xA300, 0xFA33]);
    steps(&mut cpu, &mut screen, 3);
    assert_eq!(cpu.state.v[0xA], 123);
    assert_eq!(cpu.state.mem[0x300], 1);
    assert_eq!(cpu.state.mem[0x301], 2);
    assert_eq!(cpu.state.mem[0x302], 3);
}

#[test]
fn scenario_draw_digit_zero() {
    // draw the five-byte digit-0 glyph (F0 90 90 90 F0) at (0, 1)
    let (mut cpu, mut screen) = boot(&[0x6000, 0x6101, 0xA300, 0xD015]);
    let glyph = [0xF0u8, 0x90, 0x90, 0x90, 0xF0];
    for (k, b) in glyph.iter().enumerate() {
        cpu.state.mem[0x300 + k] = *b;
    }
    steps(&mut cpu, &mut screen, 4);
    for (row, b) in glyph.iter().enumerate() {
        for col in 0..8 {
            let lit = (b & (0x80 >> col)) != 0;
            assert_eq!(screen.state.pixel(col, row + 1), lit);
        }
    }
    assert!(!screen.state.pixel(0, 0));
    assert_eq!(cpu.state.v[0xF], 0);
    assert!(screen.drawn);
}

#[test]
fn scenario_call_and_return() {
    let (mut cpu, mut screen) = boot(&[0x2204, 0x00E0, 0x6042, 0x00EE]);
    steps(&mut cpu, &mut screen, 3);
    assert_eq!(cpu.state.pc, 0x202);
    assert_eq!(cpu.state.sp, 0);
    assert_eq!(cpu.state.v[0], 0x42);
}

#[test]
fn scenario_skip() {
    let (mut cpu, mut screen) = boot(&[0x6007, 0x3007, 0x0000, 0x6008]);
    steps(&mut cpu, &mut screen, 3);
    assert_eq!(cpu.state.v[0], 8);
}

#[test]
fn scenario_draw_wraps_horizontally() {
    let (mut cpu, mut screen) = boot(&[0xD012]);
    cpu.state.v[0] = 62;
    cpu.state.v[1] = 0;
    cpu.state.i = 0x300;
    cpu.state.mem[0x300] = 0xFF;
    cpu.state.mem[0x301] = 0xFF;
    steps(&mut cpu, &mut screen, 1);
    for row in 0..2 {
        for col in [62usize, 63, 0, 1, 2, 3, 4, 5] {
            assert!(screen.state.pixel(col, row));
        }
        assert!(!screen.state.pixel(6, row));
        assert!(!screen.state.pixel(61, row));
    }
    assert!(!screen.state.pixel(0, 2));
    assert_eq!(cpu.state.v[0xF], 0);
}

#[test]
fn add_carry_boundary() {
    let (mut cpu, mut screen) = boot(&[0x8014]);
    cpu.state.v[0] = 0xFF;
    cpu.state.v[1] = 0x01;
    steps(&mut cpu, &mut screen, 1);
    assert_eq!(cpu.state.v[0], 0x00);
    assert_eq!(cpu.state.v[0xF], 1);
}

#[test]
fn sub_borrow_boundaries() {
    let (mut cpu, mut screen) = boot(&[0x8015]);
    cpu.state.v[0] = 0x05;
    cpu.state.v[1] = 0x05;
    steps(&mut cpu, &mut screen, 1);
    assert_eq!(cpu.state.v[0], 0x00);
    assert_eq!(cpu.state.v[0xF], 1);

    let (mut cpu2, mut screen2) = boot(&[0x8015]);
    cpu2.state.v[0] = 0x00;
    cpu2.state.v[1] = 0x01;
    steps(&mut cpu2, &mut screen2, 1);
    assert_eq!(cpu2.state.v[0], 0xFF);
    assert_eq!(cpu2.state.v[0xF], 0);
}

#[test]
fn jump_v0_wraps_to_zero() {
    let (mut cpu, mut screen) = boot(&[0xBFFF]);
    cpu.state.v[0] = 0x01;
    steps(&mut cpu, &mut screen, 1);
    assert_eq!(cpu.state.pc, 0x000);
}

#[test]
fn decode_rejects_illegal_opcodes() {
    for op in [0x5001u16, 0x8008, 0x800F, 0x9005, 0xE000, 0xE0FF, 0xF000, 0xF0FF] {
        assert_eq!(decode(op), Err(DecodeError(op)));
    }
}

#[test]
fn decode_accepts_the_table() {
    assert_eq!(decode(0x00E0), Ok(Instruction::Cls));
    assert_eq!(decode(0x00EE), Ok(Instruction::Ret));
    assert_eq!(decode(0x0123), Ok(Instruction::Sys));
    assert_eq!(decode(0x1ABC), Ok(Instruction::JpNnn(NNN(0xABC))));
    assert_eq!(decode(0x6B42), Ok(Instruction::LdVxKk(X(0xB), KK(0x42))));
    assert_eq!(decode(0xFA65), Ok(Instruction::LdVxI(X(0xA))));
}

#[test]
fn step_surfaces_decode_error() {
    let (mut cpu, mut screen) = boot(&[0xF0FF]);
    let r = CPU::step(&mut cpu.state, &mut screen);
    assert_eq!(r, Err(CpuError::Decode(DecodeError(0xF0FF))));
}

#[test]
fn ret_on_empty_stack_is_fatal() {
    let (mut cpu, mut screen) = boot(&[0x00EE]);
    let r = CPU::step(&mut cpu.state, &mut screen);
    assert_eq!(r, Err(CpuError::StackUnderflow));
    assert_eq!(cpu.state.pc, 0x200);
}

#[test]
fn load_program_rejects_oversized_rom() {
    let mut cpu = CPU::new_with_seed(1);
    let too_big = vec![0u8; 3585];
    assert_eq!(cpu.load_program(too_big), Err(CpuError::ProgramTooLarge));
    let just_fits = vec![0x11u8; 3584];
    assert_eq!(cpu.load_program(just_fits), Ok(()));
    assert_eq!(cpu.state.mem[0x200], 0x11);
    assert_eq!(cpu.state.mem[4095], 0x11);
}

#[test]
fn rnd_is_seed_deterministic_and_rolls_seed() {
    let (mut a, mut screen_a) = boot(&[0xC5FF, 0xC6FF]);
    let (mut b, mut screen_b) = boot(&[0xC5FF, 0xC6FF]);
    let seed_before = a.state.rng_seed;
    steps(&mut a, &mut screen_a, 2);
    steps(&mut b, &mut screen_b, 2);
    assert_eq!(a.state.v[5], b.state.v[5]);
    assert_eq!(a.state.v[6], b.state.v[6]);
    assert_ne!(a.state.rng_seed, seed_before);
    assert_ne!(a.state.rng_seed, a.state.v[5] as u64);
}

#[test]
fn store_load_roundtrip_with_quirk() {
    let (mut cpu, mut screen) = boot(&[0xF355, 0xF365]);
    cpu.state.quirks.load_store = true;
    cpu.state.i = 0x400;
    for k in 0..4 {
        cpu.state.v[k] = 0x90 + k as u8;
    }
    let regs_before = cpu.state.v.clone();
    steps(&mut cpu, &mut screen, 2);
    assert_eq!(cpu.state.v, regs_before);
    assert_eq!(cpu.state.i, 0x400);
}

#[test]
fn store_load_roundtrip_without_quirk_needs_i_reset() {
    let (mut cpu, mut screen) = boot(&[0xF355, 0xA400, 0xF365]);
    cpu.state.i = 0x400;
    for k in 0..4 {
        cpu.state.v[k] = 0x90 + k as u8;
    }
    let regs_before = cpu.state.v.clone();
    steps(&mut cpu, &mut screen, 1);
    assert_eq!(cpu.state.i, 0x404);
    steps(&mut cpu, &mut screen, 2);
    assert_eq!(cpu.state.v, regs_before);
}

#[test]
fn draw_twice_restores_framebuffer() {
    let (mut cpu, mut screen) = boot(&[0xD015, 0xD015]);
    cpu.state.v[0] = 10;
    cpu.state.v[1] = 5;
    cpu.state.i = 0x000; // the digit-0 glyph in the built-in font
    steps(&mut cpu, &mut screen, 1);
    assert!(screen.state.pixel(10, 5));
    steps(&mut cpu, &mut screen, 1);
    for y in 0..32 {
        for x in 0..64 {
            assert!(!screen.state.pixel(x, y));
        }
    }
    // the second draw un-drew every pixel it had lit, so it collided
    assert_eq!(cpu.state.v[0xF], 1);
}

#[test]
fn cls_twice_same_as_once() {
    let (mut cpu, mut screen) = boot(&[0xD015, 0x00E0, 0x00E0]);
    cpu.state.i = 0x000;
    steps(&mut cpu, &mut screen, 2);
    for y in 0..32 {
        for x in 0..64 {
            assert!(!screen.state.pixel(x, y));
        }
    }
    steps(&mut cpu, &mut screen, 1);
    for y in 0..32 {
        for x in 0..64 {
            assert!(!screen.state.pixel(x, y));
        }
    }
}

#[test]
fn cycle_runs_ten_steps_and_ticks_timers_once() {
    // twenty SYS no-ops; one cycle retires ten of them and one timer tick
    let (mut cpu, mut screen) = boot(&[0x0000; 20]);
    cpu.state.dt = 5;
    cpu.state.st = 1;
    CPU::cycle(&mut cpu.state, &mut screen).expect("cycle runs");
    assert_eq!(cpu.state.pc, 0x200 + 20);
    assert_eq!(cpu.state.dt, 4);
    assert_eq!(cpu.state.st, 0);
}

#[test]
fn cycle_on_halted_machine_is_a_no_op() {
    let (mut cpu, mut screen) = boot(&[0x6005]);
    cpu.state.halted = true;
    cpu.state.dt = 5;
    CPU::cycle(&mut cpu.state, &mut screen).expect("cycle runs");
    assert_eq!(cpu.state.pc, 0x200);
    assert_eq!(cpu.state.dt, 5);
}

#[test]
fn machine_invariants_hold_after_a_run() {
    let (mut cpu, mut screen) = boot(&[0x6005, 0x2208, 0x1FFE, 0x0000, 0xFA1E, 0x00EE]);
    for _ in 0..6 {
        let _ = CPU::step(&mut cpu.state, &mut screen);
    }
    assert!(cpu.state.is_well_formed());
    assert!(cpu.state.pc < 4096);
    assert!(cpu.state.i < 4096);
    assert!(cpu.state.sp < 16);
}

#[test]
fn font_is_installed_and_addressed_by_ld_f() {
    let (mut cpu, mut screen) = boot(&[0xF529]);
    assert_eq!(&cpu.state.mem[0..5], &[0xF0, 0x90, 0x90, 0x90, 0xF0]);
    assert_eq!(&cpu.state.mem[75..80], &[0xF0, 0x80, 0xF0, 0x80, 0x80]);
    cpu.state.v[5] = 0xA;
    steps(&mut cpu, &mut screen, 1);
    assert_eq!(cpu.state.i, 50);
}

#[test]
fn keyboard_latch_tracks_keys() {
    let mut cpu = CPU::new_with_seed(3);
    assert!(!cpu.state.keyboard.is_key_pressed(&0x4));
    cpu.key_down(0x4);
    assert!(cpu.state.keyboard.is_key_pressed(&0x4));
    cpu.key_up(0x4);
    assert!(!cpu.state.keyboard.is_key_pressed(&0x4));
}

#[test]
fn skp_consults_low_nibble_of_vx() {
    let (mut cpu, mut screen) = boot(&[0xE69E]);
    cpu.state.v[6] = 0x1A; // low nibble names key 0xA
    cpu.key_down(0xA);
    steps(&mut cpu, &mut screen, 1);
    assert_eq!(cpu.state.pc, 0x204);
}

#[test]
fn timers_saturate_at_zero() {
    let mut cpu = CPU::new_with_seed(9);
    cpu.state.dt = 1;
    cpu.state.st = 0;
    cpu.state.update_timers();
    assert_eq!(cpu.state.dt, 0);
    assert_eq!(cpu.state.st, 0);
    cpu.state.update_timers();
    assert_eq!(cpu.state.dt, 0);
    assert_eq!(cpu.state.st, 0);
}

#[test]
fn stop_makes_the_machine_done() {
    let mut cpu = CPU::new_with_seed(3);
    assert!(!cpu.is_done());
    cpu.stop();
    assert!(cpu.is_done());
}

#[test]
fn render_text_shows_lit_pixels() {
    let (mut cpu, mut screen) = boot(&[0xD011]);
    cpu.state.v[0] = 0;
    cpu.state.v[1] = 0;
    cpu.state.i = 0x300;
    cpu.state.mem[0x300] = 0x80; // one pixel at (0, 0)
    let blank = screen.render_text();
    assert_eq!(blank.len(), 32 * 64 + 31);
    assert!(blank.chars().all(|c| c == ' ' || c == '\n'));
    steps(&mut cpu, &mut screen, 1);
    let text = screen.render_text();
    assert_eq!(text.chars().next(), Some('*'));
    assert_eq!(text.chars().filter(|c| *c == '*').count(), 1);
}
