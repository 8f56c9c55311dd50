use chip8::decode::decode;
use chip8::exec::TICK_NANOS;
use chip8::font::FONT;
use chip8::state::{Chip8, Fault, FaultKind, WaitState};

fn machine_with(program: &[u8]) -> Chip8 {
    let mut c = Chip8::new();
    c.load(&program.to_vec());
    c
}

fn lit_pixels(c: &Chip8) -> usize {
    c.display.iter().map(|row| row.iter().filter(|p| **p == 1).count()).sum()
}

#[test]
fn new_machine_holds_font_and_starts_at_program() {
    let c = Chip8::new();
    assert_eq!(&c.memory[0..80], &FONT[..]);
    assert!(c.memory[80..].iter().all(|b| *b == 0));
    assert_eq!(c.program_counter, 0x200);
    assert_eq!(c.stack_pointer, 0);
    assert_eq!(c.waiting_keypress, WaitState::Running);
    assert_eq!(lit_pixels(&c), 0);
    assert!(c.draw);
}

#[test]
fn load_copies_program_at_0x200() {
    let c = machine_with(&[0x12, 0x34, 0x56]);
    assert_eq!(&c.memory[0x200..0x203], &[0x12, 0x34, 0x56]);
    assert_eq!(c.memory[0x203], 0);
    assert_eq!(c.read_opcode(), 0x1234);
}

#[test]
fn decode_splits_fields() {
    let d = decode(0xD4A7);
    assert_eq!(d.family, 0xD);
    assert_eq!(d.x, 0x4);
    assert_eq!(d.y, 0xA);
    assert_eq!(d.n, 0x7);
    assert_eq!(d.kk, 0xA7);
    assert_eq!(d.nnn, 0x4A7);
}

#[test]
fn add_xy_without_carry() {
    let mut c = Chip8::new();
    c.registers[1] = 100;
    c.registers[2] = 55;
    c.registers[0xF] = 7;
    c.add_xy(1, 2);
    assert_eq!(c.registers[1], 155);
    assert_eq!(c.registers[0xF], 0);
}

#[test]
fn add_xy_with_carry() {
    let mut c = Chip8::new();
    c.registers[1] = 200;
    c.registers[2] = 100;
    c.add_xy(1, 2);
    assert_eq!(c.registers[1], 44);
    assert_eq!(c.registers[0xF], 1);
}

#[test]
fn add_xy_at_exactly_256_carries() {
    let mut c = Chip8::new();
    c.registers[3] = 128;
    c.registers[4] = 128;
    c.add_xy(3, 4);
    assert_eq!(c.registers[3], 0);
    assert_eq!(c.registers[0xF], 1);
}

#[test]
fn add_xkk_sets_carry() {
    let mut c = Chip8::new();
    c.registers[5] = 250;
    c.add_xkk(5, 10);
    assert_eq!(c.registers[5], 4);
    assert_eq!(c.registers[0xF], 1);
}

#[test]
fn sub_xy_without_borrow() {
    let mut c = Chip8::new();
    c.registers[1] = 10;
    c.registers[2] = 3;
    c.sub_xy(1, 2);
    assert_eq!(c.registers[1], 7);
    assert_eq!(c.registers[0xF], 1);
}

#[test]
fn sub_xy_with_borrow() {
    let mut c = Chip8::new();
    c.registers[1] = 3;
    c.registers[2] = 10;
    c.sub_xy(1, 2);
    assert_eq!(c.registers[1], 249);
    assert_eq!(c.registers[0xF], 0);
}

#[test]
fn sub_xy_equal_operands_is_no_borrow() {
    let mut c = Chip8::new();
    c.registers[1] = 42;
    c.registers[2] = 42;
    c.sub_xy(1, 2);
    assert_eq!(c.registers[1], 0);
    assert_eq!(c.registers[0xF], 1);
}

#[test]
fn subn_xy_mirrors_sub_xy() {
    let mut a = Chip8::new();
    a.registers[1] = 3;
    a.registers[2] = 10;
    a.sub_xy(1, 2);
    let mut b = Chip8::new();
    b.registers[1] = 10;
    b.registers[2] = 3;
    b.subn_xy(1, 2);
    assert_eq!(a.registers[1], 249);
    assert_eq!(b.registers[1], 249);
    assert_eq!(a.registers[0xF], b.registers[0xF]);
    let mut e = Chip8::new();
    e.registers[1] = 9;
    e.registers[2] = 9;
    e.subn_xy(1, 2);
    assert_eq!(e.registers[1], 0);
    assert_eq!(e.registers[0xF], 1);
}

#[test]
fn logic_ops() {
    let mut c = Chip8::new();
    c.registers[0] = 0b1100;
    c.registers[1] = 0b1010;
    c.or(0, 1);
    assert_eq!(c.registers[0], 0b1110);
    c.and(0, 1);
    assert_eq!(c.registers[0], 0b1010);
    c.xor(0, 1);
    assert_eq!(c.registers[0], 0);
}

#[test]
fn shifts_report_the_bit_shifted_out() {
    let mut c = Chip8::new();
    c.registers[2] = 0b1000_0011;
    c.shr_x(2);
    assert_eq!(c.registers[2], 0b0100_0001);
    assert_eq!(c.registers[0xF], 1);
    c.registers[2] = 0b1000_0011;
    c.shl_x(2);
    assert_eq!(c.registers[2], 0b0000_0110);
    assert_eq!(c.registers[0xF], 1);
    c.registers[2] = 0b0100_0010;
    c.shl_x(2);
    assert_eq!(c.registers[2], 0b1000_0100);
    assert_eq!(c.registers[0xF], 0);
}

#[test]
fn clear_turns_every_pixel_off() {
    let mut c = Chip8::new();
    for r in 0..32 {
        for col in 0..64 {
            c.display[r][col] = ((r + col) % 2) as u8;
        }
    }
    c.draw = false;
    assert_eq!(c.exec_with_random(0x00E0, 0), Ok(()));
    assert_eq!(lit_pixels(&c), 0);
    assert!(c.draw);
    assert_eq!(c.program_counter, 0x202);
}

#[test]
fn draw_glyph_on_blank_display() {
    let mut c = Chip8::new();
    c.registers[0] = 0;
    c.registers[1] = 0;
    c.regI = 0;
    assert_eq!(c.exec_with_random(0xD015, 0), Ok(()));
    assert_eq!(c.display[0][0..4], [1, 1, 1, 1]);
    assert_eq!(c.display[0][4], 0);
    assert_eq!(c.display[1][0..4], [1, 0, 0, 1]);
    assert_eq!(lit_pixels(&c), 14);
    assert_eq!(c.registers[0xF], 0);
}

#[test]
fn draw_twice_restores_display_and_reports_collision() {
    let mut c = Chip8::new();
    c.display[10][50] = 1;
    let before = c.display;
    c.registers[3] = 5;
    c.registers[4] = 7;
    c.regI = 10;
    assert_eq!(c.drw(3, 4, 5), Ok(()));
    assert_eq!(c.registers[0xF], 0);
    assert_ne!(c.display, before);
    assert_eq!(c.drw(3, 4, 5), Ok(()));
    assert_eq!(c.display, before);
    assert_eq!(c.registers[0xF], 1);
}

#[test]
fn draw_twice_with_empty_sprite_has_no_collision() {
    let mut c = Chip8::new();
    c.regI = 0x300;
    c.registers[0] = 1;
    c.registers[1] = 2;
    assert_eq!(c.drw(0, 1, 3), Ok(()));
    assert_eq!(c.drw(0, 1, 3), Ok(()));
    assert_eq!(c.registers[0xF], 0);
    assert_eq!(lit_pixels(&c), 0);
}

#[test]
fn draw_collision_on_lit_pixel() {
    let mut c = Chip8::new();
    c.display[0][0] = 1;
    c.regI = 0x300;
    c.memory[0x300] = 0x80;
    c.registers[0] = 0;
    c.registers[1] = 0;
    assert_eq!(c.drw(0, 1, 1), Ok(()));
    assert_eq!(c.display[0][0], 0);
    assert_eq!(c.registers[0xF], 1);
}

#[test]
fn draw_wraps_columns_at_60() {
    let mut c = Chip8::new();
    c.regI = 0x300;
    c.memory[0x300] = 0xFF;
    c.registers[0] = 60;
    c.registers[1] = 4;
    assert_eq!(c.drw(0, 1, 1), Ok(()));
    for col in [60, 61, 62, 63, 0, 1, 2, 3] {
        assert_eq!(c.display[4][col], 1, "column {}", col);
    }
    assert_eq!(c.display[4][4], 0);
    assert_eq!(c.display[4][59], 0);
    assert_eq!(lit_pixels(&c), 8);
}

#[test]
fn draw_wraps_rows_and_large_coordinates() {
    let mut c = Chip8::new();
    c.regI = 0x300;
    c.memory[0x300] = 0x80;
    c.memory[0x301] = 0x80;
    c.registers[0] = 250;
    c.registers[1] = 31;
    assert_eq!(c.drw(0, 1, 2), Ok(()));
    assert_eq!(c.display[31][250 % 64], 1);
    assert_eq!(c.display[0][250 % 64], 1);
    assert_eq!(lit_pixels(&c), 2);
}

#[test]
fn draw_past_memory_end_is_bounds_violation() {
    let mut c = Chip8::new();
    c.regI = 0xFFE;
    assert_eq!(c.drw(0, 1, 5), Err(FaultKind::BoundsViolation));
    assert_eq!(c.exec_with_random(0xD015, 0), Err(FaultKind::BoundsViolation));
    assert_eq!(c.program_counter, 0x200);
}

#[test]
fn nested_calls_return_after_outermost_call() {
    let mut c = Chip8::new();
    let start = c.program_counter;
    let addrs: Vec<u16> = (0..16).map(|k| 0x300 + 2 * k).collect();
    for a in &addrs {
        assert_eq!(c.exec_with_random(0x2000 | a, 0), Ok(()));
        assert_eq!(c.program_counter, *a as usize);
    }
    assert_eq!(c.stack_pointer, 16);
    for _ in 0..16 {
        assert_eq!(c.exec_with_random(0x00EE, 0), Ok(()));
    }
    assert_eq!(c.program_counter, start + 2);
    assert_eq!(c.stack_pointer, 0);
}

#[test]
fn seventeenth_call_overflows() {
    let mut c = Chip8::new();
    for _ in 0..16 {
        assert_eq!(c.exec_with_random(0x2300, 0), Ok(()));
    }
    assert_eq!(c.exec_with_random(0x2300, 0), Err(FaultKind::StackOverflow));
    assert_eq!(c.call(0x300), Err(FaultKind::StackOverflow));
    assert_eq!(c.stack_pointer, 16);
}

#[test]
fn return_on_empty_stack_underflows() {
    let mut c = Chip8::new();
    assert_eq!(c.ret(), Err(FaultKind::StackUnderflow));
    assert_eq!(c.exec_with_random(0x00EE, 0), Err(FaultKind::StackUnderflow));
    assert_eq!(c.program_counter, 0x200);
}

#[test]
fn cycle_reports_fault_with_context() {
    let mut c = machine_with(&[0x00, 0xEE]);
    assert_eq!(
        c.cycle(0),
        Err(Fault { kind: FaultKind::StackUnderflow, opcode: 0x00EE, pc: 0x200 })
    );
}

#[test]
fn cycle_past_memory_end_is_bounds_violation() {
    let mut c = Chip8::new();
    c.program_counter = 0xFFF;
    assert_eq!(
        c.cycle(0),
        Err(Fault { kind: FaultKind::BoundsViolation, opcode: 0, pc: 0xFFF })
    );
}

#[test]
fn skips_and_jumps() {
    let mut c = Chip8::new();
    c.registers[1] = 0x42;
    c.registers[2] = 0x42;
    assert_eq!(c.exec_with_random(0x3142, 0), Ok(()));
    assert_eq!(c.program_counter, 0x204);
    assert_eq!(c.exec_with_random(0x4142, 0), Ok(()));
    assert_eq!(c.program_counter, 0x206);
    assert_eq!(c.exec_with_random(0x5120, 0), Ok(()));
    assert_eq!(c.program_counter, 0x20A);
    assert_eq!(c.exec_with_random(0x9120, 0), Ok(()));
    assert_eq!(c.program_counter, 0x20C);
    assert_eq!(c.exec_with_random(0x1ABC, 0), Ok(()));
    assert_eq!(c.program_counter, 0xABC);
    c.registers[0] = 0x10;
    assert_eq!(c.exec_with_random(0xB1F8, 0), Ok(()));
    assert_eq!(c.program_counter, 0x08);
}

#[test]
fn unknown_opcode_only_advances() {
    let mut c = Chip8::new();
    c.registers[1] = 9;
    assert_eq!(c.exec_with_random(0x5121, 0), Ok(()));
    assert_eq!(c.exec_with_random(0xFFFF, 0), Ok(()));
    assert_eq!(c.exec_with_random(0x0123, 0), Ok(()));
    assert_eq!(c.program_counter, 0x206);
    assert_eq!(c.registers[1], 9);
}

#[test]
fn load_and_index_instructions() {
    let mut c = Chip8::new();
    assert_eq!(c.exec_with_random(0x6A7F, 0), Ok(()));
    assert_eq!(c.registers[0xA], 0x7F);
    assert_eq!(c.exec_with_random(0x8BA0, 0), Ok(()));
    assert_eq!(c.registers[0xB], 0x7F);
    assert_eq!(c.exec_with_random(0xA123, 0), Ok(()));
    assert_eq!(c.regI, 0x123);
    assert_eq!(c.exec_with_random(0xFA1E, 0), Ok(()));
    assert_eq!(c.regI, 0x1A2);
    c.registers[3] = 0xC;
    c.ld_f_vx(3);
    assert_eq!(c.regI, 60);
    assert_eq!(c.memory[60], 0xF0);
}

#[test]
fn add_to_index_wraps_at_16_bits() {
    let mut c = Chip8::new();
    c.regI = 0xFFFF;
    c.registers[0] = 2;
    c.add_i_vx(0);
    assert_eq!(c.regI, 1);
}

#[test]
fn random_is_masked() {
    let mut c = Chip8::new();
    c.rnd_with_value(4, 0x0F, 0xAB);
    assert_eq!(c.registers[4], 0x0B);
    assert_eq!(c.exec_with_random(0xC4F0, 0xAB), Ok(()));
    assert_eq!(c.registers[4], 0xA0);
    c.rnd(4, 0x00);
    assert_eq!(c.registers[4], 0);
    for _ in 0..20 {
        c.rnd(5, 0x81);
        assert_eq!(c.registers[5] & !0x81, 0);
        assert_eq!(c.exec(0xC603), Ok(()));
        assert!(c.registers[6] <= 3);
    }
}

#[test]
fn bcd_stores_three_digits() {
    let mut c = Chip8::new();
    c.regI = 0x300;
    c.registers[7] = 254;
    assert_eq!(c.exec_with_random(0xF733, 0), Ok(()));
    assert_eq!(&c.memory[0x300..0x303], &[2, 5, 4]);
    c.registers[7] = 7;
    assert_eq!(c.ld_b_vx(7), Ok(()));
    assert_eq!(&c.memory[0x300..0x303], &[0, 0, 7]);
}

#[test]
fn bcd_into_font_or_past_end_is_bounds_violation() {
    let mut c = Chip8::new();
    c.regI = 0x10;
    assert_eq!(c.ld_b_vx(0), Err(FaultKind::BoundsViolation));
    assert_eq!(&c.memory[0..80], &FONT[..]);
    c.regI = 0xFFE;
    assert_eq!(c.ld_b_vx(0), Err(FaultKind::BoundsViolation));
}

#[test]
fn store_and_load_registers() {
    let mut c = Chip8::new();
    for k in 0..16 {
        c.registers[k] = (k as u8) * 3 + 1;
    }
    c.regI = 0x400;
    assert_eq!(c.exec_with_random(0xF355, 0), Ok(()));
    assert_eq!(&c.memory[0x400..0x405], &[1, 4, 7, 10, 0]);
    c.memory[0x400] = 99;
    c.memory[0x403] = 98;
    assert_eq!(c.exec_with_random(0xF265, 0), Ok(()));
    assert_eq!(&c.registers[0..4], &[99, 4, 7, 10]);
    c.regI = 0xFFD;
    assert_eq!(c.ld_i_vx(3), Err(FaultKind::BoundsViolation));
    assert_eq!(c.ld_vx_i(3), Err(FaultKind::BoundsViolation));
    c.regI = 0;
    assert_eq!(c.ld_i_vx(0), Err(FaultKind::BoundsViolation));
    assert_eq!(c.ld_vx_i(1), Ok(()));
    assert_eq!(&c.registers[0..2], &[0xF0, 0x90]);
}

#[test]
fn key_skips() {
    let mut c = Chip8::new();
    c.registers[1] = 0xB;
    assert_eq!(c.exec_with_random(0xE19E, 0), Ok(()));
    assert_eq!(c.program_counter, 0x202);
    assert_eq!(c.exec_with_random(0xE1A1, 0), Ok(()));
    assert_eq!(c.program_counter, 0x206);
    c.key_down(0xB);
    assert!(c.keys[0xB]);
    assert_eq!(c.exec_with_random(0xE19E, 0), Ok(()));
    assert_eq!(c.program_counter, 0x20A);
    c.key_up(0xB);
    assert!(!c.keys[0xB]);
    c.registers[1] = 16;
    assert_eq!(c.skp_vx(1), Err(FaultKind::BoundsViolation));
    assert_eq!(c.sknp_vx(1), Err(FaultKind::BoundsViolation));
}

#[test]
fn timers_follow_registers() {
    let mut c = Chip8::new();
    c.registers[2] = 30;
    assert_eq!(c.exec_with_random(0xF215, 0), Ok(()));
    assert_eq!(c.exec_with_random(0xF218, 0), Ok(()));
    assert_eq!(c.delay_timer, 30);
    assert_eq!(c.sound_timer, 30);
    assert_eq!(c.exec_with_random(0xF307, 0), Ok(()));
    assert_eq!(c.registers[3], 30);
}

#[test]
fn delay_ticks_down_once_per_sixtieth() {
    let mut c = Chip8::new();
    c.delay_timer = 10;
    c.sound_timer = 2;
    for _ in 0..6 {
        assert_eq!(c.cycle(TICK_NANOS), Ok(()));
    }
    assert_eq!(c.delay_timer, 4);
    assert_eq!(c.sound_timer, 0);
    for _ in 0..10 {
        assert_eq!(c.cycle(TICK_NANOS), Ok(()));
    }
    assert_eq!(c.delay_timer, 0);
}

#[test]
fn timers_wait_for_a_full_sixtieth() {
    let mut c = Chip8::new();
    c.delay_timer = 5;
    c.tick(TICK_NANOS - 1);
    assert_eq!(c.delay_timer, 5);
    assert_eq!(c.elapsed_nanos, TICK_NANOS - 1);
    c.tick(1);
    assert_eq!(c.delay_timer, 4);
    assert_eq!(c.elapsed_nanos, 0);
    c.tick(u64::MAX);
    assert_eq!(c.delay_timer, 3);
}

#[test]
fn key_wait_blocks_until_press() {
    let mut c = machine_with(&[0xF5, 0x0A, 0x65, 0x01]);
    assert_eq!(c.cycle(0), Ok(()));
    assert_eq!(c.waiting_keypress, WaitState::AwaitingKey(5));
    assert_eq!(c.program_counter, 0x202);
    for _ in 0..3 {
        assert_eq!(c.cycle(0), Ok(()));
        assert_eq!(c.program_counter, 0x202);
    }
    c.key_down(0xB);
    assert_eq!(c.registers[5], 0xB);
    assert_eq!(c.waiting_keypress, WaitState::Running);
    assert_eq!(c.cycle(0), Ok(()));
    assert_eq!(c.program_counter, 0x204);
    assert_eq!(c.registers[5], 0x01);
}

#[test]
fn subroutine_adds_three_times() {
    let mut c = machine_with(&[0x80, 0x14, 0x80, 0x14, 0x80, 0x14, 0x00, 0xEE]);
    c.memory[0x300] = 0x22;
    c.memory[0x301] = 0x00;
    c.program_counter = 0x300;
    c.registers[0] = 1;
    c.registers[1] = 3;
    let mut steps = 0;
    while c.read_opcode() != 0 {
        assert_eq!(c.cycle(0), Ok(()));
        steps += 1;
        assert!(steps < 100);
    }
    assert_eq!(c.registers[0], 10);
    assert_eq!(c.program_counter, 0x302);
}
