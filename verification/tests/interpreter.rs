use chip8::chip8::Chip8;
use chip8::cpu::{Cpu, StepError};

fn run(rom: Vec<u8>, steps: usize) -> Chip8 {
    let mut m = Chip8::new(rom);
    for _ in 0..steps {
        m.cycle().unwrap();
    }
    m
}

#[test]
fn pc_starts_at_load_offset() {
    let m = Chip8::new(vec![0x6A, 0x05, 0x12, 0x00]);
    assert_eq!(m.get_pc(), 0x200);
    assert_eq!(m.get_mem(0x200), 0x6A);
    assert_eq!(m.get_mem(0x201), 0x05);
    assert_eq!(m.get_mem(0x1FF), 0x00);
    assert_eq!(m.get_mem(0x204), 0x00);
}

#[test]
fn first_fetch_is_first_program_bytes() {
    let cpu = Cpu::new();
    let mut mem = vec![0u8; 4096];
    mem[0x200] = 0xAB;
    mem[0x201] = 0xCD;
    let opcode = cpu.fetch_opcode(&mem);
    assert_eq!(opcode.4, 0xABCD);
    assert_eq!(opcode.0, 0xA);
    assert_eq!(opcode.1, 0xB);
    assert_eq!(opcode.2, 0xC);
    assert_eq!(opcode.3, 0xD);
}

#[test]
fn load_and_jump_scenario() {
    // LD V[10]=5 ; JP 0x200
    let mut m = Chip8::new(vec![0x6A, 0x05, 0x12, 0x00]);
    m.cycle().unwrap();
    assert_eq!(m.get_v(10), 5);
    assert_eq!(m.get_pc(), 0x202);
    m.cycle().unwrap();
    assert_eq!(m.get_pc(), 0x200);
}

#[test]
fn skip_if_equal_taken() {
    // LD V[10]=5 ; SE V[10], 5 -> skip
    let m = run(vec![0x6A, 0x05, 0x3A, 0x05], 2);
    assert_eq!(m.get_pc(), 0x206);
}

#[test]
fn skip_if_equal_not_taken() {
    // LD V[10]=4 ; SE V[10], 5 -> no skip
    let m = run(vec![0x6A, 0x04, 0x3A, 0x05], 2);
    assert_eq!(m.get_pc(), 0x204);
}

#[test]
fn skip_if_not_equal() {
    let taken = run(vec![0x6A, 0x04, 0x4A, 0x05], 2);
    assert_eq!(taken.get_pc(), 0x206);
    let not_taken = run(vec![0x6A, 0x05, 0x4A, 0x05], 2);
    assert_eq!(not_taken.get_pc(), 0x204);
}

#[test]
fn skip_on_register_compare() {
    // V0=7, V1=7: 5xy0 skips; 9xy0 does not
    let eq = run(vec![0x60, 0x07, 0x61, 0x07, 0x50, 0x10], 3);
    assert_eq!(eq.get_pc(), 0x208);
    let neq = run(vec![0x60, 0x07, 0x61, 0x07, 0x90, 0x10], 3);
    assert_eq!(neq.get_pc(), 0x206);
}

#[test]
fn call_then_return_restores_pc() {
    // CALL 0x204 ; (target) RET -> back to 0x202
    let mut m = Chip8::new(vec![0x22, 0x04, 0x00, 0x00, 0x00, 0xEE]);
    m.cycle().unwrap();
    assert_eq!(m.get_pc(), 0x204);
    m.cycle().unwrap();
    assert_eq!(m.get_pc(), 0x202);
}

#[test]
fn add_immediate_wraps() {
    let m = run(vec![0x60, 0xFF, 0x70, 0x02], 2);
    assert_eq!(m.get_v(0), 0x01);
}

#[test]
fn add_register_wraps_without_carry() {
    let m = run(vec![0x60, 0xF0, 0x61, 0x20, 0x80, 0x14], 3);
    assert_eq!(m.get_v(0), 0x10);
    assert_eq!(m.get_v(15), 0x00);
}

#[test]
fn sub_register_wraps_without_borrow() {
    let m = run(vec![0x60, 0x05, 0x61, 0x07, 0x80, 0x15], 3);
    assert_eq!(m.get_v(0), 0xFE);
    assert_eq!(m.get_v(15), 0x00);
}

#[test]
fn assign_and_bitops() {
    let assign = run(vec![0x61, 0x2A, 0x80, 0x10], 2);
    assert_eq!(assign.get_v(0), 0x2A);
    let and = run(vec![0x60, 0xCC, 0x61, 0xAA, 0x80, 0x12], 3);
    assert_eq!(and.get_v(0), 0x88);
    let xor = run(vec![0x60, 0xCC, 0x61, 0xAA, 0x80, 0x13], 3);
    assert_eq!(xor.get_v(0), 0x66);
}

#[test]
fn shift_left_captures_msb_of_vy() {
    let m = run(vec![0x60, 0xC0, 0x61, 0x81, 0x80, 0x1E], 3);
    assert_eq!(m.get_v(15), 0x01);
    assert_eq!(m.get_v(0), 0x80);
    let low = run(vec![0x60, 0xC0, 0x61, 0x7F, 0x80, 0x1E], 3);
    assert_eq!(low.get_v(15), 0x00);
}

#[test]
fn shift_left_when_x_is_the_flag_register() {
    // VF first takes the msb of V[y], then is itself shifted
    let m = run(vec![0x61, 0x81, 0x8F, 0x1E], 2);
    assert_eq!(m.get_v(15), 0x02);
}

#[test]
fn load_index_and_jump_with_offset() {
    let m = run(vec![0xA1, 0x23], 1);
    assert_eq!(m.get_i(), 0x123);
    let j = run(vec![0x60, 0x10, 0xB3, 0x00], 2);
    assert_eq!(j.get_pc(), 0x310);
}

#[test]
fn index_additions() {
    // Fx1E adds V[x]; Fx15 adds the nibble x itself; Fx29 adds V[x] * 5
    let m = run(vec![0x60, 0x05, 0xA0, 0x10, 0xF0, 0x1E], 3);
    assert_eq!(m.get_i(), 0x15);
    let t = run(vec![0xA0, 0x10, 0xF3, 0x15], 2);
    assert_eq!(t.get_i(), 0x13);
    let f = run(vec![0x60, 0x04, 0xF0, 0x29], 2);
    assert_eq!(f.get_i(), 20);
}

#[test]
fn register_dump_bound_is_exclusive() {
    let m = run(
        vec![0x60, 0x0A, 0x61, 0x0B, 0x62, 0x0C, 0xA3, 0x00, 0xF2, 0x55],
        5,
    );
    assert_eq!(m.get_mem(0x300), 0x0A);
    assert_eq!(m.get_mem(0x301), 0x0B);
    // V[2] itself is not dumped: the loop bound excludes x
    assert_eq!(m.get_mem(0x302), 0x00);
}

#[test]
fn register_load_bound_is_exclusive() {
    let m = run(vec![0xA2, 0x06, 0xF2, 0x65, 0x00, 0x00, 0x11, 0x22, 0x33], 2);
    assert_eq!(m.get_v(0), 0x11);
    assert_eq!(m.get_v(1), 0x22);
    // V[2] itself is not loaded: the loop bound excludes x
    assert_eq!(m.get_v(2), 0x00);
}

#[test]
fn random_byte_is_masked() {
    let zero = run(vec![0xC0, 0x00], 1);
    assert_eq!(zero.get_v(0), 0);
    for _ in 0..16 {
        let m = run(vec![0xC1, 0x0F], 1);
        assert!(m.get_v(1) < 16);
    }
}

#[test]
fn unknown_opcode_is_reported() {
    let mut m = Chip8::new(vec![0xE0, 0x9E]);
    assert!(m.can_cycle());
    let r = m.cycle();
    assert_eq!(r, Err(StepError::UnknownOpcode(0xE09E)));
    assert_eq!(m.get_pc(), 0x202);
}

#[test]
fn machine_code_call_is_noop() {
    let mut m = Chip8::new(vec![0x00, 0x00]);
    m.cycle().unwrap();
    assert_eq!(m.get_pc(), 0x202);
    assert!(!m.should_render());
}

#[test]
fn can_cycle_refuses_out_of_range_draw() {
    // LD I=0xFFF then DRW with height 2 would read past memory
    let mut m = Chip8::new(vec![0xAF, 0xFF, 0xD0, 0x12]);
    m.cycle().unwrap();
    assert!(!m.can_cycle());
}
