use pdp1_rs::execute::{execute_instruction_limited, run, step};
use pdp1_rs::instruction::{OP_AND, OP_DAC, OP_IOR, OP_IOT, OP_LAC, OP_SUB, OP_XCT, OP_XOR};
use pdp1_rs::{decode_instruction, execute_instruction, ones_complement_sub, Instruction, State};

fn ins(op: u32, indirect: u32, address: u32) -> Instruction {
    Instruction { instruction: op, indirect, address }
}

fn word(op: u32, indirect: u32, address: u32) -> u32 {
    (op << 13) | (indirect << 12) | address
}

fn same_state(a: &State, b: &State) -> bool {
    a.cm == b.cm
        && a.mb == b.mb
        && a.ac == b.ac
        && a.io == b.io
        && a.pc == b.pc
        && a.ma == b.ma
        && a.ir == b.ir
        && a.ov == b.ov
        && a.halt == b.halt
}

fn copy_state(s: &State) -> State {
    let mut c = State::new();
    c.cm = s.cm;
    c.mb = s.mb;
    c.ac = s.ac;
    c.io = s.io;
    c.pc = s.pc;
    c.ma = s.ma;
    c.ir = s.ir;
    c.ov = s.ov;
    c.halt = s.halt;
    c
}

#[test]
fn decode_splits_fields() {
    let d = decode_instruction(0b010100000000000100);
    assert_eq!(d, ins(10, 0, 4));
    let d = decode_instruction(0b101011000000000101);
    assert_eq!(d, ins(21, 1, 5));
    let d = decode_instruction(0x3FFFF);
    assert_eq!(d, ins(31, 1, 0xFFF));
    let d = decode_instruction(0);
    assert_eq!(d, ins(0, 0, 0));
}

#[test]
fn decode_matches_shifts_for_many_words() {
    let mut w: u32 = 0;
    while w <= 0x3FFFF {
        let d = decode_instruction(w);
        assert_eq!(d.instruction, w >> 13);
        assert_eq!(d.indirect, (w >> 12) & 1);
        assert_eq!(d.address, w & 0xFFF);
        assert_eq!(word(d.instruction, d.indirect, d.address), w);
        w += 97;
    }
}

#[test]
fn logic_identities() {
    let mut s = State::new();
    s.ac = 0o525252;
    s.cm[10] = 0o525252;
    execute_instruction(ins(OP_AND, 0, 10), &mut s);
    assert_eq!(s.ac, 0o525252);
    execute_instruction(ins(OP_IOR, 0, 10), &mut s);
    assert_eq!(s.ac, 0o525252);
    execute_instruction(ins(OP_IOR, 0, 11), &mut s);
    assert_eq!(s.ac, 0o525252);
    execute_instruction(ins(OP_XOR, 0, 11), &mut s);
    assert_eq!(s.ac, 0o525252);
    s.cm[12] = 0x3FFFF;
    execute_instruction(ins(OP_AND, 0, 12), &mut s);
    assert_eq!(s.ac, 0o525252);
    execute_instruction(ins(OP_XOR, 0, 10), &mut s);
    assert_eq!(s.ac, 0);
    assert_eq!(s.pc, 6);
}

#[test]
fn logic_operations_combine_bits() {
    let mut s = State::new();
    s.ac = 0b1100;
    s.cm[1] = 0b1010;
    execute_instruction(ins(OP_AND, 0, 1), &mut s);
    assert_eq!(s.ac, 0b1000);
    s.ac = 0b1100;
    execute_instruction(ins(OP_IOR, 0, 1), &mut s);
    assert_eq!(s.ac, 0b1110);
    s.ac = 0b1100;
    execute_instruction(ins(OP_XOR, 0, 1), &mut s);
    assert_eq!(s.ac, 0b0110);
}

#[test]
fn sub_five_minus_three() {
    let mut s = State::new();
    s.ac = 5;
    s.cm[100] = 3;
    execute_instruction(ins(OP_SUB, 0, 100), &mut s);
    assert_eq!(s.ac, 2);
    assert!(!s.ov);
    assert_eq!(s.pc, 1);
}

#[test]
fn sub_zero_minus_zero() {
    let mut s = State::new();
    execute_instruction(ins(OP_SUB, 0, 100), &mut s);
    assert_eq!(s.ac, 0);
    assert!(!s.ov);
}

#[test]
fn sub_end_around_carry() {
    // complement of 3 plus 5 exceeds 0x3FFFF, so the carry comes round
    assert!((3u32 ^ 0x3FFFF) + 5 > 0x3FFFF);
    assert_eq!(ones_complement_sub(3, 5), 0x3FFFD);
    assert_eq!(ones_complement_sub(0, 1), 0x3FFFE);
    assert_eq!(ones_complement_sub(0x3FFFE, 0x3FFFD), 1);
    assert_eq!(ones_complement_sub(7, 7), 0);
}

#[test]
fn sub_sets_overflow() {
    let mut s = State::new();
    s.ac = 0x1FFFF;
    s.cm[0o40] = 0x3FFFE;
    execute_instruction(ins(OP_SUB, 0, 0o40), &mut s);
    assert_eq!(s.ac, 0x20000);
    assert!(s.ov);
    // the flag stays set
    s.ac = 5;
    s.cm[0o40] = 3;
    execute_instruction(ins(OP_SUB, 0, 0o40), &mut s);
    assert_eq!(s.ac, 2);
    assert!(s.ov);
}

#[test]
fn sub_of_opposite_signs_without_overflow() {
    let mut s = State::new();
    s.ac = 0;
    s.cm[1] = 0x20000;
    execute_instruction(ins(OP_SUB, 0, 1), &mut s);
    assert_eq!(s.ac, 0x1FFFF);
    assert!(!s.ov);
}

#[test]
fn load_then_deposit_keeps_memory() {
    let mut s = State::new();
    s.cm[0o200] = 0o123456;
    s.ac = 77;
    let before = s.cm;
    execute_instruction(ins(OP_LAC, 0, 0o200), &mut s);
    assert_eq!(s.ac, 0o123456);
    execute_instruction(ins(OP_DAC, 0, 0o200), &mut s);
    assert!(s.cm == before);
    assert_eq!(s.pc, 2);
}

#[test]
fn deposit_writes_memory() {
    let mut s = State::new();
    s.ac = 0o777;
    execute_instruction(ins(OP_DAC, 0, 4095), &mut s);
    assert_eq!(s.cm[4095], 0o777);
    assert_eq!(s.ac, 0o777);
}

#[test]
fn execute_of_load_advances_once() {
    let mut s = State::new();
    s.pc = 20;
    s.cm[50] = word(OP_LAC, 0, 60);
    s.cm[60] = 0o4321;
    let mut direct = copy_state(&s);
    execute_instruction(ins(OP_XCT, 0, 50), &mut s);
    execute_instruction(ins(OP_LAC, 0, 60), &mut direct);
    assert_eq!(s.ac, 0o4321);
    assert_eq!(s.pc, 21);
    assert!(same_state(&s, &direct));
}

#[test]
fn execute_that_names_itself_halts() {
    let mut s = State::new();
    s.pc = 9;
    s.cm[9] = word(OP_XCT, 0, 9);
    let before = copy_state(&s);
    execute_instruction(ins(OP_XCT, 0, 9), &mut s);
    assert!(s.halt);
    assert_eq!(s.pc, 9);
    s.halt = false;
    assert!(same_state(&s, &before));
}

#[test]
fn execute_chain_within_limit() {
    let mut s = State::new();
    s.cm[1] = word(OP_XCT, 0, 2);
    s.cm[2] = word(OP_LAC, 0, 3);
    s.cm[3] = 55;
    execute_instruction_limited(ins(OP_XCT, 0, 1), &mut s, 2);
    assert_eq!(s.ac, 55);
    assert_eq!(s.pc, 1);
    let mut t = State::new();
    t.cm = s.cm;
    execute_instruction_limited(ins(OP_XCT, 0, 1), &mut t, 1);
    assert!(t.halt);
    assert_eq!(t.ac, 0);
    assert_eq!(t.pc, 0);
}

#[test]
fn undefined_opcode_halts() {
    let mut s = State::new();
    s.pc = 33;
    s.ac = 7;
    s.io = 8;
    s.cm[5] = 9;
    let before = copy_state(&s);
    execute_instruction(ins(31, 0, 5), &mut s);
    assert!(s.halt);
    assert_eq!(s.pc, 33);
    s.halt = false;
    assert!(same_state(&s, &before));
    execute_instruction(ins(0, 1, 5), &mut s);
    assert!(s.halt);
    assert_eq!(s.pc, 33);
}

#[test]
fn indirect_load() {
    let mut s = State::new();
    s.cm[0o100] = 0o770200; // low 12 bits name 0o200
    s.cm[0o200] = 0o31415;
    execute_instruction(ins(OP_LAC, 1, 0o100), &mut s);
    assert_eq!(s.ac, 0o31415);
    assert_ne!(s.ac, s.cm[0o100]);
}

#[test]
fn indirect_deposit() {
    let mut s = State::new();
    s.cm[1] = 7;
    s.ac = 12;
    execute_instruction(ins(OP_DAC, 1, 1), &mut s);
    assert_eq!(s.cm[7], 12);
    assert_eq!(s.cm[1], 7);
}

#[test]
fn in_out_transfer_only_advances() {
    let mut s = State::new();
    s.ac = 3;
    s.io = 4;
    execute_instruction(ins(OP_IOT, 0, 0o11), &mut s);
    assert_eq!(s.pc, 1);
    assert_eq!(s.ac, 3);
    assert_eq!(s.io, 4);
    assert!(!s.halt);
}

#[test]
fn program_counter_wraps() {
    let mut s = State::new();
    s.pc = 4095;
    execute_instruction(ins(OP_LAC, 0, 0), &mut s);
    assert_eq!(s.pc, 0);
}

#[test]
fn step_fetches_at_program_counter() {
    let mut s = State::new();
    s.pc = 10;
    s.cm[10] = word(OP_LAC, 0, 11);
    s.cm[11] = 0o707;
    step(&mut s);
    assert_eq!(s.ac, 0o707);
    assert_eq!(s.pc, 11);
}

#[test]
fn run_sample_program() {
    let program: [u32; 7] = [
        0b010100000000000100,
        0b101010000000000101,
        0b011000000000000110,
        0,
        15,
        9,
        0,
    ];
    let mut s = State::new();
    s.load_program(&program);
    assert_eq!(s.cm[4], 15);
    let steps = run(&mut s, 100);
    assert_eq!(steps, 4);
    assert!(s.halt);
    assert_eq!(s.pc, 3);
    assert_eq!(s.ac, 6);
    assert_eq!(s.cm[6], 6);
}

#[test]
fn run_stops_at_budget() {
    let mut s = State::new();
    // IOT everywhere: never halts
    let mut i: usize = 0;
    while i < 4096 {
        s.cm[i] = word(OP_IOT, 0, 0);
        i += 1;
    }
    let steps = run(&mut s, 5000);
    assert_eq!(steps, 5000);
    assert!(!s.halt);
    assert_eq!(s.pc, 5000 % 4096);
    let mut h = State::new();
    assert_eq!(run(&mut h, 0), 0);
    assert_eq!(run(&mut h, 3), 1);
    assert!(h.halt);
    assert_eq!(run(&mut h, 3), 0);
}
