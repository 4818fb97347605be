use um::decode::{field_a, field_b, field_c, literal_reg, literal_value, opcode};
use um::image::program_from_bytes;
use um::machine::{Event, Machine, UmError};
use um::run::{run, Outcome};

fn op(code: u32, a: u32, b: u32, c: u32) -> u32 {
    (code << 28) | (a << 6) | (b << 3) | c
}

fn lit(r: u32, v: u32) -> u32 {
    (13 << 28) | (r << 25) | v
}

const HALT: u32 = 7 << 28;

fn machine_with(program: Vec<u32>, regs: &[(usize, u32)]) -> Machine {
    let mut m = Machine::new(program);
    for &(i, v) in regs {
        m.set_reg(i, v);
    }
    m
}

#[test]
fn decode_fields_of_standard_word() {
    let w: u32 = 0b1010_0000_0000_0000_0000_0001_1010_1011;
    assert_eq!(opcode(w), 10);
    assert_eq!(field_a(w), 6);
    assert_eq!(field_b(w), 5);
    assert_eq!(field_c(w), 3);
}

#[test]
fn decode_fields_of_literal_word() {
    let w: u32 = 0b1101_1011_1111_1111_1111_1111_1111_1111;
    assert_eq!(opcode(w), 13);
    assert_eq!(literal_reg(w), 5);
    assert_eq!(literal_value(w), 0x1FF_FFFF);
    assert_eq!(literal_value(lit(2, 0)), 0);
}

#[test]
fn addition_wraps() {
    let mut m = machine_with(vec![op(3, 0, 1, 2), HALT], &[(1, 0xFFFF_FFFF), (2, 1)]);
    assert_eq!(m.step(), Ok(Event::Continue));
    assert_eq!(m.reg(0), 0);
    assert_eq!(m.finger(), 1);
}

#[test]
fn multiplication_wraps() {
    let mut m = machine_with(vec![op(4, 3, 4, 5)], &[(4, 0x8000_0001), (5, 4)]);
    assert_eq!(m.step(), Ok(Event::Continue));
    assert_eq!(m.reg(3), 4);
    let mut m = machine_with(vec![op(4, 3, 4, 5)], &[(4, 0x1_0000), (5, 0x1_0000)]);
    assert_eq!(m.step(), Ok(Event::Continue));
    assert_eq!(m.reg(3), 0);
}

#[test]
fn conditional_move_with_zero_keeps_register() {
    let mut m = machine_with(vec![op(0, 0, 1, 2)], &[(0, 11), (1, 22), (2, 0)]);
    assert_eq!(m.step(), Ok(Event::Continue));
    assert_eq!(m.reg(0), 11);
    let mut m = machine_with(vec![op(0, 0, 1, 2)], &[(0, 11), (1, 22), (2, 5)]);
    assert_eq!(m.step(), Ok(Event::Continue));
    assert_eq!(m.reg(0), 22);
}

#[test]
fn division_and_not_and() {
    let mut m = machine_with(vec![op(5, 0, 1, 2), op(6, 3, 1, 2)], &[(1, 17), (2, 5)]);
    assert_eq!(m.step(), Ok(Event::Continue));
    assert_eq!(m.reg(0), 3);
    assert_eq!(m.step(), Ok(Event::Continue));
    assert_eq!(m.reg(3), !(17u32 & 5));
}

#[test]
fn division_by_zero_is_fatal() {
    let mut m = machine_with(vec![op(5, 0, 1, 2)], &[(1, 17)]);
    assert_eq!(m.step(), Err(UmError::DivisionByZero));
    assert_eq!(m.finger(), 0);
}

#[test]
fn allocation_reuses_abandoned_index() {
    // allocate into r1, abandon r1, allocate into r2
    let mut m = machine_with(vec![op(8, 0, 1, 3), op(9, 0, 0, 1), op(8, 0, 2, 3)], &[(3, 4)]);
    assert_eq!(m.step(), Ok(Event::Continue));
    assert_eq!(m.reg(1), 1);
    assert_eq!(m.array(1), Some(vec![0, 0, 0, 0]));
    assert_eq!(m.step(), Ok(Event::Continue));
    assert_eq!(m.array(1), None);
    assert_eq!(m.step(), Ok(Event::Continue));
    assert_eq!(m.reg(2), 1);
    assert_eq!(m.slot_count(), 2);
}

#[test]
fn reuse_follows_abandon_order() {
    let program = vec![
        op(8, 0, 1, 0), // r1 := new
        op(8, 0, 2, 0), // r2 := new
        op(8, 0, 3, 0), // r3 := new
        op(9, 0, 0, 3), // abandon r3
        op(9, 0, 0, 1), // abandon r1
        op(8, 0, 4, 0), // r4 := new
        op(8, 0, 5, 0), // r5 := new
        op(8, 0, 6, 0), // r6 := new
    ];
    let mut m = Machine::new(program);
    for _ in 0..8 {
        assert_eq!(m.step(), Ok(Event::Continue));
    }
    assert_eq!((m.reg(1), m.reg(2), m.reg(3)), (1, 2, 3));
    assert_eq!(m.reg(4), 3);
    assert_eq!(m.reg(5), 1);
    assert_eq!(m.reg(6), 4);
}

#[test]
fn amend_then_index_reads_back() {
    let program = vec![op(8, 0, 1, 2), op(2, 1, 3, 4), op(1, 5, 1, 3)];
    let mut m = machine_with(program, &[(2, 3), (3, 2), (4, 0xDEAD_BEEF)]);
    for _ in 0..3 {
        assert_eq!(m.step(), Ok(Event::Continue));
    }
    assert_eq!(m.reg(5), 0xDEAD_BEEF);
    assert_eq!(m.array(1), Some(vec![0, 0, 0xDEAD_BEEF]));
}

#[test]
fn array_faults() {
    let mut m = machine_with(vec![op(1, 0, 1, 2)], &[(1, 4)]);
    assert_eq!(m.step(), Err(UmError::InvalidArray(4)));
    let mut m = machine_with(vec![op(1, 0, 1, 2)], &[(2, 1)]);
    assert_eq!(m.step(), Err(UmError::OutOfBounds { array: 0, offset: 1 }));
    let mut m = machine_with(vec![op(2, 1, 0, 0)], &[(1, 9)]);
    assert_eq!(m.step(), Err(UmError::InvalidArray(9)));
    let mut m = machine_with(vec![op(9, 0, 0, 1)], &[]);
    assert_eq!(m.step(), Err(UmError::AbandonProgram));
    let mut m = machine_with(vec![op(9, 0, 0, 1)], &[(1, 3)]);
    assert_eq!(m.step(), Err(UmError::InvalidArray(3)));
    let mut m = machine_with(vec![op(8, 0, 1, 2), op(9, 0, 0, 1), op(9, 0, 0, 1)], &[]);
    assert_eq!(m.step(), Ok(Event::Continue));
    assert_eq!(m.step(), Ok(Event::Continue));
    assert_eq!(m.step(), Err(UmError::InvalidArray(1)));
}

#[test]
fn literal_load_fills_low_bits() {
    for r in 0..8u32 {
        for v in [0u32, 1, 0x155_5555, 0x1FF_FFFF] {
            let mut m = machine_with(vec![lit(r, v)], &[(r as usize, 0xFFFF_FFFF)]);
            assert_eq!(m.step(), Ok(Event::Continue));
            assert_eq!(m.reg(r as usize), v);
        }
    }
}

#[test]
fn load_program_from_zero_only_jumps() {
    let program = vec![op(12, 0, 1, 2), HALT, HALT, HALT];
    let mut m = machine_with(program.clone(), &[(2, 3)]);
    assert_eq!(m.step(), Ok(Event::Continue));
    assert_eq!(m.finger(), 3);
    assert_eq!(m.array(0), Some(program));
}

#[test]
fn load_program_copies_array() {
    // allocate r1 with r3 words, store a Halt at offset 1, load it, jump to 1
    let program = vec![op(8, 0, 1, 3), op(2, 1, 4, 5), op(12, 0, 1, 4)];
    let mut m = machine_with(program, &[(3, 2), (4, 1), (5, HALT)]);
    for _ in 0..3 {
        assert_eq!(m.step(), Ok(Event::Continue));
    }
    assert_eq!(m.array(0), Some(vec![0, HALT]));
    assert_eq!(m.array(1), Some(vec![0, HALT]));
    assert_eq!(m.finger(), 1);
    assert_eq!(m.step(), Ok(Event::Halt));
    let mut m = machine_with(vec![op(12, 0, 1, 4)], &[(1, 6)]);
    assert_eq!(m.step(), Err(UmError::InvalidArray(6)));
}

#[test]
fn output_and_invalid_character() {
    let mut m = machine_with(vec![op(10, 0, 0, 1), op(10, 0, 0, 2)], &[(1, 0x263A), (2, 0xD800)]);
    assert_eq!(m.step(), Ok(Event::Output('\u{263A}')));
    assert_eq!(m.step(), Err(UmError::InvalidCharacter(0xD800)));
    let mut m = machine_with(vec![op(10, 0, 0, 1)], &[(1, 0x11_0000)]);
    assert_eq!(m.step(), Err(UmError::InvalidCharacter(0x11_0000)));
}

#[test]
fn input_waits_then_takes_byte() {
    let mut m = Machine::new(vec![op(11, 0, 0, 6), op(11, 0, 0, 7)]);
    assert!(m.awaiting_input());
    assert_eq!(m.step(), Ok(Event::Input));
    assert_eq!(m.finger(), 0);
    m.provide_input(Some(b'x'));
    assert_eq!(m.reg(6), b'x' as u32);
    assert_eq!(m.finger(), 1);
    m.provide_input(None);
    assert_eq!(m.reg(7), 0xFFFF_FFFF);
    assert_eq!(m.finger(), 2);
    assert!(!m.awaiting_input());
}

#[test]
fn unknown_operator_and_finger_past_end() {
    let mut m = Machine::new(vec![op(14, 0, 0, 0)]);
    assert_eq!(m.step(), Err(UmError::UnknownOperator(14)));
    let mut m = Machine::new(vec![op(15, 0, 0, 0)]);
    assert_eq!(m.step(), Err(UmError::UnknownOperator(15)));
    let mut m = Machine::new(vec![op(3, 0, 0, 0)]);
    assert_eq!(m.step(), Ok(Event::Continue));
    assert_eq!(m.step(), Err(UmError::FingerOutOfRange(1)));
}

#[test]
fn prints_he_and_halts() {
    let program = vec![lit(0, 72), lit(1, 101), op(10, 0, 0, 0), op(10, 0, 0, 1), HALT];
    let r = run(program, &vec![], 100);
    assert_eq!(r.outcome, Outcome::Halted);
    assert_eq!(r.output.iter().collect::<String>(), "He");
}

#[test]
fn division_by_zero_ends_run_without_output() {
    let program = vec![lit(1, 9), op(5, 0, 1, 2), lit(3, 65), op(10, 0, 0, 3), HALT];
    let r = run(program, &vec![], 100);
    assert_eq!(r.outcome, Outcome::Failed(UmError::DivisionByZero));
    assert!(r.output.is_empty());
}

#[test]
fn exhausted_input_gives_all_ones_and_continues() {
    // read a byte into r1; echo it; read again at end of stream into r2;
    // r3 := r2 + 1 (zero when r2 is all ones); r4 := 79 ('O'); if r3 = 0 skip:
    // conditional move r4 := r5 ('X') only when r3 != 0
    let program = vec![
        op(11, 0, 0, 1),
        op(10, 0, 0, 1),
        op(11, 0, 0, 2),
        lit(6, 1),
        op(3, 3, 2, 6),
        lit(4, 79),
        lit(5, 88),
        op(0, 4, 5, 3),
        op(10, 0, 0, 4),
        HALT,
    ];
    let r = run(program, &vec![b'k'], 100);
    assert_eq!(r.outcome, Outcome::Halted);
    assert_eq!(r.output.iter().collect::<String>(), "kO");
}

#[test]
fn run_stops_when_steps_run_out() {
    // r0 := 0; jump to r0 forever
    let r = run(vec![op(12, 0, 0, 0)], &vec![], 50);
    assert_eq!(r.outcome, Outcome::OutOfSteps);
    assert!(r.output.is_empty());
}

#[test]
fn image_words_are_big_endian_and_truncated() {
    let bytes = vec![0x12, 0x34, 0x56, 0x78, 0xFF, 0x00, 0x00, 0x01, 0xAB, 0xCD];
    assert_eq!(program_from_bytes(&bytes), vec![0x1234_5678, 0xFF00_0001]);
    assert_eq!(program_from_bytes(&vec![1, 2, 3]), Vec::<u32>::new());
}
