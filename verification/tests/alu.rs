use y_cpu::alu::{
    arithmetic, compute, divide, is_arithmetic, reads_first, reads_second, truncate, widen,
    Outcome,
};
use y_cpu::codec::{OpCode, OpOptions};

fn signed(first: bool, second: bool) -> OpOptions {
    OpOptions {
        halt_on_error: false,
        store_debug_info: false,
        arg1_signed: first,
        arg2_signed: second,
    }
}

#[test]
fn bytes_widen_by_their_flag() {
    assert_eq!(widen(0x00, false), 0);
    assert_eq!(widen(0x7F, true), 127);
    assert_eq!(widen(0x80, false), 128);
    assert_eq!(widen(0x80, true), -128);
    assert_eq!(widen(0xFF, false), 255);
    assert_eq!(widen(0xFF, true), -1);
}

#[test]
fn truncation_keeps_the_low_eight_bits() {
    assert_eq!(truncate(0), 0);
    assert_eq!(truncate(255), 255);
    assert_eq!(truncate(256), 0);
    assert_eq!(truncate(300), 44);
    assert_eq!(truncate(-1), 255);
    assert_eq!(truncate(-255), 1);
    assert_eq!(truncate(-256), 0);
    assert_eq!(truncate(65025), 1);
    assert_eq!(truncate(-32640), 128);
    assert_eq!(truncate(i32::MAX), 255);
    assert_eq!(truncate(i32::MIN), 0);
    assert_eq!(truncate(i32::MIN + 1), 1);
}

#[test]
fn division_rounds_toward_zero() {
    assert_eq!(divide(7, 2), 3);
    assert_eq!(divide(-7, 2), -3);
    assert_eq!(divide(7, -2), -3);
    assert_eq!(divide(-7, -2), 3);
    assert_eq!(divide(255, 1), 255);
    assert_eq!(divide(255, -1), -255);
    assert_eq!(divide(-128, -1), 128);
    assert_eq!(divide(1, 255), 0);
    assert_eq!(divide(0, -5), 0);
    assert_eq!(divide(i16::MIN, -1), 32768);
    assert_eq!(divide(i16::MIN, 1), -32768);
    assert_eq!(divide(i16::MAX, i16::MIN), 0);
}

#[test]
fn subtraction_of_a_signed_operand() {
    assert_eq!(
        compute(OpCode::Sub, signed(false, true), 0x00, 0xFF),
        Outcome::Write(0x01)
    );
    assert_eq!(
        compute(OpCode::Sub, signed(true, false), 0x00, 0xFF),
        Outcome::Write(0x01)
    );
    assert_eq!(
        compute(OpCode::Sub, signed(false, false), 5, 7),
        Outcome::Write(0xFE)
    );
}

#[test]
fn sums_and_products_wrap() {
    let plain = signed(false, false);
    assert_eq!(compute(OpCode::Add, plain, 200, 100), Outcome::Write(44));
    assert_eq!(compute(OpCode::Add, plain, 1, 2), Outcome::Write(3));
    assert_eq!(compute(OpCode::Add, signed(true, true), 0xFF, 0xFF), Outcome::Write(0xFE));
    assert_eq!(compute(OpCode::Mul, plain, 255, 255), Outcome::Write(1));
    assert_eq!(compute(OpCode::Mul, plain, 16, 16), Outcome::Write(0));
    assert_eq!(compute(OpCode::Mul, signed(true, false), 0xFF, 3), Outcome::Write(0xFD));
    assert_eq!(compute(OpCode::Mul, signed(true, true), 0x80, 0x80), Outcome::Write(0));
}

#[test]
fn quotients_depend_on_the_signs() {
    assert_eq!(compute(OpCode::Div, signed(false, false), 0xF9, 2), Outcome::Write(124));
    assert_eq!(compute(OpCode::Div, signed(true, false), 0xF9, 2), Outcome::Write(0xFD));
    assert_eq!(compute(OpCode::Div, signed(false, true), 7, 0xFE), Outcome::Write(0xFD));
    assert_eq!(compute(OpCode::Div, signed(true, true), 0xF9, 0xFE), Outcome::Write(3));
    assert_eq!(compute(OpCode::Div, signed(false, true), 255, 0xFF), Outcome::Write(1));
}

#[test]
fn division_by_zero_is_an_outcome_of_its_own() {
    assert_eq!(compute(OpCode::Div, signed(false, false), 9, 0), Outcome::DivideByZero);
    assert_eq!(compute(OpCode::Div, signed(true, true), 0xFF, 0), Outcome::DivideByZero);
    assert_eq!(arithmetic(OpCode::Div, -5, 0), Outcome::DivideByZero);
}

#[test]
fn arithmetic_has_no_outcome_for_other_operations() {
    assert_eq!(arithmetic(OpCode::And, 1, 2), Outcome::Nothing);
    assert_eq!(arithmetic(OpCode::Copy, 1, 2), Outcome::Nothing);
    assert_eq!(arithmetic(OpCode::Add, 1, 2), Outcome::Write(3));
    assert_eq!(arithmetic(OpCode::Mul, i16::MIN, i16::MIN), Outcome::Write(0));
    assert_eq!(arithmetic(OpCode::Sub, i16::MIN, i16::MAX), Outcome::Write(1));
}

#[test]
fn logic_works_on_the_bits() {
    let plain = signed(false, false);
    assert_eq!(compute(OpCode::And, plain, 0b1100, 0b1010), Outcome::Write(0b1000));
    assert_eq!(compute(OpCode::Or, plain, 0b1100, 0b1010), Outcome::Write(0b1110));
    assert_eq!(compute(OpCode::Not, plain, 0b1111_0000, 0), Outcome::Write(0b0000_1111));
    assert_eq!(compute(OpCode::Not, plain, 0, 99), Outcome::Write(255));
}

#[test]
fn shifts_and_rotations_move_one_bit() {
    let plain = signed(false, false);
    assert_eq!(compute(OpCode::SL, plain, 0b1000_0001, 0), Outcome::Write(0b0000_0010));
    assert_eq!(compute(OpCode::SR, plain, 0b1000_0001, 0), Outcome::Write(0b0100_0000));
    assert_eq!(compute(OpCode::RL, plain, 0b1000_0001, 0), Outcome::Write(0b0000_0011));
    assert_eq!(compute(OpCode::RR, plain, 0b1000_0001, 0), Outcome::Write(0b1100_0000));
    assert_eq!(compute(OpCode::RL, plain, 0b0100_0000, 0), Outcome::Write(0b1000_0000));
    assert_eq!(compute(OpCode::RR, plain, 0b0000_0010, 0), Outcome::Write(0b0000_0001));
    assert_eq!(compute(OpCode::SR, signed(true, true), 0x80, 0), Outcome::Write(0x40));
}

#[test]
fn copy_and_noop() {
    let plain = signed(false, false);
    assert_eq!(compute(OpCode::Copy, plain, 0x5A, 0x11), Outcome::Write(0x5A));
    assert_eq!(compute(OpCode::NoOp, plain, 0x5A, 0x11), Outcome::Nothing);
}

#[test]
fn comparisons_read_the_signs() {
    assert_eq!(compute(OpCode::CompEq, signed(false, false), 5, 5), Outcome::Compare(true));
    assert_eq!(compute(OpCode::CompEq, signed(false, false), 5, 6), Outcome::Compare(false));
    assert_eq!(compute(OpCode::CompEq, signed(true, false), 0xFF, 0xFF), Outcome::Compare(false));
    assert_eq!(compute(OpCode::CompEq, signed(true, true), 0xFF, 0xFF), Outcome::Compare(true));
    assert_eq!(compute(OpCode::CompGt, signed(false, false), 0xFF, 1), Outcome::Compare(true));
    assert_eq!(compute(OpCode::CompGt, signed(true, false), 0xFF, 1), Outcome::Compare(false));
    assert_eq!(compute(OpCode::CompGt, signed(false, false), 1, 1), Outcome::Compare(false));
    assert_eq!(compute(OpCode::CompLt, signed(false, false), 0xFF, 1), Outcome::Compare(false));
    assert_eq!(compute(OpCode::CompLt, signed(true, false), 0xFF, 1), Outcome::Compare(true));
    assert_eq!(compute(OpCode::CompLt, signed(false, true), 1, 0x80), Outcome::Compare(false));
    assert_eq!(compute(OpCode::CompLt, signed(false, false), 1, 1), Outcome::Compare(false));
}

#[test]
fn operations_read_the_operands_they_need() {
    let unary = [OpCode::Not, OpCode::SL, OpCode::SR, OpCode::RL, OpCode::RR, OpCode::Copy];
    let binary = [OpCode::And, OpCode::Or];
    let numeric = [
        OpCode::Add,
        OpCode::Sub,
        OpCode::Mul,
        OpCode::Div,
        OpCode::CompEq,
        OpCode::CompGt,
        OpCode::CompLt,
    ];
    assert!(!reads_first(OpCode::NoOp));
    assert!(!reads_second(OpCode::NoOp));
    assert!(!is_arithmetic(OpCode::NoOp));
    for code in unary {
        assert!(reads_first(code) && !reads_second(code) && !is_arithmetic(code));
    }
    for code in binary {
        assert!(reads_first(code) && reads_second(code) && !is_arithmetic(code));
    }
    for code in numeric {
        assert!(reads_first(code) && reads_second(code) && is_arithmetic(code));
    }
}
