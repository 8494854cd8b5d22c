//! What each operation does to the bytes it has loaded.
use crate::codec::OpCode;
use crate::codec::OpOptions;
use vstd::prelude::*;

verus! {

/// What an operation asks of the machine after its operands were loaded.
#[derive(Debug, Clone, Copy, PartialEq, Eq, Structural)]
pub enum Outcome {
    /// Nothing is stored and nothing is skipped.
    Nothing,
    /// The byte is stored at the operation's target.
    Write(u8),
    /// A comparison was made; `true` when it holds. When it does not hold, the
    /// next instruction is skipped.
    Compare(bool),
    /// A division by zero: nothing is stored, and the instruction reports an
    /// arithmetic error.
    DivideByZero,
}

/// The number a loaded byte stands for: its two's-complement value when the
/// operand is flagged as signed, its plain value otherwise.
pub open spec fn spec_widen(data: u8, signed: bool) -> int {
    if signed && data >= 128 {
        data - 256
    } else {
        data as int
    }
}

/// The low eight bits of a number, as two's-complement wraparound keeps them.
pub open spec fn spec_truncate(value: int) -> u8 {
    (value % 256) as u8
}

/// The quotient rounded toward zero.
pub open spec fn spec_divide(a: int, b: int) -> int
    recommends
        b != 0,
{
    let magnitude = (if a < 0 { -a } else { a }) / (if b < 0 { -b } else { b });
    if (a < 0) == (b < 0) {
        magnitude
    } else {
        -magnitude
    }
}

/// Whether the operation loads its first operand. All but `NoOp` do.
pub open spec fn spec_reads_first(code: OpCode) -> bool {
    code != OpCode::NoOp
}

/// Whether the operation loads its second operand: the two-operand logic and
/// arithmetic operations and the comparisons do.
pub open spec fn spec_reads_second(code: OpCode) -> bool {
    match code {
        OpCode::And | OpCode::Or | OpCode::Add | OpCode::Sub | OpCode::Mul | OpCode::Div
        | OpCode::CompEq | OpCode::CompGt | OpCode::CompLt => true,
        _ => false,
    }
}

/// Whether the operation works on numbers: the four arithmetic operations and
/// the three comparisons, which read their operands as signed or unsigned.
pub open spec fn spec_is_arithmetic(code: OpCode) -> bool {
    match code {
        OpCode::Add | OpCode::Sub | OpCode::Mul | OpCode::Div | OpCode::CompEq | OpCode::CompGt
        | OpCode::CompLt => true,
        _ => false,
    }
}

/// The outcome of an arithmetic operation or a comparison on the numbers `a`
/// and `b`. A sum, difference, product or quotient is cut to its low eight
/// bits; a quotient is rounded toward zero, and there is none when `b` is 0.
/// Any other operation has no outcome here.
pub open spec fn spec_arithmetic(code: OpCode, a: int, b: int) -> Outcome {
    match code {
        OpCode::Add => Outcome::Write(spec_truncate(a + b)),
        OpCode::Sub => Outcome::Write(spec_truncate(a - b)),
        OpCode::Mul => Outcome::Write(spec_truncate(a * b)),
        OpCode::Div => if b == 0 {
            Outcome::DivideByZero
        } else {
            Outcome::Write(spec_truncate(spec_divide(a, b)))
        },
        OpCode::CompEq => Outcome::Compare(a == b),
        OpCode::CompGt => Outcome::Compare(a > b),
        OpCode::CompLt => Outcome::Compare(a < b),
        _ => Outcome::Nothing,
    }
}

/// The outcome of `code` on the loaded bytes `data1` and `data2`.
///
/// Arithmetic and comparisons read each byte as signed or unsigned by the flag
/// of its operand. The logic operations work on the bits of the bytes, and
/// shifts and rotations move the first byte by one bit.
pub open spec fn spec_compute(code: OpCode, options: OpOptions, data1: u8, data2: u8) -> Outcome {
    match code {
        OpCode::NoOp => Outcome::Nothing,
        OpCode::And => Outcome::Write(data1 & data2),
        OpCode::Or => Outcome::Write(data1 | data2),
        OpCode::Not => Outcome::Write((255 - data1) as u8),
        OpCode::SL => Outcome::Write(((data1 * 2) % 256) as u8),
        OpCode::SR => Outcome::Write(data1 / 2),
        OpCode::RL => Outcome::Write(((data1 * 2) % 256 + data1 / 128) as u8),
        OpCode::RR => Outcome::Write((data1 / 2 + (data1 % 2) * 128) as u8),
        OpCode::Copy => Outcome::Write(data1),
        _ => spec_arithmetic(
            code,
            spec_widen(data1, options.arg1_signed),
            spec_widen(data2, options.arg2_signed),
        ),
    }
}

pub fn reads_first(code: OpCode) -> (reads: bool)
    ensures
        reads == spec_reads_first(code),
{
    match code {
        OpCode::NoOp => false,
        _ => true,
    }
}

pub fn reads_second(code: OpCode) -> (reads: bool)
    ensures
        reads == spec_reads_second(code),
{
    match code {
        OpCode::And | OpCode::Or | OpCode::Add | OpCode::Sub | OpCode::Mul | OpCode::Div
        | OpCode::CompEq | OpCode::CompGt | OpCode::CompLt => true,
        _ => false,
    }
}

pub fn is_arithmetic(code: OpCode) -> (arithmetic: bool)
    ensures
        arithmetic == spec_is_arithmetic(code),
{
    match code {
        OpCode::Add | OpCode::Sub | OpCode::Mul | OpCode::Div | OpCode::CompEq | OpCode::CompGt
        | OpCode::CompLt => true,
        _ => false,
    }
}

/// Reads a loaded byte as the number it stands for.
pub fn widen(data: u8, signed: bool) -> (value: i16)
    ensures
        value == spec_widen(data, signed),
{
    if signed && data >= 128 {
        data as i16 - 256
    } else {
        data as i16
    }
}

/// Cuts `value` to its low eight bits.
pub fn truncate(value: i32) -> (byte: u8)
    ensures
        byte == spec_truncate(value as int),
{
    if value >= 0 {
        (value % 256) as u8
    } else {
        // -value - 1 is the number of steps below -1, and -1 has all bits set
        let below: i32 = -(value + 1);
        (255 - below % 256) as u8
    }
}

/// The quotient of two numbers, rounded toward zero.
pub fn divide(a: i16, b: i16) -> (quotient: i32)
    requires
        b != 0,
    ensures
        quotient == spec_divide(a as int, b as int),
        -0x8000 <= quotient <= 0x8000,
{
    let dividend: u32 = if a < 0 { (-(a as i32)) as u32 } else { a as u32 };
    let divisor: u32 = if b < 0 { (-(b as i32)) as u32 } else { b as u32 };
    let magnitude: u32 = dividend / divisor;
    assert(magnitude <= dividend) by (nonlinear_arith)
        requires
            magnitude == dividend / divisor,
            divisor > 0,
    ;
    if (a < 0) == (b < 0) {
        magnitude as i32
    } else {
        -(magnitude as i32)
    }
}

/// Carries out an arithmetic operation or a comparison on two numbers. Any
/// other operation has no outcome here.
pub fn arithmetic(code: OpCode, a: i16, b: i16) -> (outcome: Outcome)
    ensures
        outcome == spec_arithmetic(code, a as int, b as int),
{
    match code {
        OpCode::Add => Outcome::Write(truncate(a as i32 + b as i32)),
        OpCode::Sub => Outcome::Write(truncate(a as i32 - b as i32)),
        OpCode::Mul => {
            assert(-0x4000_0000 <= a * b <= 0x4000_0000) by (nonlinear_arith)
                requires
                    -0x8000 <= a <= 0x8000,
                    -0x8000 <= b <= 0x8000,
            ;
            Outcome::Write(truncate(a as i32 * b as i32))
        },
        OpCode::Div => {
            if b == 0 {
                Outcome::DivideByZero
            } else {
                Outcome::Write(truncate(divide(a, b)))
            }
        },
        OpCode::CompEq => Outcome::Compare(a == b),
        OpCode::CompGt => Outcome::Compare(a > b),
        OpCode::CompLt => Outcome::Compare(a < b),
        _ => Outcome::Nothing,
    }
}

/// Carries out `code` on the two loaded bytes. A byte that the operation does
/// not load may be given as anything: it is not looked at.
pub fn compute(code: OpCode, options: OpOptions, data1: u8, data2: u8) -> (outcome: Outcome)
    ensures
        outcome == spec_compute(code, options, data1, data2),
{
    match code {
        OpCode::NoOp => Outcome::Nothing,
        OpCode::And => Outcome::Write(data1 & data2),
        OpCode::Or => Outcome::Write(data1 | data2),
        OpCode::Not => {
            assert(!data1 == 255 - data1) by (bit_vector);
            Outcome::Write(!data1)
        },
        OpCode::SL => {
            assert(data1 << 1 == (data1 * 2) % 256) by (bit_vector);
            Outcome::Write(data1 << 1)
        },
        OpCode::SR => {
            assert(data1 >> 1 == data1 / 2) by (bit_vector);
            Outcome::Write(data1 >> 1)
        },
        OpCode::RL => {
            assert((data1 << 1 | data1 >> 7) == (data1 * 2) % 256 + data1 / 128) by (bit_vector);
            Outcome::Write(data1 << 1 | data1 >> 7)
        },
        OpCode::RR => {
            assert((data1 >> 1 | data1 << 7) == data1 / 2 + (data1 % 2) * 128) by (bit_vector);
            Outcome::Write(data1 >> 1 | data1 << 7)
        },
        OpCode::Copy => Outcome::Write(data1),
        _ => arithmetic(code, widen(data1, options.arg1_signed), widen(data2, options.arg2_signed)),
    }
}

} // verus!
