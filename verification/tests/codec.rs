use y_cpu::codec::{Instruction, OpCode, OpOptions};
use y_cpu::symbols::Symbol;

const CODES: [OpCode; 16] = [
    OpCode::NoOp,
    OpCode::And,
    OpCode::Or,
    OpCode::Not,
    OpCode::Add,
    OpCode::Sub,
    OpCode::Mul,
    OpCode::Div,
    OpCode::SL,
    OpCode::SR,
    OpCode::RL,
    OpCode::RR,
    OpCode::Copy,
    OpCode::CompEq,
    OpCode::CompGt,
    OpCode::CompLt,
];

fn options(halt: bool, debug: bool, first: bool, second: bool) -> OpOptions {
    OpOptions {
        halt_on_error: halt,
        store_debug_info: debug,
        arg1_signed: first,
        arg2_signed: second,
    }
}

#[test]
fn opcode_values_fill_the_nibble() {
    for (value, code) in CODES.iter().enumerate() {
        assert_eq!(code.encode(), value as u8);
        assert_eq!(OpCode::decode(value as u8), *code);
    }
}

#[test]
fn opcode_decode_ignores_the_high_nibble() {
    assert_eq!(OpCode::decode(0xF0), OpCode::NoOp);
    assert_eq!(OpCode::decode(0x3C), OpCode::Copy);
    assert_eq!(OpCode::decode(0xFF), OpCode::CompLt);
}

#[test]
fn option_flags_are_packed_high_to_low() {
    assert_eq!(options(false, false, false, false).encode(), 0b0000);
    assert_eq!(options(true, false, false, false).encode(), 0b1000);
    assert_eq!(options(false, true, false, false).encode(), 0b0100);
    assert_eq!(options(false, false, true, false).encode(), 0b0010);
    assert_eq!(options(false, false, false, true).encode(), 0b0001);
    assert_eq!(options(true, true, true, true).encode(), 0b1111);
    assert_eq!(OpOptions::decode(0b1010), options(true, false, true, false));
    assert_eq!(OpOptions::decode(0b0101), options(false, true, false, true));
    assert_eq!(OpOptions::decode(0xF0), options(false, false, false, false));
}

#[test]
fn option_union_sets_what_either_sets() {
    let left = options(true, false, false, true);
    let right = options(false, false, true, true);
    assert_eq!(left.union(right), options(true, false, true, true));
    assert_eq!(OpOptions::none(), options(false, false, false, false));
    assert_eq!(OpOptions::none().union(left), left);
}

#[test]
fn decode_reads_flags_opcode_and_operands() {
    let inst = Instruction::from_3bytes([0b1010_0101, 0x12, 0xFE]);
    assert_eq!(inst.code, OpCode::Sub);
    assert_eq!(inst.options, options(true, false, true, false));
    assert_eq!(inst.arg1, Symbol::Resolved(0x12));
    assert_eq!(inst.arg2, Symbol::Resolved(0xFE));
}

#[test]
fn decode_of_zero_bytes_is_noop() {
    let inst = Instruction::from_3bytes([0, 0, 0]);
    assert_eq!(
        inst,
        Instruction {
            code: OpCode::NoOp,
            options: OpOptions::none(),
            arg1: Symbol::Resolved(0),
            arg2: Symbol::Resolved(0),
        }
    );
}

#[test]
fn encode_packs_flags_above_the_opcode() {
    let inst = Instruction {
        code: OpCode::Sub,
        options: options(false, false, true, false),
        arg1: Symbol::Resolved(0x00),
        arg2: Symbol::Resolved(0x01),
    };
    assert!(inst.is_resolved());
    assert_eq!(inst.encode(), [0x25, 0x00, 0x01]);
    let inst = Instruction {
        code: OpCode::CompLt,
        options: options(true, true, true, true),
        arg1: Symbol::Resolved(0xAB),
        arg2: Symbol::Resolved(0xCD),
    };
    assert_eq!(inst.encode(), [0xFF, 0xAB, 0xCD]);
}

#[test]
fn decode_is_total_over_the_first_byte() {
    for head in 0..=255u8 {
        let inst = Instruction::from_3bytes([head, 7, 9]);
        assert_eq!(inst.code, CODES[(head & 0x0F) as usize]);
        assert_eq!(inst.options.encode(), head >> 4);
        assert!(inst.is_resolved());
    }
}

#[test]
fn every_opcode_and_flag_set_is_reached() {
    for code in CODES {
        for nibble in 0..16u8 {
            let flags = OpOptions::decode(nibble);
            let inst = Instruction::from_3bytes([nibble << 4 | code.encode(), 0, 0]);
            assert_eq!(inst.code, code);
            assert_eq!(inst.options, flags);
        }
    }
}

#[test]
fn encode_then_decode_gives_the_instruction_back() {
    for code in CODES {
        for nibble in 0..16u8 {
            for (first, second) in [(0u8, 0u8), (1, 255), (127, 128), (254, 194)] {
                let inst = Instruction {
                    code,
                    options: OpOptions::decode(nibble),
                    arg1: Symbol::Resolved(first),
                    arg2: Symbol::Resolved(second),
                };
                assert_eq!(Instruction::from_3bytes(inst.encode()), inst);
            }
        }
    }
}

#[test]
fn decode_then_encode_gives_the_bytes_back() {
    for head in 0..=255u8 {
        let bytes = [head, head.wrapping_mul(3), head.wrapping_add(100)];
        assert_eq!(Instruction::from_3bytes(bytes).encode(), bytes);
    }
}

#[test]
fn unresolved_operands_are_told_apart() {
    let inst = Instruction {
        code: OpCode::Copy,
        options: OpOptions::none(),
        arg1: Symbol::Resolved(1),
        arg2: Symbol::UnResolved(String::from("L"), 0),
    };
    assert!(!inst.is_resolved());
    assert_eq!(Symbol::Resolved(0x42).address(), 0x42);
}
