//! The three-byte wire format of an instruction and its structured form.
use crate::symbols::Symbol;
use crate::symbols::SymbolView;
use vstd::prelude::*;

verus! {

/// The sixteen operations of the instruction set. They fill the four-bit
/// opcode field exactly.
#[derive(Debug, Clone, Copy, PartialEq, Eq, Structural)]
pub enum OpCode {
    NoOp,
    And,
    Or,
    Not,
    Add,
    Sub,
    Mul,
    Div,
    SL,
    SR,
    RL,
    RR,
    Copy,
    CompEq,
    CompGt,
    CompLt,
}

impl OpCode {
    /// The four-bit value of an opcode.
    pub open spec fn spec_encode(self) -> u8 {
        match self {
            OpCode::NoOp => 0,
            OpCode::And => 1,
            OpCode::Or => 2,
            OpCode::Not => 3,
            OpCode::Add => 4,
            OpCode::Sub => 5,
            OpCode::Mul => 6,
            OpCode::Div => 7,
            OpCode::SL => 8,
            OpCode::SR => 9,
            OpCode::RL => 10,
            OpCode::RR => 11,
            OpCode::Copy => 12,
            OpCode::CompEq => 13,
            OpCode::CompGt => 14,
            OpCode::CompLt => 15,
        }
    }

    /// The opcode selected by the low four bits of `value`.
    pub open spec fn spec_decode(value: u8) -> OpCode {
        let nibble = value % 16;
        if nibble == 0 {
            OpCode::NoOp
        } else if nibble == 1 {
            OpCode::And
        } else if nibble == 2 {
            OpCode::Or
        } else if nibble == 3 {
            OpCode::Not
        } else if nibble == 4 {
            OpCode::Add
        } else if nibble == 5 {
            OpCode::Sub
        } else if nibble == 6 {
            OpCode::Mul
        } else if nibble == 7 {
            OpCode::Div
        } else if nibble == 8 {
            OpCode::SL
        } else if nibble == 9 {
            OpCode::SR
        } else if nibble == 10 {
            OpCode::RL
        } else if nibble == 11 {
            OpCode::RR
        } else if nibble == 12 {
            OpCode::Copy
        } else if nibble == 13 {
            OpCode::CompEq
        } else if nibble == 14 {
            OpCode::CompGt
        } else {
            OpCode::CompLt
        }
    }

    pub fn encode(self) -> (nibble: u8)
        ensures
            nibble == self.spec_encode(),
            nibble < 16,
    {
        match self {
            OpCode::NoOp => 0,
            OpCode::And => 1,
            OpCode::Or => 2,
            OpCode::Not => 3,
            OpCode::Add => 4,
            OpCode::Sub => 5,
            OpCode::Mul => 6,
            OpCode::Div => 7,
            OpCode::SL => 8,
            OpCode::SR => 9,
            OpCode::RL => 10,
            OpCode::RR => 11,
            OpCode::Copy => 12,
            OpCode::CompEq => 13,
            OpCode::CompGt => 14,
            OpCode::CompLt => 15,
        }
    }

    /// Selects the opcode by the low four bits of `value`; the high four bits
    /// are ignored. Every value selects an opcode.
    pub fn decode(value: u8) -> (code: OpCode)
        ensures
            code == OpCode::spec_decode(value),
    {
        let nibble: u8 = value & 0b0000_1111;
        assert(nibble == value % 16) by (bit_vector)
            requires
                nibble == value & 0b0000_1111,
        ;
        match nibble {
            0 => OpCode::NoOp,
            1 => OpCode::And,
            2 => OpCode::Or,
            3 => OpCode::Not,
            4 => OpCode::Add,
            5 => OpCode::Sub,
            6 => OpCode::Mul,
            7 => OpCode::Div,
            8 => OpCode::SL,
            9 => OpCode::SR,
            10 => OpCode::RL,
            11 => OpCode::RR,
            12 => OpCode::Copy,
            13 => OpCode::CompEq,
            14 => OpCode::CompGt,
            15 => OpCode::CompLt,
            _ => vstd::pervasive::unreached(),
        }
    }
}

/// The four option flags of an instruction, in the order in which they are
/// packed: `halt_on_error` is the highest bit of the nibble, `arg2_signed`
/// the lowest.
#[derive(Debug, Clone, Copy, PartialEq, Eq, Structural)]
pub struct OpOptions {
    pub halt_on_error: bool,
    pub store_debug_info: bool,
    pub arg1_signed: bool,
    pub arg2_signed: bool,
}

impl OpOptions {
    /// The four-bit value of the flags.
    pub open spec fn spec_encode(self) -> u8 {
        ((if self.halt_on_error { 8int } else { 0 })
            + (if self.store_debug_info { 4int } else { 0 })
            + (if self.arg1_signed { 2int } else { 0 })
            + (if self.arg2_signed { 1int } else { 0 })) as u8
    }

    /// The flags held by the low four bits of `value`.
    pub open spec fn spec_decode(value: u8) -> OpOptions {
        OpOptions {
            halt_on_error: (value / 8) % 2 == 1,
            store_debug_info: (value / 4) % 2 == 1,
            arg1_signed: (value / 2) % 2 == 1,
            arg2_signed: value % 2 == 1,
        }
    }

    /// The flags with every option off.
    pub open spec fn spec_none() -> OpOptions {
        OpOptions {
            halt_on_error: false,
            store_debug_info: false,
            arg1_signed: false,
            arg2_signed: false,
        }
    }

    /// The flags that are set in `self` or in `other`.
    pub open spec fn spec_union(self, other: OpOptions) -> OpOptions {
        OpOptions {
            halt_on_error: self.halt_on_error || other.halt_on_error,
            store_debug_info: self.store_debug_info || other.store_debug_info,
            arg1_signed: self.arg1_signed || other.arg1_signed,
            arg2_signed: self.arg2_signed || other.arg2_signed,
        }
    }

    pub fn none() -> (options: OpOptions)
        ensures
            options == OpOptions::spec_none(),
    {
        OpOptions {
            halt_on_error: false,
            store_debug_info: false,
            arg1_signed: false,
            arg2_signed: false,
        }
    }

    pub fn union(self, other: OpOptions) -> (options: OpOptions)
        ensures
            options == self.spec_union(other),
    {
        OpOptions {
            halt_on_error: self.halt_on_error || other.halt_on_error,
            store_debug_info: self.store_debug_info || other.store_debug_info,
            arg1_signed: self.arg1_signed || other.arg1_signed,
            arg2_signed: self.arg2_signed || other.arg2_signed,
        }
    }

    pub fn encode(self) -> (nibble: u8)
        ensures
            nibble == self.spec_encode(),
            nibble < 16,
    {
        let mut nibble: u8 = 0;
        if self.halt_on_error {
            nibble = nibble + 8;
        }
        if self.store_debug_info {
            nibble = nibble + 4;
        }
        if self.arg1_signed {
            nibble = nibble + 2;
        }
        if self.arg2_signed {
            nibble = nibble + 1;
        }
        nibble
    }

    /// Reads the flags from the low four bits of `value`; the high four bits
    /// are ignored.
    pub fn decode(value: u8) -> (options: OpOptions)
        ensures
            options == OpOptions::spec_decode(value),
    {
        assert((value & 0b1000 == 0b1000) == ((value / 8) % 2 == 1)) by (bit_vector);
        assert((value & 0b0100 == 0b0100) == ((value / 4) % 2 == 1)) by (bit_vector);
        assert((value & 0b0010 == 0b0010) == ((value / 2) % 2 == 1)) by (bit_vector);
        assert((value & 0b0001 == 0b0001) == (value % 2 == 1)) by (bit_vector);
        OpOptions {
            halt_on_error: value & 0b1000 == 0b1000,
            store_debug_info: value & 0b0100 == 0b0100,
            arg1_signed: value & 0b0010 == 0b0010,
            arg2_signed: value & 0b0001 == 0b0001,
        }
    }
}

/// One instruction: an operation, its option flags and two operand slots.
/// Unary operations carry a second operand too and ignore it.
#[derive(Debug, Clone, PartialEq, Eq)]
pub struct Instruction {
    pub code: OpCode,
    pub options: OpOptions,
    pub arg1: Symbol,
    pub arg2: Symbol,
}

/// What an [`Instruction`] stands for, with label names as sequences of
/// characters.
pub struct InstructionView {
    pub code: OpCode,
    pub options: OpOptions,
    pub arg1: SymbolView,
    pub arg2: SymbolView,
}

impl View for Instruction {
    type V = InstructionView;

    open spec fn view(&self) -> InstructionView {
        InstructionView {
            code: self.code,
            options: self.options,
            arg1: self.arg1@,
            arg2: self.arg2@,
        }
    }
}

impl Instruction {
    /// Both operands are literal addresses.
    pub open spec fn spec_is_resolved(self) -> bool {
        self.arg1 is Resolved && self.arg2 is Resolved
    }

    /// The first byte of the wire format: the option flags in the high four
    /// bits, the opcode in the low four.
    pub open spec fn spec_head(self) -> u8 {
        (self.options.spec_encode() * 16 + self.code.spec_encode()) as u8
    }

    /// The three bytes that encode an instruction whose operands are resolved.
    pub open spec fn spec_encode(self) -> Seq<u8>
        recommends
            self.spec_is_resolved(),
    {
        seq![self.spec_head(), self.arg1.spec_address(), self.arg2.spec_address()]
    }

    /// The instruction that three bytes encode.
    pub open spec fn spec_decode(bytes: Seq<u8>) -> Instruction
        recommends
            bytes.len() == 3,
    {
        Instruction {
            code: OpCode::spec_decode(bytes[0]),
            options: OpOptions::spec_decode(bytes[0] / 16),
            arg1: Symbol::Resolved(bytes[1]),
            arg2: Symbol::Resolved(bytes[2]),
        }
    }

    /// Decodes three bytes. There is no invalid input: each of the 256 values
    /// of the first byte names one opcode and one set of flags, and the other
    /// two bytes are taken as literal addresses.
    pub fn from_3bytes(bytes: [u8; 3]) -> (inst: Instruction)
        ensures
            inst == Instruction::spec_decode(bytes@),
            inst.spec_is_resolved(),
    {
        let head: u8 = bytes[0];
        let high: u8 = head >> 4;
        assert(high == head / 16) by (bit_vector)
            requires
                high == head >> 4,
        ;
        Instruction {
            code: OpCode::decode(head),
            options: OpOptions::decode(high),
            arg1: Symbol::Resolved(bytes[1]),
            arg2: Symbol::Resolved(bytes[2]),
        }
    }

    pub fn is_resolved(&self) -> (resolved: bool)
        ensures
            resolved == self.spec_is_resolved(),
    {
        let first = match &self.arg1 {
            Symbol::Resolved(_) => true,
            Symbol::UnResolved(_, _) => false,
        };
        let second = match &self.arg2 {
            Symbol::Resolved(_) => true,
            Symbol::UnResolved(_, _) => false,
        };
        first && second
    }

    /// Encodes an instruction as three bytes. Both operands must be resolved:
    /// a label reference has no byte to stand for it.
    pub fn encode(&self) -> (bytes: [u8; 3])
        requires
            self.spec_is_resolved(),
        ensures
            bytes@ == self.spec_encode(),
    {
        let options: u8 = self.options.encode();
        let code: u8 = self.code.encode();
        let head: u8 = options << 4 | code;
        assert(head == options * 16 + code) by (bit_vector)
            requires
                head == options << 4 | code,
                options < 16,
                code < 16,
        ;
        let bytes: [u8; 3] = [head, self.arg1.address(), self.arg2.address()];
        bytes
    }
}

/// Decoding undoes encoding: an instruction whose operands are resolved comes
/// back unchanged from the three bytes that encode it.
pub proof fn lemma_decode_encode(inst: Instruction)
    requires
        inst.spec_is_resolved(),
    ensures
        Instruction::spec_decode(inst.spec_encode()) == inst,
{
}

/// Encoding undoes decoding: any three bytes come back unchanged from the
/// instruction that they decode to, so no two instructions share an encoding
/// and no encoding stands for two instructions.
pub proof fn lemma_encode_decode(bytes: Seq<u8>)
    requires
        bytes.len() == 3,
    ensures
        Instruction::spec_decode(bytes).spec_is_resolved(),
        Instruction::spec_decode(bytes).spec_encode() == bytes,
{
    assert(Instruction::spec_decode(bytes).spec_encode() =~= bytes);
}

/// Every opcode and every combination of option flags is reached: the byte
/// that holds them decodes to exactly that pair, whatever the opcode and flags.
pub proof fn lemma_decode_exhaustive(code: OpCode, options: OpOptions)
    ensures
        OpCode::spec_decode((options.spec_encode() * 16 + code.spec_encode()) as u8) == code,
        OpOptions::spec_decode(((options.spec_encode() * 16 + code.spec_encode()) as u8) / 16)
            == options,
{
}

} // verus!
