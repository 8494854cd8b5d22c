//! The textual form of an instruction: one line of whitespace-separated fields.
//!
//! The first field is the mnemonic. Each later field is typed by its first
//! character: `:` sets option flags, `#` gives a literal address in
//! hexadecimal, `$` refers to a label, and `+` or `-` moves the last label
//! reference by a hexadecimal offset.
use crate::codec::Instruction;
use crate::codec::InstructionView;
use crate::codec::OpCode;
use crate::codec::OpOptions;
use crate::symbols::Symbol;
use crate::symbols::SymbolView;
use vstd::prelude::*;

verus! {

/// Whether `c` separates fields: the characters that Unicode classes as white
/// space.
pub open spec fn spec_is_space(c: char) -> bool {
    let code = c as u32;
    ||| 0x09 <= code <= 0x0D
    ||| code == 0x20
    ||| code == 0x85
    ||| code == 0xA0
    ||| code == 0x1680
    ||| 0x2000 <= code <= 0x200A
    ||| code == 0x2028
    ||| code == 0x2029
    ||| code == 0x202F
    ||| code == 0x205F
    ||| code == 0x3000
}

/// The first position at or after `from` that holds no white space, or the
/// length of the line if there is none.
pub open spec fn spec_field_start(line: Seq<char>, from: int) -> int
    decreases line.len() - from,
{
    if 0 <= from < line.len() && spec_is_space(line[from]) {
        spec_field_start(line, from + 1)
    } else {
        from
    }
}

/// The first position at or after `from` that holds white space, or the
/// length of the line if there is none.
pub open spec fn spec_field_end(line: Seq<char>, from: int) -> int
    decreases line.len() - from,
{
    if 0 <= from < line.len() && !spec_is_space(line[from]) {
        spec_field_end(line, from + 1)
    } else {
        from
    }
}

/// The fields of `line` that start at or after `from`, in order. A field is a
/// longest run of characters without white space.
pub open spec fn spec_fields_from(line: Seq<char>, from: int) -> Seq<Seq<char>>
    decreases line.len() - from,
    via spec_fields_from_decreases
{
    let start = spec_field_start(line, from);
    if 0 <= from && start < line.len() {
        let end = spec_field_end(line, start);
        seq![line.subrange(start, end)] + spec_fields_from(line, end)
    } else {
        Seq::empty()
    }
}

#[via_fn]
proof fn spec_fields_from_decreases(line: Seq<char>, from: int) {
    let start = spec_field_start(line, from);
    if 0 <= from && start < line.len() {
        lemma_field_start_bounds(line, from);
        lemma_field_end_bounds(line, start);
    }
}

/// The fields of `line`, in order.
pub open spec fn spec_fields(line: Seq<char>) -> Seq<Seq<char>> {
    spec_fields_from(line, 0)
}

/// The start of a field lies between `from` and the end of the line, and
/// holds no white space unless it is the end of the line.
pub proof fn lemma_field_start_bounds(line: Seq<char>, from: int)
    requires
        0 <= from <= line.len(),
    ensures
        from <= spec_field_start(line, from) <= line.len(),
        spec_field_start(line, from) < line.len() ==> !spec_is_space(
            line[spec_field_start(line, from)],
        ),
    decreases line.len() - from,
{
    if from < line.len() && spec_is_space(line[from]) {
        lemma_field_start_bounds(line, from + 1);
    }
}

/// The end of a field lies between `from` and the end of the line, and after
/// `from` when `from` holds no white space.
pub proof fn lemma_field_end_bounds(line: Seq<char>, from: int)
    requires
        0 <= from <= line.len(),
    ensures
        from <= spec_field_end(line, from) <= line.len(),
        from < line.len() && !spec_is_space(line[from]) ==> from < spec_field_end(line, from),
    decreases line.len() - from,
{
    if from < line.len() && !spec_is_space(line[from]) {
        lemma_field_end_bounds(line, from + 1);
    }
}

/// The value of a hexadecimal digit, in either case.
pub open spec fn spec_hex_digit(c: char) -> Option<nat> {
    let code = c as u32;
    if 0x30 <= code <= 0x39 {
        Some((code - 0x30) as nat)
    } else if 0x41 <= code <= 0x46 {
        Some((code - 0x41 + 10) as nat)
    } else if 0x61 <= code <= 0x66 {
        Some((code - 0x61 + 10) as nat)
    } else {
        None
    }
}

/// The number that a run of hexadecimal digits writes. There is none when the
/// run is empty or holds anything but hexadecimal digits.
pub open spec fn spec_hex(digits: Seq<char>) -> Option<nat>
    decreases digits.len(),
{
    if digits.len() == 0 {
        None
    } else {
        match spec_hex_digit(digits.last()) {
            None => None,
            Some(digit) => if digits.len() == 1 {
                Some(digit)
            } else {
                match spec_hex(digits.drop_last()) {
                    None => None,
                    Some(high) => Some(16 * high + digit),
                }
            },
        }
    }
}

/// The opcode that a mnemonic names. Mnemonics are matched exactly, in upper
/// case.
pub open spec fn spec_mnemonic(field: Seq<char>) -> Option<OpCode> {
    if field == "NOOP"@ {
        Some(OpCode::NoOp)
    } else if field == "AND"@ {
        Some(OpCode::And)
    } else if field == "OR"@ {
        Some(OpCode::Or)
    } else if field == "NOT"@ {
        Some(OpCode::Not)
    } else if field == "ADD"@ {
        Some(OpCode::Add)
    } else if field == "SUB"@ {
        Some(OpCode::Sub)
    } else if field == "MUL"@ {
        Some(OpCode::Mul)
    } else if field == "DIV"@ {
        Some(OpCode::Div)
    } else if field == "SL"@ {
        Some(OpCode::SL)
    } else if field == "SR"@ {
        Some(OpCode::SR)
    } else if field == "RL"@ {
        Some(OpCode::RL)
    } else if field == "RR"@ {
        Some(OpCode::RR)
    } else if field == "COPY"@ {
        Some(OpCode::Copy)
    } else if field == "COMPEQ"@ {
        Some(OpCode::CompEq)
    } else if field == "COMPGT"@ {
        Some(OpCode::CompGt)
    } else if field == "COMPLE"@ {
        Some(OpCode::CompLt)
    } else {
        None
    }
}

/// The flags that up to four characters set: the flag at a position is set
/// when the character there is `1`. The positions are, in order, halt on
/// error, store debug information, first operand signed, second operand
/// signed. More than four characters set nothing.
pub open spec fn spec_flags(value: Seq<char>) -> Option<OpOptions> {
    if value.len() > 4 {
        None
    } else {
        Some(
            OpOptions {
                halt_on_error: value.len() > 0 && value[0] == '1',
                store_debug_info: value.len() > 1 && value[1] == '1',
                arg1_signed: value.len() > 2 && value[2] == '1',
                arg2_signed: value.len() > 3 && value[3] == '1',
            },
        )
    }
}

/// What the fields after the mnemonic have given so far.
pub struct Draft {
    pub options: OpOptions,
    pub args: Seq<SymbolView>,
}

/// The draft before any field: no flag set and no operand.
pub open spec fn spec_blank() -> Draft {
    Draft { options: OpOptions::spec_none(), args: Seq::empty() }
}

/// The draft after one more field, or `None` where the field is refused.
///
/// A `:` field adds the flags that it sets. A `#` field adds a literal
/// address, which must fit a byte. A `$` field adds a reference to the label
/// that the rest of the field names. A `+` or `-` field moves the offset of
/// the last operand, which must be a label reference; both the step and the
/// offset that results must fit a signed byte. Any other field is refused.
pub open spec fn spec_field(draft: Draft, field: Seq<char>) -> Option<Draft>
    recommends
        field.len() > 0,
{
    let value = field.subrange(1, field.len() as int);
    if field[0] == ':' {
        match spec_flags(value) {
            Some(flags) => Some(Draft { options: draft.options.spec_union(flags), ..draft }),
            None => None,
        }
    } else if field[0] == '#' {
        match spec_hex(value) {
            Some(address) => if address <= 255 {
                Some(Draft { args: draft.args.push(SymbolView::Resolved(address as u8)), ..draft })
            } else {
                None
            },
            None => None,
        }
    } else if field[0] == '$' {
        Some(Draft { args: draft.args.push(SymbolView::UnResolved(value, 0)), ..draft })
    } else if field[0] == '+' || field[0] == '-' {
        if draft.args.len() == 0 {
            None
        } else {
            match (draft.args.last(), spec_hex(value)) {
                (SymbolView::UnResolved(name, offset), Some(step)) => {
                    let moved = if field[0] == '+' {
                        offset + step
                    } else {
                        offset - step
                    };
                    let fits = if field[0] == '+' {
                        step <= 127
                    } else {
                        step <= 128
                    };
                    if fits && -128 <= moved <= 127 {
                        Some(
                            Draft {
                                args: draft.args.update(
                                    draft.args.len() - 1,
                                    SymbolView::UnResolved(name, moved as i8),
                                ),
                                ..draft
                            },
                        )
                    } else {
                        None
                    }
                },
                _ => None,
            }
        }
    } else {
        None
    }
}

/// The draft after all of `fields`, taken in order, or `None` where one of
/// them is refused.
pub open spec fn spec_operands(draft: Draft, fields: Seq<Seq<char>>) -> Option<Draft>
    decreases fields.len(),
{
    if fields.len() == 0 {
        Some(draft)
    } else {
        match spec_field(draft, fields[0]) {
            Some(next) => spec_operands(next, fields.subrange(1, fields.len() as int)),
            None => None,
        }
    }
}

/// The instruction that a line of text writes, or `None` where the line
/// writes none: where it has no field, its first field is no mnemonic, a
/// later field is refused, or the fields give more or fewer than two operands.
pub open spec fn spec_from_text(line: Seq<char>) -> Option<InstructionView> {
    let fields = spec_fields(line);
    if fields.len() == 0 {
        None
    } else {
        match (
            spec_mnemonic(fields[0]),
            spec_operands(spec_blank(), fields.subrange(1, fields.len() as int)),
        ) {
            (Some(code), Some(draft)) => if draft.args.len() == 2 {
                Some(
                    InstructionView {
                        code,
                        options: draft.options,
                        arg1: draft.args[0],
                        arg2: draft.args[1],
                    },
                )
            } else {
                None
            },
            _ => None,
        }
    }
}

/// An offset is refused on a literal address: a `+` or `-` field that follows
/// a `#` operand is refused whatever it holds.
pub proof fn lemma_offset_on_literal_refused(draft: Draft, field: Seq<char>)
    requires
        draft.args.len() > 0,
        draft.args.last() is Resolved,
        field.len() > 0,
        field[0] == '+' || field[0] == '-',
    ensures
        spec_field(draft, field) is None,
{
}

/// An offset is refused where no operand stands before it.
pub proof fn lemma_offset_without_operand_refused(draft: Draft, field: Seq<char>)
    requires
        draft.args.len() == 0,
        field.len() > 0,
        field[0] == '+' || field[0] == '-',
    ensures
        spec_field(draft, field) is None,
{
}

/// Once a field is refused, the line writes no instruction: the fields after
/// it change nothing.
pub proof fn lemma_refused_field_refuses_all(draft: Draft, fields: Seq<Seq<char>>, k: int)
    requires
        0 <= k < fields.len(),
        spec_operands(draft, fields.take(k)) is Some,
        spec_field(spec_operands(draft, fields.take(k))->0, fields[k]) is None,
    ensures
        spec_operands(draft, fields) is None,
    decreases k,
{
    if k > 0 {
        let rest = fields.subrange(1, fields.len() as int);
        assert(fields.take(k).subrange(1, k) =~= rest.take(k - 1));
        lemma_refused_field_refuses_all(spec_field(draft, fields[0])->0, rest, k - 1);
    }
}

pub fn is_space(c: char) -> (space: bool)
    ensures
        space == spec_is_space(c),
{
    let code: u32 = c as u32;
    (0x09 <= code && code <= 0x0D) || code == 0x20 || code == 0x85 || code == 0xA0 || code
        == 0x1680 || (0x2000 <= code && code <= 0x200A) || code == 0x2028 || code == 0x2029
        || code == 0x202F || code == 0x205F || code == 0x3000
}

/// The characters of `text`, one by one.
pub fn characters(text: &str) -> (chars: Vec<char>)
    ensures
        chars@ == text@,
{
    let mut chars: Vec<char> = Vec::new();
    for c in it: text.chars()
        invariant
            it.seq() == text@,
            chars@ == text@.take(it.index() as int),
    {
        chars.push(c);
    }
    chars
}

pub fn field_start(line: &Vec<char>, from: usize) -> (start: usize)
    requires
        from <= line.len(),
    ensures
        start == spec_field_start(line@, from as int),
        from <= start <= line.len(),
{
    let mut start: usize = from;
    while start < line.len() && is_space(line[start])
        invariant
            from <= start <= line.len(),
            spec_field_start(line@, from as int) == spec_field_start(line@, start as int),
        decreases line.len() - start,
    {
        start = start + 1;
    }
    start
}

pub fn field_end(line: &Vec<char>, from: usize) -> (end: usize)
    requires
        from <= line.len(),
    ensures
        end == spec_field_end(line@, from as int),
        from <= end <= line.len(),
{
    let mut end: usize = from;
    while end < line.len() && !is_space(line[end])
        invariant
            from <= end <= line.len(),
            spec_field_end(line@, from as int) == spec_field_end(line@, end as int),
        decreases line.len() - end,
    {
        end = end + 1;
    }
    end
}

pub fn hex_digit(c: char) -> (digit: Option<u8>)
    ensures
        match digit {
            Some(d) => spec_hex_digit(c) == Some(d as nat) && d < 16,
            None => spec_hex_digit(c) is None,
        },
{
    let code: u32 = c as u32;
    if 0x30 <= code && code <= 0x39 {
        Some((code - 0x30) as u8)
    } else if 0x41 <= code && code <= 0x46 {
        Some((code - 0x41 + 10) as u8)
    } else if 0x61 <= code && code <= 0x66 {
        Some((code - 0x61 + 10) as u8)
    } else {
        None
    }
}

/// Every prefix of a run of hexadecimal digits is one too, and writes a
/// number that is no greater.
pub proof fn lemma_hex_prefix(digits: Seq<char>, k: int)
    requires
        1 <= k <= digits.len(),
        spec_hex(digits) is Some,
    ensures
        spec_hex(digits.take(k)) is Some,
        spec_hex(digits.take(k))->0 <= spec_hex(digits)->0,
        spec_hex_digit(digits[k - 1]) is Some,
    decreases digits.len(),
{
    if k == digits.len() {
        assert(digits.take(k) =~= digits);
    } else {
        lemma_hex_prefix(digits.drop_last(), k);
        assert(digits.drop_last().take(k) =~= digits.take(k));
    }
}

/// Reads the characters from `start` up to `end` as a hexadecimal number
/// that fits a byte. Returns `None` where they are no hexadecimal number or
/// the number is greater than 255.
pub fn hex_byte(line: &Vec<char>, start: usize, end: usize) -> (byte: Option<u8>)
    requires
        start <= end <= line.len(),
    ensures
        match byte {
            Some(b) => spec_hex(line@.subrange(start as int, end as int)) == Some(b as nat),
            None => match spec_hex(line@.subrange(start as int, end as int)) {
                Some(n) => n > 255,
                None => true,
            },
        },
{
    let ghost digits = line@.subrange(start as int, end as int);
    if start == end {
        return None;
    }
    let mut value: u16 = 0;
    let mut i: usize = start;
    while i < end
        invariant
            start <= i <= end <= line.len(),
            digits == line@.subrange(start as int, end as int),
            value <= 255,
            i == start ==> value == 0,
            i > start ==> spec_hex(digits.take(i - start)) == Some(value as nat),
        decreases end - i,
    {
        let ghost prefix = digits.take(i - start + 1);
        assert(prefix.drop_last() =~= digits.take(i - start));
        match hex_digit(line[i]) {
            None => {
                proof {
                    if spec_hex(digits) is Some {
                        lemma_hex_prefix(digits, i - start + 1);
                    }
                }
                return None;
            },
            Some(digit) => {
                let next: u16 = value * 16 + digit as u16;
                if next > 255 {
                    proof {
                        if spec_hex(digits) is Some {
                            lemma_hex_prefix(digits, i - start + 1);
                        }
                    }
                    return None;
                }
                value = next;
            },
        }
        i = i + 1;
    }
    assert(digits.take(end - start) =~= digits);
    Some(value as u8)
}

/// Whether the characters from `start` up to `end` spell `word`.
pub fn spells(line: &Vec<char>, start: usize, end: usize, word: &str) -> (same: bool)
    requires
        start <= end <= line.len(),
    ensures
        same == (line@.subrange(start as int, end as int) == word@),
{
    let ghost field = line@.subrange(start as int, end as int);
    let len = word.unicode_len();
    if end - start != len {
        return false;
    }
    let mut i: usize = 0;
    while i < len
        invariant
            start <= end <= line.len(),
            field == line@.subrange(start as int, end as int),
            len == word@.len(),
            end - start == len,
            i <= len,
            forall|k: int| 0 <= k < i ==> field[k] == word@[k],
        decreases len - i,
    {
        if line[start + i] != word.get_char(i) {
            return false;
        }
        i = i + 1;
    }
    assert(field =~= word@);
    true
}

/// The opcode that the mnemonic from `start` up to `end` names.
pub fn mnemonic(line: &Vec<char>, start: usize, end: usize) -> (code: Option<OpCode>)
    requires
        start <= end <= line.len(),
    ensures
        code == spec_mnemonic(line@.subrange(start as int, end as int)),
{
    if spells(line, start, end, "NOOP") {
        Some(OpCode::NoOp)
    } else if spells(line, start, end, "AND") {
        Some(OpCode::And)
    } else if spells(line, start, end, "OR") {
        Some(OpCode::Or)
    } else if spells(line, start, end, "NOT") {
        Some(OpCode::Not)
    } else if spells(line, start, end, "ADD") {
        Some(OpCode::Add)
    } else if spells(line, start, end, "SUB") {
        Some(OpCode::Sub)
    } else if spells(line, start, end, "MUL") {
        Some(OpCode::Mul)
    } else if spells(line, start, end, "DIV") {
        Some(OpCode::Div)
    } else if spells(line, start, end, "SL") {
        Some(OpCode::SL)
    } else if spells(line, start, end, "SR") {
        Some(OpCode::SR)
    } else if spells(line, start, end, "RL") {
        Some(OpCode::RL)
    } else if spells(line, start, end, "RR") {
        Some(OpCode::RR)
    } else if spells(line, start, end, "COPY") {
        Some(OpCode::Copy)
    } else if spells(line, start, end, "COMPEQ") {
        Some(OpCode::CompEq)
    } else if spells(line, start, end, "COMPGT") {
        Some(OpCode::CompGt)
    } else if spells(line, start, end, "COMPLE") {
        Some(OpCode::CompLt)
    } else {
        None
    }
}

/// The flags that the characters from `start` up to `end` set.
pub fn flags(line: &Vec<char>, start: usize, end: usize) -> (set: Option<OpOptions>)
    requires
        start <= end <= line.len(),
    ensures
        set == spec_flags(line@.subrange(start as int, end as int)),
{
    let len = end - start;
    if len > 4 {
        return None;
    }
    Some(
        OpOptions {
            halt_on_error: len > 0 && line[start] == '1',
            store_debug_info: len > 1 && line[start + 1] == '1',
            arg1_signed: len > 2 && line[start + 2] == '1',
            arg2_signed: len > 3 && line[start + 3] == '1',
        },
    )
}

/// The flags and operands that the fields after the mnemonic have given so
/// far.
pub struct Operands {
    pub options: OpOptions,
    pub args: Vec<Symbol>,
}

impl View for Operands {
    type V = Draft;

    open spec fn view(&self) -> Draft {
        Draft { options: self.options, args: self.args@.map_values(|symbol: Symbol| symbol@) }
    }
}

/// Takes the field from `start` up to `end` of `line` into `operands`.
/// Returns `false` where the field is refused; `operands` is then of no use.
/// `text` holds the same characters as `line`.
pub fn take_field(
    text: &str,
    line: &Vec<char>,
    start: usize,
    end: usize,
    operands: &mut Operands,
) -> (taken: bool)
    requires
        line@ == text@,
        start < end <= line.len(),
    ensures
        match spec_field(old(operands)@, line@.subrange(start as int, end as int)) {
            Some(next) => taken && final(operands)@ == next,
            None => !taken,
        },
{
    let ghost field = line@.subrange(start as int, end as int);
    let ghost value = field.subrange(1, field.len() as int);
    assert(value =~= line@.subrange(start + 1, end as int));
    let prefix: char = line[start];
    if prefix == ':' {
        match flags(line, start + 1, end) {
            Some(set) => {
                operands.options = operands.options.union(set);
                true
            },
            None => false,
        }
    } else if prefix == '#' {
        match hex_byte(line, start + 1, end) {
            Some(address) => {
                operands.args.push(Symbol::Resolved(address));
                assert(operands@.args =~= old(operands)@.args.push(SymbolView::Resolved(address)));
                true
            },
            None => false,
        }
    } else if prefix == '$' {
        let name: String = text.substring_char(start + 1, end).to_owned();
        operands.args.push(Symbol::UnResolved(name, 0));
        assert(operands@.args =~= old(operands)@.args.push(SymbolView::UnResolved(value, 0)));
        true
    } else if prefix == '+' || prefix == '-' {
        let step: i16 = match hex_byte(line, start + 1, end) {
            Some(step) => step as i16,
            None => {
                return false;
            },
        };
        let last: Symbol = match operands.args.pop() {
            Some(last) => last,
            None => {
                return false;
            },
        };
        match last {
            Symbol::Resolved(_) => false,
            Symbol::UnResolved(name, offset) => {
                let moved: i16 = if prefix == '+' {
                    offset as i16 + step
                } else {
                    offset as i16 - step
                };
                let fits: bool = if prefix == '+' {
                    step <= 127
                } else {
                    step <= 128
                };
                if fits && -128 <= moved && moved <= 127 {
                    operands.args.push(Symbol::UnResolved(name, moved as i8));
                    assert(operands@.args =~= old(operands)@.args.update(
                        old(operands)@.args.len() - 1,
                        SymbolView::UnResolved(name@, moved as i8),
                    ));
                    true
                } else {
                    false
                }
            },
        }
    } else {
        false
    }
}

impl Instruction {
    /// Reads one instruction from a line of text.
    ///
    /// The line is cut into fields at white space. The first field names the
    /// operation; the fields after it set flags and give operands, as
    /// [`spec_field`] says. The line must give exactly two operands. Any line
    /// that does not write an instruction gives `None`.
    pub fn from_text(string: &str) -> (parsed: Option<Instruction>)
        ensures
            match parsed {
                Some(inst) => spec_from_text(string@) == Some(inst@),
                None => spec_from_text(string@) is None,
            },
    {
        let line: Vec<char> = characters(string);
        let first: usize = field_start(&line, 0);
        if first >= line.len() {
            return None;
        }
        let first_end: usize = field_end(&line, first);
        let ghost rest = spec_fields_from(line@, first_end as int);
        proof {
            lemma_field_start_bounds(line@, 0);
            lemma_field_end_bounds(line@, first as int);
            let fields = spec_fields(line@);
            assert(fields.subrange(1, fields.len() as int) =~= rest);
        }
        let code: OpCode = match mnemonic(&line, first, first_end) {
            Some(code) => code,
            None => {
                return None;
            },
        };
        let mut operands = Operands { options: OpOptions::none(), args: Vec::new() };
        assert(operands@.args =~= spec_blank().args);
        let mut pos: usize = first_end;
        loop
            invariant
                line@ == string@,
                pos <= line.len(),
                spec_operands(spec_blank(), rest) is None ==> spec_from_text(string@) is None,
                spec_operands(operands@, spec_fields_from(line@, pos as int)) == spec_operands(
                    spec_blank(),
                    rest,
                ),
            ensures
                spec_operands(spec_blank(), rest) == Some(operands@),
            decreases line.len() - pos,
        {
            let start: usize = field_start(&line, pos);
            if start >= line.len() {
                break ;
            }
            let end: usize = field_end(&line, start);
            proof {
                lemma_field_start_bounds(line@, pos as int);
                lemma_field_end_bounds(line@, start as int);
                let field = line@.subrange(start as int, end as int);
                let here = spec_fields_from(line@, pos as int);
                let after = spec_fields_from(line@, end as int);
                assert(here.subrange(1, here.len() as int) =~= after);
                assert(spec_operands(operands@, here) == match spec_field(operands@, field) {
                    Some(next) => spec_operands(next, after),
                    None => None,
                });
            }
            if !take_field(string, &line, start, end, &mut operands) {
                return None;
            }
            pos = end;
        }
        if operands.args.len() != 2 {
            return None;
        }
        let options = operands.options;
        let arg2: Symbol = operands.args.pop().unwrap();
        let arg1: Symbol = operands.args.pop().unwrap();
        Some(Instruction { code, options, arg1, arg2 })
    }
}

} // verus!
