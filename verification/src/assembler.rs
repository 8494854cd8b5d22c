//! The assembler: source text to program bytes, in two passes.
//!
//! The first pass reads the source line by line, collects the instructions
//! and records the address of every label. The second pass resolves each
//! label reference against the complete table, so a label may be used before
//! the line that defines it, and encodes the instructions.
use crate::codec::Instruction;
use crate::codec::InstructionView;
use crate::symbols::spec_offset_address;
use crate::symbols::SymbolTable;
use crate::symbols::SymbolView;
use crate::text::characters;
use crate::text::spec_from_text;
use vstd::prelude::*;

verus! {

/// Why a source text cannot be assembled.
#[derive(Debug, Clone, Copy, PartialEq, Eq, Structural)]
pub enum AssembleError {
    /// The line with this number, counted from 1, is no comment, no label and
    /// no instruction.
    UnknownInstruction { line: usize },
    /// The instruction on the line with this number, counted from 1, refers to
    /// a label that the source does not define.
    UnresolvedSymbol { line: usize },
}

/// The first position at or after `from` that holds a line feed, or the
/// length of the source if there is none.
pub open spec fn spec_line_end(source: Seq<char>, from: int) -> int
    decreases source.len() - from,
{
    if 0 <= from < source.len() && source[from] != '\n' {
        spec_line_end(source, from + 1)
    } else {
        from
    }
}

/// A line without the carriage return that stood before its line feed.
pub open spec fn spec_strip_return(line: Seq<char>) -> Seq<char> {
    if line.len() > 0 && line.last() == '\r' {
        line.drop_last()
    } else {
        line
    }
}

/// The lines of `source` that start at or after `from`. A line ends at a line
/// feed, or at a carriage return followed by a line feed; the last line may
/// end with the source, and then keeps a carriage return at its end. Nothing
/// follows the last line feed.
pub open spec fn spec_lines_from(source: Seq<char>, from: int) -> Seq<Seq<char>>
    decreases source.len() - from,
    via spec_lines_from_decreases
{
    if 0 <= from < source.len() {
        let end = spec_line_end(source, from);
        if end < source.len() {
            seq![spec_strip_return(source.subrange(from, end))] + spec_lines_from(source, end + 1)
        } else {
            seq![source.subrange(from, end)]
        }
    } else {
        Seq::empty()
    }
}

#[via_fn]
proof fn spec_lines_from_decreases(source: Seq<char>, from: int) {
    if 0 <= from < source.len() {
        lemma_line_end_bounds(source, from);
    }
}

/// The lines of `source`, in order.
pub open spec fn spec_lines(source: Seq<char>) -> Seq<Seq<char>> {
    spec_lines_from(source, 0)
}

/// The end of a line lies between `from` and the end of the source.
pub proof fn lemma_line_end_bounds(source: Seq<char>, from: int)
    requires
        0 <= from <= source.len(),
    ensures
        from <= spec_line_end(source, from) <= source.len(),
    decreases source.len() - from,
{
    if from < source.len() && source[from] != '\n' {
        lemma_line_end_bounds(source, from + 1);
    }
}

/// Whether a line is passed over: an empty line, or a comment, which starts
/// with two slashes.
pub open spec fn spec_is_skipped(line: Seq<char>) -> bool {
    line.len() == 0 || (line.len() >= 2 && line[0] == '/' && line[1] == '/')
}

/// Whether a line defines a label: it starts with `$`, and the rest of the
/// line is the label's name.
pub open spec fn spec_is_label(line: Seq<char>) -> bool {
    line.len() > 0 && line[0] == '$'
}

/// The address of a label that stands after `count` instructions: the
/// position of the next instruction less 3, wrapped to eight bits. Stored to
/// the program counter, it makes that instruction the next one, since the
/// program counter moves on by 3 after the store.
pub open spec fn spec_label_address(count: nat) -> u8 {
    ((3 * count - 3) % 256) as u8
}

/// What the first pass gathers: the instructions in order, for each the
/// number of its line, and the address of every label.
pub struct Listing {
    pub instructions: Seq<InstructionView>,
    pub origins: Seq<usize>,
    pub labels: Map<Seq<char>, u8>,
}

/// The first pass over `lines`, or the first line that is no comment, no
/// label and no instruction. A label that is defined twice keeps its last
/// address.
pub open spec fn spec_scan(lines: Seq<Seq<char>>) -> Result<Listing, AssembleError>
    decreases lines.len(),
{
    if lines.len() == 0 {
        Ok(Listing { instructions: Seq::empty(), origins: Seq::empty(), labels: Map::empty() })
    } else {
        let line = lines.last();
        match spec_scan(lines.drop_last()) {
            Err(error) => Err(error),
            Ok(listing) => if spec_is_skipped(line) {
                Ok(listing)
            } else if spec_is_label(line) {
                Ok(
                    Listing {
                        labels: listing.labels.insert(
                            line.subrange(1, line.len() as int),
                            spec_label_address(listing.instructions.len()),
                        ),
                        ..listing
                    },
                )
            } else {
                match spec_from_text(line) {
                    Some(inst) => Ok(
                        Listing {
                            instructions: listing.instructions.push(inst),
                            origins: listing.origins.push(lines.len() as usize),
                            ..listing
                        },
                    ),
                    None => Err(AssembleError::UnknownInstruction { line: lines.len() as usize }),
                }
            },
        }
    }
}

/// The address that an operand stands for once the labels are known. A
/// reference to a label that is not defined stands for none.
pub open spec fn spec_resolve(symbol: SymbolView, labels: Map<Seq<char>, u8>) -> Option<u8> {
    match symbol {
        SymbolView::Resolved(addr) => Some(addr),
        SymbolView::UnResolved(name, offset) => if labels.contains_key(name) {
            Some(spec_offset_address(labels[name], offset))
        } else {
            None
        },
    }
}

/// The three bytes of an instruction once the labels are known, or `None`
/// where one of its operands refers to a label that is not defined.
pub open spec fn spec_resolved_bytes(inst: InstructionView, labels: Map<Seq<char>, u8>) -> Option<
    Seq<u8>,
> {
    match (spec_resolve(inst.arg1, labels), spec_resolve(inst.arg2, labels)) {
        (Some(first), Some(second)) => Some(
            seq![
                (inst.options.spec_encode() * 16 + inst.code.spec_encode()) as u8,
                first,
                second,
            ],
        ),
        _ => None,
    }
}

/// The second pass: the bytes of all instructions in order, each resolved
/// against `labels`, or the line of the first instruction that cannot be
/// resolved.
pub open spec fn spec_emit(
    instructions: Seq<InstructionView>,
    origins: Seq<usize>,
    labels: Map<Seq<char>, u8>,
) -> Result<Seq<u8>, AssembleError>
    decreases instructions.len(),
{
    if instructions.len() == 0 {
        Ok(Seq::empty())
    } else {
        match spec_emit(instructions.drop_last(), origins.drop_last(), labels) {
            Err(error) => Err(error),
            Ok(bytes) => match spec_resolved_bytes(instructions.last(), labels) {
                Some(encoded) => Ok(bytes + encoded),
                None => Err(AssembleError::UnresolvedSymbol { line: origins.last() }),
            },
        }
    }
}

/// The program bytes that a source text assembles to, or the reason why it
/// assembles to none.
pub open spec fn spec_assemble(source: Seq<char>) -> Result<Seq<u8>, AssembleError> {
    match spec_scan(spec_lines(source)) {
        Err(error) => Err(error),
        Ok(listing) => spec_emit(listing.instructions, listing.origins, listing.labels),
    }
}

/// A program is laid out instruction by instruction: it holds three bytes for
/// each instruction, and the bytes of an instruction are fixed by the
/// instruction and the complete label table alone. Where a label is defined,
/// before or after the instruction that refers to it, plays no part.
pub proof fn lemma_emit_layout(
    instructions: Seq<InstructionView>,
    origins: Seq<usize>,
    labels: Map<Seq<char>, u8>,
    k: int,
)
    requires
        spec_emit(instructions, origins, labels) is Ok,
        0 <= k < instructions.len(),
    ensures
        spec_emit(instructions, origins, labels)->Ok_0.len() == 3 * instructions.len(),
        spec_resolved_bytes(instructions[k], labels) == Some(
            spec_emit(instructions, origins, labels)->Ok_0.subrange(3 * k, 3 * k + 3),
        ),
    decreases instructions.len(),
{
    let bytes = spec_emit(instructions, origins, labels)->Ok_0;
    let before = spec_emit(instructions.drop_last(), origins.drop_last(), labels)->Ok_0;
    let encoded = spec_resolved_bytes(instructions.last(), labels)->0;
    if instructions.len() > 1 {
        lemma_emit_layout(instructions.drop_last(), origins.drop_last(), labels, 0);
    }
    assert(before.len() == 3 * (instructions.len() - 1));
    if k == instructions.len() - 1 {
        assert(bytes.subrange(3 * k, 3 * k + 3) =~= encoded);
    } else {
        lemma_emit_layout(instructions.drop_last(), origins.drop_last(), labels, k);
    }
}

/// What the first pass gathers.
pub struct Program {
    /// The instructions in the order of the source.
    pub instructions: Vec<Instruction>,
    /// For each instruction, the number of its line, counted from 1.
    pub origins: Vec<usize>,
    /// The address of every label.
    pub labels: SymbolTable,
}

impl View for Program {
    type V = Listing;

    open spec fn view(&self) -> Listing {
        Listing {
            instructions: self.instructions@.map_values(|inst: Instruction| inst@),
            origins: self.origins@,
            labels: self.labels@,
        }
    }
}

pub fn line_end(source: &Vec<char>, from: usize) -> (end: usize)
    requires
        from <= source.len(),
    ensures
        end == spec_line_end(source@, from as int),
        from <= end <= source.len(),
{
    let mut end: usize = from;
    while end < source.len() && source[end] != '\n'
        invariant
            from <= end <= source.len(),
            spec_line_end(source@, from as int) == spec_line_end(source@, end as int),
        decreases source.len() - end,
    {
        end = end + 1;
    }
    end
}

/// The address of a label that stands after `count` instructions.
pub fn label_address(count: usize) -> (addr: u8)
    ensures
        addr == spec_label_address(count as nat),
{
    let low: usize = count % 256;
    ((3 * low + 253) % 256) as u8
}

impl Program {
    /// Every instruction has the number of its line.
    pub open spec fn wf(self) -> bool {
        self.instructions.len() == self.origins.len()
    }
}

/// Once a line is refused, the lines after it change nothing.
pub proof fn lemma_scan_stops(lines: Seq<Seq<char>>, more: Seq<Seq<char>>)
    requires
        spec_scan(lines) is Err,
    ensures
        spec_scan(lines + more) == spec_scan(lines),
    decreases more.len(),
{
    if more.len() > 0 {
        lemma_scan_stops(lines, more.drop_last());
        assert((lines + more).drop_last() =~= lines + more.drop_last());
    }
}

/// Once an instruction cannot be resolved, the instructions after it change
/// nothing.
pub proof fn lemma_emit_stops(
    instructions: Seq<InstructionView>,
    origins: Seq<usize>,
    labels: Map<Seq<char>, u8>,
    k: int,
)
    requires
        instructions.len() == origins.len(),
        0 <= k <= instructions.len(),
        spec_emit(instructions.take(k), origins.take(k), labels) is Err,
    ensures
        spec_emit(instructions, origins, labels) == spec_emit(
            instructions.take(k),
            origins.take(k),
            labels,
        ),
    decreases instructions.len() - k,
{
    if k == instructions.len() {
        assert(instructions.take(k) =~= instructions);
        assert(origins.take(k) =~= origins);
    } else {
        assert(instructions.take(k + 1).drop_last() =~= instructions.take(k));
        assert(origins.take(k + 1).drop_last() =~= origins.take(k));
        lemma_emit_stops(instructions, origins, labels, k + 1);
    }
}

/// The first pass: reads `source` line by line, collects the instructions
/// and records the address of every label. Empty lines and comments are
/// passed over. The first line that is none of these and no instruction ends
/// the pass with its number.
pub fn scan(source: &str) -> (scanned: Result<Program, AssembleError>)
    ensures
        match scanned {
            Ok(program) => spec_scan(spec_lines(source@)) == Ok::<Listing, AssembleError>(program@)
                && program.wf(),
            Err(error) => spec_scan(spec_lines(source@)) == Err::<Listing, AssembleError>(error),
        },
{
    let chars: Vec<char> = characters(source);
    let mut program = Program {
        instructions: Vec::new(),
        origins: Vec::new(),
        labels: SymbolTable::new(),
    };
    let ghost mut done: Seq<Seq<char>> = Seq::empty();
    let mut number: usize = 0;
    let mut from: usize = 0;
    assert(program@.instructions =~= Seq::<InstructionView>::empty());
    while from < chars.len()
        invariant
            chars@ == source@,
            from <= chars.len(),
            number == done.len(),
            number <= from,
            spec_lines(chars@) == done + spec_lines_from(chars@, from as int),
            spec_scan(done) == Ok::<Listing, AssembleError>(program@),
            program.wf(),
        decreases chars.len() - from,
    {
        let end: usize = line_end(&chars, from);
        let terminated: bool = end < chars.len();
        let stop: usize = if terminated && end > from && chars[end - 1] == '\r' {
            (end - 1) as usize
        } else {
            end
        };
        let next: usize = if terminated {
            end + 1
        } else {
            end
        };
        let ghost line = chars@.subrange(from as int, stop as int);
        let ghost lines = done.push(line);
        proof {
            let raw = chars@.subrange(from as int, end as int);
            if terminated {
                assert(line =~= spec_strip_return(raw));
            }
            assert(spec_lines_from(chars@, from as int) =~= seq![line] + spec_lines_from(
                chars@,
                next as int,
            ));
            assert(spec_lines(chars@) =~= lines + spec_lines_from(chars@, next as int));
            assert(lines.drop_last() =~= done);
        }
        number = number + 1;
        if stop == from {
        } else if chars[from] == '/' && stop - from >= 2 && chars[from + 1] == '/' {
        } else if chars[from] == '$' {
            let name: &str = source.substring_char(from + 1, stop);
            assert(name@ =~= line.subrange(1, line.len() as int));
            program.labels.insert(name, label_address(program.instructions.len()));
        } else {
            let text: &str = source.substring_char(from, stop);
            match Instruction::from_text(text) {
                Some(inst) => {
                    let ghost before = program@;
                    program.instructions.push(inst);
                    program.origins.push(number);
                    assert(program@.instructions =~= before.instructions.push(inst@));
                },
                None => {
                    proof {
                        lemma_scan_stops(lines, spec_lines_from(chars@, next as int));
                    }
                    return Err(AssembleError::UnknownInstruction { line: number });
                },
            }
        }
        proof {
            done = lines;
        }
        from = next;
    }
    Ok(program)
}

/// The second pass: resolves every operand against the labels of `program`
/// and encodes the instructions, three bytes each. The first instruction that
/// refers to a label without a definition ends the pass with the number of
/// its line.
pub fn emit(program: Program) -> (emitted: Result<Vec<u8>, AssembleError>)
    requires
        program.wf(),
    ensures
        match emitted {
            Ok(bytes) => spec_emit(program@.instructions, program@.origins, program@.labels) == Ok::<
                Seq<u8>,
                AssembleError,
            >(bytes@),
            Err(error) => spec_emit(program@.instructions, program@.origins, program@.labels)
                == Err::<Seq<u8>, AssembleError>(error),
        },
{
    let ghost listing = program@;
    let Program { instructions, origins, labels } = program;
    let mut bytes: Vec<u8> = Vec::new();
    let mut k: usize = 0;
    for inst in it: instructions
        invariant
            it.seq() == instructions@,
            k == it.index(),
            listing == program@,
            listing.instructions == instructions@.map_values(|inst: Instruction| inst@),
            listing.origins == origins@,
            listing.labels == labels@,
            instructions.len() == origins.len(),
            spec_emit(
                listing.instructions.take(k as int),
                listing.origins.take(k as int),
                listing.labels,
            ) == Ok::<Seq<u8>, AssembleError>(bytes@),
    {
        let mut inst: Instruction = inst;
        let first: bool = inst.arg1.resolve(&labels);
        let second: bool = inst.arg2.resolve(&labels);
        proof {
            assert(listing.instructions.take(k + 1).drop_last() =~= listing.instructions.take(
                k as int,
            ));
            assert(listing.origins.take(k + 1).drop_last() =~= listing.origins.take(k as int));
        }
        if !(first && second) {
            proof {
                lemma_emit_stops(listing.instructions, listing.origins, listing.labels, k + 1);
            }
            return Err(AssembleError::UnresolvedSymbol { line: origins[k] });
        }
        let encoded: [u8; 3] = inst.encode();
        let ghost before = bytes@;
        bytes.push(encoded[0]);
        bytes.push(encoded[1]);
        bytes.push(encoded[2]);
        assert(bytes@ =~= before + encoded@);
        k = k + 1;
    }
    assert(listing.instructions.take(k as int) =~= listing.instructions);
    assert(listing.origins.take(k as int) =~= listing.origins);
    Ok(bytes)
}

/// Assembles `source` into program bytes: the first pass, then the second.
/// The program holds three bytes for each instruction of the source.
pub fn assemble(source: &str) -> (assembled: Result<Vec<u8>, AssembleError>)
    ensures
        match assembled {
            Ok(bytes) => spec_assemble(source@) == Ok::<Seq<u8>, AssembleError>(bytes@),
            Err(error) => spec_assemble(source@) == Err::<Seq<u8>, AssembleError>(error),
        },
{
    match scan(source) {
        Ok(program) => emit(program),
        Err(error) => Err(error),
    }
}

} // verus!
