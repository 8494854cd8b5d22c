use y_cpu::assembler::{assemble, emit, label_address, line_end, scan, AssembleError};
use y_cpu::codec::OpCode;
use y_cpu::emulation::{Halted, CPU};
use y_cpu::symbols::Symbol;
use y_cpu::text::characters;

#[test]
fn an_empty_source_is_an_empty_program() {
    assert_eq!(assemble(""), Ok(vec![]));
    assert_eq!(assemble("\n\n"), Ok(vec![]));
    assert_eq!(assemble("// nothing here\n"), Ok(vec![]));
}

#[test]
fn each_instruction_makes_three_bytes() {
    assert_eq!(assemble("NOOP #00 #00"), Ok(vec![0x00, 0x00, 0x00]));
    assert_eq!(
        assemble("COPY #01 #02\nSUB :0010 #00 #01\n"),
        Ok(vec![0x0C, 0x01, 0x02, 0x25, 0x00, 0x01])
    );
    assert_eq!(
        assemble("COMPLE :1111 #ab #cd"),
        Ok(vec![0xFF, 0xAB, 0xCD])
    );
}

#[test]
fn a_label_may_be_used_before_it_is_defined() {
    // the label stands before the NOOP, which is the second instruction, at
    // byte 3; stored to the program counter, 0 makes the NOOP the next one
    let source = "COPY #01 $L\n$L\nNOOP #00 #00\n";
    assert_eq!(assemble(source), Ok(vec![0x0C, 0x01, 0x00, 0x00, 0x00, 0x00]));
    let source = "COPY #01 $L\nNOOP #00 #00\nNOOP #00 #00\n$L\nNOOP #00 #00\n";
    assert_eq!(
        assemble(source),
        Ok(vec![0x0C, 0x01, 0x06, 0, 0, 0, 0, 0, 0, 0, 0, 0])
    );
}

#[test]
fn the_order_of_definition_and_use_plays_no_part() {
    let forward = "COPY #01 $L\nNOOP #00 #00\n$L\nNOOP #00 #00\nCOPY #02 $L\n";
    assert_eq!(
        assemble(forward),
        Ok(vec![0x0C, 0x01, 0x03, 0, 0, 0, 0, 0, 0, 0x0C, 0x02, 0x03])
    );
}

#[test]
fn a_jump_to_a_label_reaches_the_instruction_after_it() {
    // byte 0x28 holds the address of the label; the copy stores it to the
    // program counter, which then moves on by 3
    let source = "COPY #28 #00\nNOT #80 #80\nNOT #81 #81\n$target\nNOT #82 #82\n";
    let program = assemble(source).unwrap();
    let target = scan(source).unwrap().labels.get("target").unwrap();
    assert_eq!(target, 6);
    let mut image = [0u8; 127];
    image[..program.len()].copy_from_slice(&program);
    image[0x28] = target;
    let mut cpu = CPU::new(image, Vec::new()).unwrap();
    assert_eq!(cpu.tick(), Halted::Running);
    assert_eq!(cpu.reg_zero, 9);
    assert_eq!(cpu.tick(), Halted::Running);
    assert_eq!(cpu.data_mem.content[0][0], 0);
    assert_eq!(cpu.data_mem.content[0][1], 0);
    assert_eq!(cpu.data_mem.content[0][2], 0xFF);
}

#[test]
fn offsets_are_added_to_the_label() {
    let source = "NOOP #00 #00\nNOOP #00 #00\n$L\nCOPY $L +05 $L -02\n";
    // L stands after two instructions: 6 - 3 = 3
    assert_eq!(
        assemble(source),
        Ok(vec![0, 0, 0, 0, 0, 0, 0x0C, 0x08, 0x01])
    );
}

#[test]
fn label_offsets_wrap_to_eight_bits() {
    let source = "$L\nCOPY $L +05 $L -05\n";
    // L stands before the first instruction: 0 - 3 wraps to 253
    assert_eq!(assemble(source), Ok(vec![0x0C, 0x02, 0xF8]));
}

#[test]
fn an_offset_on_a_literal_is_refused() {
    assert_eq!(
        assemble("NOOP #00 #00\nCOPY #01 +05 #02\n"),
        Err(AssembleError::UnknownInstruction { line: 2 })
    );
}

#[test]
fn an_unknown_line_is_reported_with_its_number() {
    assert_eq!(
        assemble("NOOP #00 #00\n\n// comment\nJUMP #00 #00\nNOOP #00 #00\n"),
        Err(AssembleError::UnknownInstruction { line: 4 })
    );
    assert_eq!(
        assemble("NOOP #00"),
        Err(AssembleError::UnknownInstruction { line: 1 })
    );
    assert_eq!(
        assemble("NOOP #00 #00\n   \n"),
        Err(AssembleError::UnknownInstruction { line: 2 })
    );
    assert_eq!(
        assemble(" // indented\n"),
        Err(AssembleError::UnknownInstruction { line: 1 })
    );
}

#[test]
fn an_undefined_label_is_reported_with_its_line() {
    assert_eq!(
        assemble("$L\nNOOP #00 #00\n\nCOPY $L $M\n"),
        Err(AssembleError::UnresolvedSymbol { line: 4 })
    );
    assert_eq!(
        assemble("COPY $M #00\nCOPY $N #00\n"),
        Err(AssembleError::UnresolvedSymbol { line: 1 })
    );
}

#[test]
fn an_unknown_line_comes_before_an_undefined_label() {
    assert_eq!(
        assemble("COPY $M #00\nJUMP\n"),
        Err(AssembleError::UnknownInstruction { line: 2 })
    );
}

#[test]
fn comments_and_empty_lines_take_no_space() {
    let source = "// start\n\nNOOP #00 #00\n// middle\n$L\n\nCOPY $L #00\n//end";
    assert_eq!(assemble(source), Ok(vec![0, 0, 0, 0x0C, 0x00, 0x00]));
}

#[test]
fn lines_may_end_with_a_carriage_return() {
    let source = "NOOP #00 #00\r\n$L\r\n\r\nCOPY $L #00\r\n";
    assert_eq!(assemble(source), Ok(vec![0, 0, 0, 0x0C, 0x00, 0x00]));
    // the name of a label is the rest of its line, so a carriage return that
    // ends the source belongs to the name
    assert_eq!(
        assemble("COPY $L #00\n$L\r"),
        Err(AssembleError::UnresolvedSymbol { line: 1 })
    );
}

#[test]
fn a_label_defined_twice_keeps_its_last_address() {
    let source = "$L\nNOOP #00 #00\n$L\nNOOP #00 #00\nCOPY $L #00\n";
    assert_eq!(
        assemble(source),
        Ok(vec![0, 0, 0, 0, 0, 0, 0x0C, 0x00, 0x00])
    );
}

#[test]
fn label_addresses() {
    assert_eq!(label_address(0), 253);
    assert_eq!(label_address(1), 0);
    assert_eq!(label_address(2), 3);
    assert_eq!(label_address(42), 123);
    assert_eq!(label_address(86), 255);
    assert_eq!(label_address(87), 2);
    assert_eq!(label_address(256), 253);
    assert_eq!(label_address(usize::MAX), ((3u128 * usize::MAX as u128 - 3) % 256) as u8);
}

#[test]
fn line_ends() {
    let source = characters("ab\n\ncd");
    assert_eq!(line_end(&source, 0), 2);
    assert_eq!(line_end(&source, 2), 2);
    assert_eq!(line_end(&source, 3), 3);
    assert_eq!(line_end(&source, 4), 6);
    assert_eq!(line_end(&source, 6), 6);
}

#[test]
fn the_first_pass_gathers_instructions_and_labels() {
    let program = scan("// c\n$a\nCOPY $b #01\n\n$b\nNOOP #00 #00\n$c").unwrap();
    assert_eq!(program.instructions.len(), 2);
    assert_eq!(program.origins, vec![3, 6]);
    assert_eq!(program.instructions[0].code, OpCode::Copy);
    assert_eq!(program.instructions[0].arg1, Symbol::UnResolved(String::from("b"), 0));
    assert_eq!(program.labels.get("a"), Some(253));
    assert_eq!(program.labels.get("b"), Some(0));
    assert_eq!(program.labels.get("c"), Some(3));
    assert_eq!(program.labels.get("d"), None);
    assert_eq!(emit(program), Ok(vec![0x0C, 0x00, 0x01, 0, 0, 0]));
}

#[test]
fn many_instructions() {
    let mut source = String::new();
    for _ in 0..100 {
        source.push_str("NOOP #00 #00\n");
    }
    source.push_str("$L\nCOPY $L #00\n");
    let bytes = assemble(&source).unwrap();
    assert_eq!(bytes.len(), 303);
    // 300 - 3 wraps to 41
    assert_eq!(bytes[300..], [0x0C, 41, 0]);
}
