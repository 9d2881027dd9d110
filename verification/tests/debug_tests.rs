use lox_vm::chunk::Chunk;
use lox_vm::common::OpCode;
use lox_vm::compiler::compile;
use lox_vm::debug::{disassemble_chunk, disassemble_instruction};
use lox_vm::value::Value;

fn compiled(source: &str) -> Chunk {
    match compile(source.as_bytes().to_vec()) {
        Ok(c) => c,
        Err(_) => panic!("program failed to compile: {}", source),
    }
}

#[test]
fn decode_steps_by_operand_width() {
    let mut chunk = Chunk::new();
    chunk.write_constant(Value::Number(1), 1); // CONSTANT idx -> 2 bytes
    chunk.write_chunk(3, 1); // ADD -> 1 byte
    chunk.write_chunk(0, 1); // RETURN -> 1 byte
    let (op, next) = disassemble_instruction(&chunk, 0);
    assert_eq!(op, OpCode::OpConstant);
    assert_eq!(next, 2);
    let (op, next) = disassemble_instruction(&chunk, 2);
    assert_eq!(op, OpCode::OpAdd);
    assert_eq!(next, 3);
    let (op, next) = disassemble_instruction(&chunk, 3);
    assert_eq!(op, OpCode::OpReturn);
    assert_eq!(next, 4);
}

#[test]
fn decode_is_total_on_unknown_bytes() {
    let mut chunk = Chunk::new();
    chunk.write_chunk(200, 1);
    chunk.write_chunk(0, 1);
    let (op, next) = disassemble_instruction(&chunk, 0);
    assert_eq!(op, OpCode::Unknown);
    assert_eq!(next, 1);
}

#[test]
fn compiled_chunks_decode_to_whole_instructions() {
    // Each program's code must decode to a clean instruction walk that
    // lands exactly on the end, with no unknown opcodes.
    let programs = [
        "print 1 + 2 * 3;",
        "var a = 1; a = a + 1; print a;",
        "if (1 < 2) print 1; else print 2;",
        "var x = 0; while (x < 3) { print x; x = x + 1; }",
        "for (var i = 0; i < 5; i = i + 1) print i;",
        "{ var a = 1; { var b = 2; print a + b; } }",
        "print true and false or nil;",
    ];
    for src in programs {
        let chunk = compiled(src);
        let offsets = disassemble_chunk(&chunk);
        let mut expected = 0;
        for offset in &offsets {
            assert_eq!(*offset, expected, "instruction boundary in {:?}", src);
            let (op, next) = disassemble_instruction(&chunk, *offset);
            assert!(op != OpCode::Unknown, "unknown opcode in {:?}", src);
            expected = next;
        }
        assert_eq!(expected, chunk.code.len(), "decode walks to the end of {:?}", src);
    }
}

#[test]
fn emitted_jumps_decode_to_instruction_boundaries() {
    // Every jump operand in compiled code must decode to a distance that
    // lands on an instruction boundary: the patched operand is exactly
    // the distance to the jump's target.
    let programs = [
        "if (1 < 2) print 1; else print 2;",
        "var x = 0; while (x < 3) { print x; x = x + 1; }",
        "for (var i = 0; i < 5; i = i + 1) print i;",
        "print true and false;",
        "print nil or 3;",
    ];
    for src in programs {
        let chunk = compiled(src);
        let offsets = disassemble_chunk(&chunk);
        for offset in &offsets {
            let (op, next) = disassemble_instruction(&chunk, *offset);
            let operand = || 256 * chunk.code[offset + 1] as usize + chunk.code[offset + 2] as usize;
            match op {
                OpCode::OpJumpIfFalse | OpCode::OpJump => {
                    let target = next + operand();
                    assert!(
                        offsets.contains(&target) || target == chunk.code.len(),
                        "forward jump target {} in {:?}",
                        target,
                        src
                    );
                }
                OpCode::OpLoop => {
                    let target = next - operand();
                    assert!(offsets.contains(&target), "loop target {} in {:?}", target, src);
                }
                _ => {}
            }
        }
    }
}
