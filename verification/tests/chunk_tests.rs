use lox_vm::chunk::Chunk;
use lox_vm::common::{opcode_from_u8, OpCode};
use lox_vm::value::Value;

#[test]
fn write_constant_appends_constant_operation() {
    let mut chunk = Chunk::new();

    chunk.write_constant(Value::Number(1), 1);

    assert_eq!(
        opcode_from_u8(chunk.code[chunk.code.len() - 2]),
        Some(OpCode::OpConstant),
        "Write constant did not emit a constant operation, found: `{:?}`",
        opcode_from_u8(chunk.code[chunk.code.len() - 2]),
    );
}

#[test]
fn write_constant_once() {
    let mut chunk = Chunk::new();

    chunk.write_constant(Value::Number(1), 1);

    assert_eq!(
        (chunk.constants.values[chunk.code[chunk.code.len() - 1] as usize]).as_number(),
        Value::Number(1).as_number(),
    );
}

#[test]
fn write_constant_twice() {
    let mut chunk = Chunk::new();

    chunk.write_constant(Value::Number(1), 1);
    chunk.write_constant(Value::Number(2), 1);

    assert_eq!(
        (chunk.constants.values[chunk.code[chunk.code.len() - 3] as usize]).as_number(),
        Value::Number(1).as_number(),
    );
    assert_eq!(
        (chunk.constants.values[chunk.code[chunk.code.len() - 1] as usize]).as_number(),
        Value::Number(2).as_number(),
    );
}

#[test]
fn write_constant_appends_long_constant_operation() {
    let mut chunk = Chunk::new();

    let mut i = 0;
    while i < 257 {
        chunk.write_constant(Value::Number(i), 1);
        if i < 256 {
            assert_eq!(
                opcode_from_u8(chunk.code[chunk.code.len() - 2]),
                Some(OpCode::OpConstant),
                "Write constant did not emit a constant operation, found: `{:?}`",
                opcode_from_u8(chunk.code[chunk.code.len() - 2]),
            );
        }
        i = i + 1;
    }

    assert_eq!(
        opcode_from_u8(chunk.code[chunk.code.len() - 4]),
        Some(OpCode::OpConstantLong),
        "Write constant did not emit a long constant operation, found: `{:?}`",
        opcode_from_u8(chunk.code[chunk.code.len() - 4]),
    );
}

#[test]
fn long_constant_operand_decodes_to_its_index() {
    // Fill the pool past one byte's reach; the long operand is the
    // little-endian index of the constant just added.
    let mut chunk = Chunk::new();
    let mut i = 0;
    while i < 300 {
        chunk.write_constant(Value::Number(i), 1);
        i = i + 1;
    }
    let n = chunk.code.len();
    let b0 = chunk.code[n - 3] as usize;
    let b1 = chunk.code[n - 2] as usize;
    let b2 = chunk.code[n - 1] as usize;
    let idx = b0 + 256 * b1 + 65536 * b2;
    assert_eq!(idx, 299);
    assert_eq!(chunk.constants.values[idx].as_number(), 299);
}

#[test]
fn lines_track_code_bytes() {
    let mut chunk = Chunk::new();
    chunk.write_chunk(8, 7);
    chunk.write_chunk(0, 9);
    assert_eq!(chunk.code.len(), chunk.lines.len());
    assert_eq!(chunk.lines[0], 7);
    assert_eq!(chunk.lines[1], 9);
    chunk.free_chunk();
    assert_eq!(chunk.code.len(), 0);
    assert_eq!(chunk.constants.values.len(), 0);
}

#[test]
fn opcode_bytes_round_trip() {
    let mut b: u8 = 0;
    while b <= 29 {
        let op = opcode_from_u8(b).expect("known opcode");
        assert_eq!(lox_vm::common::opcode_to_u8(op), b);
        b = b + 1;
    }
    assert_eq!(opcode_from_u8(30), None);
    assert_eq!(opcode_from_u8(255), None);
}

#[test]
fn precedence_bytes_round_trip() {
    let mut b: u8 = 0;
    while b <= 10 {
        let p = lox_vm::common::precedence_from_u8(b).expect("known precedence");
        assert_eq!(lox_vm::common::precedence_to_u8(p), b);
        b = b + 1;
    }
    assert_eq!(lox_vm::common::precedence_from_u8(11), None);
}
