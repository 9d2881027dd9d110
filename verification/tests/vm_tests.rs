use lox_vm::vm::{Globals, Stack, VM};
use lox_vm::value::Value;

fn string_value(text: &str) -> Value {
    Value::new_obj_string(text.as_bytes().to_vec())
}

#[test]
fn stack_push_pop_peek() {
    let mut stack = Stack::new(Some(256));
    assert_eq!(stack.len(), 0);
    assert!(stack.pop().is_none());
    stack.push(Value::new_number(1));
    stack.push(Value::new_number(2));
    stack.push(Value::new_number(3));
    assert_eq!(stack.len(), 3);
    assert_eq!(stack.peek(0).as_number(), 3);
    assert_eq!(stack.peek(2).as_number(), 1);
    assert_eq!(stack.pop().unwrap().as_number(), 3);
    assert_eq!(stack.len(), 2);
}

#[test]
fn stack_get_at_set_at() {
    let mut stack = Stack::new(None);
    stack.push(Value::new_number(10));
    stack.push(Value::new_number(20));
    assert_eq!(stack.get_at(0).as_number(), 10);
    assert_eq!(stack.get_at(1).as_number(), 20);
    stack.set_at(0, Value::new_number(99));
    assert_eq!(stack.get_at(0).as_number(), 99);
    assert_eq!(stack.get_at(1).as_number(), 20);
}

#[test]
fn globals_bind_and_rebind() {
    let mut globals = Globals::new();
    let key = "answer".as_bytes().to_vec();
    assert!(!globals.contains(&key));
    assert!(globals.get(&key).is_none());

    globals.insert(key.clone(), Value::new_number(41));
    assert!(globals.contains(&key));
    assert_eq!(globals.get(&key).unwrap().as_number(), 41);

    globals.insert(key.clone(), Value::new_number(42));
    assert_eq!(globals.get(&key).unwrap().as_number(), 42);
    assert_eq!(globals.entries.len(), 1, "rebinding must not duplicate the key");

    let other = "other".as_bytes().to_vec();
    globals.insert(other.clone(), string_value("x"));
    assert_eq!(globals.entries.len(), 2);
    assert_eq!(globals.get(&other).unwrap().as_rust_string(), &"x".as_bytes().to_vec());
    assert_eq!(globals.get(&key).unwrap().as_number(), 42);
}

#[test]
fn vm_starts_empty() {
    let vm = VM::new();
    assert_eq!(vm.stack.len(), 0);
    assert_eq!(vm.output.len(), 0);
    assert_eq!(vm.ip, 0);
    assert!(vm.runtime_message.is_none());
}

#[test]
fn reset_stack_empties_the_stack() {
    let mut vm = VM::new();
    vm.stack.push(Value::new_number(5));
    vm.reset_stack();
    assert_eq!(vm.stack.len(), 0);
}

#[test]
fn read_operand_helpers() {
    let mut chunk = lox_vm::chunk::Chunk::new();
    // Bytes: 0x12, then a big-endian 0x0304, then a little-endian 24-bit 0x050607.
    for b in [0x12u8, 0x03, 0x04, 0x07, 0x06, 0x05] {
        chunk.write_chunk(b, 1);
    }
    let mut vm = VM::new();
    assert_eq!(vm.read_byte(&chunk), 0x12);
    assert_eq!(vm.read_short(&chunk), 0x0304);
    assert_eq!(vm.read_long(&chunk), 0x050607);
    assert_eq!(vm.ip, 6);
}

#[test]
fn read_constants_by_index() {
    let mut chunk = lox_vm::chunk::Chunk::new();
    chunk.add_constant(Value::new_number(11));
    chunk.add_constant(Value::new_number(22));
    // An 8-bit index 1, then a 24-bit little-endian index 0.
    chunk.write_chunk(1, 1);
    chunk.write_chunk(0, 1);
    chunk.write_chunk(0, 1);
    chunk.write_chunk(0, 1);
    let mut vm = VM::new();
    assert_eq!(vm.read_constant(&chunk).as_number(), 22);
    assert_eq!(vm.read_long_constant(&chunk).as_number(), 11);
}

#[test]
fn empty_chunk_is_invalid_bytecode() {
    let chunk = lox_vm::chunk::Chunk::new();
    let mut vm = VM::new();
    let r = vm.run(&chunk, 100);
    assert_eq!(r, lox_vm::vm::RunResult::RuntimeError);
    assert_eq!(vm.runtime_message, Some("Invalid bytecode.".as_bytes().to_vec()));
}

#[test]
fn bare_return_halts_ok() {
    let mut chunk = lox_vm::chunk::Chunk::new();
    chunk.write_chunk(0, 1);
    let r = lox_vm::vm::run(&chunk);
    assert_eq!(r, lox_vm::vm::RunResult::Okay);
}

#[test]
fn step_budget_exhaustion_is_reported() {
    // TRUE TRUE TRUE ... RETURN with a budget of one step.
    let mut chunk = lox_vm::chunk::Chunk::new();
    chunk.write_chunk(9, 1);
    chunk.write_chunk(9, 1);
    chunk.write_chunk(0, 1);
    let mut vm = VM::new();
    let r = vm.run(&chunk, 1);
    assert_eq!(r, lox_vm::vm::RunResult::RuntimeError);
    assert_eq!(vm.runtime_message, Some("Step budget exhausted.".as_bytes().to_vec()));
}
