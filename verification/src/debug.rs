//! Instruction decoding for debug tracing: the pure part of the
//! disassembler. Rendering is the caller's business; this module tells it
//! which instruction sits at an offset and where the next one begins,
//! and is total on any byte sequence.

use vstd::prelude::*;

use crate::chunk::Chunk;
use crate::chunk::instruction_width;
use crate::common::OpCode;
use crate::common::opcode_from_u8;
use crate::common::opcode_num;

verus! {

/// Decodes the instruction at `offset`: its opcode, or `Unknown` for a
/// byte that names none, and the offset of the next instruction, clamped
/// to the end of the code when the operand bytes run out.
pub fn disassemble_instruction(chunk: &Chunk, offset: usize) -> (r: (OpCode, usize))
    requires
        offset < chunk@.code.len(),
    ensures
        ({
            let (op, next) = r;
            &&& (op != OpCode::Unknown ==> opcode_num(op) == chunk@.code[offset as int])
            &&& (op == OpCode::Unknown ==> chunk@.code[offset as int] > 29 && next == offset + 1)
            &&& ({
                let width = instruction_width(chunk@.code[offset as int]);
                next == if offset + width <= chunk@.code.len() {
                    offset + width
                } else {
                    chunk@.code.len() as int
                }
            })
            &&& offset < next <= chunk@.code.len()
        }),
{
    let n = chunk.code.len();
    let byte = chunk.code[offset];
    let op = match opcode_from_u8(byte) {
        Some(op) => op,
        None => OpCode::Unknown,
    };
    let width: usize = match op {
        OpCode::OpConstant | OpCode::OpDefineGlobal | OpCode::OpGetGlobal | OpCode::OpSetGlobal
            | OpCode::OpGetLocal | OpCode::OpSetLocal => 2,
        OpCode::OpJumpIfFalse | OpCode::OpJump | OpCode::OpLoop => 3,
        OpCode::OpConstantLong | OpCode::OpDefineGlobalLong | OpCode::OpGetGlobalLong
            | OpCode::OpSetGlobalLong | OpCode::OpGetLocalLong | OpCode::OpSetLocalLong => 4,
        _ => 1,
    };
    let next = if width <= n - offset {
        offset + width
    } else {
        n
    };
    (op, next)
}

/// The offset of the instruction after the one at `offset`, clamped to
/// the end of the code.
pub open spec fn next_offset(code: Seq<u8>, offset: int) -> int {
    if offset + instruction_width(code[offset]) <= code.len() {
        offset + instruction_width(code[offset])
    } else {
        code.len() as int
    }
}

/// Decodes a whole chunk: the offsets of its instructions are exactly
/// the decode walk, from offset zero, each stepping by the instruction's
/// width, until the walk reaches the end of the code. A valid chunk
/// decodes to a sequence of complete instructions; on any other byte
/// sequence the scan still terminates, stepping byte by byte where it
/// must.
pub fn disassemble_chunk(chunk: &Chunk) -> (r: Vec<usize>)
    ensures
        forall|i: int| 0 <= i < r@.len() ==> #[trigger] r@[i] < chunk@.code.len(),
        r@.len() == 0 <==> chunk@.code.len() == 0,
        r@.len() > 0 ==> r@[0] == 0,
        forall|i: int|
            0 <= i && i + 1 < r@.len() ==> r@[i + 1] == next_offset(
                chunk@.code,
                #[trigger] r@[i] as int,
            ),
        r@.len() > 0 ==> next_offset(chunk@.code, r@.last() as int) == chunk@.code.len(),
{
    let mut offsets: Vec<usize> = Vec::new();
    let mut offset: usize = 0;
    while offset < chunk.code.len()
        invariant
            offset <= chunk@.code.len(),
            offsets@.len() == 0 ==> offset == 0,
            offsets@.len() > 0 ==> offsets@[0] == 0,
            forall|i: int| 0 <= i < offsets@.len() ==> #[trigger] offsets@[i] < chunk@.code.len(),
            forall|i: int|
                0 <= i && i + 1 < offsets@.len() ==> offsets@[i + 1] == next_offset(
                    chunk@.code,
                    #[trigger] offsets@[i] as int,
                ),
            offsets@.len() > 0 ==> next_offset(chunk@.code, offsets@.last() as int) == offset,
        decreases chunk@.code.len() - offset,
    {
        let ghost pre = offsets@;
        offsets.push(offset);
        proof {
            assert(offsets@ =~= pre.push(offset as usize));
            assert forall|i: int|
                0 <= i && i + 1 < offsets@.len() implies offsets@[i + 1] == next_offset(
                chunk@.code,
                offsets@[i] as int,
            ) by {
                if i + 1 < pre.len() {
                    assert(offsets@[i] == pre[i]);
                    assert(offsets@[i + 1] == pre[i + 1]);
                } else {
                    assert(offsets@[i] == pre.last());
                }
            }
        }
        let (_, next) = disassemble_instruction(chunk, offset);
        offset = next;
    }
    offsets
}

} // verus!
