//! The compilation target and virtual machine input: a byte sequence of
//! instructions and inline operands, a parallel table recording the source
//! line each byte came from, and a constant pool.
//!
//! Constant indices that fit in one byte are encoded with the short constant
//! instruction (two bytes in all); larger indices use the long form with a
//! 24-bit little-endian operand (four bytes in all). The pool is capped at
//! `2^24` entries, the largest index the long operand can carry.

use vstd::prelude::*;

use crate::common::OpCode;
use crate::common::opcode_num;
use crate::common::opcode_to_u8;
use crate::value::AbsValue;
use crate::value::Value;
use crate::value::ValueArray;

verus! {

/// The value of a 16-bit big-endian operand.
pub open spec fn be16(b0: u8, b1: u8) -> int {
    256 * (b0 as int) + (b1 as int)
}

/// The value of a 24-bit little-endian operand.
pub open spec fn le24(b0: u8, b1: u8, b2: u8) -> int {
    (b0 as int) + 256 * (b1 as int) + 65536 * (b2 as int)
}

/// Splitting an index below `2^24` into three little-endian bytes and
/// reading them back yields the index: the long constant operand decodes
/// to the position of its constant in the pool.
pub proof fn lemma_le24_decodes(n: u32)
    requires
        n < 0x1000000,
    ensures
        le24((n % 256) as u8, ((n / 256) % 256) as u8, ((n / 65536) % 256) as u8) == n,
{
    assert((n % 256) + 256 * ((n / 256) % 256) + 65536 * ((n / 65536) % 256) == n) by (bit_vector)
        requires
            n < 0x1000000,
    ;
}

/// Splitting a distance below `2^16` into two big-endian bytes and reading
/// them back yields the distance: a patched jump operand decodes to the
/// distance that was patched in.
pub proof fn lemma_be16_decodes(n: u32)
    requires
        n < 0x10000,
    ensures
        be16(((n / 256) % 256) as u8, (n % 256) as u8) == n,
{
    assert(256 * ((n / 256) % 256) + (n % 256) == n) by (bit_vector)
        requires
            n < 0x10000,
    ;
}

/// The mathematical model of a chunk.
pub struct ChunkView {
    pub code: Seq<u8>,
    pub constants: Seq<AbsValue>,
    pub lines: Seq<i32>,
}

/// An executable bytecode unit: instruction bytes, a line table with one
/// entry per code byte, and the constant pool.
pub struct Chunk {
    pub code: Vec<u8>,
    pub constants: ValueArray,
    pub lines: Vec<i32>,
}

impl View for Chunk {
    type V = ChunkView;

    open spec fn view(&self) -> ChunkView {
        ChunkView {
            code: self.code@,
            constants: self.constants.values@.map_values(|v: Value| v@),
            lines: self.lines@,
        }
    }
}

impl Chunk {
    /// There is one line entry for each code byte, and the constant pool
    /// leaves room for at least one more long-encodable index.
    pub open spec fn wf(&self) -> bool {
        &&& self.code@.len() == self.lines@.len()
        &&& self.constants.values@.len() <= 0x1000000
    }

    /// An empty chunk.
    pub fn new() -> (r: Self)
        ensures
            r.wf(),
            r@.code.len() == 0,
            r@.constants.len() == 0,
            r@.lines.len() == 0,
    {
        Chunk { code: Vec::new(), constants: ValueArray { values: Vec::new() }, lines: Vec::new() }
    }

    /// Appends one byte of code, recording the source line it came from.
    pub fn write_chunk(&mut self, byte: u8, line: i32)
        requires
            old(self).wf(),
        ensures
            final(self).wf(),
            final(self)@.code == old(self)@.code.push(byte),
            final(self)@.lines == old(self)@.lines.push(line),
            final(self)@.constants == old(self)@.constants,
    {
        self.code.push(byte);
        self.lines.push(line);
    }

    /// Adds `value` to the pool and emits an instruction that pushes it:
    /// the short constant form when the new index fits in one byte, the
    /// long little-endian form otherwise. Either way the emitted operand
    /// decodes to the index of `value` in the pool.
    pub fn write_constant(&mut self, value: Value, line: i32)
        requires
            old(self).wf(),
            old(self).constants.values@.len() < 0x1000000,
        ensures
            final(self).wf(),
            final(self)@.constants == old(self)@.constants.push(value@),
            ({
                let idx = old(self)@.constants.len() as int;
                if idx < 256 {
                    final(self)@.lines == old(self)@.lines.push(line).push(line)
                } else {
                    final(self)@.lines == old(self)@.lines.push(line).push(line).push(line).push(
                        line,
                    )
                }
            }),
            ({
                let idx = old(self)@.constants.len() as int;
                let code = old(self)@.code;
                if idx < 256 {
                    final(self)@.code == code + seq![opcode_num(OpCode::OpConstant), idx as u8]
                } else {
                    final(self)@.code == code + seq![
                        opcode_num(OpCode::OpConstantLong),
                        (idx % 256) as u8,
                        ((idx / 256) % 256) as u8,
                        ((idx / 65536) % 256) as u8,
                    ]
                }
            }),
            ({
                let idx = old(self)@.constants.len() as int;
                let n = final(self)@.code.len() as int;
                if idx < 256 {
                    n == old(self)@.code.len() + 2 && final(self)@.code[n - 1] == idx
                } else {
                    n == old(self)@.code.len() + 4 && le24(
                        final(self)@.code[n - 3],
                        final(self)@.code[n - 2],
                        final(self)@.code[n - 1],
                    ) == idx
                }
            }),
    {
        let index = self.add_constant(value);

        if index < 256 {
            self.write_chunk(opcode_to_u8(OpCode::OpConstant), line);
            self.write_chunk(index as u8, line);
            proof {
                assert(self@.code =~= old(self)@.code + seq![
                    opcode_num(OpCode::OpConstant),
                    old(self)@.constants.len() as u8,
                ]);
            }
        } else {
            let idx = index as u32;
            self.write_chunk(opcode_to_u8(OpCode::OpConstantLong), line);
            self.write_chunk((idx % 256) as u8, line);
            self.write_chunk(((idx / 256) % 256) as u8, line);
            self.write_chunk(((idx / 65536) % 256) as u8, line);
            proof {
                lemma_le24_decodes(old(self)@.constants.len() as u32);
                assert(self@.code =~= old(self)@.code + seq![
                    opcode_num(OpCode::OpConstantLong),
                    (old(self)@.constants.len() as u32 % 256) as u8,
                    ((old(self)@.constants.len() as u32 / 256) % 256) as u8,
                    ((old(self)@.constants.len() as u32 / 65536) % 256) as u8,
                ]);
            }
        }
    }

    /// Appends `value` to the constant pool and returns its index.
    pub fn add_constant(&mut self, value: Value) -> (r: i32)
        requires
            old(self).wf(),
            old(self).constants.values@.len() < 0x1000000,
        ensures
            final(self).wf(),
            final(self)@.constants == old(self)@.constants.push(value@),
            final(self)@.code == old(self)@.code,
            final(self)@.lines == old(self)@.lines,
            r == old(self)@.constants.len(),
            0 <= r < 0x1000000,
    {
        self.constants.write_value_array(value);
        proof {
            assert(self@.constants =~= old(self)@.constants.push(value@));
        }
        (self.constants.values.len() - 1) as i32
    }

    /// Discards the code, the line table and the constant pool.
    pub fn free_chunk(&mut self)
        ensures
            final(self).wf(),
            final(self)@.code.len() == 0,
            final(self)@.constants.len() == 0,
            final(self)@.lines.len() == 0,
    {
        self.code.clear();
        self.lines.clear();
        self.constants.free_value_array();
    }
}


/// How many bytes the instruction whose opcode byte is `op` occupies:
/// the opcode and its operands. A byte that names no instruction counts
/// as one byte, so a decode walk can step past it.
pub open spec fn instruction_width(op: u8) -> int {
    if op == 1 || op == 17 || op == 19 || op == 21 || op == 23 || op == 25 {
        2  // an 8-bit pool or slot index
    } else if op == 27 || op == 28 || op == 29 {
        3  // a 16-bit jump distance
    } else if op == 2 || op == 18 || op == 20 || op == 22 || op == 24 || op == 26 {
        4  // a 24-bit pool or slot index
    } else {
        1
    }
}

/// Whether the code from position `i` on splits into whole instructions:
/// the decode walk that steps by each instruction's width lands exactly
/// on the end of the code.
pub open spec fn decodes_from(code: Seq<u8>, i: int) -> bool
    decreases code.len() - i,
{
    if i == code.len() {
        true
    } else if 0 <= i < code.len() {
        if i + instruction_width(code[i]) <= code.len() {
            decodes_from(code, i + instruction_width(code[i]))
        } else {
            false
        }
    } else {
        false
    }
}

/// Whether the decode walk from position `i` passes through position
/// `p`: `p` starts an instruction of the walk, or ends it.
pub open spec fn boundary_from(code: Seq<u8>, i: int, p: int) -> bool
    decreases p - i,
{
    if i == p {
        true
    } else if 0 <= i < code.len() && i < p && i + instruction_width(code[i]) <= p {
        boundary_from(code, i + instruction_width(code[i]), p)
    } else {
        false
    }
}

/// A cleanly decoding code walks through a boundary at its end.
pub proof fn lemma_decodes_to_end(code: Seq<u8>, i: int)
    requires
        0 <= i <= code.len(),
        decodes_from(code, i),
    ensures
        boundary_from(code, i, code.len() as int),
    decreases code.len() - i,
{
    if i < code.len() {
        lemma_decodes_to_end(code, i + instruction_width(code[i]));
    }
}

/// Code that decodes cleanly from `i` does so from every boundary the
/// walk passes.
pub proof fn lemma_decodes_through(code: Seq<u8>, i: int, p: int)
    requires
        decodes_from(code, i),
        boundary_from(code, i, p),
    ensures
        decodes_from(code, p),
    decreases p - i,
{
    if i != p {
        lemma_decodes_through(code, i + instruction_width(code[i]), p);
    }
}

/// Code that decodes cleanly from a boundary decodes cleanly from any
/// position whose walk reaches that boundary.
pub proof fn lemma_decodes_back(code: Seq<u8>, i: int, p: int)
    requires
        boundary_from(code, i, p),
        decodes_from(code, p),
    ensures
        decodes_from(code, i),
    decreases p - i,
{
    if i != p {
        lemma_decodes_back(code, i + instruction_width(code[i]), p);
    }
}

/// Walks concatenate: through `m` and on to `p` is through `p`.
pub proof fn lemma_boundary_concat(code: Seq<u8>, i: int, m: int, p: int)
    requires
        boundary_from(code, i, m),
        boundary_from(code, m, p),
    ensures
        boundary_from(code, i, p),
    decreases m - i,
{
    if i != m {
        lemma_boundary_concat(code, i + instruction_width(code[i]), m, p);
    }
}

/// The walk is one path: two boundaries of the same walk lie on one
/// walk, the nearer on the way to the farther.
pub proof fn lemma_boundary_join(code: Seq<u8>, i: int, b: int, p: int)
    requires
        boundary_from(code, i, b),
        boundary_from(code, i, p),
        b <= p,
    ensures
        boundary_from(code, b, p),
    decreases b - i,
{
    if i != b {
        lemma_boundary_join(code, i + instruction_width(code[i]), b, p);
    }
}

/// A walk reads only the bytes it passes: two codes that agree on
/// `[i, p)` share the walk from `i` to `p`, as long as both are long
/// enough for it.
pub proof fn lemma_boundary_agree(code: Seq<u8>, other: Seq<u8>, i: int, p: int)
    requires
        boundary_from(code, i, p),
        p <= code.len(),
        code.len() <= other.len(),
        forall|j: int| i <= j < p ==> code[j] == other[j],
    ensures
        boundary_from(other, i, p),
    decreases p - i,
{
    if i != p {
        lemma_boundary_agree(code, other, i + instruction_width(code[i]), p);
    }
}

/// Decoding from `i` reads only the bytes from `i` on: two codes of one
/// length that agree there decode alike.
pub proof fn lemma_decodes_agree(code: Seq<u8>, other: Seq<u8>, i: int)
    requires
        0 <= i,
        code.len() == other.len(),
        forall|j: int| i <= j < code.len() ==> code[j] == other[j],
    ensures
        decodes_from(code, i) == decodes_from(other, i),
    decreases code.len() - i,
{
    if i < code.len() && i + instruction_width(code[i]) <= code.len() {
        lemma_decodes_agree(code, other, i + instruction_width(code[i]));
    }
}

/// What emitting code may do to the code already there: a cleanly
/// decoding code keeps decoding cleanly, every boundary of the old walk
/// is one of the new, and the bytes at old boundaries (the opcodes that
/// shape the walk) are untouched. Appending whole instructions does all
/// three, and so does patching the operand bytes of an emitted jump.
pub open spec fn code_evolves(pre: Seq<u8>, post: Seq<u8>) -> bool {
    &&& pre.len() <= post.len()
    &&& decodes_from(post, 0)
    &&& (forall|p: int|
        0 <= p <= pre.len() && #[trigger] boundary_from(pre, 0, p) ==> boundary_from(post, 0, p))
    &&& (forall|p: int|
        0 <= p < pre.len() && #[trigger] boundary_from(pre, 0, p) ==> post[p] == pre[p])
}

/// Appending one whole instruction evolves the code.
pub proof fn lemma_append_instruction(pre: Seq<u8>, post: Seq<u8>)
    requires
        decodes_from(pre, 0),
        pre.len() < post.len(),
        forall|j: int| 0 <= j < pre.len() ==> post[j] == pre[j],
        pre.len() + instruction_width(post[pre.len() as int]) == post.len(),
    ensures
        code_evolves(pre, post),
{
    lemma_decodes_to_end(pre, 0);
    lemma_boundary_agree(pre, post, 0, pre.len() as int);
    assert(decodes_from(post, post.len() as int));
    assert(decodes_from(post, pre.len() as int));
    lemma_decodes_back(post, 0, pre.len() as int);
    assert forall|p: int| 0 <= p <= pre.len() && #[trigger] boundary_from(pre, 0, p)
        implies boundary_from(post, 0, p) by {
        lemma_boundary_agree(pre, post, 0, p);
    }
}

/// Overwriting the two operand bytes of a three-byte instruction that
/// starts at a boundary of a cleanly decoding code evolves the code: the
/// walk never reads operand bytes.
pub proof fn lemma_patch_operands(pre: Seq<u8>, post: Seq<u8>, b: int)
    requires
        decodes_from(pre, 0),
        pre.len() == post.len(),
        0 <= b,
        b + 3 <= pre.len(),
        instruction_width(pre[b]) == 3,
        boundary_from(pre, 0, b),
        forall|j: int| 0 <= j < pre.len() && j != b + 1 && j != b + 2 ==> post[j] == pre[j],
    ensures
        code_evolves(pre, post),
{
    // The walk up to b, and the instruction at b, survive the patch.
    lemma_boundary_agree(pre, post, 0, b);
    assert(post[b] == pre[b]);
    assert(boundary_from(pre, b + 3, b + 3));
    assert(boundary_from(post, b + 3, b + 3));
    assert(boundary_from(post, b, b + 3));
    assert(boundary_from(pre, b, b + 3));

    lemma_decodes_through(pre, 0, b);
    assert(decodes_from(pre, b + 3));
    lemma_decodes_agree(pre, post, b + 3);
    assert(decodes_from(post, b));
    lemma_decodes_back(post, 0, b);

    assert forall|p: int| 0 <= p <= pre.len() && #[trigger] boundary_from(pre, 0, p)
        implies boundary_from(post, 0, p) by {
        if p <= b {
            lemma_boundary_join(pre, 0, p, b);
            lemma_boundary_agree(pre, post, 0, p);
        } else {
            lemma_boundary_join(pre, 0, b, p);
            // The walk from b must step clear over the operand bytes.
            assert(boundary_from(pre, b + 3, p));
            lemma_boundary_agree(pre, post, b + 3, p);
            lemma_boundary_agree(pre, post, 0, b);
            lemma_boundary_concat(post, 0, b, b + 3);
            lemma_boundary_concat(post, 0, b + 3, p);
        }
    }

    assert forall|p: int| 0 <= p < pre.len() && #[trigger] boundary_from(pre, 0, p)
        implies post[p] == pre[p] by {
        if b < p {
            lemma_boundary_join(pre, 0, b, p);
            assert(p >= b + 3);
        }
    }
}

} // verus!
