//! The virtual machine: a value stack, a table of global variables, and a
//! dispatch loop that executes one chunk.
//!
//! The meaning of every instruction is given once, as the specification
//! function [`vm_step`]: a transition from one abstract machine state to
//! the next, a halt, or a runtime error with its message. The executable
//! machine is proved to follow `vm_step` exactly, one instruction at a
//! time, and the run loop is proved to follow the iterated transition
//! [`run_steps`].
//!
//! Printing is modelled as output: each `print` appends the printed value
//! to the machine's output list, which the caller renders.
//!
//! Chosen policies, where the language leaves room: integer arithmetic
//! wraps around on overflow; division by zero is a runtime error, and the
//! one overflowing quotient (`i64::MIN / -1`) wraps to `i64::MIN`; each
//! run is bounded by a step budget, and exceeding it is a runtime error
//! (callers pass a budget large enough never to matter in practice). A
//! chunk that a correct compiler cannot produce (unknown opcode, operand
//! out of range, stack underflow) stops the machine with an invalid
//! bytecode error rather than continuing on garbage.

use vstd::prelude::*;

use crate::chunk::Chunk;
use crate::chunk::ChunkView;
use crate::chunk::be16;
use crate::chunk::le24;
use crate::common::OpCode;
use crate::common::opcode_from_u8;
use crate::common::opcode_num;
use crate::value::AbsValue;
use crate::value::Value;
use crate::value::abs_equal;
use crate::value::abs_falsey;

verus! {

/// How one call of `interpret` ended.
#[derive(Debug, PartialEq, Eq, Copy, Clone, Structural)]
pub enum InterpretResult {
    Okay,
    CompileError,
    RuntimeError,
}

/// How one run of the machine over a chunk ended.
#[derive(Debug, PartialEq, Eq, Copy, Clone, Structural)]
pub enum RunResult {
    Okay,
    CompileError,
    RuntimeError,
}

/// The value stack.
pub struct Stack {
    pub stack: Vec<Value>,
}

impl View for Stack {
    type V = Seq<AbsValue>;

    open spec fn view(&self) -> Seq<AbsValue> {
        self.stack@.map_values(|v: Value| v@)
    }
}

impl Stack {
    /// An empty stack, with room reserved for `initial_capacity` values.
    pub fn new(initial_capacity: Option<usize>) -> (r: Self)
        ensures
            r@.len() == 0,
    {
        match initial_capacity {
            Some(cap) => Stack { stack: Vec::with_capacity(cap) },
            None => Stack { stack: Vec::new() },
        }
    }

    /// The number of values on the stack.
    pub fn len(&self) -> (r: usize)
        ensures
            r == self@.len(),
    {
        self.stack.len()
    }

    /// Pushes a value on top.
    pub fn push(&mut self, value: Value)
        ensures
            final(self)@ == old(self)@.push(value@),
    {
        let ghost v = value@;
        self.stack.push(value);
        proof {
            assert(final(self)@ =~= old(self)@.push(v));
        }
    }

    /// Pops the top value, if any.
    pub fn pop(&mut self) -> (r: Option<Value>)
        ensures
            old(self)@.len() == 0 ==> r is None && final(self)@ == old(self)@,
            old(self)@.len() > 0 ==> (r matches Some(v) && v@ == old(self)@.last() && final(self)@ == old(self)@.drop_last()),
    {
        let r = self.stack.pop();
        proof {
            if old(self)@.len() > 0 {
                assert(final(self)@ =~= old(self)@.drop_last());
            } else {
                assert(final(self)@ =~= old(self)@);
            }
        }
        r
    }

    /// The value `index` slots above the bottom of the stack.
    pub fn get_at(&self, index: usize) -> (r: &Value)
        requires
            index < self@.len(),
        ensures
            r@ == self@[index as int],
    {
        &self.stack[index]
    }

    /// Overwrites the value `index` slots above the bottom of the stack.
    pub fn set_at(&mut self, index: usize, value: Value)
        requires
            index < old(self)@.len(),
        ensures
            final(self)@ == old(self)@.update(index as int, value@),
    {
        let ghost v = value@;
        self.stack[index] = value;
        proof {
            assert(final(self)@ =~= old(self)@.update(index as int, v));
        }
    }

    /// The value `distance` slots below the top of the stack.
    pub fn peek(&self, distance: usize) -> (r: &Value)
        requires
            distance < self@.len(),
        ensures
            r@ == self@[self@.len() - 1 - distance],
    {
        &self.stack[self.stack.len() - 1 - distance]
    }
}

/// One binding of the globals table, as the model sees it.
pub open spec fn binding_views(p: (Vec<u8>, Value)) -> (Seq<u8>, AbsValue) {
    (p.0@, p.1@)
}

/// The mapping a list of bindings denotes: later bindings shadow earlier
/// ones (the table keeps keys unique, so shadowing never happens in it).
pub open spec fn map_of(s: Seq<(Seq<u8>, AbsValue)>) -> Map<Seq<u8>, AbsValue>
    decreases s.len(),
{
    if s.len() == 0 {
        Map::empty()
    } else {
        map_of(s.drop_last()).insert(s.last().0, s.last().1)
    }
}

/// A list whose keys all differ from `k` denotes a map without `k`.
proof fn lemma_map_of_absent(s: Seq<(Seq<u8>, AbsValue)>, k: Seq<u8>)
    requires
        forall|i: int| 0 <= i < s.len() ==> (#[trigger] s[i]).0 != k,
    ensures
        !map_of(s).contains_key(k),
    decreases s.len(),
{
    if s.len() > 0 {
        lemma_map_of_absent(s.drop_last(), k);
    }
}

/// A binding whose key recurs nowhere later in the list gives the map's
/// value at that key.
proof fn lemma_map_of_found(s: Seq<(Seq<u8>, AbsValue)>, i: int)
    requires
        0 <= i < s.len(),
        forall|j: int| i < j < s.len() ==> (#[trigger] s[j]).0 != s[i].0,
    ensures
        map_of(s).contains_key(s[i].0),
        map_of(s)[s[i].0] == s[i].1,
    decreases s.len(),
{
    if i == s.len() - 1 {
    } else {
        lemma_map_of_found(s.drop_last(), i);
    }
}

/// Appending a binding inserts its pair into the denoted map.
proof fn lemma_map_of_push(s: Seq<(Seq<u8>, AbsValue)>, k: Seq<u8>, v: AbsValue)
    ensures
        map_of(s.push((k, v))) == map_of(s).insert(k, v),
{
    assert(s.push((k, v)).drop_last() =~= s);
}

/// Overwriting the value of a binding whose key recurs nowhere later
/// inserts the new pair into the denoted map.
proof fn lemma_map_of_update(s: Seq<(Seq<u8>, AbsValue)>, i: int, v: AbsValue)
    requires
        0 <= i < s.len(),
        forall|j: int| i < j < s.len() ==> (#[trigger] s[j]).0 != s[i].0,
    ensures
        map_of(s.update(i, (s[i].0, v))) == map_of(s).insert(s[i].0, v),
    decreases s.len(),
{
    let k = s[i].0;
    let t = s.update(i, (k, v));
    if i == s.len() - 1 {
        assert(t.drop_last() =~= s.drop_last());
        assert(map_of(t) =~= map_of(s).insert(k, v));
    } else {
        assert(t.drop_last() =~= s.drop_last().update(i, (k, v)));
        lemma_map_of_update(s.drop_last(), i, v);
        assert(map_of(t) == map_of(s.drop_last()).insert(k, v).insert(s.last().0, s.last().1));
        assert(map_of(s).insert(k, v) == map_of(s.drop_last()).insert(
            s.last().0,
            s.last().1,
        ).insert(k, v));
        assert(map_of(s.drop_last()).insert(k, v).insert(s.last().0, s.last().1)
            =~= map_of(s.drop_last()).insert(s.last().0, s.last().1).insert(k, v));
    }
}

/// The table of global variables: name bytes to value, keys unique.
pub struct Globals {
    pub entries: Vec<(Vec<u8>, Value)>,
}

impl View for Globals {
    type V = Map<Seq<u8>, AbsValue>;

    open spec fn view(&self) -> Map<Seq<u8>, AbsValue> {
        map_of(self.entries@.map_values(|p: (Vec<u8>, Value)| binding_views(p)))
    }
}

impl Globals {
    /// No two bindings share a key.
    pub open spec fn wf(&self) -> bool {
        forall|i: int, j: int|
            0 <= i < j < self.entries@.len() ==> (#[trigger] self.entries@[i]).0@ != (
            #[trigger] self.entries@[j]).0@
    }

    /// An empty table.
    pub fn new() -> (r: Self)
        ensures
            r.wf(),
            r@ == Map::<Seq<u8>, AbsValue>::empty(),
    {
        Globals { entries: Vec::new() }
    }

    /// The value bound to `name`, if any.
    pub fn get(&self, name: &Vec<u8>) -> (r: Option<&Value>)
        requires
            self.wf(),
        ensures
            match r {
                Some(v) => self@.contains_key(name@) && v@ == self@[name@],
                None => !self@.contains_key(name@),
            },
    {
        let ghost m = self.entries@.map_values(|p: (Vec<u8>, Value)| binding_views(p));
        let mut i: usize = 0;
        while i < self.entries.len()
            invariant
                self.wf(),
                i <= self.entries@.len(),
                m == self.entries@.map_values(|p: (Vec<u8>, Value)| binding_views(p)),
                forall|j: int| 0 <= j < i ==> (#[trigger] self.entries@[j]).0@ != name@,
            decreases self.entries@.len() - i,
        {
            if &self.entries[i].0 == name {
                proof {
                    assert(m[i as int].0 == name@);
                    lemma_map_of_found(m, i as int);
                }
                return Some(&self.entries[i].1);
            }
            i = i + 1;
        }
        proof {
            assert(forall|j: int| 0 <= j < m.len() ==> (#[trigger] m[j]).0 != name@);
            lemma_map_of_absent(m, name@);
        }
        None
    }

    /// Whether `name` is bound.
    pub fn contains(&self, name: &Vec<u8>) -> (r: bool)
        requires
            self.wf(),
        ensures
            r == self@.contains_key(name@),
    {
        match self.get(name) {
            Some(_) => true,
            None => false,
        }
    }

    /// Binds `name` to `value`, replacing any earlier binding.
    pub fn insert(&mut self, name: Vec<u8>, value: Value)
        requires
            old(self).wf(),
        ensures
            final(self).wf(),
            final(self)@ == old(self)@.insert(name@, value@),
    {
        let ghost m = self.entries@.map_values(|p: (Vec<u8>, Value)| binding_views(p));
        let mut i: usize = 0;
        while i < self.entries.len()
            invariant
                self.wf(),
                i <= self.entries@.len(),
                self.entries@ == old(self).entries@,
                m == self.entries@.map_values(|p: (Vec<u8>, Value)| binding_views(p)),
                forall|j: int| 0 <= j < i ==> (#[trigger] self.entries@[j]).0@ != name@,
            decreases self.entries@.len() - i,
        {
            if self.entries[i].0 == name {
                let ghost vv = value@;
                proof {
                    assert(self.entries@[i as int].0@ =~= name@);
                }
                self.entries[i] = (name, value);
                proof {
                    let m2 = self.entries@.map_values(|p: (Vec<u8>, Value)| binding_views(p));
                    assert(m2 =~= m.update(i as int, (m[i as int].0, vv)));
                    lemma_map_of_update(m, i as int, vv);
                }
                return ;
            }
            i = i + 1;
        }
        let ghost nv = name@;
        let ghost vv = value@;
        self.entries.push((name, value));
        proof {
            let m2 = self.entries@.map_values(|p: (Vec<u8>, Value)| binding_views(p));
            assert(m2 =~= m.push((nv, vv)));
            lemma_map_of_push(m, nv, vv);
        }
    }
}

/// The bytes of `"Invalid bytecode."`: the error for a chunk no correct
/// compiler produces.
pub open spec fn msg_invalid_bytecode() -> Seq<u8> {
    seq![
        73u8, 110u8, 118u8, 97u8, 108u8, 105u8, 100u8, 32u8, 98u8, 121u8, 116u8, 101u8, 99u8,
        111u8, 100u8, 101u8, 46u8,
    ]
}

/// The bytes of `"Operands must be numbers."`.
pub open spec fn msg_operands_numbers() -> Seq<u8> {
    seq![
        79u8, 112u8, 101u8, 114u8, 97u8, 110u8, 100u8, 115u8, 32u8, 109u8, 117u8, 115u8, 116u8,
        32u8, 98u8, 101u8, 32u8, 110u8, 117u8, 109u8, 98u8, 101u8, 114u8, 115u8, 46u8,
    ]
}

/// The bytes of `"Operand must be a number."`.
pub open spec fn msg_operand_number() -> Seq<u8> {
    seq![
        79u8, 112u8, 101u8, 114u8, 97u8, 110u8, 100u8, 32u8, 109u8, 117u8, 115u8, 116u8, 32u8,
        98u8, 101u8, 32u8, 97u8, 32u8, 110u8, 117u8, 109u8, 98u8, 101u8, 114u8, 46u8,
    ]
}

/// The bytes of `"Division by zero."`.
pub open spec fn msg_division_by_zero() -> Seq<u8> {
    seq![
        68u8, 105u8, 118u8, 105u8, 115u8, 105u8, 111u8, 110u8, 32u8, 98u8, 121u8, 32u8, 122u8,
        101u8, 114u8, 111u8, 46u8,
    ]
}

/// The bytes of `"Step budget exhausted."`.
pub open spec fn msg_budget_exhausted() -> Seq<u8> {
    seq![
        83u8, 116u8, 101u8, 112u8, 32u8, 98u8, 117u8, 100u8, 103u8, 101u8, 116u8, 32u8, 101u8,
        120u8, 104u8, 97u8, 117u8, 115u8, 116u8, 101u8, 100u8, 46u8,
    ]
}

/// The bytes of `"Undefined variable 'NAME'."` for the given name.
pub open spec fn msg_undefined_variable(name: Seq<u8>) -> Seq<u8> {
    seq![
        85u8, 110u8, 100u8, 101u8, 102u8, 105u8, 110u8, 101u8, 100u8, 32u8, 118u8, 97u8, 114u8,
        105u8, 97u8, 98u8, 108u8, 101u8, 32u8, 39u8,
    ] + name + seq![39u8, 46u8]
}

/// The abstract state of the machine: the stack, the globals, what has
/// been printed so far, and the instruction pointer.
#[verifier::ext_equal]
pub struct VmState {
    pub stack: Seq<AbsValue>,
    pub globals: Map<Seq<u8>, AbsValue>,
    pub output: Seq<AbsValue>,
    pub ip: int,
}

/// What one instruction does: step to a new state, halt, or stop with a
/// runtime error message, leaving the state as it was.
pub enum StepR {
    Next(VmState),
    Halt(VmState),
    Fail(VmState, Seq<u8>),
}

/// The result of a binary operation on two integers. Addition,
/// subtraction and multiplication wrap on overflow; division wraps the
/// one overflowing quotient; the comparisons yield booleans.
pub open spec fn binary_num_result(op: OpCode, a: i64, b: i64) -> AbsValue {
    match op {
        OpCode::OpAdd => AbsValue::Int(vstd::wrapping::i64_specs::wrapping_add(a, b)),
        OpCode::OpSubtract => AbsValue::Int(vstd::wrapping::i64_specs::wrapping_sub(a, b)),
        OpCode::OpMultiply => AbsValue::Int(vstd::wrapping::i64_specs::wrapping_mul(a, b)),
        OpCode::OpDivide => AbsValue::Int(div_wrapped(a, b)),
        OpCode::OpGreater => AbsValue::Bool(a > b),
        OpCode::OpLess => AbsValue::Bool(a < b),
        _ => AbsValue::Nil,
    }
}

/// Truncating division, with the one overflowing quotient wrapped: the
/// quotient when it exists, and `i64::MIN` for `i64::MIN / -1`, the only
/// division of nonzero divisor without one. Meaningful only for `b != 0`.
pub open spec fn div_wrapped(a: i64, b: i64) -> i64 {
    match a.checked_div(b) {
        Some(q) => q,
        None => i64::MIN,
    }
}

/// Reads the 8-bit operand of the instruction at `ip` as a constant-pool
/// index, if it is in range for the pool.
pub open spec fn const_index8(c: ChunkView, ip: int) -> Option<int> {
    if ip + 2 <= c.code.len() && (c.code[ip + 1] as int) < c.constants.len() {
        Some(c.code[ip + 1] as int)
    } else {
        None
    }
}

/// Reads the 24-bit little-endian operand of the instruction at `ip` as a
/// constant-pool index, if it is in range for the pool.
pub open spec fn const_index24(c: ChunkView, ip: int) -> Option<int> {
    if ip + 4 <= c.code.len() && le24(c.code[ip + 1], c.code[ip + 2], c.code[ip + 3])
        < c.constants.len() {
        Some(le24(c.code[ip + 1], c.code[ip + 2], c.code[ip + 3]))
    } else {
        None
    }
}

/// One step of a binary arithmetic or comparison instruction: both
/// operands must be integers (`"Operands must be numbers."` otherwise,
/// with nothing popped), and division by zero is its own error.
pub open spec fn step_binary(op: OpCode, s: VmState) -> StepR {
    if s.stack.len() < 2 {
        StepR::Fail(s, msg_invalid_bytecode())
    } else {
        let a = s.stack[s.stack.len() - 2];
        let b = s.stack[s.stack.len() - 1];
        if !(a is Int) || !(b is Int) {
            StepR::Fail(s, msg_operands_numbers())
        } else if op == OpCode::OpDivide && b == AbsValue::Int(0) {
            StepR::Fail(s, msg_division_by_zero())
        } else {
            StepR::Next(
                VmState {
                    stack: s.stack.drop_last().drop_last().push(
                        binary_num_result(op, a->Int_0, b->Int_0),
                    ),
                    ip: s.ip + 1,
                    ..s
                },
            )
        }
    }
}

/// One step of the machine on chunk `c` from state `s`: the meaning of
/// each instruction, as the table form of the design gives it.
pub open spec fn vm_step(c: ChunkView, s: VmState) -> StepR {
    if !(0 <= s.ip < c.code.len()) {
        StepR::Fail(s, msg_invalid_bytecode())
    } else {
        let op = c.code[s.ip];
        if op == 0 {
            // RETURN: halt.
            StepR::Halt(VmState { ip: s.ip + 1, ..s })
        } else if op == 1 || op == 2 {
            // CONSTANT / CONSTANT_LONG: push a pool entry.
            let idx = if op == 1 {
                const_index8(c, s.ip)
            } else {
                const_index24(c, s.ip)
            };
            let width = if op == 1 {
                2int
            } else {
                4int
            };
            match idx {
                Some(i) => StepR::Next(
                    VmState { stack: s.stack.push(c.constants[i]), ip: s.ip + width, ..s },
                ),
                None => StepR::Fail(s, msg_invalid_bytecode()),
            }
        } else if op == 3 || op == 4 || op == 5 || op == 6 || op == 13 || op == 14 {
            // ADD and the other binary operators; ADD alone also
            // concatenates two strings.
            if op == 3 && s.stack.len() >= 2 && s.stack[s.stack.len() - 2] is Str
                && s.stack[s.stack.len() - 1] is Str {
                let a = s.stack[s.stack.len() - 2]->Str_0;
                let b = s.stack[s.stack.len() - 1]->Str_0;
                StepR::Next(
                    VmState {
                        stack: s.stack.drop_last().drop_last().push(AbsValue::Str(a + b)),
                        ip: s.ip + 1,
                        ..s
                    },
                )
            } else {
                let opc = if op == 3 {
                    OpCode::OpAdd
                } else if op == 4 {
                    OpCode::OpSubtract
                } else if op == 5 {
                    OpCode::OpMultiply
                } else if op == 6 {
                    OpCode::OpDivide
                } else if op == 13 {
                    OpCode::OpGreater
                } else {
                    OpCode::OpLess
                };
                step_binary(opc, s)
            }
        } else if op == 7 {
            // NEGATE: the top value must be an integer.
            if s.stack.len() < 1 {
                StepR::Fail(s, msg_invalid_bytecode())
            } else if !(s.stack.last() is Int) {
                StepR::Fail(s, msg_operand_number())
            } else {
                let v = s.stack.last()->Int_0;
                StepR::Next(
                    VmState {
                        stack: s.stack.drop_last().push(
                            AbsValue::Int(vstd::wrapping::i64_specs::wrapping_sub(0, v)),
                        ),
                        ip: s.ip + 1,
                        ..s
                    },
                )
            }
        } else if op == 8 {
            // NIL
            StepR::Next(VmState { stack: s.stack.push(AbsValue::Nil), ip: s.ip + 1, ..s })
        } else if op == 9 {
            // TRUE
            StepR::Next(VmState { stack: s.stack.push(AbsValue::Bool(true)), ip: s.ip + 1, ..s })
        } else if op == 10 {
            // FALSE
            StepR::Next(VmState { stack: s.stack.push(AbsValue::Bool(false)), ip: s.ip + 1, ..s })
        } else if op == 11 {
            // NOT: replace the top value by whether it was falsey.
            if s.stack.len() < 1 {
                StepR::Fail(s, msg_invalid_bytecode())
            } else {
                StepR::Next(
                    VmState {
                        stack: s.stack.drop_last().push(AbsValue::Bool(abs_falsey(s.stack.last()))),
                        ip: s.ip + 1,
                        ..s
                    },
                )
            }
        } else if op == 12 {
            // EQUAL: never errors.
            if s.stack.len() < 2 {
                StepR::Fail(s, msg_invalid_bytecode())
            } else {
                let a = s.stack[s.stack.len() - 2];
                let b = s.stack[s.stack.len() - 1];
                StepR::Next(
                    VmState {
                        stack: s.stack.drop_last().drop_last().push(
                            AbsValue::Bool(abs_equal(a, b)),
                        ),
                        ip: s.ip + 1,
                        ..s
                    },
                )
            }
        } else if op == 15 {
            // PRINT: pop and append to the output.
            if s.stack.len() < 1 {
                StepR::Fail(s, msg_invalid_bytecode())
            } else {
                StepR::Next(
                    VmState {
                        stack: s.stack.drop_last(),
                        output: s.output.push(s.stack.last()),
                        ip: s.ip + 1,
                        ..s
                    },
                )
            }
        } else if op == 16 {
            // POP
            if s.stack.len() < 1 {
                StepR::Fail(s, msg_invalid_bytecode())
            } else {
                StepR::Next(VmState { stack: s.stack.drop_last(), ip: s.ip + 1, ..s })
            }
        } else if op == 17 || op == 18 {
            // DEFINE_GLOBAL / _LONG: bind the name to the top value
            // unconditionally, then pop.
            let idx = if op == 17 {
                const_index8(c, s.ip)
            } else {
                const_index24(c, s.ip)
            };
            let width = if op == 17 {
                2int
            } else {
                4int
            };
            match idx {
                Some(i) => if !(c.constants[i] is Str) || s.stack.len() < 1 {
                    StepR::Fail(s, msg_invalid_bytecode())
                } else {
                    StepR::Next(
                        VmState {
                            stack: s.stack.drop_last(),
                            globals: s.globals.insert(c.constants[i]->Str_0, s.stack.last()),
                            ip: s.ip + width,
                            ..s
                        },
                    )
                },
                None => StepR::Fail(s, msg_invalid_bytecode()),
            }
        } else if op == 19 || op == 20 {
            // GET_GLOBAL / _LONG: push the bound value, or report an
            // undefined variable.
            let idx = if op == 19 {
                const_index8(c, s.ip)
            } else {
                const_index24(c, s.ip)
            };
            let width = if op == 19 {
                2int
            } else {
                4int
            };
            match idx {
                Some(i) => if !(c.constants[i] is Str) {
                    StepR::Fail(s, msg_invalid_bytecode())
                } else {
                    let name = c.constants[i]->Str_0;
                    if s.globals.contains_key(name) {
                        StepR::Next(
                            VmState { stack: s.stack.push(s.globals[name]), ip: s.ip + width, ..s },
                        )
                    } else {
                        StepR::Fail(s, msg_undefined_variable(name))
                    }
                },
                None => StepR::Fail(s, msg_invalid_bytecode()),
            }
        } else if op == 21 || op == 22 {
            // SET_GLOBAL / _LONG: the name must already be bound;
            // assignment is an expression, so nothing is popped.
            let idx = if op == 21 {
                const_index8(c, s.ip)
            } else {
                const_index24(c, s.ip)
            };
            let width = if op == 21 {
                2int
            } else {
                4int
            };
            match idx {
                Some(i) => if !(c.constants[i] is Str) || s.stack.len() < 1 {
                    StepR::Fail(s, msg_invalid_bytecode())
                } else {
                    let name = c.constants[i]->Str_0;
                    if s.globals.contains_key(name) {
                        StepR::Next(
                            VmState {
                                globals: s.globals.insert(name, s.stack.last()),
                                ip: s.ip + width,
                                ..s
                            },
                        )
                    } else {
                        StepR::Fail(s, msg_undefined_variable(name))
                    }
                },
                None => StepR::Fail(s, msg_invalid_bytecode()),
            }
        } else if op == 23 || op == 24 {
            // GET_LOCAL / _LONG: push the value of an absolute stack slot.
            let width = if op == 23 {
                2int
            } else {
                4int
            };
            if s.ip + width > c.code.len() {
                StepR::Fail(s, msg_invalid_bytecode())
            } else {
                let slot = if op == 23 {
                    c.code[s.ip + 1] as int
                } else {
                    le24(c.code[s.ip + 1], c.code[s.ip + 2], c.code[s.ip + 3])
                };
                if slot < s.stack.len() {
                    StepR::Next(
                        VmState { stack: s.stack.push(s.stack[slot]), ip: s.ip + width, ..s },
                    )
                } else {
                    StepR::Fail(s, msg_invalid_bytecode())
                }
            }
        } else if op == 25 || op == 26 {
            // SET_LOCAL / _LONG: write the top value into an absolute
            // stack slot, leaving the top in place.
            let width = if op == 25 {
                2int
            } else {
                4int
            };
            if s.ip + width > c.code.len() {
                StepR::Fail(s, msg_invalid_bytecode())
            } else {
                let slot = if op == 25 {
                    c.code[s.ip + 1] as int
                } else {
                    le24(c.code[s.ip + 1], c.code[s.ip + 2], c.code[s.ip + 3])
                };
                if slot < s.stack.len() && s.stack.len() >= 1 {
                    StepR::Next(
                        VmState {
                            stack: s.stack.update(slot, s.stack.last()),
                            ip: s.ip + width,
                            ..s
                        },
                    )
                } else {
                    StepR::Fail(s, msg_invalid_bytecode())
                }
            }
        } else if op == 27 {
            // JUMP_IF_FALSE: a 16-bit big-endian forward distance, taken
            // when the top of the stack is falsey; the condition stays.
            if s.ip + 3 > c.code.len() || s.stack.len() < 1 {
                StepR::Fail(s, msg_invalid_bytecode())
            } else {
                let off = be16(c.code[s.ip + 1], c.code[s.ip + 2]);
                if abs_falsey(s.stack.last()) {
                    if s.ip + 3 + off > c.code.len() {
                        StepR::Fail(s, msg_invalid_bytecode())
                    } else {
                        StepR::Next(VmState { ip: s.ip + 3 + off, ..s })
                    }
                } else {
                    StepR::Next(VmState { ip: s.ip + 3, ..s })
                }
            }
        } else if op == 28 {
            // JUMP: unconditional forward.
            if s.ip + 3 > c.code.len() {
                StepR::Fail(s, msg_invalid_bytecode())
            } else {
                let off = be16(c.code[s.ip + 1], c.code[s.ip + 2]);
                if s.ip + 3 + off > c.code.len() {
                    StepR::Fail(s, msg_invalid_bytecode())
                } else {
                    StepR::Next(VmState { ip: s.ip + 3 + off, ..s })
                }
            }
        } else if op == 29 {
            // LOOP: unconditional backward.
            if s.ip + 3 > c.code.len() {
                StepR::Fail(s, msg_invalid_bytecode())
            } else {
                let off = be16(c.code[s.ip + 1], c.code[s.ip + 2]);
                if off > s.ip + 3 {
                    StepR::Fail(s, msg_invalid_bytecode())
                } else {
                    StepR::Next(VmState { ip: s.ip + 3 - off, ..s })
                }
            }
        } else {
            StepR::Fail(s, msg_invalid_bytecode())
        }
    }
}

/// How a run over chunk `c` from state `s` with `n` steps of budget ends.
pub enum RunOutcome {
    Halted(VmState),
    Failed(VmState, Seq<u8>),
    Exhausted(VmState),
}

/// Iterates [`vm_step`] until it halts, fails, or the budget runs out.
pub open spec fn run_steps(c: ChunkView, s: VmState, n: nat) -> RunOutcome
    decreases n,
{
    if n == 0 {
        RunOutcome::Exhausted(s)
    } else {
        match vm_step(c, s) {
            StepR::Next(s2) => run_steps(c, s2, (n - 1) as nat),
            StepR::Halt(s2) => RunOutcome::Halted(s2),
            StepR::Fail(s2, m) => RunOutcome::Failed(s2, m),
        }
    }
}

/// The machine pushes `Boolean(true)` for NOT exactly on the two falsey
/// values: running NOT over `v` leaves `Boolean(v is Nil or v is the
/// boolean false)` on top of the stack.
pub proof fn lemma_not_is_falsey(c: ChunkView, s: VmState, v: AbsValue)
    requires
        0 <= s.ip < c.code.len(),
        c.code[s.ip] == 11,
        s.stack.len() >= 1,
        s.stack.last() == v,
    ensures
        vm_step(c, s) matches StepR::Next(s2) && s2.stack.last() == AbsValue::Bool(
            v == AbsValue::Nil || v == AbsValue::Bool(false),
        ),
{
}


/// The stack's starting capacity.
pub const STACK_INITIAL_SIZE: usize = 256;

/// The machine state every run begins in: empty stack, no globals, no
/// output, instruction pointer at the start of the code.
pub open spec fn init_state() -> VmState {
    VmState { stack: Seq::empty(), globals: Map::empty(), output: Seq::empty(), ip: 0 }
}

/// Combines two big-endian bytes into a 16-bit operand.
///
/// Relies on byteorder's `BigEndian::read_u16`: the first byte is the
/// high one, `from_be_bytes` of the two.
#[verifier::external_body]
fn read_u16_be(b0: u8, b1: u8) -> (r: u16)
    ensures
        r as int == be16(b0, b1),
{
    <byteorder::BigEndian as byteorder::ByteOrder>::read_u16(&[b0, b1])
}

/// Combines three little-endian bytes into a 24-bit operand.
///
/// Relies on byteorder's `LittleEndian::read_u32`: `from_le_bytes` of
/// the four bytes, the low byte first; the high byte here is zero.
#[verifier::external_body]
fn read_u24_le(b0: u8, b1: u8, b2: u8) -> (r: u32)
    ensures
        r as int == le24(b0, b1, b2),
{
    <byteorder::LittleEndian as byteorder::ByteOrder>::read_u32(&[b0, b1, b2, 0])
}

/// The invalid bytecode message as bytes.
fn invalid_bytecode_vec() -> (r: Vec<u8>)
    ensures
        r@ == msg_invalid_bytecode(),
{
    let m: &[u8] = &[73, 110, 118, 97, 108, 105, 100, 32, 98, 121, 116, 101, 99, 111, 100, 101, 46];
    let v = vstd::slice::slice_to_vec(m);
    proof {
        assert(v@ =~= msg_invalid_bytecode());
    }
    v
}

/// The binary operand type error message as bytes.
fn operands_numbers_vec() -> (r: Vec<u8>)
    ensures
        r@ == msg_operands_numbers(),
{
    let m: &[u8] = &[79, 112, 101, 114, 97, 110, 100, 115, 32, 109, 117, 115, 116, 32, 98, 101, 32, 110, 117, 109, 98, 101, 114, 115, 46];
    let v = vstd::slice::slice_to_vec(m);
    proof {
        assert(v@ =~= msg_operands_numbers());
    }
    v
}

/// The unary operand type error message as bytes.
fn operand_number_vec() -> (r: Vec<u8>)
    ensures
        r@ == msg_operand_number(),
{
    let m: &[u8] = &[79, 112, 101, 114, 97, 110, 100, 32, 109, 117, 115, 116, 32, 98, 101, 32, 97, 32, 110, 117, 109, 98, 101, 114, 46];
    let v = vstd::slice::slice_to_vec(m);
    proof {
        assert(v@ =~= msg_operand_number());
    }
    v
}

/// The division by zero message as bytes.
fn division_by_zero_vec() -> (r: Vec<u8>)
    ensures
        r@ == msg_division_by_zero(),
{
    let m: &[u8] = &[68, 105, 118, 105, 115, 105, 111, 110, 32, 98, 121, 32, 122, 101, 114, 111, 46];
    let v = vstd::slice::slice_to_vec(m);
    proof {
        assert(v@ =~= msg_division_by_zero());
    }
    v
}

/// The step budget message as bytes.
fn budget_exhausted_vec() -> (r: Vec<u8>)
    ensures
        r@ == msg_budget_exhausted(),
{
    let m: &[u8] = &[83, 116, 101, 112, 32, 98, 117, 100, 103, 101, 116, 32, 101, 120, 104, 97, 117, 115, 116, 101, 100, 46];
    let v = vstd::slice::slice_to_vec(m);
    proof {
        assert(v@ =~= msg_budget_exhausted());
    }
    v
}

/// The undefined variable message for `name`, as bytes.
fn undefined_variable_vec(name: &Vec<u8>) -> (r: Vec<u8>)
    ensures
        r@ == msg_undefined_variable(name@),
{
    let prefix: &[u8] = &[85, 110, 100, 101, 102, 105, 110, 101, 100, 32, 118, 97, 114, 105, 97, 98, 108, 101, 32, 39];
    let mut v = vstd::slice::slice_to_vec(prefix);
    let ghost p = v@;
    let mut i: usize = 0;
    while i < name.len()
        invariant
            i <= name@.len(),
            v@ == p + name@.subrange(0, i as int),
        decreases name@.len() - i,
    {
        v.push(name[i]);
        proof {
            assert(v@ =~= p + name@.subrange(0, i + 1 as int));
        }
        i = i + 1;
    }
    v.push(39);
    v.push(46);
    proof {
        assert(name@.subrange(0, name@.len() as int) =~= name@);
        assert(v@ =~= msg_undefined_variable(name@));
    }
    v
}

/// What one executed instruction asks the run loop to do next.
#[derive(PartialEq, Eq, Structural)]
pub enum StepOutcome {
    KeepGoing,
    Halted,
    Errored,
}

/// The virtual machine: the value stack, the globals table, the values
/// printed so far, the instruction pointer, and, after a runtime error,
/// its message.
pub struct VM {
    pub stack: Stack,
    pub globals: Globals,
    pub output: Vec<Value>,
    pub ip: usize,
    pub runtime_message: Option<Vec<u8>>,
}

impl View for VM {
    type V = VmState;

    open spec fn view(&self) -> VmState {
        VmState {
            stack: self.stack@,
            globals: self.globals@,
            output: self.output@.map_values(|v: Value| v@),
            ip: self.ip as int,
        }
    }
}

impl VM {
    /// The globals table keeps its keys unique.
    pub open spec fn wf(&self) -> bool {
        self.globals.wf()
    }

    /// A machine in the initial state.
    pub fn new() -> (r: Self)
        ensures
            r.wf(),
            r@ == init_state(),
            r.runtime_message is None,
    {
        let vm = VM {
            stack: Stack::new(Some(STACK_INITIAL_SIZE)),
            globals: Globals::new(),
            output: Vec::new(),
            ip: 0,
            runtime_message: None,
        };
        proof {
            assert(vm@ =~= init_state());
        }
        vm
    }

    /// Empties the value stack.
    pub fn reset_stack(&mut self)
        ensures
            final(self)@.stack.len() == 0,
            final(self)@.globals == old(self)@.globals,
            final(self)@.output == old(self)@.output,
            final(self)@.ip == old(self)@.ip,
            final(self).runtime_message == old(self).runtime_message,
    {
        self.stack = Stack::new(Some(STACK_INITIAL_SIZE));
    }

    /// The value `distance` slots below the top of the stack.
    pub fn peek(&self, distance: usize) -> (r: &Value)
        requires
            distance < self@.stack.len(),
        ensures
            r@ == self@.stack[self@.stack.len() - 1 - distance],
    {
        self.stack.peek(distance)
    }

    /// Records a runtime error message.
    pub fn runtime_error(&mut self, message: Vec<u8>)
        ensures
            final(self)@ == old(self)@,
            final(self).runtime_message matches Some(v) && v@ == message@,
    {
        self.runtime_message = Some(message);
    }

    /// Reads the byte at the instruction pointer and moves past it.
    pub fn read_byte(&mut self, chunk: &Chunk) -> (r: u8)
        requires
            old(self).ip < chunk@.code.len(),
        ensures
            r == chunk@.code[old(self).ip as int],
            final(self).ip == old(self).ip + 1,
            final(self).stack == old(self).stack,
            final(self).globals == old(self).globals,
            final(self).output == old(self).output,
            final(self).runtime_message == old(self).runtime_message,
    {
        let _n = chunk.code.len();
        let b = chunk.code[self.ip];
        self.ip = self.ip + 1;
        b
    }

    /// Reads a 16-bit big-endian operand and moves past it.
    pub fn read_short(&mut self, chunk: &Chunk) -> (r: u16)
        requires
            old(self).ip + 2 <= chunk@.code.len(),
        ensures
            r as int == be16(
                chunk@.code[old(self).ip as int],
                chunk@.code[old(self).ip + 1],
            ),
            final(self).ip == old(self).ip + 2,
            final(self).stack == old(self).stack,
            final(self).globals == old(self).globals,
            final(self).output == old(self).output,
            final(self).runtime_message == old(self).runtime_message,
    {
        let b0 = self.read_byte(chunk);
        let b1 = self.read_byte(chunk);
        read_u16_be(b0, b1)
    }

    /// Reads a 24-bit little-endian operand and moves past it.
    pub fn read_long(&mut self, chunk: &Chunk) -> (r: u32)
        requires
            old(self).ip + 3 <= chunk@.code.len(),
        ensures
            r as int == le24(
                chunk@.code[old(self).ip as int],
                chunk@.code[old(self).ip + 1],
                chunk@.code[old(self).ip + 2],
            ),
            final(self).ip == old(self).ip + 3,
            final(self).stack == old(self).stack,
            final(self).globals == old(self).globals,
            final(self).output == old(self).output,
            final(self).runtime_message == old(self).runtime_message,
    {
        let b0 = self.read_byte(chunk);
        let b1 = self.read_byte(chunk);
        let b2 = self.read_byte(chunk);
        read_u24_le(b0, b1, b2)
    }

    /// Reads an 8-bit constant index and returns that pool entry.
    pub fn read_constant(&mut self, chunk: &Chunk) -> (v: Value)
        requires
            old(self).ip < chunk@.code.len(),
            (chunk@.code[old(self).ip as int] as int) < chunk@.constants.len(),
        ensures
            v@ == chunk@.constants[chunk@.code[old(self).ip as int] as int],
            final(self).ip == old(self).ip + 1,
            final(self).stack == old(self).stack,
            final(self).globals == old(self).globals,
            final(self).output == old(self).output,
            final(self).runtime_message == old(self).runtime_message,
    {
        let idx = self.read_byte(chunk) as usize;
        chunk.constants.values[idx].clone()
    }

    /// Reads a 24-bit constant index and returns that pool entry.
    pub fn read_long_constant(&mut self, chunk: &Chunk) -> (v: Value)
        requires
            old(self).ip + 3 <= chunk@.code.len(),
            le24(
                chunk@.code[old(self).ip as int],
                chunk@.code[old(self).ip + 1],
                chunk@.code[old(self).ip + 2],
            ) < chunk@.constants.len(),
        ensures
            v@ == chunk@.constants[le24(
                chunk@.code[old(self).ip as int],
                chunk@.code[old(self).ip + 1],
                chunk@.code[old(self).ip + 2],
            )],
            final(self).ip == old(self).ip + 3,
            final(self).stack == old(self).stack,
            final(self).globals == old(self).globals,
            final(self).output == old(self).output,
            final(self).runtime_message == old(self).runtime_message,
    {
        let idx = self.read_long(chunk) as usize;
        chunk.constants.values[idx].clone()
    }

    /// Pops the top value; the stack must not be empty.
    fn pop_value(&mut self) -> (v: Value)
        requires
            old(self)@.stack.len() > 0,
        ensures
            v@ == old(self)@.stack.last(),
            final(self)@.stack == old(self)@.stack.drop_last(),
            final(self).globals == old(self).globals,
            final(self).output == old(self).output,
            final(self).ip == old(self).ip,
            final(self).runtime_message == old(self).runtime_message,
    {
        match self.stack.pop() {
            Some(v) => v,
            None => vstd::pervasive::unreached(),
        }
    }

    /// Pops two strings and pushes their concatenation.
    pub fn concatenate(&mut self)
        requires
            old(self)@.stack.len() >= 2,
            old(self)@.stack[old(self)@.stack.len() - 1] is Str,
            old(self)@.stack[old(self)@.stack.len() - 2] is Str,
        ensures
            final(self)@.stack == old(self)@.stack.drop_last().drop_last().push(
                AbsValue::Str(
                    old(self)@.stack[old(self)@.stack.len() - 2]->Str_0 + old(self)@.stack[old(self)@.stack.len() - 1]->Str_0,
                ),
            ),
            final(self).globals == old(self).globals,
            final(self).output == old(self).output,
            final(self).ip == old(self).ip,
            final(self).runtime_message == old(self).runtime_message,
    {
        let b = self.pop_value();
        let a = self.pop_value();
        let a_text = a.as_rust_string();
        let b_text = b.as_rust_string();
        let mut text = a_text.clone();
        proof {
            assert(text@ =~= a_text@);
        }
        let ghost before = text@;
        let mut i: usize = 0;
        while i < b_text.len()
            invariant
                i <= b_text@.len(),
                text@ == before + b_text@.subrange(0, i as int),
            decreases b_text@.len() - i,
        {
            text.push(b_text[i]);
            proof {
                assert(text@ =~= before + b_text@.subrange(0, i + 1 as int));
            }
            i = i + 1;
        }
        proof {
            assert(b_text@.subrange(0, b_text@.len() as int) =~= b_text@);
        }
        self.stack.push(Value::new_obj_string(text));
    }

    /// Pops two integers and pushes the result of `op` on them.
    pub fn binary_op(&mut self, op: OpCode)
        requires
            old(self)@.stack.len() >= 2,
            old(self)@.stack[old(self)@.stack.len() - 1] is Int,
            old(self)@.stack[old(self)@.stack.len() - 2] is Int,
            op == OpCode::OpAdd || op == OpCode::OpSubtract || op == OpCode::OpMultiply || op
                == OpCode::OpDivide || op == OpCode::OpGreater || op == OpCode::OpLess,
            op == OpCode::OpDivide ==> old(self)@.stack[old(self)@.stack.len() - 1]
                != AbsValue::Int(0),
        ensures
            final(self)@.stack == old(self)@.stack.drop_last().drop_last().push(
                binary_num_result(
                    op,
                    old(self)@.stack[old(self)@.stack.len() - 2]->Int_0,
                    old(self)@.stack[old(self)@.stack.len() - 1]->Int_0,
                ),
            ),
            final(self).globals == old(self).globals,
            final(self).output == old(self).output,
            final(self).ip == old(self).ip,
            final(self).runtime_message == old(self).runtime_message,
    {
        let b_val = self.pop_value();
        let a_val = self.pop_value();
        let a = a_val.as_number();
        let b = b_val.as_number();
        let result = match op {
            OpCode::OpAdd => Value::new_number(a.wrapping_add(b)),
            OpCode::OpSubtract => Value::new_number(a.wrapping_sub(b)),
            OpCode::OpMultiply => Value::new_number(a.wrapping_mul(b)),
            OpCode::OpDivide => {
                match a.checked_div(b) {
                    Some(q) => Value::new_number(q),
                    None => Value::new_number(i64::MIN),
                }
            },
            OpCode::OpGreater => Value::new_bool(a > b),
            OpCode::OpLess => Value::new_bool(a < b),
            _ => vstd::pervasive::unreached(),
        };
        self.stack.push(result);
    }
}


impl VM {
    /// Records an error message and reports the step as failed.
    fn fail_with(&mut self, message: Vec<u8>) -> (r: StepOutcome)
        ensures
            final(self)@ == old(self)@,
            final(self).wf() == old(self).wf(),
            r == StepOutcome::Errored,
            final(self).runtime_message matches Some(v) && v@ == message@,
    {
        self.runtime_message = Some(message);
        StepOutcome::Errored
    }

    /// Fetches, decodes and executes the instruction at the instruction
    /// pointer: exactly one transition of [`vm_step`].
    #[verifier::rlimit(100)]
    pub fn step(&mut self, chunk: &Chunk) -> (r: StepOutcome)
        requires
            old(self).wf(),
        ensures
            final(self).wf(),
            match r {
                StepOutcome::KeepGoing => vm_step(chunk@, old(self)@) == StepR::Next(final(self)@)
                    && final(self).runtime_message == old(self).runtime_message,
                StepOutcome::Halted => vm_step(chunk@, old(self)@) == StepR::Halt(final(self)@)
                    && final(self).runtime_message == old(self).runtime_message,
                StepOutcome::Errored => vm_step(chunk@, old(self)@) matches StepR::Fail(s2, m)
                    && final(self)@ == s2 && (final(self).runtime_message matches Some(v) && v@
                    == m),
            },
    {
        let n = chunk.code.len();
        if self.ip >= n {
            return self.fail_with(invalid_bytecode_vec());
        }
        let instruction = chunk.code[self.ip];

        match opcode_from_u8(instruction) {
            Some(OpCode::OpReturn) => {
                self.ip = self.ip + 1;
                StepOutcome::Halted
            },
            Some(OpCode::OpConstant) => self.constant_op(chunk, false),
            Some(OpCode::OpConstantLong) => self.constant_op(chunk, true),
            Some(OpCode::OpAdd) => self.add_op(chunk),
            Some(OpCode::OpSubtract) => self.arith(chunk, OpCode::OpSubtract),
            Some(OpCode::OpMultiply) => self.arith(chunk, OpCode::OpMultiply),
            Some(OpCode::OpDivide) => self.arith(chunk, OpCode::OpDivide),
            Some(OpCode::OpGreater) => self.arith(chunk, OpCode::OpGreater),
            Some(OpCode::OpLess) => self.arith(chunk, OpCode::OpLess),
            Some(OpCode::OpNegate) => self.negate_op(chunk),
            Some(OpCode::OpNil) => self.push_literal(chunk, OpCode::OpNil),
            Some(OpCode::OpTrue) => self.push_literal(chunk, OpCode::OpTrue),
            Some(OpCode::OpFalse) => self.push_literal(chunk, OpCode::OpFalse),
            Some(OpCode::OpNot) => self.not_op(chunk),
            Some(OpCode::OpEqual) => self.equal_op(chunk),
            Some(OpCode::OpPrint) => self.print_op(chunk),
            Some(OpCode::OpPop) => self.pop_op(chunk),
            Some(OpCode::OpDefineGlobal) => self.define_global(chunk, false),
            Some(OpCode::OpDefineGlobalLong) => self.define_global(chunk, true),
            Some(OpCode::OpGetGlobal) => self.get_global(chunk, false),
            Some(OpCode::OpGetGlobalLong) => self.get_global(chunk, true),
            Some(OpCode::OpSetGlobal) => self.set_global(chunk, false),
            Some(OpCode::OpSetGlobalLong) => self.set_global(chunk, true),
            Some(OpCode::OpGetLocal) => self.get_local(chunk, false),
            Some(OpCode::OpGetLocalLong) => self.get_local(chunk, true),
            Some(OpCode::OpSetLocal) => self.set_local(chunk, false),
            Some(OpCode::OpSetLocalLong) => self.set_local(chunk, true),
            Some(OpCode::OpJumpIfFalse) => self.jump_op(chunk, OpCode::OpJumpIfFalse),
            Some(OpCode::OpJump) => self.jump_op(chunk, OpCode::OpJump),
            Some(OpCode::OpLoop) => self.jump_op(chunk, OpCode::OpLoop),
            _ => self.fail_with(invalid_bytecode_vec()),
        }
    }

    /// CONSTANT and CONSTANT_LONG: push a constant-pool entry.
    fn constant_op(&mut self, chunk: &Chunk, long: bool) -> (r: StepOutcome)
        requires
            old(self).wf(),
            0 <= old(self).ip < chunk@.code.len(),
            chunk@.code[old(self).ip as int] == (if long {
                2u8
            } else {
                1u8
            }),
        ensures
            final(self).wf(),
            match r {
                StepOutcome::KeepGoing => vm_step(chunk@, old(self)@) == StepR::Next(final(self)@)
                    && final(self).runtime_message == old(self).runtime_message,
                StepOutcome::Halted => false,
                StepOutcome::Errored => vm_step(chunk@, old(self)@) matches StepR::Fail(s2, m)
                    && final(self)@ == s2 && (final(self).runtime_message matches Some(v) && v@
                    == m),
            },
    {
        let n = chunk.code.len();
        let width: usize = if long {
            4
        } else {
            2
        };
        if n - self.ip < width {
            return self.fail_with(invalid_bytecode_vec());
        }
        if long {
            let idx = read_u24_le(
                chunk.code[self.ip + 1],
                chunk.code[self.ip + 2],
                chunk.code[self.ip + 3],
            ) as usize;
            if idx >= chunk.constants.values.len() {
                return self.fail_with(invalid_bytecode_vec());
            }
            self.ip = self.ip + 1;
            let v = self.read_long_constant(chunk);
            self.stack.push(v);
        } else {
            if chunk.code[self.ip + 1] as usize >= chunk.constants.values.len() {
                return self.fail_with(invalid_bytecode_vec());
            }
            self.ip = self.ip + 1;
            let v = self.read_constant(chunk);
            self.stack.push(v);
        }
        StepOutcome::KeepGoing
    }

    /// ADD: concatenates two strings, or adds two integers; anything else
    /// is an operand type error.
    fn add_op(&mut self, chunk: &Chunk) -> (r: StepOutcome)
        requires
            old(self).wf(),
            0 <= old(self).ip < chunk@.code.len(),
            chunk@.code[old(self).ip as int] == 3u8,
        ensures
            final(self).wf(),
            match r {
                StepOutcome::KeepGoing => vm_step(chunk@, old(self)@) == StepR::Next(final(self)@)
                    && final(self).runtime_message == old(self).runtime_message,
                StepOutcome::Halted => false,
                StepOutcome::Errored => vm_step(chunk@, old(self)@) matches StepR::Fail(s2, m)
                    && final(self)@ == s2 && (final(self).runtime_message matches Some(v) && v@
                    == m),
            },
    {
        let _n = chunk.code.len();
        if self.stack.len() < 2 {
            return self.fail_with(invalid_bytecode_vec());
        }
        if self.peek(0).is_string() && self.peek(1).is_string() {
            self.concatenate();
            self.ip = self.ip + 1;
            StepOutcome::KeepGoing
        } else if self.peek(0).is_number() && self.peek(1).is_number() {
            self.binary_op(OpCode::OpAdd);
            self.ip = self.ip + 1;
            StepOutcome::KeepGoing
        } else {
            self.fail_with(operands_numbers_vec())
        }
    }

    /// NEGATE: the top value must be an integer; wraps on overflow.
    fn negate_op(&mut self, chunk: &Chunk) -> (r: StepOutcome)
        requires
            old(self).wf(),
            0 <= old(self).ip < chunk@.code.len(),
            chunk@.code[old(self).ip as int] == 7u8,
        ensures
            final(self).wf(),
            match r {
                StepOutcome::KeepGoing => vm_step(chunk@, old(self)@) == StepR::Next(final(self)@)
                    && final(self).runtime_message == old(self).runtime_message,
                StepOutcome::Halted => false,
                StepOutcome::Errored => vm_step(chunk@, old(self)@) matches StepR::Fail(s2, m)
                    && final(self)@ == s2 && (final(self).runtime_message matches Some(v) && v@
                    == m),
            },
    {
        let _n = chunk.code.len();
        if self.stack.len() < 1 {
            return self.fail_with(invalid_bytecode_vec());
        }
        if !self.peek(0).is_number() {
            return self.fail_with(operand_number_vec());
        }
        let v = self.pop_value();
        let x = v.as_number();
        self.stack.push(Value::new_number((0i64).wrapping_sub(x)));
        self.ip = self.ip + 1;
        StepOutcome::KeepGoing
    }

    /// NIL, TRUE and FALSE: push the corresponding literal value.
    fn push_literal(&mut self, chunk: &Chunk, op: OpCode) -> (r: StepOutcome)
        requires
            old(self).wf(),
            0 <= old(self).ip < chunk@.code.len(),
            op == OpCode::OpNil || op == OpCode::OpTrue || op == OpCode::OpFalse,
            chunk@.code[old(self).ip as int] == opcode_num(op),
        ensures
            final(self).wf(),
            match r {
                StepOutcome::KeepGoing => vm_step(chunk@, old(self)@) == StepR::Next(final(self)@)
                    && final(self).runtime_message == old(self).runtime_message,
                StepOutcome::Halted => false,
                StepOutcome::Errored => vm_step(chunk@, old(self)@) matches StepR::Fail(s2, m)
                    && final(self)@ == s2 && (final(self).runtime_message matches Some(v) && v@
                    == m),
            },
    {
        let _n = chunk.code.len();
        match op {
            OpCode::OpNil => self.stack.push(Value::new_nil()),
            OpCode::OpTrue => self.stack.push(Value::new_bool(true)),
            OpCode::OpFalse => self.stack.push(Value::new_bool(false)),
            _ => {},
        }
        self.ip = self.ip + 1;
        StepOutcome::KeepGoing
    }

    /// NOT: replaces the top value by whether it was falsey.
    fn not_op(&mut self, chunk: &Chunk) -> (r: StepOutcome)
        requires
            old(self).wf(),
            0 <= old(self).ip < chunk@.code.len(),
            chunk@.code[old(self).ip as int] == 11u8,
        ensures
            final(self).wf(),
            match r {
                StepOutcome::KeepGoing => vm_step(chunk@, old(self)@) == StepR::Next(final(self)@)
                    && final(self).runtime_message == old(self).runtime_message,
                StepOutcome::Halted => false,
                StepOutcome::Errored => vm_step(chunk@, old(self)@) matches StepR::Fail(s2, m)
                    && final(self)@ == s2 && (final(self).runtime_message matches Some(v) && v@
                    == m),
            },
    {
        let _n = chunk.code.len();
        if self.stack.len() < 1 {
            return self.fail_with(invalid_bytecode_vec());
        }
        let popped = self.pop_value();
        self.stack.push(Value::new_bool(popped.is_falsey()));
        self.ip = self.ip + 1;
        StepOutcome::KeepGoing
    }

    /// EQUAL: pops two values and pushes whether they are equal; never
    /// errors.
    fn equal_op(&mut self, chunk: &Chunk) -> (r: StepOutcome)
        requires
            old(self).wf(),
            0 <= old(self).ip < chunk@.code.len(),
            chunk@.code[old(self).ip as int] == 12u8,
        ensures
            final(self).wf(),
            match r {
                StepOutcome::KeepGoing => vm_step(chunk@, old(self)@) == StepR::Next(final(self)@)
                    && final(self).runtime_message == old(self).runtime_message,
                StepOutcome::Halted => false,
                StepOutcome::Errored => vm_step(chunk@, old(self)@) matches StepR::Fail(s2, m)
                    && final(self)@ == s2 && (final(self).runtime_message matches Some(v) && v@
                    == m),
            },
    {
        let _n = chunk.code.len();
        if self.stack.len() < 2 {
            return self.fail_with(invalid_bytecode_vec());
        }
        let b = self.pop_value();
        let a = self.pop_value();
        self.stack.push(Value::new_bool(a.values_equal(&b)));
        self.ip = self.ip + 1;
        StepOutcome::KeepGoing
    }

    /// PRINT: pops the top value and appends it to the output.
    fn print_op(&mut self, chunk: &Chunk) -> (r: StepOutcome)
        requires
            old(self).wf(),
            0 <= old(self).ip < chunk@.code.len(),
            chunk@.code[old(self).ip as int] == 15u8,
        ensures
            final(self).wf(),
            match r {
                StepOutcome::KeepGoing => vm_step(chunk@, old(self)@) == StepR::Next(final(self)@)
                    && final(self).runtime_message == old(self).runtime_message,
                StepOutcome::Halted => false,
                StepOutcome::Errored => vm_step(chunk@, old(self)@) matches StepR::Fail(s2, m)
                    && final(self)@ == s2 && (final(self).runtime_message matches Some(v) && v@
                    == m),
            },
    {
        let _n = chunk.code.len();
        if self.stack.len() < 1 {
            return self.fail_with(invalid_bytecode_vec());
        }
        let v = self.pop_value();
        let ghost vv = v@;
        self.output.push(v);
        proof {
            assert(self.output@.map_values(|x: Value| x@) =~= old(self).output@.map_values(
                |x: Value| x@,
            ).push(vv));
        }
        self.ip = self.ip + 1;
        StepOutcome::KeepGoing
    }

    /// POP: discards the top value.
    fn pop_op(&mut self, chunk: &Chunk) -> (r: StepOutcome)
        requires
            old(self).wf(),
            0 <= old(self).ip < chunk@.code.len(),
            chunk@.code[old(self).ip as int] == 16u8,
        ensures
            final(self).wf(),
            match r {
                StepOutcome::KeepGoing => vm_step(chunk@, old(self)@) == StepR::Next(final(self)@)
                    && final(self).runtime_message == old(self).runtime_message,
                StepOutcome::Halted => false,
                StepOutcome::Errored => vm_step(chunk@, old(self)@) matches StepR::Fail(s2, m)
                    && final(self)@ == s2 && (final(self).runtime_message matches Some(v) && v@
                    == m),
            },
    {
        let _n = chunk.code.len();
        if self.stack.len() < 1 {
            return self.fail_with(invalid_bytecode_vec());
        }
        let _ = self.pop_value();
        self.ip = self.ip + 1;
        StepOutcome::KeepGoing
    }

    /// GET_LOCAL and GET_LOCAL_LONG: push the value of an absolute stack
    /// slot.
    fn get_local(&mut self, chunk: &Chunk, long: bool) -> (r: StepOutcome)
        requires
            old(self).wf(),
            0 <= old(self).ip < chunk@.code.len(),
            chunk@.code[old(self).ip as int] == (if long {
                24u8
            } else {
                23u8
            }),
        ensures
            final(self).wf(),
            match r {
                StepOutcome::KeepGoing => vm_step(chunk@, old(self)@) == StepR::Next(final(self)@)
                    && final(self).runtime_message == old(self).runtime_message,
                StepOutcome::Halted => false,
                StepOutcome::Errored => vm_step(chunk@, old(self)@) matches StepR::Fail(s2, m)
                    && final(self)@ == s2 && (final(self).runtime_message matches Some(v) && v@
                    == m),
            },
    {
        let n = chunk.code.len();
        let width: usize = if long {
            4
        } else {
            2
        };
        if n - self.ip < width {
            return self.fail_with(invalid_bytecode_vec());
        }
        let slot = if long {
            read_u24_le(
                chunk.code[self.ip + 1],
                chunk.code[self.ip + 2],
                chunk.code[self.ip + 3],
            ) as usize
        } else {
            chunk.code[self.ip + 1] as usize
        };
        if slot >= self.stack.len() {
            return self.fail_with(invalid_bytecode_vec());
        }
        let v = self.stack.get_at(slot).clone();
        self.stack.push(v);
        self.ip = self.ip + width;
        StepOutcome::KeepGoing
    }

    /// SET_LOCAL and SET_LOCAL_LONG: write the top value into an absolute
    /// stack slot, leaving the top in place.
    fn set_local(&mut self, chunk: &Chunk, long: bool) -> (r: StepOutcome)
        requires
            old(self).wf(),
            0 <= old(self).ip < chunk@.code.len(),
            chunk@.code[old(self).ip as int] == (if long {
                26u8
            } else {
                25u8
            }),
        ensures
            final(self).wf(),
            match r {
                StepOutcome::KeepGoing => vm_step(chunk@, old(self)@) == StepR::Next(final(self)@)
                    && final(self).runtime_message == old(self).runtime_message,
                StepOutcome::Halted => false,
                StepOutcome::Errored => vm_step(chunk@, old(self)@) matches StepR::Fail(s2, m)
                    && final(self)@ == s2 && (final(self).runtime_message matches Some(v) && v@
                    == m),
            },
    {
        let n = chunk.code.len();
        let width: usize = if long {
            4
        } else {
            2
        };
        if n - self.ip < width {
            return self.fail_with(invalid_bytecode_vec());
        }
        let slot = if long {
            read_u24_le(
                chunk.code[self.ip + 1],
                chunk.code[self.ip + 2],
                chunk.code[self.ip + 3],
            ) as usize
        } else {
            chunk.code[self.ip + 1] as usize
        };
        if slot >= self.stack.len() {
            return self.fail_with(invalid_bytecode_vec());
        }
        let top = self.peek(0).clone();
        self.stack.set_at(slot, top);
        self.ip = self.ip + width;
        StepOutcome::KeepGoing
    }

    /// JUMP_IF_FALSE, JUMP and LOOP: adjust the instruction pointer by a
    /// 16-bit big-endian distance.
    fn jump_op(&mut self, chunk: &Chunk, op: OpCode) -> (r: StepOutcome)
        requires
            old(self).wf(),
            0 <= old(self).ip < chunk@.code.len(),
            op == OpCode::OpJumpIfFalse || op == OpCode::OpJump || op == OpCode::OpLoop,
            chunk@.code[old(self).ip as int] == opcode_num(op),
        ensures
            final(self).wf(),
            match r {
                StepOutcome::KeepGoing => vm_step(chunk@, old(self)@) == StepR::Next(final(self)@)
                    && final(self).runtime_message == old(self).runtime_message,
                StepOutcome::Halted => false,
                StepOutcome::Errored => vm_step(chunk@, old(self)@) matches StepR::Fail(s2, m)
                    && final(self)@ == s2 && (final(self).runtime_message matches Some(v) && v@
                    == m),
            },
    {
        let n = chunk.code.len();
        if n - self.ip < 3 {
            return self.fail_with(invalid_bytecode_vec());
        }
        let offset = read_u16_be(chunk.code[self.ip + 1], chunk.code[self.ip + 2]) as usize;
        match op {
            OpCode::OpJumpIfFalse => {
                if self.stack.len() < 1 {
                    return self.fail_with(invalid_bytecode_vec());
                }
                if self.peek(0).is_falsey() {
                    if offset > n - self.ip - 3 {
                        return self.fail_with(invalid_bytecode_vec());
                    }
                    self.ip = self.ip + 3 + offset;
                } else {
                    self.ip = self.ip + 3;
                }
            },
            OpCode::OpJump => {
                if offset > n - self.ip - 3 {
                    return self.fail_with(invalid_bytecode_vec());
                }
                self.ip = self.ip + 3 + offset;
            },
            _ => {
                if offset > self.ip + 3 {
                    return self.fail_with(invalid_bytecode_vec());
                }
                self.ip = self.ip + 3 - offset;
            },
        }
        StepOutcome::KeepGoing
    }

    /// One binary arithmetic or comparison instruction other than ADD:
    /// type-checks the two operands and applies the operation.
    fn arith(&mut self, chunk: &Chunk, op: OpCode) -> (r: StepOutcome)
        requires
            old(self).wf(),
            0 <= old(self).ip < chunk@.code.len(),
            chunk@.code[old(self).ip as int] == opcode_num(op),
            op == OpCode::OpSubtract || op == OpCode::OpMultiply || op == OpCode::OpDivide || op
                == OpCode::OpGreater || op == OpCode::OpLess,
        ensures
            final(self).wf(),
            match r {
                StepOutcome::KeepGoing => vm_step(chunk@, old(self)@) == StepR::Next(final(self)@)
                    && final(self).runtime_message == old(self).runtime_message,
                StepOutcome::Halted => false,
                StepOutcome::Errored => vm_step(chunk@, old(self)@) matches StepR::Fail(s2, m)
                    && final(self)@ == s2 && (final(self).runtime_message matches Some(v) && v@
                    == m),
            },
    {
        let _n = chunk.code.len();
        if self.stack.len() < 2 {
            return self.fail_with(invalid_bytecode_vec());
        }
        if !self.peek(0).is_number() || !self.peek(1).is_number() {
            return self.fail_with(operands_numbers_vec());
        }
        if op == OpCode::OpDivide {
            let d = self.peek(0).as_number();
            if d == 0 {
                return self.fail_with(division_by_zero_vec());
            }
        }
        self.binary_op(op);
        self.ip = self.ip + 1;
        StepOutcome::KeepGoing
    }

    /// DEFINE_GLOBAL: binds the name held by the operand constant to the
    /// top of the stack, then pops it.
    fn define_global(&mut self, chunk: &Chunk, long: bool) -> (r: StepOutcome)
        requires
            old(self).wf(),
            0 <= old(self).ip < chunk@.code.len(),
            chunk@.code[old(self).ip as int] == (if long {
                18u8
            } else {
                17u8
            }),
        ensures
            final(self).wf(),
            match r {
                StepOutcome::KeepGoing => vm_step(chunk@, old(self)@) == StepR::Next(final(self)@)
                    && final(self).runtime_message == old(self).runtime_message,
                StepOutcome::Halted => false,
                StepOutcome::Errored => vm_step(chunk@, old(self)@) matches StepR::Fail(s2, m)
                    && final(self)@ == s2 && (final(self).runtime_message matches Some(v) && v@
                    == m),
            },
    {
        let n = chunk.code.len();
        let width: usize = if long {
            4
        } else {
            2
        };
        if n - self.ip < width {
            return self.fail_with(invalid_bytecode_vec());
        }
        let idx = if long {
            read_u24_le(
                chunk.code[self.ip + 1],
                chunk.code[self.ip + 2],
                chunk.code[self.ip + 3],
            ) as usize
        } else {
            chunk.code[self.ip + 1] as usize
        };
        if idx >= chunk.constants.values.len() {
            return self.fail_with(invalid_bytecode_vec());
        }
        if !chunk.constants.values[idx].is_string() {
            return self.fail_with(invalid_bytecode_vec());
        }
        if self.stack.len() < 1 {
            return self.fail_with(invalid_bytecode_vec());
        }
        let name = chunk.constants.values[idx].as_rust_string().clone();
        proof {
            assert(name@ =~= chunk@.constants[idx as int]->Str_0);
        }
        let top = self.peek(0).clone();
        self.globals.insert(name, top);
        let _ = self.pop_value();
        self.ip = self.ip + width;
        StepOutcome::KeepGoing
    }

    /// GET_GLOBAL: pushes the value bound to the name held by the operand
    /// constant, or reports an undefined variable.
    fn get_global(&mut self, chunk: &Chunk, long: bool) -> (r: StepOutcome)
        requires
            old(self).wf(),
            0 <= old(self).ip < chunk@.code.len(),
            chunk@.code[old(self).ip as int] == (if long {
                20u8
            } else {
                19u8
            }),
        ensures
            final(self).wf(),
            match r {
                StepOutcome::KeepGoing => vm_step(chunk@, old(self)@) == StepR::Next(final(self)@)
                    && final(self).runtime_message == old(self).runtime_message,
                StepOutcome::Halted => false,
                StepOutcome::Errored => vm_step(chunk@, old(self)@) matches StepR::Fail(s2, m)
                    && final(self)@ == s2 && (final(self).runtime_message matches Some(v) && v@
                    == m),
            },
    {
        let n = chunk.code.len();
        let width: usize = if long {
            4
        } else {
            2
        };
        if n - self.ip < width {
            return self.fail_with(invalid_bytecode_vec());
        }
        let idx = if long {
            read_u24_le(
                chunk.code[self.ip + 1],
                chunk.code[self.ip + 2],
                chunk.code[self.ip + 3],
            ) as usize
        } else {
            chunk.code[self.ip + 1] as usize
        };
        if idx >= chunk.constants.values.len() {
            return self.fail_with(invalid_bytecode_vec());
        }
        if !chunk.constants.values[idx].is_string() {
            return self.fail_with(invalid_bytecode_vec());
        }
        let name = chunk.constants.values[idx].as_rust_string();
        proof {
            assert(name@ == chunk@.constants[idx as int]->Str_0);
        }
        let found = match self.globals.get(name) {
            Some(v) => Some(v.clone()),
            None => None,
        };
        match found {
            Some(v) => {
                self.stack.push(v);
                self.ip = self.ip + width;
                StepOutcome::KeepGoing
            },
            None => {
                let m = undefined_variable_vec(name);
                self.fail_with(m)
            },
        }
    }

    /// SET_GLOBAL: rebinds an existing name to the top of the stack; the
    /// value stays on the stack, since assignment is an expression.
    fn set_global(&mut self, chunk: &Chunk, long: bool) -> (r: StepOutcome)
        requires
            old(self).wf(),
            0 <= old(self).ip < chunk@.code.len(),
            chunk@.code[old(self).ip as int] == (if long {
                22u8
            } else {
                21u8
            }),
        ensures
            final(self).wf(),
            match r {
                StepOutcome::KeepGoing => vm_step(chunk@, old(self)@) == StepR::Next(final(self)@)
                    && final(self).runtime_message == old(self).runtime_message,
                StepOutcome::Halted => false,
                StepOutcome::Errored => vm_step(chunk@, old(self)@) matches StepR::Fail(s2, m)
                    && final(self)@ == s2 && (final(self).runtime_message matches Some(v) && v@
                    == m),
            },
    {
        let n = chunk.code.len();
        let width: usize = if long {
            4
        } else {
            2
        };
        if n - self.ip < width {
            return self.fail_with(invalid_bytecode_vec());
        }
        let idx = if long {
            read_u24_le(
                chunk.code[self.ip + 1],
                chunk.code[self.ip + 2],
                chunk.code[self.ip + 3],
            ) as usize
        } else {
            chunk.code[self.ip + 1] as usize
        };
        if idx >= chunk.constants.values.len() {
            return self.fail_with(invalid_bytecode_vec());
        }
        if !chunk.constants.values[idx].is_string() {
            return self.fail_with(invalid_bytecode_vec());
        }
        if self.stack.len() < 1 {
            return self.fail_with(invalid_bytecode_vec());
        }
        let name = chunk.constants.values[idx].as_rust_string();
        proof {
            assert(name@ == chunk@.constants[idx as int]->Str_0);
        }
        if !self.globals.contains(name) {
            let m = undefined_variable_vec(name);
            return self.fail_with(m);
        }
        let owned = name.clone();
        proof {
            assert(owned@ =~= name@);
        }
        let top = self.peek(0).clone();
        self.globals.insert(owned, top);
        self.ip = self.ip + width;
        StepOutcome::KeepGoing
    }

    /// Executes the chunk from the machine's current state, one
    /// [`vm_step`] transition at a time, for at most `fuel` steps: the
    /// outcome and the final machine are exactly those of [`run_steps`].
    pub fn run(&mut self, chunk: &Chunk, fuel: u64) -> (r: RunResult)
        requires
            old(self).wf(),
        ensures
            final(self).wf(),
            match run_steps(chunk@, old(self)@, fuel as nat) {
                RunOutcome::Halted(s2) => r == RunResult::Okay && final(self)@ == s2 && final(self).runtime_message == old(self).runtime_message,
                RunOutcome::Failed(s2, m) => r == RunResult::RuntimeError && final(self)@ == s2 && (
                final(self).runtime_message matches Some(v) && v@ == m),
                RunOutcome::Exhausted(s2) => r == RunResult::RuntimeError && final(self)@ == s2 && (
                final(self).runtime_message matches Some(v) && v@ == msg_budget_exhausted()),
            },
    {
        let mut remaining: u64 = fuel;
        loop
            invariant
                self.wf(),
                remaining <= fuel,
                run_steps(chunk@, old(self)@, fuel as nat) == run_steps(
                    chunk@,
                    self@,
                    remaining as nat,
                ),
                self.runtime_message == old(self).runtime_message,
            decreases remaining,
        {
            if remaining == 0 {
                let m = budget_exhausted_vec();
                self.runtime_message = Some(m);
                return RunResult::RuntimeError;
            }
            let ghost pre = self@;
            let ghost rem0 = remaining;
            remaining = remaining - 1;
            let outcome = self.step(chunk);
            match outcome {
                StepOutcome::KeepGoing => {
                    proof {
                        assert(run_steps(chunk@, pre, rem0 as nat) == run_steps(
                            chunk@,
                            self@,
                            remaining as nat,
                        ));
                    }
                },
                StepOutcome::Halted => {
                    proof {
                        assert(run_steps(chunk@, pre, rem0 as nat) == RunOutcome::Halted(self@));
                    }
                    return RunResult::Okay;
                },
                StepOutcome::Errored => {
                    proof {
                        assert(run_steps(chunk@, pre, rem0 as nat) matches RunOutcome::Failed(s2, m)
                            && s2 == self@);
                    }
                    return RunResult::RuntimeError;
                },
            }
        }
    }
}

/// Runs a chunk on a fresh machine with a practically inexhaustible step
/// budget and reports how the run ended.
pub fn run(chunk: &Chunk) -> (r: RunResult)
    ensures
        match run_steps(chunk@, init_state(), u64::MAX as nat) {
            RunOutcome::Halted(s2) => r == RunResult::Okay,
            RunOutcome::Failed(s2, m) => r == RunResult::RuntimeError,
            RunOutcome::Exhausted(s2) => r == RunResult::RuntimeError,
        },
{
    let mut vm = VM::new();
    vm.run(chunk, u64::MAX)
}


/// Compiles and runs `source` on a fresh machine: a compile error when
/// [`crate::compiler::compile`] reports errors, otherwise the outcome of
/// [`VM::run`] on the compiled chunk. Callers that need the printed
/// output or the error details call those two directly; this function's
/// own contract pins only what theirs compose to at its boundary, such
/// as the empty program succeeding.
pub fn interpret(source: Vec<u8>) -> (r: InterpretResult)
    requires
        source@.len() < 0x7fff_0000,
    ensures
        source@.len() == 0 ==> r == InterpretResult::Okay,
{
    let ghost was_empty = source@.len() == 0;
    match crate::compiler::compile(source) {
        Err(_) => InterpretResult::CompileError,
        Ok(chunk) => {
            let mut vm = VM::new();
            proof {
                if was_empty {
                    assert(chunk@.code[0] == 0);
                    assert(vm_step(chunk@, init_state()) matches StepR::Halt(s2));
                    assert(run_steps(chunk@, init_state(), u64::MAX as nat) is Halted);
                }
            }
            match vm.run(&chunk, u64::MAX) {
                RunResult::Okay => InterpretResult::Okay,
                _ => InterpretResult::RuntimeError,
            }
        },
    }
}

} // verus!
