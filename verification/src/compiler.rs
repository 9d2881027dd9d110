//! The single-pass compiler: a Pratt parser that drives the scanner and
//! emits bytecode into a chunk as it goes, resolving lexical scopes and
//! patching control-flow jumps.
//!
//! Errors are collected, not printed: each one records the offending
//! token and a message, and the caller renders them. After the first
//! error in a statement the parser enters panic mode, suppresses further
//! errors, and resynchronizes at the next statement boundary.
//!
//! Parsing is guarded by a fuel argument on every recursive production,
//! bounded by the remaining source length: the grammar consumes at least
//! one byte before it nests, so well-formed input can never run out; the
//! guard turns a hypothetical runaway recursion into a compile error.
//!
//! Chosen limits: a constant pool holds at most `2^24` entries and a
//! function at most `2^24` locals (the widths of the long operand forms),
//! and a single jump spans at most `65535` bytes of code (the width of
//! the jump operand); exceeding any of them is a compile error.

use vstd::prelude::*;

use crate::chunk::Chunk;
use crate::chunk::be16;
use crate::chunk::boundary_from;
use crate::chunk::code_evolves;
use crate::chunk::decodes_from;
use crate::chunk::instruction_width;
use crate::chunk::lemma_append_instruction;
use crate::chunk::lemma_patch_operands;
use crate::common::OpCode;
use crate::common::Precedence;
use crate::common::TokenType;
use crate::common::opcode_num;
use crate::common::opcode_to_u8;
use crate::common::precedence_from_u8;
use crate::common::precedence_num;
use crate::common::precedence_to_u8;
use crate::scanner::Scanner;
use crate::scanner::Token;
use crate::value::AbsValue;
use crate::value::Value;

verus! {

/// One reported compile error: the token it points at and the message.
pub struct CompileError {
    pub line: i32,
    pub token_type: TokenType,
    pub lexeme: Vec<u8>,
    pub message: Vec<u8>,
}

/// The numeric value of a run of ASCII digits, most significant first.
pub open spec fn dec_val(s: Seq<u8>) -> int
    decreases s.len(),
{
    if s.len() == 0 {
        0
    } else {
        dec_val(s.drop_last()) * 10 + (s.last() - 48)
    }
}

/// Whether every byte of `s` is an ASCII digit.
pub open spec fn all_digits(s: Seq<u8>) -> bool {
    forall|i: int| 0 <= i < s.len() ==> 48 <= #[trigger] s[i] <= 57
}

/// The value of a digit string grows (weakly) with every digit added, so
/// an overflowing prefix can never recover.
proof fn lemma_dec_val_monotone(s: Seq<u8>, i: int)
    requires
        0 <= i <= s.len(),
        all_digits(s),
    ensures
        dec_val(s.subrange(0, i)) <= dec_val(s),
    decreases s.len() - i,
{
    if i < s.len() {
        let t = s.subrange(0, i + 1);
        assert(t.drop_last() =~= s.subrange(0, i));
        assert(dec_val(s.subrange(0, i)) <= dec_val(t)) by {
            assert(dec_val(t) == dec_val(s.subrange(0, i)) * 10 + (s[i] - 48));
            assert(dec_val(s.subrange(0, i)) >= 0) by {
                lemma_dec_val_nonneg(s.subrange(0, i));
            }
        }
        lemma_dec_val_monotone(s, i + 1);
    } else {
        assert(s.subrange(0, i) =~= s);
    }
}

/// A digit string's value is never negative.
proof fn lemma_dec_val_nonneg(s: Seq<u8>)
    requires
        all_digits(s),
    ensures
        dec_val(s) >= 0,
    decreases s.len(),
{
    if s.len() > 0 {
        assert(all_digits(s.drop_last()));
        lemma_dec_val_nonneg(s.drop_last());
    }
}

/// Parses a number literal as a 64-bit signed integer. Returns the value
/// exactly when the bytes are one or more digits and the value fits;
/// a fractional literal or an overflowing one yields nothing.
pub fn parse_int(s: &Vec<u8>) -> (r: Option<i64>)
    ensures
        match r {
            Some(v) => s@.len() > 0 && all_digits(s@) && v == dec_val(s@),
            None => s@.len() == 0 || !all_digits(s@) || dec_val(s@) > i64::MAX,
        },
{
    if s.len() == 0 {
        return None;
    }
    let mut acc: i64 = 0;
    let mut i: usize = 0;
    while i < s.len()
        invariant
            i <= s@.len(),
            all_digits(s@.subrange(0, i as int)),
            acc == dec_val(s@.subrange(0, i as int)),
            0 <= acc,
        decreases s@.len() - i,
    {
        let c = s[i];
        if c < 48 || c > 57 {
            proof {
                assert(s@[i as int] == c);
            }
            return None;
        }
        let d = (c - 48) as i64;
        let shifted = match acc.checked_mul(10) {
            Some(x) => x,
            None => {
                proof {
                    overflow_means_too_big(s@, i as int);
                }
                return None;
            },
        };
        let next = match shifted.checked_add(d) {
            Some(x) => x,
            None => {
                proof {
                    overflow_means_too_big(s@, i as int);
                }
                return None;
            },
        };
        proof {
            assert(s@.subrange(0, i + 1 as int).drop_last() =~= s@.subrange(0, i as int));
            assert(all_digits(s@.subrange(0, i + 1 as int)));
        }
        acc = next;
        i = i + 1;
    }
    proof {
        assert(s@.subrange(0, s@.len() as int) =~= s@);
    }
    Some(acc)
}

/// When the next digit would push the accumulated value past `i64::MAX`,
/// the whole literal is out of range (or has a non-digit later, which
/// also yields nothing).
proof fn overflow_means_too_big(s: Seq<u8>, i: int)
    requires
        0 <= i < s.len(),
        all_digits(s.subrange(0, i)),
        48 <= s[i] <= 57,
        dec_val(s.subrange(0, i)) * 10 + (s[i] - 48) > i64::MAX,
    ensures
        !all_digits(s) || dec_val(s) > i64::MAX,
{
    if all_digits(s) {
        let t = s.subrange(0, i + 1);
        assert(t.drop_last() =~= s.subrange(0, i));
        assert(dec_val(t) == dec_val(s.subrange(0, i)) * 10 + (s[i] - 48));
        lemma_dec_val_monotone(s, i + 1);
    }
}

/// Which parsing routine a token kind dispatches to in prefix or infix
/// position.
#[derive(Debug, PartialEq, Eq, Copy, Clone, Structural)]
pub enum ParseFn {
    NoRule,
    Grouping,
    Unary,
    Binary,
    Number,
    Str,
    Variable,
    Literal,
    And,
    Or,
}

/// One row of the Pratt table: the prefix routine, the infix routine,
/// and the binding strength of the token as an infix operator.
pub struct ParseRule {
    pub prefix: ParseFn,
    pub infix: ParseFn,
    pub precedence: Precedence,
}

/// A local variable: its name token and the depth of the scope it lives
/// in, with `-1` marking one declared but not yet initialized.
pub struct Local {
    pub name: Token,
    pub depth: i32,
}

/// The compiler's scope state: the stack of live locals and the current
/// scope depth.
pub struct Compiler {
    pub locals: Vec<Local>,
    pub scope_depth: i32,
}

impl Compiler {
    /// At most `2^24` locals (the width of the long slot operand), each
    /// with a depth no deeper than the current scope, and a scope depth
    /// that cannot overflow.
    pub open spec fn wf(&self) -> bool {
        &&& self.locals@.len() <= 0x1000000
        &&& 0 <= self.scope_depth < 0x7fff_0000
    }

    /// A compiler at top level with no locals.
    pub fn new() -> (r: Self)
        ensures
            r.wf(),
            r.locals@.len() == 0,
            r.scope_depth == 0,
    {
        Compiler { scope_depth: 0, locals: Vec::new() }
    }

    /// Appends a local for `name`, marked uninitialized: depth `-1` is
    /// the marker `resolve_local` rejects inside the initializer.
    pub fn add_local(&mut self, name: &Token)
        requires
            old(self).wf(),
            old(self).locals@.len() < 0x1000000,
        ensures
            final(self).wf(),
            final(self).locals@ == old(self).locals@.push(final(self).locals@.last()),
            final(self).locals@.last().depth == -1,
            token_eq(final(self).locals@.last().name, *name),
            final(self).scope_depth == old(self).scope_depth,
    {
        let local = Local { name: name.clone(), depth: -1 };
        self.locals.push(local);
        proof {
            assert(self.locals@ =~= old(self).locals@.push(self.locals@.last()));
        }
    }

    /// The local in slot `index`.
    pub fn local_at(&self, index: usize) -> (r: &Local)
        requires
            index < self.locals@.len(),
        ensures
            r == self.locals@[index as int],
    {
        &self.locals[index]
    }

    /// Overwrites the recorded depth of the local in slot `index`,
    /// keeping its name and every other local.
    pub fn update_local_depth_at(&mut self, index: usize, depth: i32)
        requires
            old(self).wf(),
            index < old(self).locals@.len(),
        ensures
            final(self).wf(),
            final(self).locals@.len() == old(self).locals@.len(),
            final(self).locals@[index as int].depth == depth,
            token_eq(
                final(self).locals@[index as int].name,
                old(self).locals@[index as int].name,
            ),
            forall|j: int|
                0 <= j < old(self).locals@.len() && j != index ==> final(self).locals@[j] == old(self).locals@[j],
            final(self).scope_depth == old(self).scope_depth,
    {
        let name = self.locals[index].name.clone();
        self.locals[index] = Local { name, depth };
    }
}

/// Whether a local already belongs to an enclosing scope: initialized,
/// at a depth shallower than the current one. Scanning for a duplicate
/// name stops at the first such local.
pub open spec fn outer_local(local: Local, depth: int) -> bool {
    local.depth != -1 && local.depth < depth
}

/// The slot where the current scope begins: just above the innermost
/// local of an enclosing scope. The locals from here up are the ones a
/// new declaration may clash with.
pub open spec fn current_scope_start(locals: Seq<Local>, depth: int) -> int
    decreases locals.len(),
{
    if locals.len() == 0 {
        0
    } else if outer_local(locals.last(), depth) {
        locals.len() as int
    } else {
        current_scope_start(locals.drop_last(), depth)
    }
}

/// Whether some local of the current scope already bears the name.
pub open spec fn name_in_current_scope(locals: Seq<Local>, depth: int, name: Seq<u8>) -> bool {
    exists|j: int|
        current_scope_start(locals, depth) <= j < locals.len() && (
        #[trigger] locals[j]).name.lexeme@ == name
}

/// The scope start is the slot above the topmost enclosing-scope local:
/// pinned by a run of non-enclosing locals down to such a local (or to
/// the bottom of the table).
proof fn lemma_scope_start_at(locals: Seq<Local>, depth: int, i: int)
    requires
        0 <= i <= locals.len(),
        forall|j: int| i <= j < locals.len() ==> !outer_local(#[trigger] locals[j], depth),
        i == 0 || outer_local(locals[i - 1], depth),
    ensures
        current_scope_start(locals, depth) == i,
    decreases locals.len(),
{
    if locals.len() > 0 {
        if outer_local(locals.last(), depth) {
            assert(i == locals.len());
        } else {
            lemma_scope_start_at(locals.drop_last(), depth, i);
        }
    }
}

/// The scope start lies at or below any run of non-enclosing locals.
proof fn lemma_scope_start_below(locals: Seq<Local>, depth: int, i: int)
    requires
        0 <= i <= locals.len(),
        forall|j: int| i <= j < locals.len() ==> !outer_local(#[trigger] locals[j], depth),
    ensures
        current_scope_start(locals, depth) <= i,
    decreases locals.len(),
{
    if locals.len() > 0 && !outer_local(locals.last(), depth) {
        if i < locals.len() {
            lemma_scope_start_below(locals.drop_last(), depth, i);
        } else {
            lemma_scope_start_below(locals.drop_last(), depth, locals.len() - 1);
        }
    }
}

/// The Pratt table of the grammar, stated as a map from token kind to
/// row: which routine parses the kind in prefix position, which in infix
/// position, and how tightly it binds as an infix operator.
pub open spec fn parse_rule_of(token_type: TokenType) -> ParseRule {
    match token_type {
        TokenType::TokenLeftParen => ParseRule {
            prefix: ParseFn::Grouping,
            infix: ParseFn::NoRule,
            precedence: Precedence::Lowest,
        },
        TokenType::TokenMinus => ParseRule {
            prefix: ParseFn::Unary,
            infix: ParseFn::Binary,
            precedence: Precedence::Term,
        },
        TokenType::TokenPlus => ParseRule {
            prefix: ParseFn::NoRule,
            infix: ParseFn::Binary,
            precedence: Precedence::Term,
        },
        TokenType::TokenSlash => ParseRule {
            prefix: ParseFn::NoRule,
            infix: ParseFn::Binary,
            precedence: Precedence::Factor,
        },
        TokenType::TokenStar => ParseRule {
            prefix: ParseFn::NoRule,
            infix: ParseFn::Binary,
            precedence: Precedence::Factor,
        },
        TokenType::TokenBang => ParseRule {
            prefix: ParseFn::Unary,
            infix: ParseFn::NoRule,
            precedence: Precedence::Lowest,
        },
        TokenType::TokenBangEqual => ParseRule {
            prefix: ParseFn::NoRule,
            infix: ParseFn::Binary,
            precedence: Precedence::Equality,
        },
        TokenType::TokenEqualEqual => ParseRule {
            prefix: ParseFn::NoRule,
            infix: ParseFn::Binary,
            precedence: Precedence::Equality,
        },
        TokenType::TokenGreater => ParseRule {
            prefix: ParseFn::NoRule,
            infix: ParseFn::Binary,
            precedence: Precedence::Comparison,
        },
        TokenType::TokenGreaterEqual => ParseRule {
            prefix: ParseFn::NoRule,
            infix: ParseFn::Binary,
            precedence: Precedence::Comparison,
        },
        TokenType::TokenLess => ParseRule {
            prefix: ParseFn::NoRule,
            infix: ParseFn::Binary,
            precedence: Precedence::Comparison,
        },
        TokenType::TokenLessEqual => ParseRule {
            prefix: ParseFn::NoRule,
            infix: ParseFn::Binary,
            precedence: Precedence::Comparison,
        },
        TokenType::TokenIdentifier => ParseRule {
            prefix: ParseFn::Variable,
            infix: ParseFn::NoRule,
            precedence: Precedence::Lowest,
        },
        TokenType::TokenString => ParseRule {
            prefix: ParseFn::Str,
            infix: ParseFn::NoRule,
            precedence: Precedence::Lowest,
        },
        TokenType::TokenNumber => ParseRule {
            prefix: ParseFn::Number,
            infix: ParseFn::NoRule,
            precedence: Precedence::Lowest,
        },
        TokenType::TokenFalse => ParseRule {
            prefix: ParseFn::Literal,
            infix: ParseFn::NoRule,
            precedence: Precedence::Lowest,
        },
        TokenType::TokenTrue => ParseRule {
            prefix: ParseFn::Literal,
            infix: ParseFn::NoRule,
            precedence: Precedence::Lowest,
        },
        TokenType::TokenNil => ParseRule {
            prefix: ParseFn::Literal,
            infix: ParseFn::NoRule,
            precedence: Precedence::Lowest,
        },
        TokenType::TokenAnd => ParseRule {
            prefix: ParseFn::NoRule,
            infix: ParseFn::And,
            precedence: Precedence::And,
        },
        TokenType::TokenOr => ParseRule {
            prefix: ParseFn::NoRule,
            infix: ParseFn::Or,
            precedence: Precedence::Or,
        },
        _ => ParseRule {
            prefix: ParseFn::NoRule,
            infix: ParseFn::NoRule,
            precedence: Precedence::Lowest,
        },
    }
}

/// The Pratt table row for a token kind: exactly [`parse_rule_of`].
pub fn get_rule(token_type: TokenType) -> (r: ParseRule)
    ensures
        r == parse_rule_of(token_type),
        precedence_num(r.precedence) < 10,
{
    match token_type {
        TokenType::TokenLeftParen => ParseRule {
            prefix: ParseFn::Grouping,
            infix: ParseFn::NoRule,
            precedence: Precedence::Lowest,
        },
        TokenType::TokenMinus => ParseRule {
            prefix: ParseFn::Unary,
            infix: ParseFn::Binary,
            precedence: Precedence::Term,
        },
        TokenType::TokenPlus => ParseRule {
            prefix: ParseFn::NoRule,
            infix: ParseFn::Binary,
            precedence: Precedence::Term,
        },
        TokenType::TokenSlash => ParseRule {
            prefix: ParseFn::NoRule,
            infix: ParseFn::Binary,
            precedence: Precedence::Factor,
        },
        TokenType::TokenStar => ParseRule {
            prefix: ParseFn::NoRule,
            infix: ParseFn::Binary,
            precedence: Precedence::Factor,
        },
        TokenType::TokenBang => ParseRule {
            prefix: ParseFn::Unary,
            infix: ParseFn::NoRule,
            precedence: Precedence::Lowest,
        },
        TokenType::TokenBangEqual => ParseRule {
            prefix: ParseFn::NoRule,
            infix: ParseFn::Binary,
            precedence: Precedence::Equality,
        },
        TokenType::TokenEqualEqual => ParseRule {
            prefix: ParseFn::NoRule,
            infix: ParseFn::Binary,
            precedence: Precedence::Equality,
        },
        TokenType::TokenGreater => ParseRule {
            prefix: ParseFn::NoRule,
            infix: ParseFn::Binary,
            precedence: Precedence::Comparison,
        },
        TokenType::TokenGreaterEqual => ParseRule {
            prefix: ParseFn::NoRule,
            infix: ParseFn::Binary,
            precedence: Precedence::Comparison,
        },
        TokenType::TokenLess => ParseRule {
            prefix: ParseFn::NoRule,
            infix: ParseFn::Binary,
            precedence: Precedence::Comparison,
        },
        TokenType::TokenLessEqual => ParseRule {
            prefix: ParseFn::NoRule,
            infix: ParseFn::Binary,
            precedence: Precedence::Comparison,
        },
        TokenType::TokenIdentifier => ParseRule {
            prefix: ParseFn::Variable,
            infix: ParseFn::NoRule,
            precedence: Precedence::Lowest,
        },
        TokenType::TokenString => ParseRule {
            prefix: ParseFn::Str,
            infix: ParseFn::NoRule,
            precedence: Precedence::Lowest,
        },
        TokenType::TokenNumber => ParseRule {
            prefix: ParseFn::Number,
            infix: ParseFn::NoRule,
            precedence: Precedence::Lowest,
        },
        TokenType::TokenFalse => ParseRule {
            prefix: ParseFn::Literal,
            infix: ParseFn::NoRule,
            precedence: Precedence::Lowest,
        },
        TokenType::TokenTrue => ParseRule {
            prefix: ParseFn::Literal,
            infix: ParseFn::NoRule,
            precedence: Precedence::Lowest,
        },
        TokenType::TokenNil => ParseRule {
            prefix: ParseFn::Literal,
            infix: ParseFn::NoRule,
            precedence: Precedence::Lowest,
        },
        TokenType::TokenAnd => ParseRule {
            prefix: ParseFn::NoRule,
            infix: ParseFn::And,
            precedence: Precedence::And,
        },
        TokenType::TokenOr => ParseRule {
            prefix: ParseFn::NoRule,
            infix: ParseFn::Or,
            precedence: Precedence::Or,
        },
        _ => ParseRule {
            prefix: ParseFn::NoRule,
            infix: ParseFn::NoRule,
            precedence: Precedence::Lowest,
        },
    }
}

/// The bytes of an instruction carrying a pool or slot index: the short
/// two-byte form for an index below 256, the long form with a 24-bit
/// little-endian operand otherwise.
pub open spec fn indexed_encoding(short_op: OpCode, long_op: OpCode, arg: int) -> Seq<u8> {
    if arg < 256 {
        seq![opcode_num(short_op), arg as u8]
    } else {
        seq![
            opcode_num(long_op),
            (arg % 256) as u8,
            ((arg / 256) % 256) as u8,
            ((arg / 65536) % 256) as u8,
        ]
    }
}

/// The instruction bytes a binary operator token compiles to, emitted
/// after both operands: one opcode for most operators, and the
/// complemented pairs for `!=`, `>=` and `<=`.
pub open spec fn binary_operator_bytes(operator: TokenType) -> Seq<u8> {
    match operator {
        TokenType::TokenBangEqual => seq![opcode_num(OpCode::OpEqual), opcode_num(OpCode::OpNot)],
        TokenType::TokenEqualEqual => seq![opcode_num(OpCode::OpEqual)],
        TokenType::TokenGreater => seq![opcode_num(OpCode::OpGreater)],
        TokenType::TokenGreaterEqual => seq![opcode_num(OpCode::OpLess), opcode_num(OpCode::OpNot)],
        TokenType::TokenLess => seq![opcode_num(OpCode::OpLess)],
        TokenType::TokenLessEqual => seq![opcode_num(OpCode::OpGreater), opcode_num(OpCode::OpNot)],
        TokenType::TokenPlus => seq![opcode_num(OpCode::OpAdd)],
        TokenType::TokenMinus => seq![opcode_num(OpCode::OpSubtract)],
        TokenType::TokenStar => seq![opcode_num(OpCode::OpMultiply)],
        TokenType::TokenSlash => seq![opcode_num(OpCode::OpDivide)],
        _ => Seq::empty(),
    }
}

/// Whether two tokens carry the same kind, text and line.
pub open spec fn token_eq(a: Token, b: Token) -> bool {
    a.token_type == b.token_type && a.lexeme@ == b.lexeme@ && a.line == b.line
}

/// The parser: the scanner it drives, the chunk it emits into, the scope
/// state, the two-token lookahead window, and the errors seen so far.
pub struct Parser {
    pub current: Token,
    pub previous: Token,
    pub had_error: bool,
    pub panic_mode: bool,
    pub scanner: Scanner,
    pub chunk: Chunk,
    pub current_compiler: Compiler,
    pub errors: Vec<CompileError>,
}

/// What every parsing step preserves: well-formedness, the source text,
/// the scope depth, that code only grows, that the scanner only moves
/// forward, and that errors are never forgotten.
pub open spec fn parse_post(pre: Parser, post: Parser) -> bool {
    &&& post.wf()
    &&& post.scanner.source@ == pre.scanner.source@
    &&& post.scanner.current >= pre.scanner.current
    &&& post.chunk@.code.len() >= pre.chunk@.code.len()
    &&& code_evolves(pre.chunk@.code, post.chunk@.code)
    &&& post.chunk@.constants.len() >= pre.chunk@.constants.len()
    &&& (forall|i: int|
        0 <= i < pre.chunk@.constants.len() ==> post.chunk@.constants[i]
            == #[trigger] pre.chunk@.constants[i])
    &&& (pre.had_error ==> post.had_error)
}

impl Parser {
    /// The scanner, chunk and scope state are each well-formed, panic
    /// mode implies an error was recorded, and every recorded error is
    /// witnessed in the error list.
    pub open spec fn wf(&self) -> bool {
        &&& self.scanner.wf()
        &&& self.chunk.wf()
        &&& self.current_compiler.wf()
        &&& (self.had_error <==> self.errors@.len() >= 1)
        &&& (self.panic_mode ==> self.had_error)
    }

    /// A parser over `scanner` emitting into `chunk`.
    pub fn new(scanner: Scanner, chunk: Chunk) -> (r: Self)
        requires
            scanner.wf(),
            chunk.wf(),
        ensures
            r.wf(),
            r.scanner == scanner,
            r.chunk == chunk,
            !r.had_error,
            !r.panic_mode,
            r.errors@.len() == 0,
            r.current_compiler.scope_depth == 0,
            r.current_compiler.locals@.len() == 0,
            r.current.token_type == TokenType::Unknown,
            r.previous.token_type == TokenType::Unknown,
    {
        Parser {
            current: Token {
                token_type: TokenType::Unknown,
                lexeme: Vec::new(),
                line: -1,
            },
            previous: Token {
                token_type: TokenType::Unknown,
                lexeme: Vec::new(),
                line: -1,
            },
            had_error: false,
            panic_mode: false,
            scanner,
            chunk,
            current_compiler: Compiler::new(),
            errors: Vec::new(),
        }
    }

    /// Records an error at `token` and enters panic mode; in panic mode
    /// further errors are suppressed.
    fn error_at(&mut self, token: Token, message: &[u8])
        requires
            old(self).wf(),
            decodes_from(old(self).chunk@.code, 0),
        ensures
            parse_post(*old(self), *final(self)),
            final(self).had_error || !old(self).panic_mode,
            final(self).had_error,
            final(self).scanner == old(self).scanner,
            final(self).chunk == old(self).chunk,
            final(self).current_compiler == old(self).current_compiler,
            final(self).current == old(self).current,
            final(self).previous == old(self).previous,
    {
        if self.panic_mode {
            return ;
        }
        self.panic_mode = true;
        self.errors.push(
            CompileError {
                line: token.line,
                token_type: token.token_type,
                lexeme: token.lexeme,
                message: vstd::slice::slice_to_vec(message),
            },
        );
        self.had_error = true;
    }

    /// Records an error at the token just consumed.
    fn error(&mut self, message: &[u8])
        requires
            old(self).wf(),
            decodes_from(old(self).chunk@.code, 0),
        ensures
            parse_post(*old(self), *final(self)),
            final(self).had_error,
            final(self).scanner == old(self).scanner,
            final(self).chunk == old(self).chunk,
            final(self).current_compiler == old(self).current_compiler,
            final(self).current == old(self).current,
            final(self).previous == old(self).previous,
    {
        let token = self.previous.clone();
        self.error_at(token, message);
    }

    /// Records an error at the lookahead token.
    fn error_at_current(&mut self, message: &[u8])
        requires
            old(self).wf(),
            decodes_from(old(self).chunk@.code, 0),
        ensures
            parse_post(*old(self), *final(self)),
            final(self).had_error,
            final(self).scanner == old(self).scanner,
            final(self).chunk == old(self).chunk,
            final(self).current_compiler == old(self).current_compiler,
            final(self).current == old(self).current,
            final(self).previous == old(self).previous,
    {
        let token = self.current.clone();
        self.error_at(token, message);
    }

    /// Shifts the lookahead window one token: the old lookahead becomes
    /// the consumed token, and error tokens are reported and skipped.
    fn advance(&mut self)
        requires
            old(self).wf(),
            decodes_from(old(self).chunk@.code, 0),
        ensures
            parse_post(*old(self), *final(self)),
            final(self).chunk == old(self).chunk,
            final(self).current_compiler == old(self).current_compiler,
            token_eq(final(self).previous, old(self).current),
            final(self).current.token_type != TokenType::TokenError,
            final(self).scanner.current > old(self).scanner.current || final(self).current.token_type == TokenType::TokenEof,
            old(self).scanner.current == old(self).scanner.source@.len() ==> final(self).current.token_type == TokenType::TokenEof && final(self).had_error == old(self).had_error && final(self).errors@ == old(self).errors@ && final(self).panic_mode
                == old(self).panic_mode && final(self).scanner.current == old(self).scanner.current,
    {
        self.previous = self.current.clone();

        loop
            invariant
                self.wf(),
                decodes_from(old(self).chunk@.code, 0),
                self.scanner.source@ == old(self).scanner.source@,
                self.scanner.current >= old(self).scanner.current,
                self.chunk == old(self).chunk,
                self.current_compiler == old(self).current_compiler,
                token_eq(self.previous, old(self).current),
                old(self).had_error ==> self.had_error,
                old(self).scanner.current == old(self).scanner.source@.len() ==> self.had_error
                    == old(self).had_error && self.errors@ == old(self).errors@
                    && self.panic_mode == old(self).panic_mode && self.scanner.current == old(self).scanner.current,
            ensures
                self.current.token_type != TokenType::TokenError,
                self.scanner.current > old(self).scanner.current || self.current.token_type
                    == TokenType::TokenEof,
                old(self).scanner.current == old(self).scanner.source@.len()
                    ==> self.current.token_type == TokenType::TokenEof,
            decreases self.scanner.source@.len() - self.scanner.current,
        {
            let t = self.scanner.scan_token();
            let is_error = t.token_type == TokenType::TokenError;
            self.current = t;
            if !is_error {
                break ;
            }
            let message = self.current.lexeme.clone();
            let token = self.current.clone();
            self.error_at(token, message.as_slice());
        }
    }

    /// Consumes the lookahead when it has the expected kind; otherwise
    /// reports `message` at it.
    fn consume(&mut self, token_type: TokenType, message: &[u8])
        requires
            old(self).wf(),
            decodes_from(old(self).chunk@.code, 0),
        ensures
            parse_post(*old(self), *final(self)),
            final(self).chunk == old(self).chunk,
            final(self).current_compiler == old(self).current_compiler,
    {
        if self.current.token_type == token_type {
            self.advance();
            return ;
        }
        self.error_at_current(message);
    }

    /// Whether the lookahead has the given kind.
    fn check(&self, token_type: TokenType) -> (r: bool)
        ensures
            r == (self.current.token_type == token_type),
    {
        self.current.token_type == token_type
    }

    /// Consumes the lookahead when it has the given kind.
    fn match_token_type(&mut self, token_type: TokenType) -> (r: bool)
        requires
            old(self).wf(),
            decodes_from(old(self).chunk@.code, 0),
        ensures
            parse_post(*old(self), *final(self)),
            final(self).chunk == old(self).chunk,
            final(self).current_compiler == old(self).current_compiler,
            r == (old(self).current.token_type == token_type),
            !r ==> *final(self) == *old(self),
            r ==> token_eq(final(self).previous, old(self).current),
            r && old(self).scanner.current == old(self).scanner.source@.len() ==> final(self).had_error == old(self).had_error && final(self).current.token_type
                == TokenType::TokenEof && final(self).scanner.current == old(self).scanner.current,
            r ==> (final(self).scanner.current > old(self).scanner.current || final(self).current.token_type == TokenType::TokenEof),
    {
        if !self.check(token_type) {
            return false;
        }
        self.advance();
        true
    }

    /// Appends one byte of code, attributed to the line of the token
    /// just consumed. The byte need not be a whole instruction, so the
    /// callers that build one out of several bytes account for the shape
    /// of the code themselves.
    fn emit_byte(&mut self, byte: u8)
        requires
            old(self).wf(),
        ensures
            final(self).wf(),
            final(self).chunk@.code == old(self).chunk@.code.push(byte),
            final(self).chunk@.lines == old(self).chunk@.lines.push(old(self).previous.line),
            final(self).chunk@.constants == old(self).chunk@.constants,
            final(self).scanner == old(self).scanner,
            final(self).current_compiler == old(self).current_compiler,
            final(self).current == old(self).current,
            final(self).previous == old(self).previous,
            final(self).had_error == old(self).had_error,
    {
        let line = self.previous.line;
        self.chunk.write_chunk(byte, line);
    }

    /// Appends an opcode and its one-byte operand.
    fn emit_bytes(&mut self, byte1: u8, byte2: u8)
        requires
            old(self).wf(),
        ensures
            final(self).wf(),
            final(self).chunk@.code == old(self).chunk@.code.push(byte1).push(byte2),
            final(self).chunk@.lines == old(self).chunk@.lines.push(old(self).previous.line).push(
                old(self).previous.line,
            ),
            final(self).chunk@.constants == old(self).chunk@.constants,
            final(self).scanner == old(self).scanner,
            final(self).current_compiler == old(self).current_compiler,
            final(self).current == old(self).current,
            final(self).previous == old(self).previous,
            final(self).had_error == old(self).had_error,
    {
        self.emit_byte(byte1);
        self.emit_byte(byte2);
    }

    /// Emits one single-byte instruction.
    fn emit_op(&mut self, op: OpCode)
        requires
            old(self).wf(),
            decodes_from(old(self).chunk@.code, 0),
            instruction_width(opcode_num(op)) == 1,
        ensures
            parse_post(*old(self), *final(self)),
            final(self).chunk@.code == old(self).chunk@.code.push(opcode_num(op)),
            final(self).chunk@.lines == old(self).chunk@.lines.push(old(self).previous.line),
            final(self).chunk@.constants == old(self).chunk@.constants,
            final(self).scanner == old(self).scanner,
            final(self).current_compiler == old(self).current_compiler,
            final(self).current == old(self).current,
            final(self).previous == old(self).previous,
            final(self).had_error == old(self).had_error,
    {
        self.emit_byte(opcode_to_u8(op));
        proof {
            lemma_append_instruction(old(self).chunk@.code, self.chunk@.code);
        }
    }

    /// Emits a LOOP instruction jumping backwards to `loop_start`: after
    /// the machine reads the operand its instruction pointer is exactly
    /// `loop_start`. A loop body longer than the operand can express is
    /// an error.
    fn emit_loop(&mut self, loop_start: usize)
        requires
            old(self).wf(),
            decodes_from(old(self).chunk@.code, 0),
            loop_start <= old(self).chunk@.code.len(),
        ensures
            parse_post(*old(self), *final(self)),
            final(self).chunk@.code.len() == old(self).chunk@.code.len() + 3,
            final(self).chunk@.lines == old(self).chunk@.lines.push(old(self).previous.line).push(
                old(self).previous.line,
            ).push(old(self).previous.line),
            final(self).chunk@.constants == old(self).chunk@.constants,
            final(self).scanner == old(self).scanner,
            final(self).current_compiler == old(self).current_compiler,
            old(self).chunk@.code.len() + 3 - loop_start <= 0xffff ==> ({
                let distance = old(self).chunk@.code.len() + 3 - loop_start;
                &&& final(self).had_error == old(self).had_error
                &&& final(self).chunk@.code == old(self).chunk@.code.push(
                    opcode_num(OpCode::OpLoop),
                ).push(((distance / 256) % 256) as u8).push((distance % 256) as u8)
            }),
            old(self).chunk@.code.len() + 3 - loop_start <= 0xffff ==> ({
                let code = final(self).chunk@.code;
                let n = code.len();
                code[n - 3] == opcode_num(OpCode::OpLoop) && n - be16(code[n - 2], code[n - 1])
                    == loop_start
            }),
            old(self).chunk@.code.len() + 3 - loop_start > 0xffff ==> final(self).had_error
                && final(self).chunk@.code == old(self).chunk@.code.push(
                opcode_num(OpCode::OpLoop),
            ).push(255).push(255),
    {
        let dist = self.chunk.code.len() - loop_start;
        if dist > 0xfffc {
            self.error(&[76, 111, 111, 112, 32, 98, 111, 100, 121, 32, 116, 111, 111, 32, 108, 97, 114, 103, 101, 46]);
            self.emit_byte(opcode_to_u8(OpCode::OpLoop));
            self.emit_byte(0xff);
            self.emit_byte(0xff);
            proof {
                lemma_append_instruction(old(self).chunk@.code, self.chunk@.code);
            }
            return ;
        }
        let operand = (dist + 3) as u32;
        self.emit_byte(opcode_to_u8(OpCode::OpLoop));
        self.emit_byte(((operand / 256) % 256) as u8);
        self.emit_byte((operand % 256) as u8);
        proof {
            crate::chunk::lemma_be16_decodes(operand);
            lemma_append_instruction(old(self).chunk@.code, self.chunk@.code);
        }
    }

    /// Emits a jump instruction with a placeholder operand and returns
    /// the offset of the operand, for `patch_jump` to fill in.
    fn emit_jump(&mut self, instruction: u8) -> (r: usize)
        requires
            old(self).wf(),
            decodes_from(old(self).chunk@.code, 0),
            instruction_width(instruction) == 3,
        ensures
            parse_post(*old(self), *final(self)),
            final(self).chunk@.code.len() == old(self).chunk@.code.len() + 3,
            final(self).chunk@.code == old(self).chunk@.code.push(instruction).push(0xff).push(
                0xff,
            ),
            final(self).chunk@.constants == old(self).chunk@.constants,
            final(self).scanner == old(self).scanner,
            final(self).current_compiler == old(self).current_compiler,
            final(self).had_error == old(self).had_error,
            r + 2 == final(self).chunk@.code.len(),
            r >= 1,
            boundary_from(final(self).chunk@.code, 0, r - 1),
            final(self).chunk@.code[r - 1] == instruction,
    {
        self.emit_byte(instruction);
        self.emit_byte(0xff);
        self.emit_byte(0xff);
        proof {
            lemma_append_instruction(old(self).chunk@.code, self.chunk@.code);
            crate::chunk::lemma_decodes_to_end(old(self).chunk@.code, 0);
            crate::chunk::lemma_boundary_agree(
                old(self).chunk@.code,
                self.chunk@.code,
                0,
                old(self).chunk@.code.len() as int,
            );
        }
        self.chunk.code.len() - 2
    }

    /// Emits the RETURN instruction.
    fn emit_return(&mut self)
        requires
            old(self).wf(),
            decodes_from(old(self).chunk@.code, 0),
        ensures
            parse_post(*old(self), *final(self)),
            final(self).chunk@.code == old(self).chunk@.code.push(opcode_num(OpCode::OpReturn)),
            final(self).scanner == old(self).scanner,
            final(self).had_error == old(self).had_error,
    {
        self.emit_op(OpCode::OpReturn)
    }

    /// Emits an instruction pushing `value`, adding it to the constant
    /// pool; a full pool is an error.
    fn emit_constant(&mut self, value: Value)
        requires
            old(self).wf(),
            decodes_from(old(self).chunk@.code, 0),
        ensures
            parse_post(*old(self), *final(self)),
            final(self).scanner == old(self).scanner,
            final(self).current_compiler == old(self).current_compiler,
    {
        if self.chunk.constants.values.len() >= 0x1000000 {
            self.error(&[84, 111, 111, 32, 109, 97, 110, 121, 32, 99, 111, 110, 115, 116, 97, 110, 116, 115, 32, 105, 110, 32, 111, 110, 101, 32, 99, 104, 117, 110, 107, 46]);
            return ;
        }
        let line = self.previous.line;
        self.chunk.write_constant(value, line);
        proof {
            lemma_append_instruction(old(self).chunk@.code, self.chunk@.code);
        }
    }

    /// Fills in the operand of the jump emitted at `offset` so that it
    /// skips to the present end of the code: the patched operand decodes
    /// to exactly the distance from the byte after the operand to the
    /// jump target. A jump of more than `0xffff` bytes is an error.
    fn patch_jump(&mut self, offset: usize)
        requires
            old(self).wf(),
            decodes_from(old(self).chunk@.code, 0),
            1 <= offset,
            offset + 2 <= old(self).chunk@.code.len(),
            boundary_from(old(self).chunk@.code, 0, offset - 1),
            instruction_width(old(self).chunk@.code[offset - 1]) == 3,
        ensures
            parse_post(*old(self), *final(self)),
            final(self).chunk@.code.len() == old(self).chunk@.code.len(),
            final(self).chunk@.constants == old(self).chunk@.constants,
            final(self).scanner == old(self).scanner,
            final(self).current_compiler == old(self).current_compiler,
            forall|k: int|
                0 <= k < old(self).chunk@.code.len() && k != offset && k != offset + 1 ==> final(self).chunk@.code[k] == old(self).chunk@.code[k],
            old(self).chunk@.code.len() - offset - 2 <= 0xffff ==> final(self).had_error == old(self).had_error && ({
                let code = final(self).chunk@.code;
                offset + 2 + be16(code[offset as int], code[offset + 1]) == code.len()
            }),
            old(self).chunk@.code.len() - offset - 2 > 0xffff ==> final(self).had_error,
    {
        // The -2 adjusts for the operand bytes themselves.
        let jump = self.chunk.code.len() - offset - 2;

        if jump > 0xffff {
            self.error(&[84, 111, 111, 32, 109, 117, 99, 104, 32, 99, 111, 100, 101, 32, 116, 111, 32, 106, 117, 109, 112, 32, 111, 118, 101, 114, 46]);
            return ;
        }
        let operand = jump as u32;
        self.chunk.code[offset] = ((operand / 256) % 256) as u8;
        self.chunk.code[offset + 1] = (operand % 256) as u8;
        proof {
            crate::chunk::lemma_be16_decodes(operand);
            lemma_patch_operands(old(self).chunk@.code, self.chunk@.code, offset - 1);
        }
    }

    /// Finishes compilation by emitting the RETURN instruction.
    fn end_compiler(&mut self)
        requires
            old(self).wf(),
            decodes_from(old(self).chunk@.code, 0),
        ensures
            parse_post(*old(self), *final(self)),
            final(self).chunk@.code == old(self).chunk@.code.push(opcode_num(OpCode::OpReturn)),
            final(self).had_error == old(self).had_error,
    {
        self.emit_return();
    }

    /// Opens a block scope; nesting beyond any realistic depth is an
    /// error.
    fn begin_scope(&mut self)
        requires
            old(self).wf(),
            decodes_from(old(self).chunk@.code, 0),
        ensures
            parse_post(*old(self), *final(self)),
            final(self).scanner == old(self).scanner,
            final(self).chunk == old(self).chunk,
    {
        if self.current_compiler.scope_depth < 0x7ffe_0000 {
            self.current_compiler.scope_depth = self.current_compiler.scope_depth + 1;
        } else {
            self.error(&[66, 108, 111, 99, 107, 115, 32, 110, 101, 115, 116, 101, 100, 32, 116, 111, 111, 32, 100, 101, 101, 112, 108, 121, 46]);
        }
    }

    /// Closes a block scope, popping every local that lived in it: the
    /// only bytes it appends are pop instructions, and it reports
    /// nothing.
    fn end_scope(&mut self)
        requires
            old(self).wf(),
            decodes_from(old(self).chunk@.code, 0),
        ensures
            parse_post(*old(self), *final(self)),
            final(self).scanner == old(self).scanner,
            final(self).chunk@.constants == old(self).chunk@.constants,
            final(self).had_error == old(self).had_error,
            forall|j: int|
                0 <= j < old(self).chunk@.code.len() ==> final(self).chunk@.code[j] == old(self).chunk@.code[j],
            forall|j: int|
                old(self).chunk@.code.len() <= j < final(self).chunk@.code.len() ==> final(self).chunk@.code[j] == opcode_num(OpCode::OpPop),
    {
        if self.current_compiler.scope_depth > 0 {
            self.current_compiler.scope_depth = self.current_compiler.scope_depth - 1;
        }

        loop
            invariant
                self.wf(),
                self.scanner == old(self).scanner,
                self.chunk@.code.len() >= old(self).chunk@.code.len(),
                self.chunk@.constants == old(self).chunk@.constants,
                code_evolves(old(self).chunk@.code, self.chunk@.code),
                self.had_error == old(self).had_error,
                forall|j: int|
                    0 <= j < old(self).chunk@.code.len() ==> self.chunk@.code[j] == old(self).chunk@.code[j],
                forall|j: int|
                    old(self).chunk@.code.len() <= j < self.chunk@.code.len()
                        ==> self.chunk@.code[j] == opcode_num(OpCode::OpPop),
            decreases self.current_compiler.locals@.len(),
        {
            let n = self.current_compiler.locals.len();
            if n == 0 {
                break ;
            }
            if self.current_compiler.local_at(n - 1).depth <= self.current_compiler.scope_depth {
                break ;
            }
            self.emit_op(OpCode::OpPop);
            self.current_compiler.locals.pop();
        }
    }
}


impl Parser {
    /// Records a name's text in the constant pool and returns its index,
    /// for the global-variable instructions to name it at runtime. Only a
    /// full pool refuses, with an error.
    fn identifier_constant(&mut self, name: &Token) -> (r: i32)
        requires
            old(self).wf(),
            decodes_from(old(self).chunk@.code, 0),
        ensures
            parse_post(*old(self), *final(self)),
            final(self).scanner == old(self).scanner,
            final(self).chunk@.code == old(self).chunk@.code,
            final(self).current == old(self).current,
            final(self).previous == old(self).previous,
            final(self).current_compiler == old(self).current_compiler,
            0 <= r < 0x1000000,
            old(self).chunk@.constants.len() < 0x1000000 ==> final(self).chunk@.constants == old(self).chunk@.constants.push(AbsValue::Str(name.lexeme@)) && r == old(self).chunk@.constants.len(),
            old(self).chunk@.constants.len() >= 0x1000000 ==> final(self).had_error && final(self).chunk == old(self).chunk,
    {
        if self.chunk.constants.values.len() >= 0x1000000 {
            self.error(&[84, 111, 111, 32, 109, 97, 110, 121, 32, 99, 111, 110, 115, 116, 97, 110, 116, 115, 32, 105, 110, 32, 111, 110, 101, 32, 99, 104, 117, 110, 107, 46]);
            return 0;
        }
        self.chunk.add_constant(Value::new_obj_string(name.lexeme.clone()))
    }

    /// Looks the name up among the live locals, innermost first: the
    /// highest slot whose local bears the name, or `-1` when no local
    /// does and the name must be a global. Reading a variable inside its
    /// own initializer (depth still `-1`) is an error.
    fn resolve_local(&mut self, name: &Token) -> (r: i32)
        requires
            old(self).wf(),
            decodes_from(old(self).chunk@.code, 0),
        ensures
            parse_post(*old(self), *final(self)),
            final(self).scanner == old(self).scanner,
            final(self).chunk == old(self).chunk,
            final(self).current_compiler == old(self).current_compiler,
            final(self).current == old(self).current,
            final(self).previous == old(self).previous,
            -1 <= r < old(self).current_compiler.locals@.len(),
            ({
                let locals = old(self).current_compiler.locals@;
                if r == -1 {
                    forall|j: int|
                        0 <= j < locals.len() ==> (#[trigger] locals[j]).name.lexeme@
                            != name.lexeme@
                } else {
                    &&& locals[r as int].name.lexeme@ == name.lexeme@
                    &&& forall|j: int|
                        r < j < locals.len() ==> (#[trigger] locals[j]).name.lexeme@
                            != name.lexeme@
                }
            }),
            r >= 0 && old(self).current_compiler.locals@[r as int].depth == -1 && !old(self).panic_mode ==> final(self).had_error,
            // The own-initializer case is the only one reported: otherwise
            // nothing is recorded.
            r == -1 || old(self).current_compiler.locals@[r as int].depth != -1 ==> final(self).had_error == old(self).had_error && final(self).errors@ == old(self).errors@
                && final(self).panic_mode == old(self).panic_mode,
    {
        let mut i: usize = self.current_compiler.locals.len();
        while i > 0
            invariant
                self.wf(),
                decodes_from(old(self).chunk@.code, 0),
                i <= self.current_compiler.locals@.len(),
                *self == *old(self),
                forall|j: int|
                    i <= j < self.current_compiler.locals@.len() ==> (
                    #[trigger] self.current_compiler.locals@[j]).name.lexeme@ != name.lexeme@,
            decreases i,
        {
            i = i - 1;
            let found = {
                let local = self.current_compiler.local_at(i);
                let eq = name.lexeme == local.name.lexeme;
                proof {
                    if eq {
                        assert(name.lexeme@ =~= local.name.lexeme@);
                    }
                }
                eq
            };
            if found {
                let depth = self.current_compiler.local_at(i).depth;
                if depth == -1 {
                    self.error(&[67, 97, 110, 39, 116, 32, 114, 101, 97, 100, 32, 108, 111, 99, 97, 108, 32, 118, 97, 114, 105, 97, 98, 108, 101, 32, 105, 110, 32, 105, 116, 115, 32, 111, 119, 110, 32, 105, 110, 105, 116, 105, 97, 108, 105, 122, 101, 114, 46]);
                }
                return i as i32;
            }
        }
        -1
    }

    /// In a local scope, reserves a slot for the variable just named:
    /// when no local of the current scope already bears the name, the
    /// name token becomes the newest local, uninitialized, with every
    /// existing local untouched and no error. A local of the same name
    /// in the current scope (the slots above the innermost local of an
    /// enclosing scope) is an error and nothing is added, as is a full
    /// local table. At top level there is nothing to declare.
    fn declare_variable(&mut self)
        requires
            old(self).wf(),
            decodes_from(old(self).chunk@.code, 0),
        ensures
            parse_post(*old(self), *final(self)),
            final(self).scanner == old(self).scanner,
            final(self).chunk == old(self).chunk,
            old(self).current_compiler.scope_depth == 0 ==> *final(self) == *old(self),
            ({
                let pre = old(self).current_compiler.locals@;
                let post = final(self).current_compiler.locals@;
                post == pre || post == pre.push(post.last())
            }),
            final(self).current_compiler.locals@.len() == old(self).current_compiler.locals@.len() + 1 ==> ({
                let appended = final(self).current_compiler.locals@.last();
                appended.depth == -1 && token_eq(appended.name, old(self).previous)
            }),
            old(self).current_compiler.scope_depth > 0 ==> ({
                let pre = old(self).current_compiler.locals@;
                let clash = name_in_current_scope(
                    pre,
                    old(self).current_compiler.scope_depth as int,
                    old(self).previous.lexeme@,
                );
                if clash || pre.len() >= 0x1000000 {
                    final(self).current_compiler.locals@ == pre && final(self).had_error
                } else {
                    final(self).current_compiler.locals@.len() == pre.len() + 1 && final(self).had_error == old(self).had_error
                }
            }),
    {
        if self.current_compiler.scope_depth == 0 {
            return ;
        }

        let ghost locals = self.current_compiler.locals@;
        let ghost depth = self.current_compiler.scope_depth as int;
        let ghost lexeme = self.previous.lexeme@;
        let name = self.previous.clone();
        let mut duplicate = false;
        let mut i: usize = self.current_compiler.locals.len();
        loop
            invariant_except_break
                !duplicate,
                forall|j: int| i <= j < locals.len() ==> !outer_local(#[trigger] locals[j], depth),
                forall|j: int|
                    i <= j < locals.len() ==> (#[trigger] locals[j]).name.lexeme@ != lexeme,
            invariant
                self.wf(),
                decodes_from(old(self).chunk@.code, 0),
                i <= self.current_compiler.locals@.len(),
                *self == *old(self),
                locals == self.current_compiler.locals@,
                depth == self.current_compiler.scope_depth as int,
                lexeme == name.lexeme@,
            ensures
                locals == self.current_compiler.locals@,
                *self == *old(self),
                duplicate == name_in_current_scope(locals, depth, lexeme),
            decreases i,
        {
            if i == 0 {
                proof {
                    lemma_scope_start_at(locals, depth, 0);
                }
                break ;
            }
            i = i - 1;
            let outer = {
                let local = self.current_compiler.local_at(i);
                local.depth != -1 && local.depth < self.current_compiler.scope_depth
            };
            if outer {
                proof {
                    lemma_scope_start_at(locals, depth, i + 1);
                }
                break ;
            }
            let same = {
                let local = self.current_compiler.local_at(i);
                let eq = name.lexeme == local.name.lexeme;
                proof {
                    if eq {
                        assert(locals[i as int].name.lexeme@ =~= name.lexeme@);
                    }
                }
                eq
            };
            if same {
                duplicate = true;
                proof {
                    lemma_scope_start_below(locals, depth, i as int);
                }
                break ;
            }
        }
        if duplicate {
            self.error(&[65, 108, 114, 101, 97, 100, 121, 32, 97, 32, 118, 97, 114, 105, 97, 98, 108, 101, 32, 119, 105, 116, 104, 32, 116, 104, 105, 115, 32, 110, 97, 109, 101, 32, 105, 110, 32, 116, 104, 105, 115, 32, 115, 99, 111, 112, 101, 46]);
        } else if self.current_compiler.locals.len() >= 0x1000000 {
            self.error(&[84, 111, 111, 32, 109, 97, 110, 121, 32, 108, 111, 99, 97, 108, 32, 118, 97, 114, 105, 97, 98, 108, 101, 115, 32, 105, 110, 32, 102, 117, 110, 99, 116, 105, 111, 110, 46]);
        } else {
            self.current_compiler.add_local(&name);
        }
    }

    /// Marks the newest local as initialized at the current depth; with
    /// no locals (only on an earlier error path) there is nothing to do.
    fn mark_initialized(&mut self)
        requires
            old(self).wf(),
            decodes_from(old(self).chunk@.code, 0),
        ensures
            parse_post(*old(self), *final(self)),
            final(self).scanner == old(self).scanner,
            final(self).chunk == old(self).chunk,
            final(self).had_error == old(self).had_error,
            final(self).current_compiler.locals@.len() == old(self).current_compiler.locals@.len(),
            old(self).current_compiler.locals@.len() > 0 ==> ({
                let n = old(self).current_compiler.locals@.len() as int;
                &&& final(self).current_compiler.locals@[n - 1].depth == old(self).current_compiler.scope_depth
                &&& token_eq(
                    final(self).current_compiler.locals@[n - 1].name,
                    old(self).current_compiler.locals@[n - 1].name,
                )
                &&& forall|j: int|
                    0 <= j < n - 1 ==> final(self).current_compiler.locals@[j] == old(self).current_compiler.locals@[j]
            }),
            old(self).current_compiler.locals@.len() == 0 ==> *final(self) == *old(self),
    {
        let n = self.current_compiler.locals.len();
        if n > 0 {
            let depth = self.current_compiler.scope_depth;
            self.current_compiler.update_local_depth_at(n - 1, depth);
        }
    }

    /// Consumes a variable name; in a local scope reserves its slot and
    /// returns zero, at top level records the name in the constant pool
    /// and returns its index (or reports the full pool).
    fn parse_variable(&mut self, error_message: &[u8]) -> (r: i32)
        requires
            old(self).wf(),
            decodes_from(old(self).chunk@.code, 0),
        ensures
            parse_post(*old(self), *final(self)),
            final(self).chunk@.code == old(self).chunk@.code,
            0 <= r < 0x1000000,
            final(self).current_compiler.scope_depth > 0 ==> r == 0,
            final(self).current_compiler.scope_depth == 0 && !final(self).had_error ==> final(self).chunk@.constants == old(self).chunk@.constants.push(
                AbsValue::Str(final(self).previous.lexeme@),
            ) && r == old(self).chunk@.constants.len(),
    {
        self.consume(TokenType::TokenIdentifier, error_message);

        self.declare_variable();
        if self.current_compiler.scope_depth > 0 {
            return 0;
        }

        let prev = self.previous.clone();
        self.identifier_constant(&prev)
    }

    /// Emits an opcode with a pool or slot index operand, in the short
    /// form when the index fits one byte and the long form otherwise:
    /// exactly the bytes of [`indexed_encoding`].
    fn emit_indexed(&mut self, short_op: OpCode, long_op: OpCode, arg: i32)
        requires
            old(self).wf(),
            decodes_from(old(self).chunk@.code, 0),
            0 <= arg < 0x1000000,
            instruction_width(opcode_num(short_op)) == 2,
            instruction_width(opcode_num(long_op)) == 4,
        ensures
            parse_post(*old(self), *final(self)),
            final(self).scanner == old(self).scanner,
            final(self).chunk@.code == old(self).chunk@.code + indexed_encoding(
                short_op,
                long_op,
                arg as int,
            ),
            final(self).chunk@.constants == old(self).chunk@.constants,
            final(self).current_compiler == old(self).current_compiler,
            final(self).current == old(self).current,
            final(self).previous == old(self).previous,
            final(self).had_error == old(self).had_error,
    {
        if arg < 256 {
            self.emit_bytes(opcode_to_u8(short_op), arg as u8);
            proof {
                assert(self.chunk@.code =~= old(self).chunk@.code + indexed_encoding(
                    short_op,
                    long_op,
                    arg as int,
                ));
            }
        } else {
            let a = arg as u32;
            self.emit_byte(opcode_to_u8(long_op));
            self.emit_byte((a % 256) as u8);
            self.emit_byte(((a / 256) % 256) as u8);
            self.emit_byte(((a / 65536) % 256) as u8);
            proof {
                assert(self.chunk@.code =~= old(self).chunk@.code + indexed_encoding(
                    short_op,
                    long_op,
                    arg as int,
                ));
            }
        }
        proof {
            lemma_append_instruction(old(self).chunk@.code, self.chunk@.code);
        }
    }

    /// At top level, appends the define-global instruction for the pool
    /// index `global`; in a local scope nothing is emitted, the value
    /// stays in its slot and the newest local becomes visible.
    fn define_variable(&mut self, global: i32)
        requires
            old(self).wf(),
            decodes_from(old(self).chunk@.code, 0),
            0 <= global < 0x1000000,
        ensures
            parse_post(*old(self), *final(self)),
            final(self).scanner == old(self).scanner,
            old(self).current_compiler.scope_depth == 0 ==> final(self).chunk@.code == old(self).chunk@.code + indexed_encoding(
                OpCode::OpDefineGlobal,
                OpCode::OpDefineGlobalLong,
                global as int,
            ),
            old(self).current_compiler.scope_depth > 0 ==> final(self).chunk == old(self).chunk
                && final(self).had_error == old(self).had_error,
    {
        if self.current_compiler.scope_depth > 0 {
            self.mark_initialized();
            return ;
        }
        self.emit_indexed(OpCode::OpDefineGlobal, OpCode::OpDefineGlobalLong, global);
    }

    /// Compiles a read of, or an assignment to, the named variable: the
    /// emitted code ends with a get instruction, or, when `=` follows an
    /// assignable reference, a set instruction after the compiled value.
    /// The operand is the innermost matching local slot when one exists,
    /// and otherwise a pool index naming the global.
    fn named_variable(&mut self, name: &Token, can_assign: bool, fuel: u64)
        requires
            old(self).wf(),
            decodes_from(old(self).chunk@.code, 0),
        ensures
            parse_post(*old(self), *final(self)),
            fuel > 0 ==> ({
                let locals = old(self).current_compiler.locals@;
                let code = final(self).chunk@.code;
                let assigns = can_assign && old(self).current.token_type == TokenType::TokenEqual;
                if exists|j: int|
                    0 <= j < locals.len() && (#[trigger] locals[j]).name.lexeme@ == name.lexeme@ {
                    exists|j: int|
                        {
                            &&& 0 <= j < locals.len()
                            &&& (#[trigger] locals[j]).name.lexeme@ == name.lexeme@
                            &&& forall|k: int|
                                j < k < locals.len() ==> (#[trigger] locals[k]).name.lexeme@
                                    != name.lexeme@
                            &&& ({
                                let enc = if assigns {
                                    indexed_encoding(
                                        OpCode::OpSetLocal,
                                        OpCode::OpSetLocalLong,
                                        j,
                                    )
                                } else {
                                    indexed_encoding(
                                        OpCode::OpGetLocal,
                                        OpCode::OpGetLocalLong,
                                        j,
                                    )
                                };
                                code.len() >= enc.len() && code.subrange(
                                    code.len() - enc.len(),
                                    code.len() as int,
                                ) == enc
                            })
                        }
                } else {
                    final(self).had_error || exists|idx: int|
                        {
                            &&& 0 <= idx < final(self).chunk@.constants.len()
                            &&& final(self).chunk@.constants[idx] == AbsValue::Str(name.lexeme@)
                            &&& ({
                                let enc = if assigns {
                                    indexed_encoding(
                                        OpCode::OpSetGlobal,
                                        OpCode::OpSetGlobalLong,
                                        idx,
                                    )
                                } else {
                                    indexed_encoding(
                                        OpCode::OpGetGlobal,
                                        OpCode::OpGetGlobalLong,
                                        idx,
                                    )
                                };
                                code.len() >= enc.len() && code.subrange(
                                    code.len() - enc.len(),
                                    code.len() as int,
                                ) == enc
                            })
                        }
                }
            }),
        decreases fuel,
    {
        if fuel == 0 {
            self.error(&[84, 111, 111, 32, 109, 117, 99, 104, 32, 110, 101, 115, 116, 105, 110, 103, 32, 116, 111, 32, 99, 111, 109, 112, 105, 108, 101, 46]);
            return ;
        }
        let mut arg = self.resolve_local(name);
        let is_local = arg != -1;
        if !is_local {
            arg = self.identifier_constant(name);
        }
        let ghost pool = self.chunk@.constants;

        if can_assign && self.match_token_type(TokenType::TokenEqual) {
            self.expression(fuel - 1);
            if is_local {
                self.emit_indexed(OpCode::OpSetLocal, OpCode::OpSetLocalLong, arg);
                proof {
                    let enc = indexed_encoding(OpCode::OpSetLocal, OpCode::OpSetLocalLong, arg as int);
                    let code = self.chunk@.code;
                    assert(code.subrange(code.len() - enc.len(), code.len() as int) =~= enc);
                }
            } else {
                self.emit_indexed(OpCode::OpSetGlobal, OpCode::OpSetGlobalLong, arg);
                proof {
                    let enc = indexed_encoding(OpCode::OpSetGlobal, OpCode::OpSetGlobalLong, arg as int);
                    let code = self.chunk@.code;
                    assert(code.subrange(code.len() - enc.len(), code.len() as int) =~= enc);
                }
            }
        } else {
            if is_local {
                self.emit_indexed(OpCode::OpGetLocal, OpCode::OpGetLocalLong, arg);
                proof {
                    let enc = indexed_encoding(OpCode::OpGetLocal, OpCode::OpGetLocalLong, arg as int);
                    let code = self.chunk@.code;
                    assert(code.subrange(code.len() - enc.len(), code.len() as int) =~= enc);
                }
            } else {
                self.emit_indexed(OpCode::OpGetGlobal, OpCode::OpGetGlobalLong, arg);
                proof {
                    let enc = indexed_encoding(OpCode::OpGetGlobal, OpCode::OpGetGlobalLong, arg as int);
                    let code = self.chunk@.code;
                    assert(code.subrange(code.len() - enc.len(), code.len() as int) =~= enc);
                }
            }
        }
        proof {
            let locals = old(self).current_compiler.locals@;
            if is_local {
                assert(0 <= arg < locals.len() && locals[arg as int].name.lexeme@
                    == name.lexeme@);
            } else if !self.had_error {
                assert(self.chunk@.constants[arg as int] == pool[arg as int]);
                assert(pool[arg as int] == AbsValue::Str(name.lexeme@));
            }
        }
    }

    /// Prefix rule for identifiers: the variable expression.
    fn variable(&mut self, can_assign: bool, fuel: u64)
        requires
            old(self).wf(),
            decodes_from(old(self).chunk@.code, 0),
        ensures
            parse_post(*old(self), *final(self)),
        decreases fuel,
    {
        if fuel == 0 {
            self.error(&[84, 111, 111, 32, 109, 117, 99, 104, 32, 110, 101, 115, 116, 105, 110, 103, 32, 116, 111, 32, 99, 111, 109, 112, 105, 108, 101, 46]);
            return ;
        }
        let prev = self.previous.clone();
        self.named_variable(&prev, can_assign, fuel - 1);
    }

    /// Prefix rule for `(`: a parenthesized expression.
    fn grouping(&mut self, _can_assign: bool, fuel: u64)
        requires
            old(self).wf(),
            decodes_from(old(self).chunk@.code, 0),
        ensures
            parse_post(*old(self), *final(self)),
        decreases fuel,
    {
        if fuel == 0 {
            self.error(&[84, 111, 111, 32, 109, 117, 99, 104, 32, 110, 101, 115, 116, 105, 110, 103, 32, 116, 111, 32, 99, 111, 109, 112, 105, 108, 101, 46]);
            return ;
        }
        self.expression(fuel - 1);
        self.consume(TokenType::TokenRightParen, &[69, 120, 112, 101, 99, 116, 32, 39, 41, 39, 32, 97, 102, 116, 101, 114, 32, 101, 120, 112, 114, 101, 115, 115, 105, 111, 110, 46]);
    }

    /// Prefix rule for number literals: parses the digits and emits a
    /// constant. A fractional or out-of-range literal is an error.
    fn number(&mut self, _can_assign: bool)
        requires
            old(self).wf(),
            decodes_from(old(self).chunk@.code, 0),
        ensures
            parse_post(*old(self), *final(self)),
    {
        match parse_int(&self.previous.lexeme) {
            Some(v) => {
                self.emit_constant(Value::new_number(v));
            },
            None => {
                self.error(&[78, 117, 109, 98, 101, 114, 32, 108, 105, 116, 101, 114, 97, 108, 32, 109, 117, 115, 116, 32, 98, 101, 32, 97, 110, 32, 105, 110, 116, 101, 103, 101, 114, 32, 105, 110, 32, 114, 97, 110, 103, 101, 46]);
            },
        }
    }

    /// Prefix rule for string literals: drops the surrounding quotes and
    /// emits a string constant.
    fn string(&mut self, _can_assign: bool)
        requires
            old(self).wf(),
            decodes_from(old(self).chunk@.code, 0),
        ensures
            parse_post(*old(self), *final(self)),
    {
        let lex = self.previous.lexeme.clone();
        let mut text: Vec<u8> = Vec::new();
        let n = lex.len();
        if n >= 2 {
            let mut i: usize = 1;
            while i < n - 1
                invariant
                    n == lex@.len(),
                    2 <= n,
                    1 <= i <= n,
                decreases n - i,
            {
                text.push(lex[i]);
                i = i + 1;
            }
        }
        self.emit_constant(Value::new_obj_string(text));
    }

    /// Prefix rule for `true`, `false` and `nil`: one opcode each.
    fn literal(&mut self, _can_assign: bool)
        requires
            old(self).wf(),
            decodes_from(old(self).chunk@.code, 0),
        ensures
            parse_post(*old(self), *final(self)),
            old(self).previous.token_type == TokenType::TokenFalse ==> final(self).chunk@.code
                == old(self).chunk@.code.push(opcode_num(OpCode::OpFalse)),
            old(self).previous.token_type == TokenType::TokenTrue ==> final(self).chunk@.code
                == old(self).chunk@.code.push(opcode_num(OpCode::OpTrue)),
            old(self).previous.token_type == TokenType::TokenNil ==> final(self).chunk@.code
                == old(self).chunk@.code.push(opcode_num(OpCode::OpNil)),
    {
        match self.previous.token_type {
            TokenType::TokenFalse => self.emit_op(OpCode::OpFalse),
            TokenType::TokenTrue => self.emit_op(OpCode::OpTrue),
            TokenType::TokenNil => self.emit_op(OpCode::OpNil),
            _ => {},
        }
    }

    /// Prefix rule for `!` and unary `-`: compiles the operand, then the
    /// one-byte operator instruction, which ends the emitted code.
    fn unary(&mut self, _can_assign: bool, fuel: u64)
        requires
            old(self).wf(),
            decodes_from(old(self).chunk@.code, 0),
        ensures
            parse_post(*old(self), *final(self)),
            fuel > 0 && old(self).previous.token_type == TokenType::TokenBang ==> final(self).chunk@.code.len() >= 1 && final(self).chunk@.code.last() == opcode_num(
                OpCode::OpNot,
            ),
            fuel > 0 && old(self).previous.token_type == TokenType::TokenMinus ==> final(self).chunk@.code.len() >= 1 && final(self).chunk@.code.last() == opcode_num(
                OpCode::OpNegate,
            ),
        decreases fuel,
    {
        if fuel == 0 {
            self.error(&[84, 111, 111, 32, 109, 117, 99, 104, 32, 110, 101, 115, 116, 105, 110, 103, 32, 116, 111, 32, 99, 111, 109, 112, 105, 108, 101, 46]);
            return ;
        }
        let operator_type = self.previous.token_type;

        self.parse_precedence(Precedence::Unary, fuel - 1);

        match operator_type {
            TokenType::TokenBang => self.emit_op(OpCode::OpNot),
            TokenType::TokenMinus => self.emit_op(OpCode::OpNegate),
            _ => {},
        }
    }

    /// Infix rule for the binary operators: compiles the right operand
    /// one level tighter (left associativity), then emits the operator's
    /// instruction bytes, which end the emitted code.
    fn binary(&mut self, _can_assign: bool, fuel: u64)
        requires
            old(self).wf(),
            decodes_from(old(self).chunk@.code, 0),
        ensures
            parse_post(*old(self), *final(self)),
            fuel > 0 ==> ({
                let suffix = binary_operator_bytes(old(self).previous.token_type);
                let code = final(self).chunk@.code;
                code.len() >= suffix.len() && code.subrange(
                    code.len() - suffix.len(),
                    code.len() as int,
                ) == suffix
            }),
        decreases fuel,
    {
        if fuel == 0 {
            self.error(&[84, 111, 111, 32, 109, 117, 99, 104, 32, 110, 101, 115, 116, 105, 110, 103, 32, 116, 111, 32, 99, 111, 109, 112, 105, 108, 101, 46]);
            return ;
        }
        let operator_type = self.previous.token_type;
        let rule = get_rule(operator_type);
        let next = match precedence_from_u8(precedence_to_u8(rule.precedence) + 1) {
            Some(p) => p,
            None => vstd::pervasive::unreached(),
        };
        self.parse_precedence(next, fuel - 1);

        match operator_type {
            TokenType::TokenBangEqual => {
                self.emit_op(OpCode::OpEqual);
                self.emit_op(OpCode::OpNot);
            },
            TokenType::TokenEqualEqual => self.emit_op(OpCode::OpEqual),
            TokenType::TokenGreater => self.emit_op(OpCode::OpGreater),
            TokenType::TokenGreaterEqual => {
                self.emit_op(OpCode::OpLess);
                self.emit_op(OpCode::OpNot);
            },
            TokenType::TokenLess => self.emit_op(OpCode::OpLess),
            TokenType::TokenLessEqual => {
                self.emit_op(OpCode::OpGreater);
                self.emit_op(OpCode::OpNot);
            },
            TokenType::TokenPlus => self.emit_op(OpCode::OpAdd),
            TokenType::TokenMinus => self.emit_op(OpCode::OpSubtract),
            TokenType::TokenStar => self.emit_op(OpCode::OpMultiply),
            TokenType::TokenSlash => self.emit_op(OpCode::OpDivide),
            _ => {},
        }
        proof {
            let suffix = binary_operator_bytes(operator_type);
            let code = self.chunk@.code;
            assert(code.subrange(code.len() - suffix.len(), code.len() as int) =~= suffix);
        }
    }

    /// Infix rule for `and`: a patched jump over the right operand when
    /// the left is falsey, and a pop of the left: at least four bytes of
    /// new code.
    fn and_(&mut self, _can_assign: bool, fuel: u64)
        requires
            old(self).wf(),
            decodes_from(old(self).chunk@.code, 0),
        ensures
            parse_post(*old(self), *final(self)),
            fuel > 0 ==> final(self).chunk@.code.len() >= old(self).chunk@.code.len() + 4,
        decreases fuel,
    {
        if fuel == 0 {
            self.error(&[84, 111, 111, 32, 109, 117, 99, 104, 32, 110, 101, 115, 116, 105, 110, 103, 32, 116, 111, 32, 99, 111, 109, 112, 105, 108, 101, 46]);
            return ;
        }
        let end_jump = self.emit_jump(opcode_to_u8(OpCode::OpJumpIfFalse));

        self.emit_op(OpCode::OpPop);
        self.parse_precedence(Precedence::And, fuel - 1);

        self.patch_jump(end_jump);
    }

    /// Infix rule for `or`: a patched jump pair that skips the right
    /// operand when the left is truthy, and a pop of the left: at least
    /// seven bytes of new code.
    fn or_(&mut self, _can_assign: bool, fuel: u64)
        requires
            old(self).wf(),
            decodes_from(old(self).chunk@.code, 0),
        ensures
            parse_post(*old(self), *final(self)),
            fuel > 0 ==> final(self).chunk@.code.len() >= old(self).chunk@.code.len() + 7,
        decreases fuel,
    {
        if fuel == 0 {
            self.error(&[84, 111, 111, 32, 109, 117, 99, 104, 32, 110, 101, 115, 116, 105, 110, 103, 32, 116, 111, 32, 99, 111, 109, 112, 105, 108, 101, 46]);
            return ;
        }
        let else_jump = self.emit_jump(opcode_to_u8(OpCode::OpJumpIfFalse));
        let end_jump = self.emit_jump(opcode_to_u8(OpCode::OpJump));

        self.patch_jump(else_jump);
        self.emit_op(OpCode::OpPop);

        self.parse_precedence(Precedence::Or, fuel - 1);
        self.patch_jump(end_jump);
    }

    /// Dispatches to the parsing routine a Pratt table entry names.
    fn run_parse_fn(&mut self, f: ParseFn, can_assign: bool, fuel: u64)
        requires
            old(self).wf(),
            decodes_from(old(self).chunk@.code, 0),
        ensures
            parse_post(*old(self), *final(self)),
        decreases fuel,
    {
        if fuel == 0 {
            self.error(&[84, 111, 111, 32, 109, 117, 99, 104, 32, 110, 101, 115, 116, 105, 110, 103, 32, 116, 111, 32, 99, 111, 109, 112, 105, 108, 101, 46]);
            return ;
        }
        match f {
            ParseFn::NoRule => {},
            ParseFn::Grouping => self.grouping(can_assign, fuel - 1),
            ParseFn::Unary => self.unary(can_assign, fuel - 1),
            ParseFn::Binary => self.binary(can_assign, fuel - 1),
            ParseFn::Number => self.number(can_assign),
            ParseFn::Str => self.string(can_assign),
            ParseFn::Variable => self.variable(can_assign, fuel - 1),
            ParseFn::Literal => self.literal(can_assign),
            ParseFn::And => self.and_(can_assign, fuel - 1),
            ParseFn::Or => self.or_(can_assign, fuel - 1),
        }
    }

    /// The Pratt core: consumes one token, runs its prefix rule, then
    /// folds infix operators while the lookahead binds at least as
    /// tightly as `precedence`. Afterwards a stray `=` is an invalid
    /// assignment target.
    fn parse_precedence(&mut self, precedence: Precedence, fuel: u64)
        requires
            old(self).wf(),
            decodes_from(old(self).chunk@.code, 0),
        ensures
            parse_post(*old(self), *final(self)),
        decreases fuel,
    {
        if fuel == 0 {
            self.error(&[84, 111, 111, 32, 109, 117, 99, 104, 32, 110, 101, 115, 116, 105, 110, 103, 32, 116, 111, 32, 99, 111, 109, 112, 105, 108, 101, 46]);
            return ;
        }
        self.advance();
        let prefix_rule = get_rule(self.previous.token_type).prefix;
        if prefix_rule == ParseFn::NoRule {
            self.error(&[69, 120, 112, 101, 99, 116, 32, 101, 120, 112, 114, 101, 115, 115, 105, 111, 110, 46]);
            return ;
        }

        let can_assign = precedence_to_u8(precedence) <= precedence_to_u8(Precedence::Assignment);
        self.run_parse_fn(prefix_rule, can_assign, fuel - 1);

        let mut budget = fuel;
        loop
            invariant
                self.wf(),
                parse_post(*old(self), *self),
                fuel >= 1,
            decreases budget,
        {
            let current_prec = get_rule(self.current.token_type).precedence;
            if precedence_to_u8(precedence) > precedence_to_u8(current_prec) {
                break ;
            }
            if budget == 0 {
                self.error(&[84, 111, 111, 32, 109, 117, 99, 104, 32, 110, 101, 115, 116, 105, 110, 103, 32, 116, 111, 32, 99, 111, 109, 112, 105, 108, 101, 46]);
                break ;
            }
            budget = budget - 1;
            self.advance();
            let infix_rule = get_rule(self.previous.token_type).infix;
            self.run_parse_fn(infix_rule, can_assign, fuel - 1);
        }

        if can_assign && self.match_token_type(TokenType::TokenEqual) {
            self.error(&[73, 110, 118, 97, 108, 105, 100, 32, 97, 115, 115, 105, 103, 110, 109, 101, 110, 116, 32, 116, 97, 114, 103, 101, 116, 46]);
        }
    }

    /// An expression at the lowest binding strength that still allows
    /// assignment.
    fn expression(&mut self, fuel: u64)
        requires
            old(self).wf(),
            decodes_from(old(self).chunk@.code, 0),
        ensures
            parse_post(*old(self), *final(self)),
        decreases fuel,
    {
        if fuel == 0 {
            self.error(&[84, 111, 111, 32, 109, 117, 99, 104, 32, 110, 101, 115, 116, 105, 110, 103, 32, 116, 111, 32, 99, 111, 109, 112, 105, 108, 101, 46]);
            return ;
        }
        self.parse_precedence(Precedence::Assignment, fuel - 1);
    }

    /// `var` declaration: name, optional initializer (nil otherwise),
    /// semicolon, then the binding.
    fn var_declaration(&mut self, fuel: u64)
        requires
            old(self).wf(),
            decodes_from(old(self).chunk@.code, 0),
        ensures
            parse_post(*old(self), *final(self)),
        decreases fuel,
    {
        if fuel == 0 {
            self.error(&[84, 111, 111, 32, 109, 117, 99, 104, 32, 110, 101, 115, 116, 105, 110, 103, 32, 116, 111, 32, 99, 111, 109, 112, 105, 108, 101, 46]);
            return ;
        }
        let global = self.parse_variable(&[69, 120, 112, 101, 99, 116, 32, 118, 97, 114, 105, 97, 98, 108, 101, 32, 110, 97, 109, 101, 46]);

        if self.match_token_type(TokenType::TokenEqual) {
            self.expression(fuel - 1);
        } else {
            self.emit_op(OpCode::OpNil);
        }
        self.consume(TokenType::TokenSemicolon, &[69, 120, 112, 101, 99, 116, 32, 39, 59, 39, 32, 97, 102, 116, 101, 114, 32, 118, 97, 114, 105, 97, 98, 108, 101, 32, 100, 101, 99, 108, 97, 114, 97, 116, 105, 111, 110, 46]);

        self.define_variable(global);
    }

    /// An expression evaluated for effect: its value is popped, so the
    /// emitted code ends with the pop instruction.
    fn expression_statement(&mut self, fuel: u64)
        requires
            old(self).wf(),
            decodes_from(old(self).chunk@.code, 0),
        ensures
            parse_post(*old(self), *final(self)),
            fuel > 0 ==> final(self).chunk@.code.len() >= 1 && final(self).chunk@.code.last()
                == opcode_num(OpCode::OpPop),
        decreases fuel,
    {
        if fuel == 0 {
            self.error(&[84, 111, 111, 32, 109, 117, 99, 104, 32, 110, 101, 115, 116, 105, 110, 103, 32, 116, 111, 32, 99, 111, 109, 112, 105, 108, 101, 46]);
            return ;
        }
        self.expression(fuel - 1);
        self.consume(TokenType::TokenSemicolon, &[69, 120, 112, 101, 99, 116, 32, 39, 59, 39, 32, 97, 102, 116, 101, 114, 32, 101, 120, 112, 114, 101, 115, 115, 105, 111, 110, 46]);
        self.emit_op(OpCode::OpPop);
    }

    /// `print` statement: the expression, then the print instruction,
    /// which ends the emitted code.
    fn print_statement(&mut self, fuel: u64)
        requires
            old(self).wf(),
            decodes_from(old(self).chunk@.code, 0),
        ensures
            parse_post(*old(self), *final(self)),
            fuel > 0 ==> final(self).chunk@.code.len() >= 1 && final(self).chunk@.code.last()
                == opcode_num(OpCode::OpPrint),
        decreases fuel,
    {
        if fuel == 0 {
            self.error(&[84, 111, 111, 32, 109, 117, 99, 104, 32, 110, 101, 115, 116, 105, 110, 103, 32, 116, 111, 32, 99, 111, 109, 112, 105, 108, 101, 46]);
            return ;
        }
        self.expression(fuel - 1);
        self.consume(TokenType::TokenSemicolon, &[69, 120, 112, 101, 99, 116, 32, 39, 59, 39, 32, 97, 102, 116, 101, 114, 32, 118, 97, 108, 117, 101, 46]);
        self.emit_op(OpCode::OpPrint);
    }

    /// `if` statement: condition, a patched jump over the then branch
    /// (with its pop), a patched jump over the optional else branch
    /// (with its pop). The two jumps and the two pops always leave at
    /// least eight bytes of new code.
    fn if_statement(&mut self, fuel: u64)
        requires
            old(self).wf(),
            decodes_from(old(self).chunk@.code, 0),
        ensures
            parse_post(*old(self), *final(self)),
            fuel > 0 ==> final(self).chunk@.code.len() >= old(self).chunk@.code.len() + 8,
        decreases fuel,
    {
        if fuel == 0 {
            self.error(&[84, 111, 111, 32, 109, 117, 99, 104, 32, 110, 101, 115, 116, 105, 110, 103, 32, 116, 111, 32, 99, 111, 109, 112, 105, 108, 101, 46]);
            return ;
        }
        self.consume(TokenType::TokenLeftParen, &[69, 120, 112, 101, 99, 116, 32, 39, 40, 39, 32, 97, 102, 116, 101, 114, 32, 39, 105, 102, 39, 46]);
        self.expression(fuel - 1);
        self.consume(TokenType::TokenRightParen, &[69, 120, 112, 101, 99, 116, 32, 39, 41, 39, 32, 97, 102, 116, 101, 114, 32, 99, 111, 110, 100, 105, 116, 105, 111, 110, 46]);

        let then_jump = self.emit_jump(opcode_to_u8(OpCode::OpJumpIfFalse));
        self.emit_op(OpCode::OpPop);
        self.statement(fuel - 1);

        let else_jump = self.emit_jump(opcode_to_u8(OpCode::OpJump));

        self.patch_jump(then_jump);
        self.emit_op(OpCode::OpPop);

        if self.match_token_type(TokenType::TokenElse) {
            self.statement(fuel - 1);
        }
        self.patch_jump(else_jump);
    }

    /// `while` statement: condition, exit jump, body, loop back to the
    /// condition. On success the emitted code ends with the loop
    /// instruction, whose operand jumps back exactly to where the
    /// condition starts (the old end of code), and the pop that clears
    /// the condition after the exit jump lands.
    fn while_statement(&mut self, fuel: u64)
        requires
            old(self).wf(),
            decodes_from(old(self).chunk@.code, 0),
        ensures
            parse_post(*old(self), *final(self)),
            fuel > 0 ==> ({
                let code = final(self).chunk@.code;
                let n = code.len() as int;
                &&& n >= old(self).chunk@.code.len() + 8
                &&& code.last() == opcode_num(OpCode::OpPop)
                &&& code[n - 4] == opcode_num(OpCode::OpLoop)
                &&& (!final(self).had_error ==> (n - 1) - be16(code[n - 3], code[n - 2]) == old(
                    self,
                ).chunk@.code.len())
            }),
        decreases fuel,
    {
        if fuel == 0 {
            self.error(&[84, 111, 111, 32, 109, 117, 99, 104, 32, 110, 101, 115, 116, 105, 110, 103, 32, 116, 111, 32, 99, 111, 109, 112, 105, 108, 101, 46]);
            return ;
        }
        let loop_start = self.chunk.code.len();
        self.consume(TokenType::TokenLeftParen, &[69, 120, 112, 101, 99, 116, 32, 39, 40, 39, 32, 97, 102, 116, 101, 114, 32, 39, 119, 104, 105, 108, 101, 39, 46]);
        self.expression(fuel - 1);
        self.consume(TokenType::TokenRightParen, &[69, 120, 112, 101, 99, 116, 32, 39, 41, 39, 32, 97, 102, 116, 101, 114, 32, 39, 119, 104, 105, 108, 101, 39, 46]);

        let exit_jump = self.emit_jump(opcode_to_u8(OpCode::OpJumpIfFalse));
        self.emit_op(OpCode::OpPop);
        self.statement(fuel - 1);
        self.emit_loop(loop_start);

        self.patch_jump(exit_jump);
        self.emit_op(OpCode::OpPop);
    }

    /// `for` statement, desugared: initializer in its own scope,
    /// condition with an exit jump, increment run after the body via a
    /// jump over it, body, loop back. On success the emitted code holds
    /// a loop instruction whose operand jumps back into this statement's
    /// own code (to the condition, or to the increment), followed only
    /// by the pops that clear the condition and close the scope.
    #[verifier::rlimit(60)]
    fn for_statement(&mut self, fuel: u64)
        requires
            old(self).wf(),
            decodes_from(old(self).chunk@.code, 0),
        ensures
            parse_post(*old(self), *final(self)),
            fuel > 0 ==> final(self).chunk@.code.len() >= old(self).chunk@.code.len() + 3,
            fuel > 0 ==> ({
                let code = final(self).chunk@.code;
                let n = code.len() as int;
                exists|p: int|
                    {
                        &&& old(self).chunk@.code.len() <= p
                        &&& p + 3 <= n
                        &&& #[trigger] code[p] == opcode_num(OpCode::OpLoop)
                        &&& (!final(self).had_error ==> old(self).chunk@.code.len() <= (p + 3)
                            - be16(code[p + 1], code[p + 2]) <= p)
                        &&& forall|j: int| p + 3 <= j < n ==> code[j] == opcode_num(OpCode::OpPop)
                    }
            }),
        decreases fuel,
    {
        if fuel == 0 {
            self.error(&[84, 111, 111, 32, 109, 117, 99, 104, 32, 110, 101, 115, 116, 105, 110, 103, 32, 116, 111, 32, 99, 111, 109, 112, 105, 108, 101, 46]);
            return ;
        }
        self.begin_scope();
        self.consume(TokenType::TokenLeftParen, &[69, 120, 112, 101, 99, 116, 32, 39, 40, 39, 32, 97, 102, 116, 101, 114, 32, 39, 102, 111, 114, 39, 46]);
        if self.match_token_type(TokenType::TokenSemicolon) {
            // No initializer.
        } else if self.match_token_type(TokenType::TokenVar) {
            self.var_declaration(fuel - 1);
        } else {
            self.expression_statement(fuel - 1);
        }

        let mut loop_start = self.chunk.code.len();
        let mut exit_jump: Option<usize> = None;
        if !self.match_token_type(TokenType::TokenSemicolon) {
            self.expression(fuel - 1);
            self.consume(TokenType::TokenSemicolon, &[69, 120, 112, 101, 99, 116, 32, 39, 59, 39, 32, 97, 102, 116, 101, 114, 32, 108, 111, 111, 112, 32, 99, 111, 110, 100, 105, 116, 105, 111, 110, 46]);

            // Jump out of the loop if the condition is false.
            exit_jump = Some(self.emit_jump(opcode_to_u8(OpCode::OpJumpIfFalse)));
            self.emit_op(OpCode::OpPop);  // Condition.
        }

        if !self.match_token_type(TokenType::TokenRightParen) {
            let body_jump = self.emit_jump(opcode_to_u8(OpCode::OpJump));
            let increment_start = self.chunk.code.len();
            self.expression(fuel - 1);
            self.emit_op(OpCode::OpPop);
            self.consume(TokenType::TokenRightParen, &[69, 120, 112, 101, 99, 116, 32, 39, 41, 39, 32, 97, 102, 116, 101, 114, 32, 102, 111, 114, 32, 99, 108, 97, 117, 115, 101, 115, 46]);

            self.emit_loop(loop_start);
            loop_start = increment_start;
            self.patch_jump(body_jump);
        }

        self.statement(fuel - 1);
        self.emit_loop(loop_start);
        let ghost back = self.chunk@.code.len() as int - 3;
        let ghost target = loop_start as int;

        if let Some(offset) = exit_jump {
            self.patch_jump(offset);
            self.emit_op(OpCode::OpPop);
        }
        self.end_scope();
        proof {
            let code = self.chunk@.code;
            let n = code.len() as int;
            assert(code[back] == opcode_num(OpCode::OpLoop));
            assert(forall|j: int| back + 3 <= j < n ==> code[j] == opcode_num(OpCode::OpPop));
            if !self.had_error {
                assert((back + 3) - be16(code[back + 1], code[back + 2]) == target);
            }
        }
    }

    /// A brace-delimited block of declarations.
    fn block(&mut self, fuel: u64)
        requires
            old(self).wf(),
            decodes_from(old(self).chunk@.code, 0),
        ensures
            parse_post(*old(self), *final(self)),
        decreases fuel,
    {
        if fuel == 0 {
            self.error(&[84, 111, 111, 32, 109, 117, 99, 104, 32, 110, 101, 115, 116, 105, 110, 103, 32, 116, 111, 32, 99, 111, 109, 112, 105, 108, 101, 46]);
            return ;
        }
        let mut budget = fuel;
        loop
            invariant
                self.wf(),
                parse_post(*old(self), *self),
                fuel >= 1,
            decreases budget,
        {
            if self.check(TokenType::TokenRightBrace) || self.check(TokenType::TokenEof) {
                break ;
            }
            if budget == 0 {
                self.error(&[84, 111, 111, 32, 109, 117, 99, 104, 32, 110, 101, 115, 116, 105, 110, 103, 32, 116, 111, 32, 99, 111, 109, 112, 105, 108, 101, 46]);
                break ;
            }
            budget = budget - 1;
            self.declaration(fuel - 1);
        }

        self.consume(TokenType::TokenRightBrace, &[69, 120, 112, 101, 99, 116, 32, 39, 125, 39, 32, 97, 102, 116, 101, 114, 32, 98, 108, 111, 99, 107, 46]);
    }

    /// Skips tokens to the next statement boundary, leaving panic mode:
    /// just past a semicolon, or at a keyword that starts a statement.
    fn synchronize(&mut self)
        requires
            old(self).wf(),
            decodes_from(old(self).chunk@.code, 0),
        ensures
            parse_post(*old(self), *final(self)),
            final(self).chunk == old(self).chunk,
            final(self).panic_mode ==> final(self).had_error,
    {
        self.panic_mode = false;

        let mut budget = self.scanner.source.len() + 2;
        loop
            invariant
                self.wf(),
                parse_post(*old(self), *self),
                self.chunk == old(self).chunk,
            decreases budget,
        {
            if self.current.token_type == TokenType::TokenEof {
                break ;
            }
            if budget == 0 {
                break ;
            }
            budget = budget - 1;
            if self.previous.token_type == TokenType::TokenSemicolon {
                return ;
            }

            match self.current.token_type {
                TokenType::TokenClass | TokenType::TokenFun | TokenType::TokenVar
                    | TokenType::TokenFor | TokenType::TokenIf | TokenType::TokenWhile
                    | TokenType::TokenPrint | TokenType::TokenReturn => {
                    return ;
                },
                _ => {},
            }

            self.advance();
        }
    }

    /// A declaration: a `var` declaration or a statement, with panic-mode
    /// recovery at its end.
    fn declaration(&mut self, fuel: u64)
        requires
            old(self).wf(),
            decodes_from(old(self).chunk@.code, 0),
        ensures
            parse_post(*old(self), *final(self)),
        decreases fuel,
    {
        if fuel == 0 {
            self.error(&[84, 111, 111, 32, 109, 117, 99, 104, 32, 110, 101, 115, 116, 105, 110, 103, 32, 116, 111, 32, 99, 111, 109, 112, 105, 108, 101, 46]);
            return ;
        }
        if self.match_token_type(TokenType::TokenVar) {
            self.var_declaration(fuel - 1);
        } else {
            self.statement(fuel - 1);
        }

        if self.panic_mode {
            self.synchronize();
        }
    }

    /// A statement: print, block, if, while, for, or an expression
    /// statement.
    fn statement(&mut self, fuel: u64)
        requires
            old(self).wf(),
            decodes_from(old(self).chunk@.code, 0),
        ensures
            parse_post(*old(self), *final(self)),
        decreases fuel,
    {
        if fuel == 0 {
            self.error(&[84, 111, 111, 32, 109, 117, 99, 104, 32, 110, 101, 115, 116, 105, 110, 103, 32, 116, 111, 32, 99, 111, 109, 112, 105, 108, 101, 46]);
            return ;
        }
        if self.match_token_type(TokenType::TokenPrint) {
            self.print_statement(fuel - 1);
        } else if self.match_token_type(TokenType::TokenLeftBrace) {
            self.begin_scope();
            self.block(fuel - 1);
            self.end_scope();
        } else if self.match_token_type(TokenType::TokenIf) {
            self.if_statement(fuel - 1);
        } else if self.match_token_type(TokenType::TokenWhile) {
            self.while_statement(fuel - 1);
        } else if self.match_token_type(TokenType::TokenFor) {
            self.for_statement(fuel - 1);
        } else {
            self.expression_statement(fuel - 1);
        }
    }

    /// Parses the whole program: declarations until end of input, then
    /// the final return instruction.
    pub fn parse(&mut self)
        requires
            old(self).wf(),
            decodes_from(old(self).chunk@.code, 0),
        ensures
            parse_post(*old(self), *final(self)),
            final(self).chunk@.code.len() >= 1,
            final(self).chunk@.code.last() == opcode_num(OpCode::OpReturn),
            old(self).scanner.current == old(self).scanner.source@.len() && !old(self).had_error
                ==> !final(self).had_error && final(self).chunk@.code == old(self).chunk@.code.push(opcode_num(OpCode::OpReturn)),
    {
        let ghost empty_input = old(self).scanner.current == old(self).scanner.source@.len()
            && !old(self).had_error;
        self.advance();

        let mut budget = self.scanner.source.len() + 2;
        loop
            invariant
                self.wf(),
                parse_post(*old(self), *self),
                empty_input == (old(self).scanner.current == old(self).scanner.source@.len()
                    && !old(self).had_error),
                empty_input ==> self.chunk == old(self).chunk && self.had_error == old(self).had_error && self.current.token_type == TokenType::TokenEof
                    && self.scanner.current == self.scanner.source@.len(),
            decreases budget,
        {
            if self.match_token_type(TokenType::TokenEof) {
                break ;
            }
            if budget == 0 {
                self.error(&[80, 114, 111, 103, 114, 97, 109, 32, 116, 111, 111, 32, 108, 111, 110, 103, 32, 116, 111, 32, 99, 111, 109, 112, 105, 108, 101, 46]);
                break ;
            }
            budget = budget - 1;
            let remaining = self.scanner.source.len() - self.scanner.current;
            let fuel: u64 = 8 * (remaining as u64 + 8);
            self.declaration(fuel);
        }

        self.end_compiler();
    }
}

/// Compiles source text to a chunk. On success the chunk is well formed,
/// decodes into whole instructions, and ends in the return instruction;
/// on failure the reported errors come back instead, never empty. The
/// empty program compiles to exactly the one-byte return chunk.
pub fn compile(source: Vec<u8>) -> (r: Result<Chunk, Vec<CompileError>>)
    requires
        source@.len() < 0x7fff_0000,
    ensures
        match r {
            Ok(c) => c.wf() && c@.code.len() >= 1 && c@.code.last() == opcode_num(
                OpCode::OpReturn,
            ) && decodes_from(c@.code, 0),
            Err(errors) => errors@.len() >= 1,
        },
        source@.len() == 0 ==> (r matches Ok(c) && c@.code == seq![opcode_num(OpCode::OpReturn)]),
{
    let scanner = Scanner::new(source);
    let chunk = Chunk::new();
    let mut parser = Parser::new(scanner, chunk);
    proof {
        assert(decodes_from(parser.chunk@.code, 0));
    }

    parser.parse();
    proof {
        assert(parser.chunk@.code.last() == opcode_num(OpCode::OpReturn));
        if parser.chunk@.code.len() == 1 {
            assert(parser.chunk@.code =~= seq![opcode_num(OpCode::OpReturn)]);
        }
    }

    if parser.had_error {
        Err(parser.errors)
    } else {
        Ok(parser.chunk)
    }
}

} // verus!
