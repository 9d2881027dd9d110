//! Shared enumerations of the instruction set, the token kinds, and the
//! parser precedence levels, together with their numeric encodings.

use vstd::prelude::*;

verus! {

/// One-byte instruction tags. The numeric order is fixed by [`opcode_num`]
/// and [`opcode_from_u8`], which must stay inverses of each other so that
/// the compiler's encoder and the virtual machine's decoder agree.
#[derive(Debug, PartialEq, Eq, Copy, Clone, Structural)]
pub enum OpCode {
    OpReturn,
    OpConstant,
    OpConstantLong,
    OpAdd,
    OpSubtract,
    OpMultiply,
    OpDivide,
    OpNegate,
    OpNil,
    OpTrue,
    OpFalse,
    OpNot,
    OpEqual,
    OpGreater,
    OpLess,
    OpPrint,
    OpPop,
    OpDefineGlobal,
    OpDefineGlobalLong,
    OpGetGlobal,
    OpGetGlobalLong,
    OpSetGlobal,
    OpSetGlobalLong,
    OpGetLocal,
    OpGetLocalLong,
    OpSetLocal,
    OpSetLocalLong,
    OpJumpIfFalse,
    OpJump,
    OpLoop,
    Unknown,
}

/// The byte that encodes each opcode in a chunk's code array.
pub open spec fn opcode_num(op: OpCode) -> u8 {
    match op {
        OpCode::OpReturn => 0,
        OpCode::OpConstant => 1,
        OpCode::OpConstantLong => 2,
        OpCode::OpAdd => 3,
        OpCode::OpSubtract => 4,
        OpCode::OpMultiply => 5,
        OpCode::OpDivide => 6,
        OpCode::OpNegate => 7,
        OpCode::OpNil => 8,
        OpCode::OpTrue => 9,
        OpCode::OpFalse => 10,
        OpCode::OpNot => 11,
        OpCode::OpEqual => 12,
        OpCode::OpGreater => 13,
        OpCode::OpLess => 14,
        OpCode::OpPrint => 15,
        OpCode::OpPop => 16,
        OpCode::OpDefineGlobal => 17,
        OpCode::OpDefineGlobalLong => 18,
        OpCode::OpGetGlobal => 19,
        OpCode::OpGetGlobalLong => 20,
        OpCode::OpSetGlobal => 21,
        OpCode::OpSetGlobalLong => 22,
        OpCode::OpGetLocal => 23,
        OpCode::OpGetLocalLong => 24,
        OpCode::OpSetLocal => 25,
        OpCode::OpSetLocalLong => 26,
        OpCode::OpJumpIfFalse => 27,
        OpCode::OpJump => 28,
        OpCode::OpLoop => 29,
        OpCode::Unknown => 255,
    }
}

impl Default for OpCode {
    fn default() -> (r: Self)
        ensures
            r == OpCode::Unknown,
    {
        OpCode::Unknown
    }
}

/// The byte an opcode is written as; inverse of [`opcode_from_u8`].
pub fn opcode_to_u8(op: OpCode) -> (r: u8)
    ensures
        r == opcode_num(op),
{
    match op {
        OpCode::OpReturn => 0,
        OpCode::OpConstant => 1,
        OpCode::OpConstantLong => 2,
        OpCode::OpAdd => 3,
        OpCode::OpSubtract => 4,
        OpCode::OpMultiply => 5,
        OpCode::OpDivide => 6,
        OpCode::OpNegate => 7,
        OpCode::OpNil => 8,
        OpCode::OpTrue => 9,
        OpCode::OpFalse => 10,
        OpCode::OpNot => 11,
        OpCode::OpEqual => 12,
        OpCode::OpGreater => 13,
        OpCode::OpLess => 14,
        OpCode::OpPrint => 15,
        OpCode::OpPop => 16,
        OpCode::OpDefineGlobal => 17,
        OpCode::OpDefineGlobalLong => 18,
        OpCode::OpGetGlobal => 19,
        OpCode::OpGetGlobalLong => 20,
        OpCode::OpSetGlobal => 21,
        OpCode::OpSetGlobalLong => 22,
        OpCode::OpGetLocal => 23,
        OpCode::OpGetLocalLong => 24,
        OpCode::OpSetLocal => 25,
        OpCode::OpSetLocalLong => 26,
        OpCode::OpJumpIfFalse => 27,
        OpCode::OpJump => 28,
        OpCode::OpLoop => 29,
        OpCode::Unknown => 255,
    }
}

/// Decodes an instruction byte. Returns the opcode whose encoding is `n`,
/// or `None` when `n` names no instruction.
pub fn opcode_from_u8(n: u8) -> (r: Option<OpCode>)
    ensures
        match r {
            Some(op) => opcode_num(op) == n && op != OpCode::Unknown,
            None => n > 29,
        },
{
    match n {
        0 => Some(OpCode::OpReturn),
        1 => Some(OpCode::OpConstant),
        2 => Some(OpCode::OpConstantLong),
        3 => Some(OpCode::OpAdd),
        4 => Some(OpCode::OpSubtract),
        5 => Some(OpCode::OpMultiply),
        6 => Some(OpCode::OpDivide),
        7 => Some(OpCode::OpNegate),
        8 => Some(OpCode::OpNil),
        9 => Some(OpCode::OpTrue),
        10 => Some(OpCode::OpFalse),
        11 => Some(OpCode::OpNot),
        12 => Some(OpCode::OpEqual),
        13 => Some(OpCode::OpGreater),
        14 => Some(OpCode::OpLess),
        15 => Some(OpCode::OpPrint),
        16 => Some(OpCode::OpPop),
        17 => Some(OpCode::OpDefineGlobal),
        18 => Some(OpCode::OpDefineGlobalLong),
        19 => Some(OpCode::OpGetGlobal),
        20 => Some(OpCode::OpGetGlobalLong),
        21 => Some(OpCode::OpSetGlobal),
        22 => Some(OpCode::OpSetGlobalLong),
        23 => Some(OpCode::OpGetLocal),
        24 => Some(OpCode::OpGetLocalLong),
        25 => Some(OpCode::OpSetLocal),
        26 => Some(OpCode::OpSetLocalLong),
        27 => Some(OpCode::OpJumpIfFalse),
        28 => Some(OpCode::OpJump),
        29 => Some(OpCode::OpLoop),
        _ => None,
    }
}

/// Token kinds produced by the scanner.
#[derive(Debug, Eq, Copy, Clone, PartialEq, Hash, Structural)]
pub enum TokenType {
    // Single-character tokens.
    TokenLeftParen,
    TokenRightParen,
    TokenLeftBrace,
    TokenRightBrace,
    TokenComma,
    TokenDot,
    TokenMinus,
    TokenPlus,
    TokenSemicolon,
    TokenSlash,
    TokenStar,
    // One or two character tokens.
    TokenBang,
    TokenBangEqual,
    TokenEqual,
    TokenEqualEqual,
    TokenGreater,
    TokenGreaterEqual,
    TokenLess,
    TokenLessEqual,
    // Literals.
    TokenIdentifier,
    TokenString,
    TokenNumber,
    // Keywords.
    TokenAnd,
    TokenClass,
    TokenElse,
    TokenFalse,
    TokenFor,
    TokenFun,
    TokenIf,
    TokenNil,
    TokenOr,
    TokenPrint,
    TokenReturn,
    TokenSuper,
    TokenThis,
    TokenTrue,
    TokenVar,
    TokenWhile,
    TokenError,
    TokenEof,
    Unknown,
}

impl Default for TokenType {
    fn default() -> (r: Self)
        ensures
            r == TokenType::Unknown,
    {
        TokenType::Unknown
    }
}

/// Binding strengths of the Pratt parser, in ascending order.
#[derive(Debug, PartialEq, Eq, Copy, Clone, Structural)]
pub enum Precedence {
    Lowest,
    Assignment,
    Or,
    And,
    Equality,
    Comparison,
    Term,
    Factor,
    Unary,
    Call,
    Primary,
    Unknown,
}

/// The rank of a precedence level; higher binds tighter.
pub open spec fn precedence_num(p: Precedence) -> u8 {
    match p {
        Precedence::Lowest => 0,
        Precedence::Assignment => 1,
        Precedence::Or => 2,
        Precedence::And => 3,
        Precedence::Equality => 4,
        Precedence::Comparison => 5,
        Precedence::Term => 6,
        Precedence::Factor => 7,
        Precedence::Unary => 8,
        Precedence::Call => 9,
        Precedence::Primary => 10,
        Precedence::Unknown => 255,
    }
}

impl Default for Precedence {
    fn default() -> (r: Self)
        ensures
            r == Precedence::Unknown,
    {
        Precedence::Unknown
    }
}

/// The rank of a precedence level; inverse of [`precedence_from_u8`].
pub fn precedence_to_u8(p: Precedence) -> (r: u8)
    ensures
        r == precedence_num(p),
{
    match p {
        Precedence::Lowest => 0,
        Precedence::Assignment => 1,
        Precedence::Or => 2,
        Precedence::And => 3,
        Precedence::Equality => 4,
        Precedence::Comparison => 5,
        Precedence::Term => 6,
        Precedence::Factor => 7,
        Precedence::Unary => 8,
        Precedence::Call => 9,
        Precedence::Primary => 10,
        Precedence::Unknown => 255,
    }
}

/// Returns the precedence level of rank `n`, or `None` when no level has
/// that rank.
pub fn precedence_from_u8(n: u8) -> (r: Option<Precedence>)
    ensures
        match r {
            Some(p) => precedence_num(p) == n && p != Precedence::Unknown,
            None => n > 10,
        },
{
    match n {
        0 => Some(Precedence::Lowest),
        1 => Some(Precedence::Assignment),
        2 => Some(Precedence::Or),
        3 => Some(Precedence::And),
        4 => Some(Precedence::Equality),
        5 => Some(Precedence::Comparison),
        6 => Some(Precedence::Term),
        7 => Some(Precedence::Factor),
        8 => Some(Precedence::Unary),
        9 => Some(Precedence::Call),
        10 => Some(Precedence::Primary),
        _ => None,
    }
}

} // verus!

