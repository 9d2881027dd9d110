//! The scanner: turns source bytes into tokens, one per call.
//!
//! Source text is a byte sequence; identifiers and keywords are made of
//! ASCII letters and digits. The scanner skips spaces, carriage returns,
//! tabs, newlines and `//` line comments, and counts lines. At end of
//! input it returns an end-of-file token, and keeps doing so on every
//! further call. Its only failure mode is an error token, whose lexeme
//! carries the message.

use vstd::prelude::*;

use crate::common::TokenType;

verus! {

/// An ASCII decimal digit.
pub open spec fn is_digit(c: u8) -> bool {
    48 <= c <= 57
}

/// An ASCII letter or underscore: what may start or continue an
/// identifier.
pub open spec fn is_alpha(c: u8) -> bool {
    (65 <= c <= 90) || (97 <= c <= 122) || c == 95
}

/// The bytes of the sixteen reserved words.
pub open spec fn kw_and() -> Seq<u8> {
    seq![97u8, 110u8, 100u8]
}

pub open spec fn kw_class() -> Seq<u8> {
    seq![99u8, 108u8, 97u8, 115u8, 115u8]
}

pub open spec fn kw_else() -> Seq<u8> {
    seq![101u8, 108u8, 115u8, 101u8]
}

pub open spec fn kw_false() -> Seq<u8> {
    seq![102u8, 97u8, 108u8, 115u8, 101u8]
}

pub open spec fn kw_for() -> Seq<u8> {
    seq![102u8, 111u8, 114u8]
}

pub open spec fn kw_fun() -> Seq<u8> {
    seq![102u8, 117u8, 110u8]
}

pub open spec fn kw_if() -> Seq<u8> {
    seq![105u8, 102u8]
}

pub open spec fn kw_nil() -> Seq<u8> {
    seq![110u8, 105u8, 108u8]
}

pub open spec fn kw_or() -> Seq<u8> {
    seq![111u8, 114u8]
}

pub open spec fn kw_print() -> Seq<u8> {
    seq![112u8, 114u8, 105u8, 110u8, 116u8]
}

pub open spec fn kw_return() -> Seq<u8> {
    seq![114u8, 101u8, 116u8, 117u8, 114u8, 110u8]
}

pub open spec fn kw_super() -> Seq<u8> {
    seq![115u8, 117u8, 112u8, 101u8, 114u8]
}

pub open spec fn kw_this() -> Seq<u8> {
    seq![116u8, 104u8, 105u8, 115u8]
}

pub open spec fn kw_true() -> Seq<u8> {
    seq![116u8, 114u8, 117u8, 101u8]
}

pub open spec fn kw_var() -> Seq<u8> {
    seq![118u8, 97u8, 114u8]
}

pub open spec fn kw_while() -> Seq<u8> {
    seq![119u8, 104u8, 105u8, 108u8, 101u8]
}

/// The kind of a word that starts with a letter: one of the sixteen
/// reserved words, or an identifier.
pub open spec fn keyword_or_identifier(s: Seq<u8>) -> TokenType {
    if s == kw_and() {
        TokenType::TokenAnd
    } else if s == kw_class() {
        TokenType::TokenClass
    } else if s == kw_else() {
        TokenType::TokenElse
    } else if s == kw_false() {
        TokenType::TokenFalse
    } else if s == kw_for() {
        TokenType::TokenFor
    } else if s == kw_fun() {
        TokenType::TokenFun
    } else if s == kw_if() {
        TokenType::TokenIf
    } else if s == kw_nil() {
        TokenType::TokenNil
    } else if s == kw_or() {
        TokenType::TokenOr
    } else if s == kw_print() {
        TokenType::TokenPrint
    } else if s == kw_return() {
        TokenType::TokenReturn
    } else if s == kw_super() {
        TokenType::TokenSuper
    } else if s == kw_this() {
        TokenType::TokenThis
    } else if s == kw_true() {
        TokenType::TokenTrue
    } else if s == kw_var() {
        TokenType::TokenVar
    } else if s == kw_while() {
        TokenType::TokenWhile
    } else {
        TokenType::TokenIdentifier
    }
}

/// The kind of a one-character punctuation lexeme.
pub open spec fn single_char_kind(c: u8) -> TokenType {
    if c == 40 {
        TokenType::TokenLeftParen
    } else if c == 41 {
        TokenType::TokenRightParen
    } else if c == 123 {
        TokenType::TokenLeftBrace
    } else if c == 125 {
        TokenType::TokenRightBrace
    } else if c == 59 {
        TokenType::TokenSemicolon
    } else if c == 44 {
        TokenType::TokenComma
    } else if c == 46 {
        TokenType::TokenDot
    } else if c == 45 {
        TokenType::TokenMinus
    } else if c == 43 {
        TokenType::TokenPlus
    } else if c == 47 {
        TokenType::TokenSlash
    } else if c == 42 {
        TokenType::TokenStar
    } else if c == 33 {
        TokenType::TokenBang
    } else if c == 61 {
        TokenType::TokenEqual
    } else if c == 60 {
        TokenType::TokenLess
    } else if c == 62 {
        TokenType::TokenGreater
    } else {
        TokenType::Unknown
    }
}

/// The kind of a two-character lexeme whose second byte is `=`.
pub open spec fn two_char_kind(c: u8) -> TokenType {
    if c == 33 {
        TokenType::TokenBangEqual
    } else if c == 61 {
        TokenType::TokenEqualEqual
    } else if c == 60 {
        TokenType::TokenLessEqual
    } else if c == 62 {
        TokenType::TokenGreaterEqual
    } else {
        TokenType::Unknown
    }
}

/// The kind a lexeme scans as, read off the lexeme itself: this is the
/// round-trip map that ties a produced token back to its text.
pub open spec fn token_kind_of(s: Seq<u8>) -> TokenType {
    if s.len() == 0 {
        TokenType::TokenEof
    } else if is_alpha(s[0]) {
        keyword_or_identifier(s)
    } else if is_digit(s[0]) {
        TokenType::TokenNumber
    } else if s[0] == 34 {
        TokenType::TokenString
    } else if s.len() == 1 {
        single_char_kind(s[0])
    } else if s.len() == 2 && s[1] == 61 {
        two_char_kind(s[0])
    } else {
        TokenType::Unknown
    }
}

/// A token: its kind, the bytes of its lexeme (for an error token, the
/// message), and the source line it ends on.
pub struct Token {
    pub token_type: TokenType,
    pub lexeme: Vec<u8>,
    pub line: i32,
}

impl Clone for Token {
    /// Cloning preserves kind, lexeme and line.
    fn clone(&self) -> (r: Self)
        ensures
            r.token_type == self.token_type,
            r.lexeme@ == self.lexeme@,
            r.line == self.line,
    {
        Token { token_type: self.token_type, lexeme: self.lexeme.clone(), line: self.line }
    }
}

/// Whether position `i` of `src` starts nothing skippable: it is the end
/// of input, or a byte that is neither whitespace nor the start of a
/// `//` comment.
pub open spec fn done_skipping(src: Seq<u8>, i: int) -> bool {
    i == src.len() || {
        let c = src[i];
        &&& c != 32  // space
        &&& c != 13  // carriage return
        &&& c != 9  // tab
        &&& c != 10  // newline
        &&& !(c == 47 && i + 1 < src.len() && src[i + 1] == 47)  // comment
    }
}

/// Where skipping from position `i` stops: past whitespace, and, with
/// `in_comment` set, past the rest of a `//` comment up to and including
/// its newline. The first byte of the next token, or the end of input.
pub open spec fn skip_pos_from(src: Seq<u8>, i: int, in_comment: bool) -> int
    decreases src.len() - i,
{
    if !(0 <= i < src.len()) {
        src.len() as int
    } else if in_comment {
        if src[i] == 10 {
            skip_pos_from(src, i + 1, false)
        } else {
            skip_pos_from(src, i + 1, true)
        }
    } else if src[i] == 32 || src[i] == 13 || src[i] == 9 || src[i] == 10 {
        skip_pos_from(src, i + 1, false)
    } else if src[i] == 47 && i + 1 < src.len() && src[i + 1] == 47 {
        skip_pos_from(src, i + 2, true)
    } else {
        i
    }
}

/// The first byte at or after `i` that is not whitespace and not inside
/// a `//` comment: where the next token starts.
pub open spec fn skip_pos(src: Seq<u8>, i: int) -> int {
    skip_pos_from(src, i, false)
}

/// The position of the first quote byte at or after `i`, or the end of
/// input when none follows: where a string literal opened before `i`
/// closes.
pub open spec fn quote_pos(src: Seq<u8>, i: int) -> int
    decreases src.len() - i,
{
    if !(0 <= i < src.len()) {
        src.len() as int
    } else if src[i] == 34 {
        i
    } else {
        quote_pos(src, i + 1)
    }
}

/// A quote position never lies past the end of input.
proof fn lemma_quote_pos_bound(src: Seq<u8>, i: int)
    requires
        0 <= i,
    ensures
        quote_pos(src, i) <= src.len(),
    decreases src.len() - i,
{
    if 0 <= i < src.len() && src[i] != 34 {
        lemma_quote_pos_bound(src, i + 1);
    }
}

/// How many newlines `src` holds in the span `[i, j)`.
pub open spec fn newline_count(src: Seq<u8>, i: int, j: int) -> int
    decreases j - i,
{
    if i >= j {
        0
    } else {
        newline_count(src, i, j - 1) + (if src[j - 1] == 10 {
            1int
        } else {
            0
        })
    }
}

/// Newlines over a span split at `j` are the newlines of the two parts.
pub proof fn lemma_newline_count_concat(src: Seq<u8>, i: int, j: int, k: int)
    requires
        i <= j <= k,
    ensures
        newline_count(src, i, k) == newline_count(src, i, j) + newline_count(src, j, k),
    decreases k - j,
{
    if j < k {
        lemma_newline_count_concat(src, i, j, k - 1);
    }
}

/// The scanner's cursors over the source bytes: `start` marks the first
/// byte of the token being scanned, `current` the next byte to read.
pub struct Scanner {
    pub source: Vec<u8>,
    pub start: usize,
    pub current: usize,
    pub line: i32,
}

impl Scanner {
    /// Cursors are ordered and in range, and the line counter cannot
    /// overflow: it grows by at most one per byte passed.
    pub open spec fn wf(&self) -> bool {
        &&& self.start <= self.current <= self.source@.len()
        &&& self.source@.len() < 0x7fff_0000
        &&& 1 <= self.line <= 1 + self.current
    }

    /// A scanner at the beginning of `source`.
    pub fn new(source: Vec<u8>) -> (r: Self)
        requires
            source@.len() < 0x7fff_0000,
        ensures
            r.wf(),
            r.source@ == source@,
            r.start == 0,
            r.current == 0,
            r.line == 1,
    {
        Scanner { source, start: 0, current: 0, line: 1 }
    }

    /// A scanner at the beginning of `source`.
    pub fn init_scanner(source: Vec<u8>) -> (r: Self)
        requires
            source@.len() < 0x7fff_0000,
        ensures
            r.wf(),
            r.source@ == source@,
            r.start == 0,
            r.current == 0,
            r.line == 1,
    {
        Scanner::new(source)
    }

    /// Whether the whole source has been consumed.
    pub fn is_at_end(&self) -> (r: bool)
        ensures
            r == (self.current >= self.source@.len()),
    {
        self.current >= self.source.len()
    }

    /// Consumes and returns the next byte.
    fn advance(&mut self) -> (c: u8)
        requires
            old(self).wf(),
            old(self).current < old(self).source@.len(),
        ensures
            final(self).wf(),
            c == old(self).source@[old(self).current as int],
            final(self).current == old(self).current + 1,
            final(self).start == old(self).start,
            final(self).line == old(self).line,
            final(self).source@ == old(self).source@,
    {
        self.current = self.current + 1;
        self.source[self.current - 1]
    }

    /// The next byte, or 0 at end of input.
    fn peek(&self) -> (c: u8)
        requires
            self.wf(),
        ensures
            self.current < self.source@.len() ==> c == self.source@[self.current as int],
            self.current == self.source@.len() ==> c == 0,
    {
        if self.is_at_end() {
            return 0;
        }
        self.source[self.current]
    }

    /// The byte after the next one, or 0 when none exists.
    fn peek_next(&self) -> (c: u8)
        requires
            self.wf(),
        ensures
            self.current + 1 < self.source@.len() ==> c == self.source@[self.current + 1],
            self.current + 1 >= self.source@.len() ==> c == 0,
    {
        if self.current + 1 >= self.source.len() {
            return 0;
        }
        self.source[self.current + 1]
    }

    /// Consumes the next byte when it equals `expected`.
    fn match_token(&mut self, expected: u8) -> (r: bool)
        requires
            old(self).wf(),
        ensures
            final(self).wf(),
            r == (old(self).current < old(self).source@.len() && old(self).source@[old(self).current as int] == expected),
            r ==> final(self).current == old(self).current + 1,
            !r ==> final(self).current == old(self).current,
            final(self).start == old(self).start,
            final(self).line == old(self).line,
            final(self).source@ == old(self).source@,
    {
        if self.is_at_end() {
            return false;
        }
        if self.source[self.current] != expected {
            return false;
        }
        self.current = self.current + 1;
        true
    }

    /// Skips whitespace and `//` comments, counting newlines: stops at
    /// exactly [`skip_pos`], the first byte of the next token (or the end
    /// of input), with the line counter advanced by the newlines passed.
    fn skip_whitespace(&mut self)
        requires
            old(self).wf(),
        ensures
            final(self).wf(),
            final(self).source@ == old(self).source@,
            final(self).start == old(self).start,
            final(self).current >= old(self).current,
            final(self).current == skip_pos(old(self).source@, old(self).current as int),
            done_skipping(final(self).source@, final(self).current as int),
            final(self).line == old(self).line + newline_count(
                old(self).source@,
                old(self).current as int,
                final(self).current as int,
            ),
    {
        let ghost src = old(self).source@;
        let ghost from = old(self).current as int;
        loop
            invariant
                self.wf(),
                src == old(self).source@,
                from == old(self).current as int,
                self.source@ == src,
                self.start == old(self).start,
                self.current >= old(self).current,
                skip_pos(src, from) == skip_pos_from(src, self.current as int, false),
                self.line == old(self).line + newline_count(src, from, self.current as int),
            decreases self.source@.len() - self.current,
        {
            let c = self.peek();
            if c == 32 || c == 13 || c == 9 {
                self.advance();
            } else if c == 10 {
                self.advance();
                self.line = self.line + 1;
            } else if c == 47 {
                if self.peek_next() == 47 {
                    // A comment: consume both slashes, then everything up
                    // to the end of the line (the newline itself is
                    // ordinary whitespace for the next turn of the loop).
                    self.advance();
                    self.advance();
                    let ghost mark: int = self.current as int;
                    proof {
                        assert(src[mark - 1] == 47 && src[mark - 2] == 47);
                        assert(newline_count(src, from, mark) == newline_count(
                            src,
                            from,
                            mark - 1,
                        ));
                        assert(newline_count(src, from, mark - 1) == newline_count(
                            src,
                            from,
                            mark - 2,
                        ));
                    }
                    while self.peek() != 10 && !self.is_at_end()
                        invariant
                            self.wf(),
                            src == old(self).source@,
                            from == old(self).current as int,
                            self.source@ == src,
                            self.start == old(self).start,
                            self.current >= mark,
                            mark >= old(self).current,
                            skip_pos(src, from) == skip_pos_from(src, self.current as int, true),
                            self.line == old(self).line + newline_count(
                                src,
                                from,
                                self.current as int,
                            ),
                        decreases self.source@.len() - self.current,
                    {
                        self.advance();
                    }
                    proof {
                        if (self.current as int) < src.len() {
                            assert(src[self.current as int] == 10);
                            assert(skip_pos_from(src, self.current as int, true)
                                == skip_pos_from(src, self.current + 1 as int, false));
                        }
                    }
                } else {
                    return ;
                }
            } else {
                return ;
            }
        }
    }

    /// Builds a token of the given kind whose lexeme is the text between
    /// the two cursors.
    fn make_token(&self, token_type: TokenType) -> (t: Token)
        requires
            self.wf(),
        ensures
            t.token_type == token_type,
            t.lexeme@ == self.source@.subrange(self.start as int, self.current as int),
            t.line == self.line,
    {
        let mut lexeme: Vec<u8> = Vec::new();
        let mut i: usize = self.start;
        while i < self.current
            invariant
                self.wf(),
                self.start <= i <= self.current,
                lexeme@ == self.source@.subrange(self.start as int, i as int),
            decreases self.current - i,
        {
            lexeme.push(self.source[i]);
            proof {
                assert(lexeme@ =~= self.source@.subrange(self.start as int, i + 1 as int));
            }
            i = i + 1;
        }
        Token { token_type, lexeme, line: self.line }
    }

    /// Builds an error token carrying `message` as its lexeme.
    fn error_token(&self, message: Vec<u8>) -> (t: Token)
        ensures
            t.token_type == TokenType::TokenError,
            t.lexeme@ == message@,
            t.line == self.line,
    {
        Token { token_type: TokenType::TokenError, lexeme: message, line: self.line }
    }

    /// Compares the tail of the word being scanned against `rest`; when the
    /// word is exactly `offset` bytes plus `rest`, it is the keyword of the
    /// given kind, otherwise an identifier.
    fn check_keyword(&self, offset: usize, rest: &[u8], token_type: TokenType) -> (r: TokenType)
        requires
            self.wf(),
            self.start + offset <= self.current,
            offset + rest@.len() < 0x1000,
        ensures
            r == (if self.current - self.start == offset + rest@.len() && self.source@.subrange(
                self.start + offset,
                self.current as int,
            ) == rest@ {
                token_type
            } else {
                TokenType::TokenIdentifier
            }),
    {
        if self.current - self.start != offset + rest.len() {
            return TokenType::TokenIdentifier;
        }
        let mut i: usize = 0;
        while i < rest.len()
            invariant
                self.wf(),
                self.start + offset + rest@.len() == self.current,
                i <= rest@.len(),
                forall|j: int|
                    0 <= j < i ==> self.source@[self.start + offset + j] == rest@[j],
            decreases rest@.len() - i,
        {
            if self.source[self.start + offset + i] != rest[i] {
                proof {
                    assert(self.source@.subrange(self.start + offset, self.current as int)[i as int]
                        == self.source@[self.start + offset + i]);
                }
                return TokenType::TokenIdentifier;
            }
            i = i + 1;
        }
        proof {
            assert(self.source@.subrange(self.start + offset, self.current as int) =~= rest@);
        }
        token_type
    }

    /// Classifies the word between the cursors: a hand-rolled trie over the
    /// first one or two bytes picks the only keyword the word could be, and
    /// `check_keyword` settles it.
    fn identifier_type(&self) -> (r: TokenType)
        requires
            self.wf(),
            self.start < self.current,
        ensures
            r == keyword_or_identifier(
                self.source@.subrange(self.start as int, self.current as int),
            ),
    {
        let ghost src = self.source@;
        let ghost lo = self.start as int;
        let ghost hi = self.current as int;
        let ghost s = src.subrange(lo, hi);
        proof {
            lemma_subrange_index(src, lo, hi);
            assert(s[0] == src[lo]);
        }
        match self.source[self.start] {
            97 => {
                let rest: &[u8] = &[110, 100];
                let r = self.check_keyword(1, rest, TokenType::TokenAnd);
                proof {
                    assert(rest@ =~= kw_and().subrange(1, 3));
                    lemma_tail_decides(src, lo, hi, 1, kw_and());
                }
                r
            },
            99 => {
                let rest: &[u8] = &[108, 97, 115, 115];
                let r = self.check_keyword(1, rest, TokenType::TokenClass);
                proof {
                    assert(rest@ =~= kw_class().subrange(1, 5));
                    lemma_tail_decides(src, lo, hi, 1, kw_class());
                }
                r
            },
            101 => {
                let rest: &[u8] = &[108, 115, 101];
                let r = self.check_keyword(1, rest, TokenType::TokenElse);
                proof {
                    assert(rest@ =~= kw_else().subrange(1, 4));
                    lemma_tail_decides(src, lo, hi, 1, kw_else());
                }
                r
            },
            102 => {
                if self.current - self.start > 1 {
                    proof {
                        assert(s[1] == src[lo + 1]);
                    }
                    match self.source[self.start + 1] {
                        97 => {
                            let rest: &[u8] = &[108, 115, 101];
                            let r = self.check_keyword(2, rest, TokenType::TokenFalse);
                            proof {
                                assert(rest@ =~= kw_false().subrange(2, 5));
                                lemma_tail_decides(src, lo, hi, 2, kw_false());
                            }
                            r
                        },
                        111 => {
                            let rest: &[u8] = &[114];
                            let r = self.check_keyword(2, rest, TokenType::TokenFor);
                            proof {
                                assert(rest@ =~= kw_for().subrange(2, 3));
                                lemma_tail_decides(src, lo, hi, 2, kw_for());
                            }
                            r
                        },
                        117 => {
                            let rest: &[u8] = &[110];
                            let r = self.check_keyword(2, rest, TokenType::TokenFun);
                            proof {
                                assert(rest@ =~= kw_fun().subrange(2, 3));
                                lemma_tail_decides(src, lo, hi, 2, kw_fun());
                            }
                            r
                        },
                        _ => TokenType::TokenIdentifier,
                    }
                } else {
                    TokenType::TokenIdentifier
                }
            },
            105 => {
                let rest: &[u8] = &[102];
                let r = self.check_keyword(1, rest, TokenType::TokenIf);
                proof {
                    assert(rest@ =~= kw_if().subrange(1, 2));
                    lemma_tail_decides(src, lo, hi, 1, kw_if());
                }
                r
            },
            110 => {
                let rest: &[u8] = &[105, 108];
                let r = self.check_keyword(1, rest, TokenType::TokenNil);
                proof {
                    assert(rest@ =~= kw_nil().subrange(1, 3));
                    lemma_tail_decides(src, lo, hi, 1, kw_nil());
                }
                r
            },
            111 => {
                let rest: &[u8] = &[114];
                let r = self.check_keyword(1, rest, TokenType::TokenOr);
                proof {
                    assert(rest@ =~= kw_or().subrange(1, 2));
                    lemma_tail_decides(src, lo, hi, 1, kw_or());
                }
                r
            },
            112 => {
                let rest: &[u8] = &[114, 105, 110, 116];
                let r = self.check_keyword(1, rest, TokenType::TokenPrint);
                proof {
                    assert(rest@ =~= kw_print().subrange(1, 5));
                    lemma_tail_decides(src, lo, hi, 1, kw_print());
                }
                r
            },
            114 => {
                let rest: &[u8] = &[101, 116, 117, 114, 110];
                let r = self.check_keyword(1, rest, TokenType::TokenReturn);
                proof {
                    assert(rest@ =~= kw_return().subrange(1, 6));
                    lemma_tail_decides(src, lo, hi, 1, kw_return());
                }
                r
            },
            115 => {
                let rest: &[u8] = &[117, 112, 101, 114];
                let r = self.check_keyword(1, rest, TokenType::TokenSuper);
                proof {
                    assert(rest@ =~= kw_super().subrange(1, 5));
                    lemma_tail_decides(src, lo, hi, 1, kw_super());
                }
                r
            },
            116 => {
                if self.current - self.start > 1 {
                    proof {
                        assert(s[1] == src[lo + 1]);
                    }
                    match self.source[self.start + 1] {
                        104 => {
                            let rest: &[u8] = &[105, 115];
                            let r = self.check_keyword(2, rest, TokenType::TokenThis);
                            proof {
                                assert(rest@ =~= kw_this().subrange(2, 4));
                                lemma_tail_decides(src, lo, hi, 2, kw_this());
                            }
                            r
                        },
                        114 => {
                            let rest: &[u8] = &[117, 101];
                            let r = self.check_keyword(2, rest, TokenType::TokenTrue);
                            proof {
                                assert(rest@ =~= kw_true().subrange(2, 4));
                                lemma_tail_decides(src, lo, hi, 2, kw_true());
                            }
                            r
                        },
                        _ => TokenType::TokenIdentifier,
                    }
                } else {
                    TokenType::TokenIdentifier
                }
            },
            118 => {
                let rest: &[u8] = &[97, 114];
                let r = self.check_keyword(1, rest, TokenType::TokenVar);
                proof {
                    assert(rest@ =~= kw_var().subrange(1, 3));
                    lemma_tail_decides(src, lo, hi, 1, kw_var());
                }
                r
            },
            119 => {
                let rest: &[u8] = &[104, 105, 108, 101];
                let r = self.check_keyword(1, rest, TokenType::TokenWhile);
                proof {
                    assert(rest@ =~= kw_while().subrange(1, 5));
                    lemma_tail_decides(src, lo, hi, 1, kw_while());
                }
                r
            },
            _ => TokenType::TokenIdentifier,
        }
    }

    /// Scans the tail of an identifier or keyword and classifies it.
    fn identifier(&mut self) -> (t: Token)
        requires
            old(self).wf(),
            old(self).start < old(self).current,
        ensures
            final(self).wf(),
            final(self).source@ == old(self).source@,
            final(self).start == old(self).start,
            final(self).line == old(self).line,
            final(self).current >= old(self).current,
            t.line == final(self).line,
            t.lexeme@ == final(self).source@.subrange(
                final(self).start as int,
                final(self).current as int,
            ),
            t.token_type == keyword_or_identifier(t.lexeme@),
            final(self).current == final(self).source@.len() || !(is_alpha(
                final(self).source@[final(self).current as int],
            ) || is_digit(final(self).source@[final(self).current as int])),
            newline_count(final(self).source@, old(self).current as int, final(self).current as int)
                == 0,
    {
        loop
            invariant
                self.wf(),
                self.source@ == old(self).source@,
                self.start == old(self).start,
                self.line == old(self).line,
                old(self).start < self.current,
                self.current >= old(self).current,
                newline_count(self.source@, old(self).current as int, self.current as int) == 0,
            ensures
                self.current == self.source@.len() || !(is_alpha(
                    self.source@[self.current as int],
                ) || is_digit(self.source@[self.current as int])),
            decreases self.source@.len() - self.current,
        {
            let c = self.peek();
            if (is_alpha_byte(c) || is_digit_byte(c)) && !self.is_at_end() {
                self.advance();
            } else {
                break ;
            }
        }
        let id = self.identifier_type();
        self.make_token(id)
    }

    /// Scans the tail of a number: digits, optionally a dot followed by
    /// more digits.
    fn number(&mut self) -> (t: Token)
        requires
            old(self).wf(),
            old(self).start < old(self).current,
        ensures
            final(self).wf(),
            final(self).source@ == old(self).source@,
            final(self).start == old(self).start,
            final(self).line == old(self).line,
            final(self).current >= old(self).current,
            t.token_type == TokenType::TokenNumber,
            t.line == final(self).line,
            t.lexeme@ == final(self).source@.subrange(
                final(self).start as int,
                final(self).current as int,
            ),
            final(self).current == final(self).source@.len() || !is_digit(
                final(self).source@[final(self).current as int],
            ),
            newline_count(final(self).source@, old(self).current as int, final(self).current as int)
                == 0,
            // Maximal fraction: when a dot and a digit follow the token,
            // the token already holds its one dot.
            (final(self).current + 1 < final(self).source@.len() && final(self).source@[final(self).current as int] == 46 && is_digit(final(self).source@[final(self).current + 1]))
                ==> exists|k: int|
                old(self).start <= k < final(self).current && final(self).source@[k] == 46,
    {
        loop
            invariant
                self.wf(),
                self.source@ == old(self).source@,
                self.start == old(self).start,
                self.line == old(self).line,
                old(self).start < self.current,
                self.current >= old(self).current,
                newline_count(self.source@, old(self).current as int, self.current as int) == 0,
            ensures
                self.current == self.source@.len() || !is_digit(
                    self.source@[self.current as int],
                ),
            decreases self.source@.len() - self.current,
        {
            if is_digit_byte(self.peek()) && !self.is_at_end() {
                self.advance();
            } else {
                break ;
            }
        }

        // Look for a fractional part.
        if self.peek() == 46 && is_digit_byte(self.peek_next()) {
            let ghost dot = self.current as int;
            // Consume the dot.
            self.advance();

            loop
                invariant
                    self.wf(),
                    self.source@ == old(self).source@,
                    self.start == old(self).start,
                    self.line == old(self).line,
                    old(self).start < self.current,
                    self.current >= old(self).current,
                    old(self).start <= dot < self.current,
                    self.source@[dot] == 46,
                    newline_count(self.source@, old(self).current as int, self.current as int)
                        == 0,
                ensures
                    self.current == self.source@.len() || !is_digit(
                        self.source@[self.current as int],
                    ),
                decreases self.source@.len() - self.current,
            {
                if is_digit_byte(self.peek()) && !self.is_at_end() {
                    self.advance();
                } else {
                    break ;
                }
            }
        }

        self.make_token(TokenType::TokenNumber)
    }

    /// Scans a string literal to its closing quote, the first quote after
    /// the opening one: a string token exactly that long when the quote
    /// exists, and otherwise — the scanner's one other failure mode — the
    /// unterminated-string error token.
    fn string(&mut self) -> (t: Token)
        requires
            old(self).wf(),
            old(self).current == old(self).start + 1,
            old(self).source@[old(self).start as int] == 34,
        ensures
            final(self).wf(),
            final(self).source@ == old(self).source@,
            final(self).start == old(self).start,
            final(self).current >= old(self).current,
            t.line == final(self).line,
            quote_pos(final(self).source@, old(self).current as int) < final(self).source@.len()
                ==> t.token_type == TokenType::TokenString && final(self).current == quote_pos(
                final(self).source@,
                old(self).current as int,
            ) + 1,
            quote_pos(final(self).source@, old(self).current as int) == final(self).source@.len()
                ==> t.token_type == TokenType::TokenError,
            t.token_type == TokenType::TokenString || t.token_type == TokenType::TokenError,
            t.token_type == TokenType::TokenString ==> t.lexeme@ == final(self).source@.subrange(final(self).start as int, final(self).current as int),
            t.token_type == TokenType::TokenError ==> t.lexeme@ == unterminated_string_message()
                && final(self).current == final(self).source@.len() && quote_pos(
                final(self).source@,
                old(self).current as int,
            ) == final(self).source@.len(),
            final(self).line == old(self).line + newline_count(
                final(self).source@,
                old(self).current as int,
                final(self).current as int,
            ),
    {
        loop
            invariant
                self.wf(),
                self.source@ == old(self).source@,
                self.start == old(self).start,
                old(self).start < self.current,
                self.current >= old(self).current,
                self.line == old(self).line + newline_count(
                    self.source@,
                    old(self).current as int,
                    self.current as int,
                ),
                quote_pos(self.source@, old(self).current as int) == quote_pos(
                    self.source@,
                    self.current as int,
                ),
            ensures
                self.current == self.source@.len() || self.source@[self.current as int] == 34,
                quote_pos(self.source@, old(self).current as int) == quote_pos(
                    self.source@,
                    self.current as int,
                ),
            decreases self.source@.len() - self.current,
        {
            if self.peek() != 34 && !self.is_at_end() {
                let ch = self.advance();
                if ch == 10 {
                    self.line = self.line + 1;
                }
            } else {
                break ;
            }
        }

        if self.is_at_end() {
            let mut message: Vec<u8> = Vec::new();
            message.push(85);  // U
            message.push(110);  // n
            message.push(116);  // t
            message.push(101);  // e
            message.push(114);  // r
            message.push(109);  // m
            message.push(105);  // i
            message.push(110);  // n
            message.push(97);  // a
            message.push(116);  // t
            message.push(101);  // e
            message.push(100);  // d
            message.push(32);  //
            message.push(115);  // s
            message.push(116);  // t
            message.push(114);  // r
            message.push(105);  // i
            message.push(110);  // n
            message.push(103);  // g
            message.push(46);  // .
            proof {
                assert(message@ =~= unterminated_string_message());
            }
            return self.error_token(message);
        }

        // The closing quote.
        let ghost before = self.current as int;
        self.advance();
        proof {
            assert(self.source@[before] == 34);
            assert(newline_count(self.source@, old(self).current as int, before + 1)
                == newline_count(self.source@, old(self).current as int, before));
        }
        self.make_token(TokenType::TokenString)
    }

    /// Returns the next token. After the end of input this always returns
    /// an end-of-file token and leaves the scanner unchanged, so scanning
    /// past the end any number of times keeps yielding end-of-file.
    pub fn scan_token(&mut self) -> (t: Token)
        requires
            old(self).wf(),
        ensures
            final(self).wf(),
            final(self).source@ == old(self).source@,
            final(self).current >= old(self).current,
            // The token's text is the scanned span, except for error tokens,
            // which carry a message instead.
            t.token_type != TokenType::TokenError ==> t.lexeme@ == final(self).source@.subrange(
                final(self).start as int,
                final(self).current as int,
            ),
            // The token starts at the first byte at or after the old cursor
            // that is not whitespace and not inside a comment.
            final(self).start == skip_pos(old(self).source@, old(self).current as int),
            // End-of-file comes exactly when that skip reaches the end of
            // input, and scanning at the end changes nothing: end-of-file is
            // idempotent.
            (t.token_type == TokenType::TokenEof) == (skip_pos(
                old(self).source@,
                old(self).current as int,
            ) == old(self).source@.len()),
            t.token_type == TokenType::TokenEof ==> final(self).current == final(self).source@.len(),
            old(self).current == old(self).source@.len() ==> t.token_type == TokenType::TokenEof
                && final(self).current == old(self).current && final(self).line == old(self).line,
            // The token carries the line it ends on, and the line counter
            // advances by exactly the newlines passed.
            t.line == final(self).line,
            final(self).line == old(self).line + newline_count(
                old(self).source@,
                old(self).current as int,
                final(self).current as int,
            ),
            // A number token is never followed by a dot-and-digit unless it
            // already holds its one dot: the fractional part is consumed.
            (t.token_type == TokenType::TokenNumber && final(self).current + 1 < final(self).source@.len()
                && final(self).source@[final(self).current as int] == 46
                && is_digit(final(self).source@[final(self).current + 1])) ==> (exists|k: int|
                0 <= k < t.lexeme@.len() && t.lexeme@[k] == 46),
            // A non-error token's kind is the kind its own lexeme scans as.
            t.token_type != TokenType::TokenError ==> t.token_type == token_kind_of(t.lexeme@),
            // Every token but end-of-file consumes at least one byte.
            t.token_type != TokenType::TokenEof ==> final(self).current > old(self).current,
            // Error tokens arise in exactly two ways, and are forced when
            // either holds: a string without its closing quote, or a byte
            // no token can start with. The scanner has no other failure
            // mode, and never yields a token of unknown kind.
            t.token_type == TokenType::TokenError ==> final(self).start < final(self).source@.len() && ({
                let c = final(self).source@[final(self).start as int];
                (c == 34 && t.lexeme@ == unterminated_string_message() && final(self).current
                    == final(self).source@.len()) || (t.lexeme@ == unexpected_character_message()
                    && !is_alpha(c) && !is_digit(c) && c != 34 && single_char_kind(c)
                    == TokenType::Unknown && final(self).current == final(self).start + 1)
            }),
            (t.token_type == TokenType::TokenError) == ({
                let src = final(self).source@;
                let st = final(self).start as int;
                st < src.len() && ({
                    let c = src[st];
                    (c == 34 && quote_pos(src, st + 1) == src.len()) || (!is_alpha(c) && !is_digit(
                        c,
                    ) && c != 34 && single_char_kind(c) == TokenType::Unknown)
                })
            }),
            t.token_type != TokenType::Unknown,
            // A string token runs from its opening quote to the first
            // closing quote.
            t.token_type == TokenType::TokenString ==> final(self).current == quote_pos(
                final(self).source@,
                final(self).start + 1,
            ) + 1 && final(self).source@[final(self).start as int] == 34,
            // Tokens are as long as they can be: an identifier, keyword or
            // number never stops right before a byte that could extend it,
            // and a one-byte operator is never a prefix of a two-byte one.
            t.token_type != TokenType::TokenError && t.token_type != TokenType::TokenEof
                && is_alpha(t.lexeme@[0]) ==> (final(self).current == final(self).source@.len()
                || !(is_alpha(final(self).source@[final(self).current as int]) || is_digit(
                final(self).source@[final(self).current as int],
            ))),
            t.token_type == TokenType::TokenNumber ==> (final(self).current == final(self).source@.len() || !is_digit(final(self).source@[final(self).current as int])),
            (t.token_type == TokenType::TokenBang || t.token_type == TokenType::TokenEqual
                || t.token_type == TokenType::TokenLess || t.token_type
                == TokenType::TokenGreater) ==> (final(self).current == final(self).source@.len() || final(self).source@[final(self).current as int] != 61),
    {
        let ghost src = old(self).source@;
        let ghost from = old(self).current as int;
        self.skip_whitespace();
        self.start = self.current;
        let ghost start = self.start as int;

        if self.is_at_end() {
            let t = self.make_token(TokenType::TokenEof);
            proof {
                assert(t.lexeme@ =~= Seq::<u8>::empty());
            }
            return t;
        }

        let c = self.advance();

        if is_alpha_byte(c) {
            let t = self.identifier();
            proof {
                assert(newline_count(src, start, start) == 0);
                assert(newline_count(src, start, start + 1) == 0);
                lemma_newline_count_concat(src, start, start + 1, self.current as int);
                lemma_newline_count_concat(src, from, start, self.current as int);
            }
            return t;
        }
        if is_digit_byte(c) {
            let t = self.number();
            proof {
                assert(newline_count(src, start, start) == 0);
                assert(newline_count(src, start, start + 1) == 0);
                lemma_newline_count_concat(src, start, start + 1, self.current as int);
                lemma_newline_count_concat(src, from, start, self.current as int);
                let cur = self.current as int;
                if cur + 1 < src.len() && src[cur] == 46 && is_digit(src[cur + 1]) {
                    let k = choose|k: int| start <= k < cur && src[k] == 46;
                    assert(t.lexeme@[k - start] == 46);
                }
            }
            return t;
        }

        let t = match c {
            40 => self.make_single(TokenType::TokenLeftParen),
            41 => self.make_single(TokenType::TokenRightParen),
            123 => self.make_single(TokenType::TokenLeftBrace),
            125 => self.make_single(TokenType::TokenRightBrace),
            59 => self.make_single(TokenType::TokenSemicolon),
            44 => self.make_single(TokenType::TokenComma),
            46 => self.make_single(TokenType::TokenDot),
            45 => self.make_single(TokenType::TokenMinus),
            43 => self.make_single(TokenType::TokenPlus),
            47 => self.make_single(TokenType::TokenSlash),
            42 => self.make_single(TokenType::TokenStar),
            33 => {
                if self.match_token(61) {
                    self.make_pair(TokenType::TokenBangEqual)
                } else {
                    self.make_single(TokenType::TokenBang)
                }
            },
            61 => {
                if self.match_token(61) {
                    self.make_pair(TokenType::TokenEqualEqual)
                } else {
                    self.make_single(TokenType::TokenEqual)
                }
            },
            60 => {
                if self.match_token(61) {
                    self.make_pair(TokenType::TokenLessEqual)
                } else {
                    self.make_single(TokenType::TokenLess)
                }
            },
            62 => {
                if self.match_token(61) {
                    self.make_pair(TokenType::TokenGreaterEqual)
                } else {
                    self.make_single(TokenType::TokenGreater)
                }
            },
            34 => {
                let t = self.string();
                proof {
                    assert(newline_count(src, start, start) == 0);
                    assert(newline_count(src, start, start + 1) == 0);
                    lemma_newline_count_concat(src, start, start + 1, self.current as int);
                    lemma_newline_count_concat(src, from, start, self.current as int);
                    if t.token_type == TokenType::TokenString {
                        lemma_quote_pos_bound(src, start + 1);
                        assert(quote_pos(src, start + 1) < src.len());
                        assert(self.current as int == quote_pos(src, start + 1) + 1);
                    }
                }
                t
            },
            _ => {
                let mut message: Vec<u8> = Vec::new();
                message.push(85);  // U
                message.push(110);  // n
                message.push(101);  // e
                message.push(120);  // x
                message.push(112);  // p
                message.push(101);  // e
                message.push(99);  // c
                message.push(116);  // t
                message.push(101);  // e
                message.push(100);  // d
                message.push(32);  //
                message.push(99);  // c
                message.push(104);  // h
                message.push(97);  // a
                message.push(114);  // r
                message.push(97);  // a
                message.push(99);  // c
                message.push(116);  // t
                message.push(101);  // e
                message.push(114);  // r
                message.push(46);  // .
                proof {
                    assert(message@ =~= unexpected_character_message());
                    assert(newline_count(src, start, start) == 0);
                    assert(newline_count(src, start, start + 1) == 0);
                }
                self.error_token(message)
            },
        };
        proof {
            lemma_newline_count_concat(src, from, start, self.current as int);
        }
        t
    }

    /// Builds the token for a one-byte lexeme just consumed.
    fn make_single(&self, token_type: TokenType) -> (t: Token)
        requires
            self.wf(),
            self.start + 1 == self.current,
            self.source@[self.start as int] != 10,
            token_type == single_char_kind(self.source@[self.start as int]),
            !is_alpha(self.source@[self.start as int]),
            !is_digit(self.source@[self.start as int]),
            self.source@[self.start as int] != 34,
            token_type != TokenType::TokenError,
            token_type != TokenType::TokenEof,
        ensures
            t.token_type == token_type,
            t.lexeme@ == self.source@.subrange(self.start as int, self.current as int),
            t.line == self.line,
            t.token_type == token_kind_of(t.lexeme@),
            newline_count(self.source@, self.start as int, self.current as int) == 0,
    {
        let t = self.make_token(token_type);
        proof {
            let s = self.source@.subrange(self.start as int, self.current as int);
            assert(s.len() == 1);
            assert(s[0] == self.source@[self.start as int]);
            assert(newline_count(self.source@, self.start as int, self.start as int) == 0);
        }
        t
    }

    /// Builds the token for a two-byte lexeme (`!=`, `==`, `<=`, `>=`)
    /// just consumed.
    fn make_pair(&self, token_type: TokenType) -> (t: Token)
        requires
            self.wf(),
            self.start + 2 == self.current,
            self.source@[self.start as int] != 10,
            self.source@[self.start + 1] == 61,
            token_type == two_char_kind(self.source@[self.start as int]),
            !is_alpha(self.source@[self.start as int]),
            !is_digit(self.source@[self.start as int]),
            self.source@[self.start as int] != 34,
            token_type != TokenType::TokenError,
            token_type != TokenType::TokenEof,
        ensures
            t.token_type == token_type,
            t.lexeme@ == self.source@.subrange(self.start as int, self.current as int),
            t.line == self.line,
            t.token_type == token_kind_of(t.lexeme@),
            newline_count(self.source@, self.start as int, self.current as int) == 0,
    {
        let t = self.make_token(token_type);
        proof {
            let s = self.source@.subrange(self.start as int, self.current as int);
            assert(s.len() == 2);
            assert(s[0] == self.source@[self.start as int]);
            assert(s[1] == self.source@[self.start + 1]);
            assert(newline_count(self.source@, self.start as int, self.start as int) == 0);
            assert(newline_count(self.source@, self.start as int, self.start + 1) == 0);
        }
        t
    }
}

/// The message carried by the error token for a byte no token starts
/// with.
pub open spec fn unexpected_character_message() -> Seq<u8> {
    seq![
        85u8, 110u8, 101u8, 120u8, 112u8, 101u8, 99u8, 116u8, 101u8, 100u8, 32u8, 99u8, 104u8,
        97u8, 114u8, 97u8, 99u8, 116u8, 101u8, 114u8, 46u8,
    ]
}

/// The message carried by an unterminated string literal's error token.
pub open spec fn unterminated_string_message() -> Seq<u8> {
    seq![
        85u8, 110u8, 116u8, 101u8, 114u8, 109u8, 105u8, 110u8, 97u8, 116u8, 101u8, 100u8, 32u8,
        115u8, 116u8, 114u8, 105u8, 110u8, 103u8, 46u8,
    ]
}

/// Executable test for an ASCII digit.
pub fn is_digit_byte(c: u8) -> (r: bool)
    ensures
        r == is_digit(c),
{
    48 <= c && c <= 57
}

/// Executable test for an ASCII letter or underscore.
pub fn is_alpha_byte(c: u8) -> (r: bool)
    ensures
        r == is_alpha(c),
{
    (65 <= c && c <= 90) || (97 <= c && c <= 122) || c == 95
}

/// Each byte of a subrange is the corresponding byte of the source.
proof fn lemma_subrange_index(src: Seq<u8>, start: int, end: int)
    requires
        0 <= start <= end <= src.len(),
    ensures
        src.subrange(start, end).len() == end - start,
        forall|j: int| 0 <= j < end - start ==> src.subrange(start, end)[j] == src[start + j],
{
}

/// When the first `offset` bytes of the scanned word agree with a keyword,
/// the word is that keyword exactly when the lengths agree and the tails
/// agree: the trie in `identifier_type` may skip the bytes it has already
/// matched.
proof fn lemma_tail_decides(src: Seq<u8>, start: int, end: int, offset: int, kw: Seq<u8>)
    requires
        0 <= start,
        start + offset <= end <= src.len(),
        0 <= offset <= kw.len(),
        forall|j: int| 0 <= j < offset ==> src[start + j] == kw[j],
    ensures
        (src.subrange(start, end) == kw) <==> (end - start == kw.len() && src.subrange(
            start + offset,
            end,
        ) == kw.subrange(offset, kw.len() as int)),
{
    let s = src.subrange(start, end);
    let tail = src.subrange(start + offset, end);
    let kw_tail = kw.subrange(offset, kw.len() as int);
    if s == kw {
        assert(tail =~= kw_tail);
    }
    if end - start == kw.len() && tail == kw_tail {
        assert forall|j: int| 0 <= j < s.len() implies s[j] == kw[j] by {
            if j >= offset {
                assert(tail[j - offset] == kw_tail[j - offset]);
            }
        }
        assert(s =~= kw);
    }
}

} // verus!
