//! Lexer and identifier interner for the managed language's source form.
//!
//! The lexer works over the raw bytes of the source. Identifiers are
//! interned: equal spellings get equal [`Name`]s, so the later passes compare
//! names by index.

use vstd::prelude::*;
use crate::ast::{Name, Position};

verus! {

/// The identifier interner: names are byte ranges of the kept source.
pub struct Interner {
    pub src: Vec<u8>,
    pub names: Vec<(usize, usize)>,
}

/// The bytes of interned name `k`, in spec form.
pub open spec fn spec_name_bytes(i: Interner, k: int) -> Seq<u8> {
    i.src@.subrange(i.names@[k].0 as int, i.names@[k].1 as int)
}

/// Whether two byte ranges of `src` hold the same bytes.
fn range_eq(src: &Vec<u8>, s1: usize, e1: usize, s2: usize, e2: usize) -> (r: bool)
    requires
        s1 <= e1 <= src@.len(),
        s2 <= e2 <= src@.len(),
{
    if e1 - s1 != e2 - s2 {
        return false;
    }
    let n = e1 - s1;
    let mut i: usize = 0;
    while i < n
        invariant
            i <= n,
            n == e1 - s1,
            n == e2 - s2,
            s1 <= e1 <= src@.len(),
            s2 <= e2 <= src@.len(),
        decreases n - i,
    {
        if src[s1 + i] != src[s2 + i] {
            return false;
        }
        i = i + 1;
    }
    true
}

impl Interner {
    /// Well-formed: every recorded name is a range of the source.
    pub open spec fn wf(self) -> bool {
        forall|k: int| 0 <= k < self.names@.len()
            ==> (#[trigger] self.names@[k]).0 <= self.names@[k].1 <= self.src@.len()
    }

    pub fn new(src: Vec<u8>) -> (r: Interner)
        ensures
            r.wf(),
            r.src == src,
            r.names@.len() == 0,
    {
        Interner { src, names: Vec::new() }
    }

    /// Interns the identifier spelled by `[start, end)` of the source: equal
    /// spellings yield equal names.
    pub fn intern(&mut self, start: usize, end: usize) -> (r: Name)
        requires
            old(self).wf(),
            start <= end <= old(self).src@.len(),
        ensures
            final(self).wf(),
            final(self).src == old(self).src,
            r.0 < final(self).names@.len(),
            old(self).names@.len() <= final(self).names@.len()
                <= old(self).names@.len() + 1,
    {
        let n = self.names.len();
        let mut k: usize = 0;
        while k < n
            invariant
                k <= n,
                n == self.names@.len(),
                self.wf(),
                start <= end <= self.src@.len(),
            decreases n - k,
        {
            let (s, e) = self.names[k];
            if range_eq(&self.src, s, e, start, end) {
                return Name(k);
            }
            k = k + 1;
        }
        self.names.push((start, end));
        Name(n)
    }

    /// The byte length of interned name `name`.
    pub fn name_len(&self, name: Name) -> (r: usize)
        requires
            self.wf(),
            name.0 < self.names@.len(),
        ensures
            r == self.names@[name.0 as int].1 - self.names@[name.0 as int].0,
    {
        let (s, e) = self.names[name.0];
        e - s
    }

    /// The byte at offset `i` of interned name `name`.
    pub fn name_byte(&self, name: Name, i: usize) -> (r: u8)
        requires
            self.wf(),
            name.0 < self.names@.len(),
            i < self.names@[name.0 as int].1 - self.names@[name.0 as int].0,
        ensures
            r == self.src@[self.names@[name.0 as int].0 + i],
    {
        let (s, _e) = self.names[name.0];
        self.src[s + i]
    }
}

/// One token kind.
#[derive(PartialEq, Eq, Copy, Clone, Structural, Debug)]
pub enum TokenKind {
    Ident(Name),
    LitInt(u64, bool),
    LitStr(Name),
    Fun,
    Struct,
    Let,
    Var,
    Return,
    Do,
    Catch,
    Try,
    Throws,
    True,
    False,
    Nil,
    LParen,
    RParen,
    LBrace,
    RBrace,
    Colon,
    Semicolon,
    Comma,
    Dot,
    Arrow,
    Assign,
    EqEq,
    EqEqEq,
    Plus,
    Minus,
    Star,
    Slash,
    Percent,
    End,
    Unknown,
}

/// One token with its source position.
#[derive(PartialEq, Eq, Copy, Clone, Structural, Debug)]
pub struct Token {
    pub kind: TokenKind,
    pub pos: Position,
}

fn is_digit(b: u8) -> (r: bool)
    ensures
        r == (48 <= b <= 57),
{
    48 <= b && b <= 57
}

fn is_ident_start(b: u8) -> (r: bool)
    ensures
        r == (65 <= b <= 90 || 97 <= b <= 122 || b == 95),
{
    (65 <= b && b <= 90) || (97 <= b && b <= 122) || b == 95
}

fn is_ident_char(b: u8) -> (r: bool)
    ensures
        r == (65 <= b <= 90 || 97 <= b <= 122 || b == 95 || 48 <= b <= 57),
{
    is_ident_start(b) || is_digit(b)
}

/// Classifies an identifier's bytes as a keyword or a plain identifier.
fn word_kind(src: &Vec<u8>, start: usize, end: usize, name: Name) -> TokenKind
    requires
        start <= end <= src@.len(),
{
    let n = end - start;
    if n == 2 && src[start] == 100 && src[start + 1] == 111 {
        TokenKind::Do
    } else if n == 3 {
        let b0 = src[start];
        let b1 = src[start + 1];
        let b2 = src[start + 2];
        if b0 == 102 && b1 == 117 && b2 == 110 {
            TokenKind::Fun
        } else if b0 == 108 && b1 == 101 && b2 == 116 {
            TokenKind::Let
        } else if b0 == 118 && b1 == 97 && b2 == 114 {
            TokenKind::Var
        } else if b0 == 110 && b1 == 105 && b2 == 108 {
            TokenKind::Nil
        } else if b0 == 116 && b1 == 114 && b2 == 121 {
            TokenKind::Try
        } else {
            TokenKind::Ident(name)
        }
    } else if n == 4 && src[start] == 116 && src[start + 1] == 114 && src[start + 2] == 117
        && src[start + 3] == 101 {
        TokenKind::True
    } else if n == 5 {
        let b0 = src[start];
        if b0 == 102 && src[start + 1] == 97 && src[start + 2] == 108 && src[start + 3] == 115
            && src[start + 4] == 101 {
            TokenKind::False
        } else if b0 == 99 && src[start + 1] == 97 && src[start + 2] == 116
            && src[start + 3] == 99 && src[start + 4] == 104 {
            TokenKind::Catch
        } else {
            TokenKind::Ident(name)
        }
    } else if n == 6 {
        let b0 = src[start];
        if b0 == 115 && src[start + 1] == 116 && src[start + 2] == 114 && src[start + 3] == 117
            && src[start + 4] == 99 && src[start + 5] == 116 {
            TokenKind::Struct
        } else if b0 == 114 && src[start + 1] == 101 && src[start + 2] == 116
            && src[start + 3] == 117 && src[start + 4] == 114 && src[start + 5] == 110 {
            TokenKind::Return
        } else if b0 == 116 && src[start + 1] == 104 && src[start + 2] == 114
            && src[start + 3] == 111 && src[start + 4] == 119 && src[start + 5] == 115 {
            TokenKind::Throws
        } else {
            TokenKind::Ident(name)
        }
    } else {
        TokenKind::Ident(name)
    }
}

/// Lexes the whole source into tokens; the list always ends with `End`.
/// Bytes no token can start with become `Unknown` tokens, which the parser
/// reports.
pub fn lex(interner: &mut Interner) -> (r: Vec<Token>)
    requires
        old(interner).wf(),
    ensures
        final(interner).wf(),
        final(interner).src == old(interner).src,
        r@.len() > 0,
        r@.last().kind == TokenKind::End,
{
    let mut toks: Vec<Token> = Vec::new();
    let n = interner.src.len();
    let mut i: usize = 0;
    let mut line: u32 = 1;
    let mut col: u32 = 1;
    while i < n
        invariant
            i <= n,
            n == interner.src@.len(),
            interner.wf(),
            interner.src == old(interner).src,
        decreases n - i,
    {
        let b = interner.src[i];
        let pos = Position { line, column: col };
        if b == 10 {
            line = if line < u32::MAX { line + 1 } else { line };
            col = 1;
            i = i + 1;
        } else if b == 32 || b == 9 || b == 13 {
            col = if col < u32::MAX { col + 1 } else { col };
            i = i + 1;
        } else if b == 47 && n - i > 1 && interner.src[i + 1] == 47 {
            let start = i;
            i = i + 2;
            while i < n && interner.src[i] != 10
                invariant
                    start + 2 <= i <= n,
                    n == interner.src@.len(),
                decreases n - i,
            {
                i = i + 1;
            }
        } else if is_ident_start(b) {
            let start = i;
            i = i + 1;
            while i < n && is_ident_char(interner.src[i])
                invariant
                    start < i <= n,
                    n == interner.src@.len(),
                    interner.wf(),
                    interner.src == old(interner).src,
                decreases n - i,
            {
                i = i + 1;
            }
            let name = interner.intern(start, i);
            let kind = word_kind(&interner.src, start, i, name);
            toks.push(Token { kind, pos });
            col = advance_col(col, i - start);
        } else if is_digit(b) {
            let start = i;
            let mut value: u64 = 0;
            let mut overflow = false;
            i = i + 1;
            let d0 = (b - 48) as u64;
            value = d0;
            while i < n && is_digit(interner.src[i])
                invariant
                    start < i <= n,
                    n == interner.src@.len(),
                decreases n - i,
            {
                let d = (interner.src[i] - 48) as u64;
                if value > (u64::MAX - d) / 10 {
                    overflow = true;
                } else {
                    value = value * 10 + d;
                }
                i = i + 1;
            }
            let mut long = false;
            if i < n && interner.src[i] == 76 {
                long = true;
                i = i + 1;
            }
            if overflow {
                toks.push(Token { kind: TokenKind::Unknown, pos });
            } else {
                toks.push(Token { kind: TokenKind::LitInt(value, long), pos });
            }
            col = advance_col(col, i - start);
        } else if b == 34 {
            let start = i + 1;
            i = i + 1;
            while i < n && interner.src[i] != 34
                invariant
                    start <= i <= n,
                    n == interner.src@.len(),
                decreases n - i,
            {
                i = i + 1;
            }
            if i < n {
                let name = interner.intern(start, i);
                toks.push(Token { kind: TokenKind::LitStr(name), pos });
                i = i + 1;
            } else {
                toks.push(Token { kind: TokenKind::Unknown, pos });
            }
            col = advance_col(col, i - start + 1);
        } else {
            let kind = if b == 40 {
                TokenKind::LParen
            } else if b == 41 {
                TokenKind::RParen
            } else if b == 123 {
                TokenKind::LBrace
            } else if b == 125 {
                TokenKind::RBrace
            } else if b == 58 {
                TokenKind::Colon
            } else if b == 59 {
                TokenKind::Semicolon
            } else if b == 44 {
                TokenKind::Comma
            } else if b == 46 {
                TokenKind::Dot
            } else if b == 43 {
                TokenKind::Plus
            } else if b == 42 {
                TokenKind::Star
            } else if b == 47 {
                TokenKind::Slash
            } else if b == 37 {
                TokenKind::Percent
            } else {
                TokenKind::Unknown
            };
            if b == 45 {
                if n - i > 1 && interner.src[i + 1] == 62 {
                    toks.push(Token { kind: TokenKind::Arrow, pos });
                    i = i + 2;
                    col = advance_col(col, 2);
                } else {
                    toks.push(Token { kind: TokenKind::Minus, pos });
                    i = i + 1;
                    col = advance_col(col, 1);
                }
            } else if b == 61 {
                if n - i > 2 && interner.src[i + 1] == 61 && interner.src[i + 2] == 61 {
                    toks.push(Token { kind: TokenKind::EqEqEq, pos });
                    i = i + 3;
                    col = advance_col(col, 3);
                } else if n - i > 1 && interner.src[i + 1] == 61 {
                    toks.push(Token { kind: TokenKind::EqEq, pos });
                    i = i + 2;
                    col = advance_col(col, 2);
                } else {
                    toks.push(Token { kind: TokenKind::Assign, pos });
                    i = i + 1;
                    col = advance_col(col, 1);
                }
            } else {
                toks.push(Token { kind, pos });
                i = i + 1;
                col = advance_col(col, 1);
            }
        }
    }
    toks.push(Token {
        kind: TokenKind::End,
        pos: Position { line, column: col },
    });
    toks
}

/// Moves a column counter right, saturating.
fn advance_col(col: u32, by: usize) -> (r: u32)
{
    let by32: u32 = if by > 1000000 { 1000000 } else { by as u32 };
    if col <= u32::MAX - by32 {
        col + by32
    } else {
        col
    }
}

} // verus!
