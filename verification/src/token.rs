//! Tokens, the smallest units of source text that the syntax trees keep.
use vstd::prelude::*;
use vstd::utf8::encode_utf8;

use crate::error::Location;

verus! {

/// What a token is. Names of meanings and names of signs are mixed.
#[derive(Debug, Clone, Copy, PartialEq, Eq, Hash, Structural)]
pub enum TokenKind {
    Symbol,
    NatLit,
    IntLit,
    RatioLit,
    BoolLit,
    StrLit,
    NoneLit,
    NoImplLit,
    EllipsisLit,
    InfLit,
    PrePlus,
    PreMinus,
    PreBitNot,
    Mutate,
    Try,
    Plus,
    Minus,
    Star,
    Slash,
    FloorDiv,
    Pow,
    Mod,
    Closed,
    RightOpen,
    LeftOpen,
    Open,
    BitAnd,
    BitOr,
    BitXor,
    Shl,
    Shr,
    Less,
    Gre,
    LessEq,
    GreEq,
    DblEq,
    NotEq,
    InOp,
    NotInOp,
    SubOp,
    IsOp,
    IsNotOp,
    AndOp,
    OrOp,
    DotOp,
    CrossOp,
    Equal,
    OrEqual,
    FuncArrow,
    ProcArrow,
    LParen,
    RParen,
    LSqBr,
    RSqBr,
    LBrace,
    RBrace,
    Indent,
    Dedent,
    Dot,
    Pipe,
    Colon,
    DblColon,
    SupertypeOf,
    SubtypeOf,
    Comma,
    Caret,
    Amper,
    AtSign,
    VBar,
    UBar,
    Spread,
    Newline,
    Semi,
    Illegal,
    BOF,
    EOF,
}

impl TokenKind {
    /// Whether a token of this kind stands for a literal value.
    pub open spec fn is_literal(self) -> bool {
        ||| self is NatLit
        ||| self is IntLit
        ||| self is RatioLit
        ||| self is BoolLit
        ||| self is StrLit
        ||| self is NoneLit
        ||| self is NoImplLit
        ||| self is EllipsisLit
        ||| self is InfLit
    }

    /// Whether a token of this kind stands for a literal value.
    pub fn writes_literal(self) -> (b: bool)
        ensures
            b == self.is_literal(),
    {
        match self {
            TokenKind::NatLit => true,
            TokenKind::IntLit => true,
            TokenKind::RatioLit => true,
            TokenKind::BoolLit => true,
            TokenKind::StrLit => true,
            TokenKind::NoneLit => true,
            TokenKind::NoImplLit => true,
            TokenKind::EllipsisLit => true,
            TokenKind::InfLit => true,
            _ => false,
        }
    }
}

/// A token: its kind, its text and where it starts.
#[derive(Debug, PartialEq, Eq)]
pub struct Token {
    pub kind: TokenKind,
    pub content: String,
    /// Counted from one; zero where the token stands in no source.
    pub lineno: usize,
    /// Counted from zero.
    pub col_begin: usize,
}

impl Token {
    /// Where the token stands: on its line, from its first column over as many as its text has
    /// bytes.
    pub open spec fn place(self) -> Location {
        if self.lineno == 0 {
            Location::Unknown
        } else {
            Location::Range {
                ln_begin: self.lineno,
                col_begin: self.col_begin,
                ln_end: self.lineno,
                col_end: self.col_begin.wrapping_add(encode_utf8(self.content@).len() as usize),
            }
        }
    }

    /// Where the token stands.
    pub fn loc(&self) -> (loc: Location)
        ensures
            loc == self.place(),
    {
        if self.lineno == 0 {
            Location::Unknown
        } else {
            let len: usize = self.content.as_str().len();
            Location::Range {
                ln_begin: self.lineno,
                col_begin: self.col_begin,
                ln_end: self.lineno,
                col_end: self.col_begin.wrapping_add(len),
            }
        }
    }

    pub fn new(kind: TokenKind, content: String, lineno: usize, col_begin: usize) -> (token: Token)
        ensures
            token == (Token { kind, content, lineno, col_begin }),
    {
        Token { kind, content, lineno, col_begin }
    }

    /// Another copy of the token.
    pub fn dup(&self) -> (token: Token)
        ensures
            token == *self,
    {
        Token {
            kind: self.kind,
            content: self.content.clone(),
            lineno: self.lineno,
            col_begin: self.col_begin,
        }
    }

    /// Whether the token is of the kind.
    pub fn is(&self, kind: TokenKind) -> (b: bool)
        ensures
            b == (self.kind == kind),
    {
        self.kind == kind
    }
}

/// A copy of the tokens of a pair of brackets, where there is one.
pub fn dup_paren(paren: &Option<(Token, Token)>) -> (r: Option<(Token, Token)>)
    ensures
        r == *paren,
{
    match paren {
        Some((l, r)) => Some((l.dup(), r.dup())),
        None => None,
    }
}

} // verus!
