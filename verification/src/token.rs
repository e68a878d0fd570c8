//! Tokens as the lexer collaborator delivers them: a classified kind with an
//! optional payload. A sentinel kind marks the end of the stream.

use vstd::prelude::*;

verus! {

/// Mathematical image of a token kind: identifier and keyword text as
/// character sequences, everything else as plain values.
pub enum KindV {
    Sentinel,
    Letter(Seq<char>),
    IntNumber(i64),
    FloatNumber(u64),
    Op(char),
    LParen,
    RParen,
    Keyword(Seq<char>),
    FnOp,
    Assign,
}

/// The classified kind of a lexical token. `FloatNumber` carries the IEEE 754
/// bit pattern of the literal, so that the tree can hold the value exactly
/// while the parser itself never computes with it.
#[derive(Debug, Clone)]
pub enum Kind {
    /// Sentinel: the stream is exhausted (or an empty slot).
    Sentinel,
    /// An identifier: a variable or function name.
    Letter(String),
    /// An integer literal.
    IntNumber(i64),
    /// A floating-point literal, as its IEEE 754 bit pattern.
    FloatNumber(u64),
    /// An operator symbol, one of `+ - * / % =`.
    Op(char),
    /// A left parenthesis.
    LParen,
    /// A right parenthesis.
    RParen,
    /// Keyword text; only `fn` is recognized by the grammar.
    Keyword(String),
    /// The function-body marker in a function definition.
    FnOp,
    /// The dedicated statement-assignment marker.
    Assign,
}

impl View for Kind {
    type V = KindV;

    open spec fn view(&self) -> KindV {
        match self {
            Kind::Sentinel => KindV::Sentinel,
            Kind::Letter(s) => KindV::Letter(s@),
            Kind::IntNumber(v) => KindV::IntNumber(*v),
            Kind::FloatNumber(b) => KindV::FloatNumber(*b),
            Kind::Op(c) => KindV::Op(*c),
            Kind::LParen => KindV::LParen,
            Kind::RParen => KindV::RParen,
            Kind::Keyword(s) => KindV::Keyword(s@),
            Kind::FnOp => KindV::FnOp,
            Kind::Assign => KindV::Assign,
        }
    }
}

/// One lexical unit of the input stream.
#[derive(Debug, Clone)]
pub struct Token {
    pub kind: Kind,
}

impl View for Token {
    type V = KindV;

    open spec fn view(&self) -> KindV {
        self.kind@
    }
}

impl Token {
    /// Wraps a kind as a token.
    pub fn new(kind: Kind) -> (t: Token)
        ensures
            t.kind == kind,
    {
        Token { kind }
    }

    /// The sentinel token that stands for an exhausted stream.
    pub fn none() -> (t: Token)
        ensures
            t@ == KindV::Sentinel,
    {
        Token { kind: Kind::Sentinel }
    }
}

impl Default for Token {
    /// The default token is the sentinel.
    fn default() -> (t: Token)
        ensures
            t@ == KindV::Sentinel,
    {
        Token { kind: Kind::Sentinel }
    }
}

} // verus!
