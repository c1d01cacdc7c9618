//! Tokens as the grammar sees them.

use vstd::prelude::*;

verus! {

/// What the grammar reads of one token: its kind, and its text where the
/// kind has one. This is the mathematical model that contracts speak of.
pub ghost enum Tok {
    /// A keyword or an identifier, with its text as written.
    Word(Seq<char>),
    /// A literal between single quotes, with the text between them.
    Quoted(Seq<char>),
    Eq,
    LParen,
    RParen,
    SemiColon,
    /// The end of the input.
    Eof,
    /// Any token that the grammar of the data-source statement has no use for.
    Other,
}

/// One token, reduced to what the grammar reads of it.
#[derive(Debug)]
pub enum Lexeme {
    Word(String),
    Quoted(String),
    Eq,
    LParen,
    RParen,
    SemiColon,
    Eof,
    Other,
}

impl View for Lexeme {
    type V = Tok;

    open spec fn view(&self) -> Tok {
        match self {
            Lexeme::Word(s) => Tok::Word(s@),
            Lexeme::Quoted(s) => Tok::Quoted(s@),
            Lexeme::Eq => Tok::Eq,
            Lexeme::LParen => Tok::LParen,
            Lexeme::RParen => Tok::RParen,
            Lexeme::SemiColon => Tok::SemiColon,
            Lexeme::Eof => Tok::Eof,
            Lexeme::Other => Tok::Other,
        }
    }
}

/// The token at position `n` of `toks`, or `Eof` past their end.
pub open spec fn at(toks: Seq<Tok>, n: int) -> Tok {
    if 0 <= n < toks.len() {
        toks[n]
    } else {
        Tok::Eof
    }
}

/// `toks` without its first token; nothing is left of no tokens.
pub open spec fn rest(toks: Seq<Tok>) -> Seq<Tok> {
    if toks.len() > 0 {
        toks.skip(1)
    } else {
        toks
    }
}

} // verus!
