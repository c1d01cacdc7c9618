//! The token cursor and the general statement parser, both of `sqlparser`,
//! with the contracts that the rest of the library relies on.

use vstd::prelude::*;
use sqlparser::ast::Statement;
use sqlparser::dialect::GenericDialect;
use sqlparser::parser::{Parser, ParserError};
use sqlparser::tokenizer::Token;
use crate::token::{at, rest, Lexeme, Tok};

verus! {

/// `sqlparser::parser::Parser`: a token stream with a position in it.
#[verifier::external_type_specification]
#[verifier::external_body]
pub struct ExParser<'a>(Parser<'a>);

/// `sqlparser::ast::Statement`: a statement of standard SQL, never looked into.
#[verifier::external_type_specification]
#[verifier::external_body]
pub struct ExStatement(Statement);

/// `sqlparser::parser::ParserError`: what the tokenizer or the parser reports.
#[verifier::external_type_specification]
#[verifier::external_body]
pub struct ExParserError(ParserError);

/// The tokens that a parser has not yet passed, whitespace left out, in order.
pub uninterp spec fn pending(p: Parser) -> Seq<Tok>;

/// The text that a parser was given to tokenize.
pub uninterp spec fn source(p: Parser) -> Seq<char>;

/// The tokens that the tokenizer makes of a text in the generic dialect,
/// whitespace left out, or the error with which it refuses the text.
pub uninterp spec fn lexemes(sql: Seq<char>) -> Result<Seq<Tok>, ParserError>;

/// What `Parser::parse_statement` gives in the generic dialect on the text
/// `sql`, started behind the first `passed` tokens: the statement and the
/// number of tokens that it takes, or the error.
pub uninterp spec fn statement_at(sql: Seq<char>, passed: int) -> Result<
    (Statement, int),
    ParserError,
>;

/// The error of `Parser::expect_token` on the text `sql`, asked for `=` behind
/// the first `passed` tokens where another token stands.
pub uninterp spec fn eq_refusal(sql: Seq<char>, passed: int) -> ParserError;

/// `str::to_lowercase` applied to a text.
pub uninterp spec fn lowercase(s: Seq<char>) -> Seq<char>;

/// How many tokens of the text `sql` lie before `toks`, its last tokens.
pub open spec fn passed(sql: Seq<char>, toks: Seq<Tok>) -> int {
    lexemes(sql)->Ok_0.len() - toks.len()
}

/// A position in the tokens of a text. Only `Cursor::open` makes one, so the
/// tokens are always those of the tokenizer.
pub struct Cursor {
    parser: Parser<'static>,
}

/// `Parser::new` on the generic dialect, then `Parser::try_with_sql`: a cursor
/// at the start of the tokens of `sql`. Claimed: it fails exactly where the
/// tokenizer refuses the text, with that error, and otherwise all tokens are
/// pending.
#[verifier::external_body]
fn tokenize(sql: &str) -> (r: Result<Cursor, ParserError>)
    ensures
        match r {
            Ok(c) => lexemes(sql@) == Ok::<Seq<Tok>, ParserError>(pending(c.parser)) && source(
                c.parser,
            ) == sql@,
            Err(e) => lexemes(sql@) == Err::<Seq<Tok>, ParserError>(e),
        },
{
    match Parser::new(&GenericDialect {}).try_with_sql(sql) {
        Ok(parser) => Ok(Cursor { parser }),
        Err(e) => Err(e),
    }
}

/// `Parser::peek_nth_token`: the pending token at position `n`, not counting
/// whitespace, or `Eof` past the end. The cursor does not move.
#[verifier::external_body]
fn token_at(c: &Cursor, n: u8) -> (t: Lexeme)
    ensures
        t@ == at(pending(c.parser), n as int),
{
    match c.parser.peek_nth_token(usize::from(n)).token {
        Token::Word(w) => Lexeme::Word(w.value),
        Token::SingleQuotedString(s) => Lexeme::Quoted(s),
        Token::Eq => Lexeme::Eq,
        Token::LParen => Lexeme::LParen,
        Token::RParen => Lexeme::RParen,
        Token::SemiColon => Lexeme::SemiColon,
        Token::EOF => Lexeme::Eof,
        _ => Lexeme::Other,
    }
}

/// `Parser::next_token`: the cursor passes one pending token, if there is one.
#[verifier::external_body]
fn pass_token(c: &mut Cursor)
    ensures
        pending(final(c).parser) == rest(pending(old(c).parser)),
        source(final(c).parser) == source(old(c).parser),
{
    let _ = c.parser.next_token();
}

/// `Parser::expect_token` with `=`: where the next pending token is `=` the
/// cursor passes it; otherwise the call fails with its error for that place
/// and the cursor stays.
#[verifier::external_body]
fn pass_eq(c: &mut Cursor) -> (r: Result<(), ParserError>)
    ensures
        source(final(c).parser) == source(old(c).parser),
        match r {
            Ok(_) => at(pending(old(c).parser), 0) == Tok::Eq && pending(final(c).parser) == rest(
                pending(old(c).parser),
            ),
            Err(e) => at(pending(old(c).parser), 0) != Tok::Eq && pending(final(c).parser)
                == pending(old(c).parser) && e == eq_refusal(
                source(old(c).parser),
                passed(source(old(c).parser), pending(old(c).parser)),
            ),
        },
{
    match c.parser.expect_token(&Token::Eq) {
        Ok(_) => Ok(()),
        Err(e) => Err(e),
    }
}

/// `Parser::parse_statement`: one statement of standard SQL. Claimed: the
/// outcome is the one that belongs to the text and the place; a success has
/// passed the tokens that it took, one or more, and the tokens behind them are
/// pending as before.
#[verifier::external_body]
fn read_statement(c: &mut Cursor) -> (r: Result<Statement, ParserError>)
    ensures
        source(final(c).parser) == source(old(c).parser),
        match r {
            Ok(s) => {
                let found = statement_at(
                    source(old(c).parser),
                    passed(source(old(c).parser), pending(old(c).parser)),
                );
                found is Ok && found->Ok_0.0 == s && 1 <= found->Ok_0.1 <= pending(
                    old(c).parser,
                ).len() && pending(final(c).parser) == pending(old(c).parser).skip(found->Ok_0.1)
            },
            Err(e) => statement_at(
                source(old(c).parser),
                passed(source(old(c).parser), pending(old(c).parser)),
            ) == Err::<(Statement, int), ParserError>(e),
        },
{
    c.parser.parse_statement()
}

/// `ParserError`'s `Display`, through `to_string`: the error in words. Nothing
/// is claimed of them.
#[verifier::external_body]
pub(crate) fn describe(error: &ParserError) -> String {
    error.to_string()
}

/// `str::to_lowercase`.
#[verifier::external_body]
pub(crate) fn to_lower(s: &str) -> (r: String)
    ensures
        r@ == lowercase(s@),
{
    s.to_lowercase()
}

impl Cursor {
    /// The tokens that the cursor has not yet passed, in order.
    pub closed spec fn tokens(&self) -> Seq<Tok> {
        pending(self.parser)
    }

    /// The text whose tokens the cursor runs over.
    pub closed spec fn text(&self) -> Seq<char> {
        source(self.parser)
    }

    /// How many tokens of the text the cursor has passed.
    pub open spec fn place(&self) -> int {
        passed(self.text(), self.tokens())
    }

    /// A cursor at the first token of `sql`, or the tokenizer's error.
    pub fn open(sql: &str) -> (r: Result<Cursor, ParserError>)
        ensures
            match r {
                Ok(c) => lexemes(sql@) == Ok::<Seq<Tok>, ParserError>(c.tokens()) && c.text()
                    == sql@,
                Err(e) => lexemes(sql@) == Err::<Seq<Tok>, ParserError>(e),
            },
    {
        tokenize(sql)
    }

    /// The pending token at position `n`, or `Eof` past the end.
    pub fn peek(&self, n: u8) -> (t: Lexeme)
        ensures
            t@ == at(self.tokens(), n as int),
    {
        token_at(self, n)
    }

    /// Passes one token, if one is pending.
    pub(crate) fn advance(&mut self)
        ensures
            final(self).tokens() == rest(old(self).tokens()),
            final(self).text() == old(self).text(),
    {
        pass_token(self)
    }

    /// Passes `=` where it is the next token; otherwise stays and returns the
    /// cursor's error for that place.
    pub(crate) fn expect_eq(&mut self) -> (r: Result<(), ParserError>)
        ensures
            final(self).text() == old(self).text(),
            match r {
                Ok(_) => at(old(self).tokens(), 0) == Tok::Eq && final(self).tokens() == rest(
                    old(self).tokens(),
                ),
                Err(e) => at(old(self).tokens(), 0) != Tok::Eq && final(self).tokens() == old(
                    self,
                ).tokens() && e == eq_refusal(old(self).text(), old(self).place()),
            },
    {
        pass_eq(self)
    }

    /// Reads one statement of standard SQL: the outcome is `statement_at` of
    /// the text and the place, and a success passes the tokens that it took.
    pub(crate) fn parse_statement(&mut self) -> (r: Result<Statement, ParserError>)
        ensures
            final(self).text() == old(self).text(),
            match r {
                Ok(s) => {
                    let found = statement_at(old(self).text(), old(self).place());
                    found is Ok && found->Ok_0.0 == s && 1 <= found->Ok_0.1 <= old(
                        self,
                    ).tokens().len() && final(self).tokens() == old(self).tokens().skip(
                        found->Ok_0.1,
                    )
                },
                Err(e) => statement_at(old(self).text(), old(self).place()) == Err::<
                    (Statement, int),
                    ParserError,
                >(e),
            },
    {
        read_statement(self)
    }
}

} // verus!
