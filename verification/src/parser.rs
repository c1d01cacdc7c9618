//! The parsers: one entry, one data-source statement, a whole text.

use vstd::prelude::*;
use crate::cursor::{lexemes, lowercase, to_lower, Cursor};
use crate::grammar::{
    after, at_end, datasource_of, entries_of, entry_of, failure_at, is_extension, is_keyword,
    past_separator, prepend, run_of, well_opened, Ending,
};
use crate::statement::{
    entries_view, items_view, ConfigParameter, DataSource, Entry, Failure, Fault, Item, ParseError,
    V, VQL,
};
use crate::token::{at, rest, Lexeme, Tok};

verus! {

/// The model of what an entry parser returned.
pub open spec fn entry_outcome(r: Result<ConfigParameter, ParseError>) -> Result<Entry, Fault> {
    match r {
        Ok(entry) => Ok(entry@),
        Err(error) => Err(error.kind()),
    }
}

/// The model of what a statement parser returned.
pub open spec fn statement_outcome(r: Result<V, ParseError>) -> Result<DataSource, Fault> {
    match r {
        Ok(statement) => Ok(statement@),
        Err(error) => Err(error.kind()),
    }
}

/// Whether `word` reads `keyword` when put in lower case.
fn reads_as(word: &String, keyword: &str) -> (r: bool)
    ensures
        r == (lowercase(word@) == keyword@),
{
    let lower = to_lower(word.as_str());
    let wanted = keyword.to_owned();
    lower == wanted
}

/// Whether `token` is a word that reads `keyword` when put in lower case.
fn lexeme_reads_as(token: &Lexeme, keyword: &str) -> (r: bool)
    ensures
        r == is_keyword(token@, keyword@),
{
    match token {
        Lexeme::Word(word) => reads_as(word, keyword),
        _ => false,
    }
}

/// Reads one `identifier = 'string'` entry at the cursor.
///
/// The entry and the cursor's new place are those that `entry_of` gives for
/// the pending tokens; so is the error, where one of the three is missing.
/// For a missing `=` the error holds the cursor's own error for that place.
pub fn parse_config_parameters(cursor: &mut Cursor) -> (r: Result<ConfigParameter, ParseError>)
    ensures
        entry_outcome(r) == entry_of(old(cursor).tokens()).0,
        final(cursor).tokens() == entry_of(old(cursor).tokens()).1,
        final(cursor).text() == old(cursor).text(),
        r is Err ==> r->Err_0@ == failure_at(
            old(cursor).text(),
            r->Err_0.kind(),
            final(cursor).tokens(),
        ),
{
    let name = match cursor.peek(0) {
        Lexeme::Word(word) => word,
        _ => {
            return Err(ParseError::ExpectedIdentifier);
        },
    };
    cursor.advance();
    match cursor.expect_eq() {
        Ok(()) => {},
        Err(error) => {
            return Err(ParseError::Sql(error));
        },
    }
    let value = match cursor.peek(0) {
        Lexeme::Quoted(text) => text,
        _ => {
            return Err(ParseError::ExpectedValue);
        },
    };
    cursor.advance();
    Ok(ConfigParameter { name, value })
}

/// Reads one data-source statement at the cursor. The first two tokens are
/// passed unread; the name, `CONFIG`, `(`, the entries and `)` follow.
///
/// The statement and the cursor's new place are those that `datasource_of`
/// gives for the pending tokens; so is the error. A success leaves fewer
/// tokens pending than there were.
#[verifier::loop_isolation(false)]
pub fn parse_create_datasource(cursor: &mut Cursor) -> (r: Result<V, ParseError>)
    requires
        well_opened(old(cursor).tokens()),
    ensures
        statement_outcome(r) == datasource_of(old(cursor).tokens()).0,
        final(cursor).tokens() == datasource_of(old(cursor).tokens()).1,
        final(cursor).text() == old(cursor).text(),
        r is Err ==> r->Err_0@ == failure_at(
            old(cursor).text(),
            r->Err_0.kind(),
            final(cursor).tokens(),
        ),
        r is Ok ==> final(cursor).tokens().len() < old(cursor).tokens().len(),
{
    let ghost body = rest(rest(cursor.tokens()));
    let ghost text = cursor.text();
    cursor.advance();
    cursor.advance();
    let table_name = match cursor.peek(0) {
        Lexeme::Word(word) => word,
        _ => {
            return Err(ParseError::ExpectedTableName);
        },
    };
    cursor.advance();
    let keyword = cursor.peek(0);
    if !lexeme_reads_as(&keyword, "config") {
        return Err(ParseError::ExpectedConfig);
    }
    cursor.advance();
    cursor.advance();
    let ghost list = cursor.tokens();
    let mut config_parameters: Vec<ConfigParameter> = Vec::new();
    proof {
        assert(list =~= body.skip(3));
        assert(Seq::<Entry>::empty() =~= entries_view(config_parameters@));
        if let Ok(all) = entries_of(list).0 {
            assert(Seq::<Entry>::empty() + all =~= all);
        }
    }
    while !closes(cursor)
        invariant
            entries_of(list) == prepend(
                entries_view(config_parameters@),
                entries_of(cursor.tokens()),
            ),
            cursor.tokens().len() <= list.len(),
            cursor.text() == text,
        decreases cursor.tokens().len(),
    {
        let ghost before = cursor.tokens();
        match parse_config_parameters(cursor) {
            Ok(entry) => {
                proof {
                    let shown = entries_view(config_parameters@);
                    let more = entries_of(before.skip(3));
                    assert(entries_view(config_parameters@.push(entry)) =~= shown.push(entry@));
                    if let Ok(tail) = more.0 {
                        assert(shown + (seq![entry@] + tail) =~= shown.push(entry@) + tail);
                    }
                }
                config_parameters.push(entry);
            },
            Err(error) => {
                return Err(error);
            },
        }
    }
    proof {
        assert(entries_view(config_parameters@) + Seq::<Entry>::empty() =~= entries_view(
            config_parameters@,
        ));
    }
    cursor.advance();
    Ok(V::CreateDataSource { table_name, config_parameters })
}

/// Whether the list of entries ends at the cursor.
fn closes(cursor: &Cursor) -> (r: bool)
    ensures
        r == (at(cursor.tokens(), 0) == Tok::RParen),
{
    match cursor.peek(0) {
        Lexeme::RParen => true,
        _ => false,
    }
}

/// Whether no statement is left at the cursor.
fn exhausted(cursor: &Cursor) -> (r: bool)
    ensures
        r == at_end(cursor.tokens()),
{
    match cursor.peek(0) {
        Lexeme::Eof => true,
        _ => false,
    }
}

/// Whether `(` stands where the data-source statement at the cursor needs it:
/// the test to make before `parse_create_datasource` is called.
pub fn opens_well(cursor: &Cursor) -> (r: bool)
    ensures
        r == well_opened(cursor.tokens()),
{
    let name = cursor.peek(2);
    let keyword = cursor.peek(3);
    let paren = cursor.peek(4);
    match (name, paren) {
        (Lexeme::Word(_), Lexeme::LParen) => true,
        (Lexeme::Word(_), _) => !lexeme_reads_as(&keyword, "config"),
        _ => true,
    }
}

/// Whether the statement at the cursor is taken for a data-source statement.
fn looks_like_extension(cursor: &Cursor) -> (r: bool)
    ensures
        r == is_extension(cursor.tokens()),
{
    match cursor.peek(0) {
        Lexeme::Word(word) => {
            reads_as(&word, "create") || lexeme_reads_as(&cursor.peek(1), "datasource")
        },
        _ => false,
    }
}

/// Whether `r` is what the run `run` comes to: its statements where it ended
/// well, and else its error, with nothing of the statements before it.
pub open spec fn result_of(run: (Seq<Item>, Ending), r: Result<Vec<VQL>, ParseError>) -> bool {
    match run.1 {
        Ending::Done => r is Ok && items_view(r->Ok_0@) == run.0,
        Ending::Failed(failure) => r is Err && r->Err_0@ == failure,
    }
}

/// Whether `r` is what parsing the text `sql` gives: the tokenizer's error
/// where it refuses the text, and else what the run over its tokens comes to.
pub open spec fn parsed(sql: Seq<char>, r: Result<Vec<VQL>, ParseError>) -> bool {
    match lexemes(sql) {
        Ok(toks) => result_of(run_of(sql, toks), r),
        Err(error) => r is Err && r->Err_0@ == (Failure {
            kind: Fault::Collaborator,
            passed_on: Some(error),
        }),
    }
}

/// Parses a text of statements, each optionally closed by `;`.
///
/// Where the tokenizer refuses the text, its error is returned. Otherwise the
/// statements are read from the tokens one after another as `run_of` says:
/// the result holds one element per statement, in order, or the error of the
/// first statement that could not be read, with nothing of those before it.
#[verifier::loop_isolation(false)]
pub fn parse(sql: &str) -> (r: Result<Vec<VQL>, ParseError>)
    ensures
        parsed(sql@, r),
{
    let mut cursor = match Cursor::open(sql) {
        Ok(cursor) => cursor,
        Err(error) => {
            return Err(ParseError::Sql(error));
        },
    };
    let ghost toks = cursor.tokens();
    let mut ret: Vec<VQL> = Vec::new();
    proof {
        assert(after(items_view(ret@), run_of(sql@, toks)).0 =~= run_of(sql@, toks).0);
    }
    while !exhausted(&cursor)
        invariant
            run_of(sql@, toks) == after(items_view(ret@), run_of(sql@, cursor.tokens())),
            cursor.text() == sql@,
        decreases cursor.tokens().len(),
    {
        let ghost here = cursor.tokens();
        let ghost read = items_view(ret@);
        proof {
            assert(read + Seq::<Item>::empty() =~= read);
        }
        if looks_like_extension(&cursor) {
            if !opens_well(&cursor) {
                return Err(ParseError::ExpectedOpenParen);
            }
            match parse_create_datasource(&mut cursor) {
                Ok(statement) => {
                    ret.push(VQL::V(statement));
                },
                Err(error) => {
                    return Err(error);
                },
            }
        } else {
            match cursor.parse_statement() {
                Ok(statement) => {
                    ret.push(VQL::Sql(statement));
                },
                Err(error) => {
                    return Err(ParseError::Sql(error));
                },
            }
        }
        let ghost behind = cursor.tokens();
        if let Lexeme::SemiColon = cursor.peek(0) {
            cursor.advance();
        }
        proof {
            let item = ret@.last()@;
            let left = run_of(sql@, cursor.tokens());
            assert(cursor.tokens() == past_separator(behind));
            assert(items_view(ret@) =~= read.push(item));
            assert(run_of(sql@, here) == after(seq![item], left));
            assert(read + (seq![item] + left.0) =~= read.push(item) + left.0);
        }
    }
    proof {
        assert(items_view(ret@) + Seq::<Item>::empty() =~= items_view(ret@));
        let whole = Ok::<Vec<VQL>, ParseError>(ret);
        assert(whole->Ok_0@ == ret@);
    }
    Ok(ret)
}

} // verus!
