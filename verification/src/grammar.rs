//! The grammar of the data-source statement and the rule by which statements
//! are told apart, as functions on token sequences.
//!
//! ```text
//! CREATE DATASOURCE <identifier> CONFIG ( (<identifier> = '<string>')* )
//! ```

use vstd::prelude::*;
use crate::cursor::{eq_refusal, lowercase, passed, statement_at};
use crate::statement::{DataSource, Entry, Failure, Fault, Item};
use crate::token::{at, rest, Tok};

verus! {

/// Whether `t` is a word that reads `keyword` when put in lower case.
pub open spec fn is_keyword(t: Tok, keyword: Seq<char>) -> bool {
    match t {
        Tok::Word(w) => lowercase(w) == keyword,
        _ => false,
    }
}

/// Where no statement is left: at the end of the tokens.
pub open spec fn at_end(toks: Seq<Tok>) -> bool {
    at(toks, 0) == Tok::Eof
}

/// Whether the statement at the start of `toks` is taken for a data-source
/// statement: it begins with a word, and that word is `CREATE` or the token
/// after it is the word `DATASOURCE`.
pub open spec fn is_extension(toks: Seq<Tok>) -> bool {
    at(toks, 0) is Word && (is_keyword(at(toks, 0), "create"@) || is_keyword(
        at(toks, 1),
        "datasource"@,
    ))
}

/// One entry read from the start of `toks`, and the tokens left behind it.
/// After a failure the second component tells where reading stopped.
pub open spec fn entry_of(toks: Seq<Tok>) -> (Result<Entry, Fault>, Seq<Tok>) {
    match at(toks, 0) {
        Tok::Word(name) => if at(toks, 1) != Tok::Eq {
            (Err(Fault::Collaborator), toks.skip(1))
        } else {
            match at(toks, 2) {
                Tok::Quoted(value) => (Ok(Entry { name, value }), toks.skip(3)),
                _ => (Err(Fault::Value), toks.skip(2)),
            }
        },
        _ => (Err(Fault::Identifier), toks),
    }
}

/// `first` put in front of the entries of a result.
pub open spec fn prepend(first: Seq<Entry>, then: (Result<Seq<Entry>, Fault>, Seq<Tok>)) -> (
    Result<Seq<Entry>, Fault>,
    Seq<Tok>,
) {
    match then.0 {
        Ok(entries) => (Ok(first + entries), then.1),
        Err(fault) => (Err(fault), then.1),
    }
}

/// The entries read from the start of `toks` up to the first `)` that stands
/// where an entry would begin, and the tokens from that `)` on.
pub open spec fn entries_of(toks: Seq<Tok>) -> (Result<Seq<Entry>, Fault>, Seq<Tok>)
    decreases toks.len(),
{
    if at(toks, 0) == Tok::RParen {
        (Ok(Seq::empty()), toks)
    } else {
        match entry_of(toks).0 {
            Ok(entry) => prepend(seq![entry], entries_of(toks.skip(3))),
            Err(fault) => (Err(fault), entry_of(toks).1),
        }
    }
}

/// Whether `(` stands where the data-source statement at the start of `toks`
/// needs it: behind the name and `CONFIG`, where both are there.
pub open spec fn well_opened(toks: Seq<Tok>) -> bool {
    let body = rest(rest(toks));
    at(body, 0) is Word && is_keyword(at(body, 1), "config"@) ==> at(body, 2) == Tok::LParen
}

/// The data-source statement read from the start of `toks`, and the tokens
/// left behind it. The first two tokens are passed unread.
pub open spec fn datasource_of(toks: Seq<Tok>) -> (Result<DataSource, Fault>, Seq<Tok>) {
    let body = rest(rest(toks));
    match at(body, 0) {
        Tok::Word(table_name) => if !is_keyword(at(body, 1), "config"@) {
            (Err(Fault::Config), body.skip(1))
        } else if at(body, 2) != Tok::LParen {
            (Err(Fault::OpenParen), body.skip(2))
        } else {
            let list = entries_of(body.skip(3));
            match list.0 {
                Ok(config_parameters) => (
                    Ok(DataSource { table_name, config_parameters }),
                    rest(list.1),
                ),
                Err(fault) => (Err(fault), list.1),
            }
        },
        _ => (Err(Fault::TableName), body),
    }
}

/// `toks` without a `;` at its start.
pub open spec fn past_separator(toks: Seq<Tok>) -> Seq<Tok> {
    if at(toks, 0) == Tok::SemiColon {
        rest(toks)
    } else {
        toks
    }
}

/// How a run over the statements ended.
pub ghost enum Ending {
    /// At the end of the tokens.
    Done,
    /// At the first statement that could not be read.
    Failed(Failure),
}

/// The error of kind `kind` that reading the text `sql` gave where `stopped`
/// were the tokens left: for a missing `=` it holds the cursor's own error.
pub open spec fn failure_at(sql: Seq<char>, kind: Fault, stopped: Seq<Tok>) -> Failure {
    Failure {
        kind,
        passed_on: if kind == Fault::Collaborator {
            Some(eq_refusal(sql, passed(sql, stopped)))
        } else {
            None
        },
    }
}

/// `read` put in front of the statements of a run.
pub open spec fn after(read: Seq<Item>, run: (Seq<Item>, Ending)) -> (Seq<Item>, Ending) {
    (read + run.0, run.1)
}

/// What reading `toks`, the last tokens of the text `sql`, statement by
/// statement yields, and how it ends.
///
/// A data-source statement is read as `datasource_of` says, a statement of
/// standard SQL as `statement_at` says for its place in the text. A `;` behind
/// a statement is passed. The first statement that cannot be read ends the
/// run.
pub open spec fn run_of(sql: Seq<char>, toks: Seq<Tok>) -> (Seq<Item>, Ending)
    decreases toks.len(),
{
    if at_end(toks) {
        (Seq::empty(), Ending::Done)
    } else if is_extension(toks) {
        let read = datasource_of(toks);
        match read.0 {
            Err(kind) => (Seq::empty(), Ending::Failed(failure_at(sql, kind, read.1))),
            // A statement that reads well has taken tokens, so this holds.
            Ok(source) => if read.1.len() < toks.len() {
                after(seq![Item::Extension(source)], run_of(sql, past_separator(read.1)))
            } else {
                (Seq::empty(), Ending::Done)
            },
        }
    } else {
        match statement_at(sql, passed(sql, toks)) {
            Err(error) => (
                Seq::empty(),
                Ending::Failed(Failure { kind: Fault::Collaborator, passed_on: Some(error) }),
            ),
            Ok((statement, taken)) => if 1 <= taken <= toks.len() {
                after(seq![Item::Generic(statement)], run_of(sql, past_separator(toks.skip(taken))))
            } else {
                (Seq::empty(), Ending::Done)
            },
        }
    }
}

} // verus!
