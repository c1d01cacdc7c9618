//! What holds of the grammar and of parsing, for all texts and tokens.

use vstd::prelude::*;
use sqlparser::ast::Statement;
use crate::cursor::{lexemes, lowercase, passed, statement_at};
use crate::grammar::{
    after, at_end, datasource_of, entries_of, entry_of, is_extension, is_keyword, past_separator,
    prepend, run_of, Ending,
};
use crate::parser::{parsed, result_of};
use crate::statement::{items_view, DataSource, Entry, Fault, Item, ParseError, VQL};
use crate::token::{at, rest, Tok};

verus! {

/// The statements that the general parser builds of `toks`, the last tokens
/// of the text `sql`, where it accepts every statement and none is taken for a
/// data-source statement at its first two tokens; `None` otherwise.
pub open spec fn standard_statements(sql: Seq<char>, toks: Seq<Tok>) -> Option<Seq<Statement>>
    decreases toks.len(),
{
    if at_end(toks) {
        Some(Seq::empty())
    } else if is_extension(toks) {
        None
    } else {
        match statement_at(sql, passed(sql, toks)) {
            Err(_) => None,
            Ok((statement, taken)) => if 1 <= taken <= toks.len() {
                match standard_statements(sql, past_separator(toks.skip(taken))) {
                    Some(later) => Some(seq![statement] + later),
                    None => None,
                }
            } else {
                None
            },
        }
    }
}

/// The models of statements of standard SQL, in the same order.
pub open spec fn as_generic(statements: Seq<Statement>) -> Seq<Item> {
    statements.map_values(|s: Statement| Item::Generic(s))
}

/// A run over standard SQL alone ends well and yields one element for each
/// statement, in order, each the statement that the general parser built.
pub proof fn standard_run_yields_its_statements(sql: Seq<char>, toks: Seq<Tok>)
    requires
        standard_statements(sql, toks) is Some,
    ensures
        run_of(sql, toks) == (as_generic(standard_statements(sql, toks)->Some_0), Ending::Done),
    decreases toks.len(),
{
    if at_end(toks) {
        assert(as_generic(Seq::<Statement>::empty()) =~= Seq::<Item>::empty());
    } else {
        let found = statement_at(sql, passed(sql, toks))->Ok_0;
        let left = past_separator(toks.skip(found.1));
        standard_run_yields_its_statements(sql, left);
        let later = standard_statements(sql, left)->Some_0;
        assert(as_generic(seq![found.0] + later) =~= seq![Item::Generic(found.0)] + as_generic(
            later,
        ));
    }
}

/// A text of standard SQL alone is parsed with success, to one element for
/// each of its statements, in order, each holding the statement that the
/// general parser built.
pub proof fn standard_text_is_parsed(sql: Seq<char>, r: Result<Vec<VQL>, ParseError>)
    requires
        lexemes(sql) is Ok,
        standard_statements(sql, lexemes(sql)->Ok_0) is Some,
        parsed(sql, r),
    ensures
        r is Ok,
        r->Ok_0@.len() == standard_statements(sql, lexemes(sql)->Ok_0)->Some_0.len(),
        forall|i: int|
            0 <= i < r->Ok_0@.len() ==> (#[trigger] r->Ok_0@[i])@ == Item::Generic(
                standard_statements(sql, lexemes(sql)->Ok_0)->Some_0[i],
            ),
{
    let statements = standard_statements(sql, lexemes(sql)->Ok_0)->Some_0;
    standard_run_yields_its_statements(sql, lexemes(sql)->Ok_0);
    assert(items_view(r->Ok_0@).len() == as_generic(statements).len());
    assert forall|i: int| 0 <= i < r->Ok_0@.len() implies (#[trigger] r->Ok_0@[i])@
        == Item::Generic(statements[i]) by {
        assert(items_view(r->Ok_0@)[i] == as_generic(statements)[i]);
    }
}

/// Parsing is a function of the text: two results for the same text are both
/// a success with the same statements in the same order, or both the same
/// error.
pub proof fn parsing_twice_gives_the_same(
    sql: Seq<char>,
    one: Result<Vec<VQL>, ParseError>,
    other: Result<Vec<VQL>, ParseError>,
)
    requires
        parsed(sql, one),
        parsed(sql, other),
    ensures
        one is Ok <==> other is Ok,
        one is Ok ==> items_view(one->Ok_0@) == items_view(other->Ok_0@),
        one is Err ==> one->Err_0@ == other->Err_0@,
{
}

/// A text whose tokens are one data-source statement, with any number of
/// entries and none at all too, is parsed with success, to that one statement
/// with its name and exactly those entries.
pub proof fn lone_data_source_is_parsed(
    sql: Seq<char>,
    first: Tok,
    second: Tok,
    name: Seq<char>,
    keyword: Seq<char>,
    entries: Seq<Entry>,
    r: Result<Vec<VQL>, ParseError>,
)
    requires
        first is Word,
        is_keyword(first, "create"@) || is_keyword(second, "datasource"@),
        lowercase(keyword) == "config"@,
        lexemes(sql) == Ok::<Seq<Tok>, sqlparser::parser::ParserError>(
            seq![first, second, Tok::Word(name), Tok::Word(keyword), Tok::LParen] + spelled(entries)
                + seq![Tok::RParen],
        ),
        parsed(sql, r),
    ensures
        r is Ok,
        items_view(r->Ok_0@) == seq![
            Item::Extension(DataSource { table_name: name, config_parameters: entries }),
        ],
{
    reveal_with_fuel(run_of, 2);
    let toks = lexemes(sql)->Ok_0;
    let none = Seq::<Tok>::empty();
    let source = Item::Extension(DataSource { table_name: name, config_parameters: entries });
    data_source_is_read_as_written(first, second, name, keyword, entries, none);
    assert(toks + none =~= toks);
    assert(toks[0] == first);
    assert(toks[1] == second);
    assert(is_extension(toks));
    assert(!at_end(toks));
    assert(datasource_of(toks).1 == none);
    assert(past_separator(none) == none);
    assert(seq![source] + Seq::<Item>::empty() =~= seq![source]);
    assert(run_of(sql, toks) == (seq![source], Ending::Done));
}

/// The tokens that spell `entries`: for each a word, `=` and a quoted literal.
pub open spec fn spelled(entries: Seq<Entry>) -> Seq<Tok>
    decreases entries.len(),
{
    if entries.len() == 0 {
        Seq::empty()
    } else {
        seq![Tok::Word(entries[0].name), Tok::Eq, Tok::Quoted(entries[0].value)] + spelled(
            entries.skip(1),
        )
    }
}

/// A list of any number of entries, with `)` behind it, is read as exactly
/// those entries, in their order and with their texts, up to that `)`.
pub proof fn spelled_entries_are_read_in_order(entries: Seq<Entry>, tail: Seq<Tok>)
    requires
        at(tail, 0) == Tok::RParen,
    ensures
        entries_of(spelled(entries) + tail) == (Ok::<Seq<Entry>, Fault>(entries), tail),
    decreases entries.len(),
{
    let toks = spelled(entries) + tail;
    if entries.len() == 0 {
        assert(toks =~= tail);
        assert(entries =~= Seq::<Entry>::empty());
    } else {
        let later = entries.skip(1);
        spelled_entries_are_read_in_order(later, tail);
        assert(toks.skip(3) =~= spelled(later) + tail);
        assert(toks[0] == Tok::Word(entries[0].name));
        assert(toks[1] == Tok::Eq);
        assert(toks[2] == Tok::Quoted(entries[0].value));
        assert(entry_of(toks).0 == Ok::<Entry, Fault>(entries[0]));
        assert(at(toks, 0) != Tok::RParen);
        assert(entries_of(toks) == prepend(seq![entries[0]], entries_of(toks.skip(3))));
        assert(seq![entries[0]] + later =~= entries);
    }
}

/// A data-source statement with any number of entries is read as its name and
/// exactly those entries, whatever its first two tokens are and however
/// `CONFIG` is capitalised; the tokens behind its `)` are left.
pub proof fn data_source_is_read_as_written(
    first: Tok,
    second: Tok,
    name: Seq<char>,
    keyword: Seq<char>,
    entries: Seq<Entry>,
    tail: Seq<Tok>,
)
    requires
        lowercase(keyword) == "config"@,
    ensures
        datasource_of(
            seq![first, second, Tok::Word(name), Tok::Word(keyword), Tok::LParen] + spelled(entries)
                + seq![Tok::RParen] + tail,
        ) == (
            Ok::<DataSource, Fault>(DataSource { table_name: name, config_parameters: entries }),
            tail,
        ),
{
    let head = seq![first, second, Tok::Word(name), Tok::Word(keyword), Tok::LParen];
    let toks = head + spelled(entries) + seq![Tok::RParen] + tail;
    let body = rest(rest(toks));
    let close = seq![Tok::RParen] + tail;
    assert(toks[0] == first);
    assert(body =~= toks.skip(2));
    assert(body[0] == Tok::Word(name));
    assert(body[1] == Tok::Word(keyword));
    assert(body[2] == Tok::LParen);
    assert(body.skip(3) =~= spelled(entries) + close);
    spelled_entries_are_read_in_order(entries, close);
    assert(rest(close) =~= tail);
}

/// Without `CONFIG` behind the name, a data-source statement fails for want of
/// it.
pub proof fn missing_config_is_reported(toks: Seq<Tok>)
    requires
        at(toks, 2) is Word,
        !is_keyword(at(toks, 3), "config"@),
    ensures
        datasource_of(toks).0 == Err::<DataSource, Fault>(Fault::Config),
{
    let body = rest(rest(toks));
    assert(body =~= toks.skip(2));
    assert(at(body, 0) == at(toks, 2));
    assert(at(body, 1) == at(toks, 3));
}

/// A list of entries without a `)` is not read: it fails.
pub proof fn unclosed_list_fails(toks: Seq<Tok>)
    requires
        forall|i: int| 0 <= i < toks.len() ==> toks[i] != Tok::RParen,
    ensures
        entries_of(toks).0 is Err,
    decreases toks.len(),
{
    if entry_of(toks).0 is Ok {
        unclosed_list_fails(toks.skip(3));
    }
}

/// A data-source statement without a `)` is not read: it fails.
pub proof fn unclosed_data_source_fails(toks: Seq<Tok>)
    requires
        forall|i: int| 0 <= i < toks.len() ==> toks[i] != Tok::RParen,
    ensures
        datasource_of(toks).0 is Err,
{
    let body = rest(rest(toks));
    if body.len() >= 3 {
        unclosed_list_fails(body.skip(3));
    }
}

/// Whether `left` is what stays of `toks` when tokens are taken from its
/// front.
pub open spec fn is_suffix(left: Seq<Tok>, toks: Seq<Tok>) -> bool {
    left.len() <= toks.len() && left == toks.skip(toks.len() - left.len())
}

/// Reading a list of entries takes tokens from the front and leaves the
/// others; where it succeeds, the first of those is the `)`.
pub proof fn entries_leave_a_suffix(toks: Seq<Tok>)
    ensures
        is_suffix(entries_of(toks).1, toks),
        entries_of(toks).0 is Ok ==> at(entries_of(toks).1, 0) == Tok::RParen,
    decreases toks.len(),
{
    let left = entries_of(toks).1;
    if at(toks, 0) == Tok::RParen {
        assert(left =~= toks.skip(0));
    } else if entry_of(toks).0 is Ok {
        let later = toks.skip(3);
        entries_leave_a_suffix(later);
        assert(left =~= toks.skip(toks.len() - left.len()));
    } else {
        assert(left =~= toks.skip(toks.len() - left.len()));
    }
}

/// Reading a data-source statement takes tokens from the front and leaves the
/// others; where it succeeds, it takes at least one.
pub proof fn data_source_leaves_a_suffix(toks: Seq<Tok>)
    ensures
        is_suffix(datasource_of(toks).1, toks),
        datasource_of(toks).0 is Ok ==> datasource_of(toks).1.len() < toks.len(),
{
    let body = rest(rest(toks));
    let left = datasource_of(toks).1;
    assert(body =~= toks.skip(toks.len() - body.len()));
    if at(body, 0) is Word && is_keyword(at(body, 1), "config"@) && at(body, 2) == Tok::LParen {
        let list = body.skip(3);
        entries_leave_a_suffix(list);
        assert(entries_of(list).1 =~= toks.skip(toks.len() - entries_of(list).1.len()));
    }
    assert(left =~= toks.skip(toks.len() - left.len()));
}

/// Reading a list of entries that ends well does not look behind its `)`:
/// one more token behind the list changes nothing but what is left.
pub proof fn entries_ignore_what_follows(toks: Seq<Tok>, extra: Tok)
    requires
        entries_of(toks).0 is Ok,
    ensures
        entries_of(toks.push(extra)) == (entries_of(toks).0, entries_of(toks).1.push(extra)),
    decreases toks.len(),
{
    let longer = toks.push(extra);
    if at(toks, 0) == Tok::RParen {
        assert(at(longer, 0) == Tok::RParen);
    } else {
        assert(toks.len() >= 3);
        assert(at(longer, 0) == at(toks, 0));
        assert(at(longer, 1) == at(toks, 1));
        assert(at(longer, 2) == at(toks, 2));
        assert(entry_of(longer).0 == entry_of(toks).0);
        entries_ignore_what_follows(toks.skip(3), extra);
        assert(longer.skip(3) =~= toks.skip(3).push(extra));
    }
}

/// Reading a data-source statement that reads well does not look behind its
/// `)`: one more token behind it changes nothing but what is left.
pub proof fn data_source_ignores_what_follows(toks: Seq<Tok>, extra: Tok)
    requires
        datasource_of(toks).0 is Ok,
    ensures
        datasource_of(toks.push(extra)) == (
            datasource_of(toks).0,
            datasource_of(toks).1.push(extra),
        ),
{
    let longer = toks.push(extra);
    let body = rest(rest(toks));
    assert(body.len() >= 3);
    assert(body =~= toks.skip(2));
    assert(rest(rest(longer)) =~= body.push(extra));
    let list = body.skip(3);
    assert(body.push(extra).skip(3) =~= list.push(extra));
    assert(at(body.push(extra), 0) == at(body, 0));
    assert(at(body.push(extra), 1) == at(body, 1));
    assert(at(body.push(extra), 2) == at(body, 2));
    entries_ignore_what_follows(list, extra);
    entries_leave_a_suffix(list);
    let left = entries_of(list).1;
    assert(rest(left.push(extra)) =~= rest(left).push(extra));
}

/// Whether the general parser reads alike in the texts `sql` and `longer`
/// at every place where the run over `toks`, the last tokens of `sql`, hands
/// a statement to it, and takes tokens that are there.
pub open spec fn read_alike(sql: Seq<char>, longer: Seq<char>, toks: Seq<Tok>) -> bool
    decreases toks.len(),
{
    if at_end(toks) {
        true
    } else if is_extension(toks) {
        datasource_of(toks).0 is Ok && datasource_of(toks).1.len() < toks.len() ==> read_alike(
            sql,
            longer,
            past_separator(datasource_of(toks).1),
        )
    } else {
        let found = statement_at(sql, passed(sql, toks));
        statement_at(longer, passed(sql, toks)) == found && (found is Ok ==> 1 <= found->Ok_0.1
            <= toks.len() && read_alike(sql, longer, past_separator(toks.skip(found->Ok_0.1))))
    }
}

/// A `;` behind the last statement changes nothing. Let `longer` be a text
/// with the tokens of `sql` and one `;` behind them, in which the general
/// parser reads the statements of `sql` as it does there. A run over `sql`
/// that reads a statement or more to the end of tokens that do not end in `;`
/// is also the run over `longer`.
pub proof fn trailing_separator_changes_nothing(
    sql: Seq<char>,
    longer: Seq<char>,
    toks: Seq<Tok>,
)
    requires
        lexemes(sql) is Ok,
        lexemes(longer) is Ok,
        lexemes(longer)->Ok_0.len() == lexemes(sql)->Ok_0.len() + 1,
        read_alike(sql, longer, toks),
        run_of(sql, toks).1 == Ending::Done,
        run_of(sql, toks).0.len() > 0,
        at(toks, toks.len() - 1) != Tok::SemiColon,
    ensures
        run_of(longer, toks.push(Tok::SemiColon)) == run_of(sql, toks),
    decreases toks.len(),
{
    reveal_with_fuel(run_of, 2);
    reveal_with_fuel(read_alike, 2);
    let semi = Tok::SemiColon;
    let more = toks.push(semi);
    assert(toks.len() > 0);
    assert(at(more, 0) == at(toks, 0));
    assert(at(more, 1) == if toks.len() > 1 {
        at(toks, 1)
    } else {
        semi
    });
    assert(is_extension(more) == is_extension(toks));
    assert(passed(longer, more) == passed(sql, toks));
    data_source_leaves_a_suffix(toks);
    if is_extension(toks) {
        data_source_ignores_what_follows(toks, semi);
    }
    let cut = if is_extension(toks) {
        datasource_of(toks).1
    } else {
        toks.skip(statement_at(sql, passed(sql, toks))->Ok_0.1)
    };
    let more_cut = if is_extension(toks) {
        datasource_of(more).1
    } else {
        more.skip(statement_at(sql, passed(sql, toks))->Ok_0.1)
    };
    assert(more_cut =~= cut.push(semi));
    assert(is_suffix(cut, toks));
    let left = past_separator(cut);
    let more_left = past_separator(more_cut);
    if cut.len() > 0 {
        assert(cut[cut.len() - 1] == toks[toks.len() - 1]);
        assert(at(more_cut, 0) == at(cut, 0));
    }
    if left.len() == 0 {
        assert(cut.len() == 0);
        assert(more_left =~= left);
    } else {
        assert(more_left =~= left.push(semi));
        assert(left[left.len() - 1] == toks[toks.len() - 1]);
        assert(at(more_left, 0) == at(left, 0));
        data_source_leaves_a_suffix(left);
        if run_of(sql, left).0.len() > 0 {
            trailing_separator_changes_nothing(sql, longer, left);
        } else {
            assert(at_end(left));
        }
    }
    assert(run_of(longer, more_left) == run_of(sql, left));
}

/// Parsing a text and parsing it with a `;` behind it give the same, where
/// the first gives a statement or more: the law above, said of the results.
pub proof fn trailing_separator_is_parsed_alike(
    sql: Seq<char>,
    longer: Seq<char>,
    r: Result<Vec<VQL>, ParseError>,
    s: Result<Vec<VQL>, ParseError>,
)
    requires
        lexemes(sql) is Ok,
        lexemes(longer) == Ok::<Seq<Tok>, sqlparser::parser::ParserError>(
            lexemes(sql)->Ok_0.push(Tok::SemiColon),
        ),
        read_alike(sql, longer, lexemes(sql)->Ok_0),
        at(lexemes(sql)->Ok_0, lexemes(sql)->Ok_0.len() - 1) != Tok::SemiColon,
        parsed(sql, r),
        parsed(longer, s),
        r is Ok,
        r->Ok_0@.len() > 0,
    ensures
        s is Ok,
        items_view(s->Ok_0@) == items_view(r->Ok_0@),
{
    trailing_separator_changes_nothing(sql, longer, lexemes(sql)->Ok_0);
}

} // verus!
