//! Statements: how they are parsed and which tables they read.

use vstd::prelude::*;
use crate::names::NameSet;
use crate::parser::fallback::{
    convert_grammar_tree, grammar_output, grammar_statements, may_panic, parse_engine_dialect,
    parse_generic_dialect, parser_may_panic, GrammarModel, GrammarOutput,
};
use crate::parser::native::{native_statements_of_text, parse_with_duckdb_and_convert};
use crate::text::{join, lowercase, text_eq, texts, to_lowercase};
use crate::statement::{
    cte_model, cte_tables, ctes_tables, from_item_tables, from_items_model, from_tables,
    is_select, query_tables,
    set_expr_tables, statement_tables, statements_model, FromItem, Query, SetExpr, Statement,
    StatementModel,
};

verus! {

/// Why a text could not be parsed.
#[derive(Debug)]
pub enum ParseError {
    /// The general parser rejected the text, with this message.
    Syntax(String),
    /// The general parser accepted the text, but its tree does not have
    /// the shape that its serialisation has.
    Tree,
    /// The text may hold keywords that the general parser must not be
    /// given: `GRANTED BY` or `RELAY LOGS FOR CHANNEL`.
    Unsupported,
}

/// The model of a parse error.
pub ghost enum ParseErrorModel {
    Syntax(Seq<char>),
    Tree,
    Unsupported,
}

impl View for ParseError {
    type V = ParseErrorModel;

    open spec fn view(&self) -> ParseErrorModel {
        match self {
            ParseError::Syntax(message) => ParseErrorModel::Syntax(message@),
            ParseError::Tree => ParseErrorModel::Tree,
            ParseError::Unsupported => ParseErrorModel::Unsupported,
        }
    }
}

/// What the message of a parse error says.
pub open spec fn parse_error_message(error: ParseError) -> Seq<char> {
    match error {
        ParseError::Syntax(message) => "Failed to parse SQL: "@ + message@,
        ParseError::Tree => "Failed to parse SQL: unexpected syntax tree"@,
        ParseError::Unsupported => "Failed to parse SQL: GRANTED BY and FOR CHANNEL are not supported"@,
    }
}

impl ParseError {
    pub fn to_string(&self) -> (r: String)
        ensures
            r@ == parse_error_message(*self),
    {
        match self {
            ParseError::Syntax(message) => join("Failed to parse SQL: ", message.as_str()),
            ParseError::Tree => "Failed to parse SQL: unexpected syntax tree".to_owned(),
            ParseError::Unsupported => {
                "Failed to parse SQL: GRANTED BY and FOR CHANNEL are not supported".to_owned()
            },
        }
    }
}

/// Whether a dialect hint names the engine's own dialect.
pub open spec fn is_engine_dialect(dialect: Seq<char>) -> bool {
    lowercase(dialect) == "duckdb"@
}

/// What the general parser returns for a text in the dialect that the
/// hint names. A text that may hold a keyword on which the parser
/// panics is not given to it, and is answered with an error.
pub open spec fn grammar_result(sql: Seq<char>, dialect: Seq<char>) -> Result<
    GrammarModel,
    ParseErrorModel,
> {
    if parser_may_panic(sql) {
        Err(ParseErrorModel::Unsupported)
    } else {
        match grammar_output(sql, is_engine_dialect(dialect)) {
            Err(message) => Err(ParseErrorModel::Syntax(message)),
            Ok(output) => Ok(output),
        }
    }
}

/// What the general parser makes of a text: the statements of its tree,
/// or its error.
pub open spec fn grammar_parse(sql: Seq<char>, dialect: Seq<char>) -> Result<
    Seq<StatementModel>,
    ParseErrorModel,
> {
    match grammar_result(sql, dialect) {
        Err(error) => Err(error),
        Ok(output) => match grammar_statements(output.tree) {
            None => Err(ParseErrorModel::Tree),
            Some(statements) => Ok(statements),
        },
    }
}

/// The texts that the general parser writes the statements of a text
/// back as, or its error.
pub open spec fn grammar_texts(sql: Seq<char>, dialect: Seq<char>) -> Result<
    Seq<Seq<char>>,
    ParseErrorModel,
> {
    match grammar_result(sql, dialect) {
        Err(error) => Err(error),
        Ok(output) => Ok(output.texts),
    }
}

/// What a text parses to. With the engine's dialect and a serialised
/// tree of the engine's own parser that the adapter accepts, it is the
/// statements of that tree. In every other case it is what the general
/// parser makes of the text, and the general parser's error is the only
/// one that shows.
pub open spec fn parsed(sql: Seq<char>, dialect: Seq<char>, native_ast: Option<Seq<char>>) -> Result<
    Seq<StatementModel>,
    ParseErrorModel,
> {
    if is_engine_dialect(dialect) && native_ast is Some && native_statements_of_text(
        native_ast->Some_0,
    ) is Ok {
        Ok(native_statements_of_text(native_ast->Some_0)->Ok_0)
    } else {
        grammar_parse(sql, dialect)
    }
}

/// The text of an optional string slice.
pub open spec fn optional_text(text: Option<&str>) -> Option<Seq<char>> {
    match text {
        Some(text) => Some(text@),
        None => None,
    }
}

/// Whether a dialect hint names the engine's own dialect, in any case.
pub fn is_duckdb_dialect(dialect_name: &str) -> (r: bool)
    ensures
        r == is_engine_dialect(dialect_name@),
{
    let lower = to_lowercase(dialect_name);
    text_eq(lower.as_str(), "duckdb")
}

/// Gives a text to the general parser, in the dialect that the hint
/// names, unless it may hold a keyword on which the parser panics.
pub fn run_grammar(sql: &str, dialect_name: &str) -> (r: Result<GrammarOutput, ParseError>)
    ensures
        match r {
            Ok(output) => grammar_result(sql@, dialect_name@)
                == Ok::<GrammarModel, ParseErrorModel>(
                output@,
            ),
            Err(error) => grammar_result(sql@, dialect_name@) == Err::<
                GrammarModel,
                ParseErrorModel,
            >(error@),
        },
{
    if may_panic(sql) {
        return Err(ParseError::Unsupported);
    }
    let output = if is_duckdb_dialect(dialect_name) {
        parse_engine_dialect(sql)
    } else {
        parse_generic_dialect(sql)
    };
    match output {
        Ok(output) => Ok(output),
        Err(message) => Err(ParseError::Syntax(message)),
    }
}

/// The texts that the general parser writes the statements of a text
/// back as.
pub fn written_statements(sql: &str, dialect_name: &str) -> (r: Result<Vec<String>, ParseError>)
    ensures
        match r {
            Ok(written) => grammar_texts(sql@, dialect_name@) == Ok::<
                Seq<Seq<char>>,
                ParseErrorModel,
            >(texts(written@)),
            Err(error) => grammar_texts(sql@, dialect_name@) == Err::<
                Seq<Seq<char>>,
                ParseErrorModel,
            >(error@),
        },
{
    match run_grammar(sql, dialect_name) {
        Ok(output) => Ok(output.texts),
        Err(error) => Err(error),
    }
}

/// Parses a text with the general parser, in the dialect that the hint
/// names.
pub fn parse_with_grammar(sql: &str, dialect_name: &str) -> (r: Result<Vec<Statement>, ParseError>)
    ensures
        match r {
            Ok(statements) => grammar_parse(sql@, dialect_name@)
                == Ok::<Seq<StatementModel>, ParseErrorModel>(statements_model(statements@)),
            Err(error) => grammar_parse(sql@, dialect_name@)
                == Err::<Seq<StatementModel>, ParseErrorModel>(error@),
        },
{
    match run_grammar(sql, dialect_name) {
        Ok(output) => match convert_grammar_tree(&output.tree) {
            Some(statements) => Ok(statements),
            None => Err(ParseError::Tree),
        },
        Err(error) => Err(error),
    }
}

/// Parses a text into statements. `native_ast` is the tree that the
/// engine's own parser serialised for the same text, where the caller
/// has one. It is preferred for the engine's dialect; where the adapter
/// does not accept it, the general parser takes over.
pub fn parse_sql(sql: &str, dialect_name: &str, native_ast: Option<&str>) -> (r: Result<
    Vec<Statement>,
    ParseError,
>)
    ensures
        match r {
            Ok(statements) => parsed(sql@, dialect_name@, optional_text(native_ast))
                == Ok::<Seq<StatementModel>, ParseErrorModel>(statements_model(statements@)),
            Err(error) => parsed(sql@, dialect_name@, optional_text(native_ast))
                == Err::<Seq<StatementModel>, ParseErrorModel>(error@),
        },
{
    if is_duckdb_dialect(dialect_name) {
        match native_ast {
            Some(ast_json) => match parse_with_duckdb_and_convert(ast_json) {
                Ok(statements) => {
                    return Ok(statements);
                },
                Err(_) => {},
            },
            None => {},
        }
    }
    parse_with_grammar(sql, dialect_name)
}

/// Whether a statement is a `SELECT` query.
pub fn is_select_tree(statement: &Statement) -> (r: bool)
    ensures
        r == is_select(statement@),
{
    match statement {
        Statement::Query(query) => match &query.body {
            SetExpr::Select { .. } => true,
            SetExpr::Query(_) => true,
            _ => false,
        },
        Statement::Other => false,
    }
}

/// The names of the tables that a statement reads.
pub fn extract_tables(statement: &Statement) -> (tables: NameSet)
    ensures
        tables.wf(),
        tables@ == statement_tables(statement@),
{
    let mut tables = NameSet::new();
    match statement {
        Statement::Query(query) => {
            extract_tables_from_query(query, &mut tables);
            assert(tables@ =~= statement_tables(statement@));
        },
        Statement::Other => {},
    }
    tables
}

fn extract_tables_from_item(item: &FromItem, tables: &mut NameSet)
    requires
        old(tables).wf(),
    ensures
        final(tables).wf(),
        final(tables)@ == old(tables)@.union(from_item_tables(item@)),
    decreases item,
{
    match item {
        FromItem::Table { name } => {
            tables.insert(name.clone());
        },
        FromItem::Derived { subquery } => {
            extract_tables_from_query(subquery, tables);
        },
        FromItem::Join { left, right } => {
            extract_tables_from_item(left, tables);
            extract_tables_from_item(right, tables);
        },
        FromItem::Other => {},
    }
    assert(tables@ =~= old(tables)@.union(from_item_tables(item@)));
}

fn extract_tables_from_body(body: &SetExpr, tables: &mut NameSet)
    requires
        old(tables).wf(),
    ensures
        final(tables).wf(),
        final(tables)@ == old(tables)@.union(set_expr_tables(body@)),
    decreases body,
{
    match body {
        SetExpr::Select { from } => {
            let mut i: usize = 0;
            while i < from.len()
                invariant
                    tables.wf(),
                    i <= from@.len(),
                    *body == (SetExpr::Select { from: *from }),
                    tables@ == old(tables)@.union(from_tables(from_items_model(*from), i as nat)),
                decreases from@.len() - i,
            {
                proof {
                    vstd::std_specs::vec::axiom_vec_index_decreases(*from, i as int);
                    assert(body is Select && body->Select_from == *from);
                }
                extract_tables_from_item(&from[i], tables);
                i += 1;
                assert(tables@ =~= old(tables)@.union(
                    from_tables(from_items_model(*from), i as nat),
                ));
            }
        },
        SetExpr::SetOperation { left, right, .. } => {
            extract_tables_from_body(left, tables);
            extract_tables_from_body(right, tables);
        },
        SetExpr::Query(query) => {
            extract_tables_from_query(query, tables);
        },
        SetExpr::Other => {},
    }
    assert(tables@ =~= old(tables)@.union(set_expr_tables(body@)));
}

fn extract_tables_from_query(query: &Query, tables: &mut NameSet)
    requires
        old(tables).wf(),
    ensures
        final(tables).wf(),
        final(tables)@ == old(tables)@.union(query_tables(query@)),
    decreases query,
{
    extract_tables_from_body(&query.body, tables);
    let mut i: usize = 0;
    while i < query.with.len()
        invariant
            tables.wf(),
            i <= query.with@.len(),
            tables@ == old(tables)@.union(set_expr_tables(query@.body)).union(
                ctes_tables(query@.with, i as nat),
            ),
        decreases query.with@.len() - i,
    {
        proof {
            vstd::std_specs::vec::axiom_vec_index_decreases(query.with, i as int);
        }
        assert(query@.with[i as int] == cte_model(query.with@[i as int]));
        let mut inner = NameSet::new();
        extract_tables_from_query(&query.with[i].query, &mut inner);
        inner.remove(query.with[i].alias.as_str());
        assert(inner@ =~= cte_tables(query@.with[i as int]));
        tables.extend(&inner);
        i += 1;
        assert(tables@ =~= old(tables)@.union(set_expr_tables(query@.body)).union(
            ctes_tables(query@.with, i as nat),
        ));
    }
    assert(tables@ =~= old(tables)@.union(query_tables(query@)));
}

} // verus!
