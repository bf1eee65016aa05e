//! The general SQL grammar parser, and the adapter for the tree that it
//! serialises as JSON.

use vstd::prelude::*;
use crate::json::{
    json_array, json_from_value, json_get, json_get_array, json_get_string, lemma_get_decreases,
    lemma_item_decreases, models, Json, JsonModel,
};
use crate::statement::{
    ctes_model, from_items_model, statements_model, Cte, CteModel, FromItem, FromItemModel, Query,
    QueryModel, SetExpr, SetExprModel, SetOperator, Statement, StatementModel,
};
use crate::text::{contains, join, lowercase, occurs_in, text_eq, texts, to_lowercase};

verus! {

/// What the general parser returns for a text: its statements
/// serialised as JSON, and the text that it writes each statement back
/// as.
#[derive(Debug)]
pub struct GrammarOutput {
    pub tree: Json,
    pub texts: Vec<String>,
}

/// The model of what the general parser returns.
pub ghost struct GrammarModel {
    pub tree: JsonModel,
    pub texts: Seq<Seq<char>>,
}

impl View for GrammarOutput {
    type V = GrammarModel;

    open spec fn view(&self) -> GrammarModel {
        GrammarModel { tree: self.tree@, texts: texts(self.texts@) }
    }
}

/// What the general parser makes of a text in a dialect (the engine's or
/// the generic one): its output, or the message of its error.
pub uninterp spec fn grammar_output(sql: Seq<char>, engine_dialect: bool) -> Result<
    GrammarModel,
    Seq<char>,
>;

/// How the general parser writes an identifier in quotes.
pub uninterp spec fn quoted_identifier(quote: char, value: Seq<char>) -> Seq<char>;

/// Whether a text may hold one of the two keyword pairs after which the
/// general parser gives up with a panic instead of an error: `GRANTED
/// BY` (of `GRANT` and `REVOKE`) and `RELAY LOGS FOR CHANNEL` (of
/// `FLUSH`). The parser knows a keyword by the upper-case form of the
/// word, and only plain letters have these letters as their upper-case
/// form, so the text is looked at in lower case. A text that holds both
/// words of a pair anywhere counts.
pub open spec fn parser_may_panic(sql: Seq<char>) -> bool {
    ||| occurs_in("granted"@, lowercase(sql)) && occurs_in("by"@, lowercase(sql))
    ||| occurs_in("relay"@, lowercase(sql)) && occurs_in("channel"@, lowercase(sql))
}

/// Whether a text may hold one of the keyword pairs that the general
/// parser must not be given.
pub fn may_panic(sql: &str) -> (r: bool)
    ensures
        r == parser_may_panic(sql@),
{
    let lower = to_lowercase(sql);
    (contains(lower.as_str(), "granted") && contains(lower.as_str(), "by")) || (contains(
        lower.as_str(),
        "relay",
    ) && contains(lower.as_str(), "channel"))
}

/// Calls `sqlparser::parser::Parser::parse_sql` with `DuckDbDialect`,
/// serialises the statements with `serde_json::to_value` and writes each
/// with its `Display`. The parser unwraps the identifier after `GRANTED
/// BY` and the name after `RELAY LOGS FOR CHANNEL`, and panics where
/// there is none: a text that may hold one of these is left out. The contract
/// only gives the result its name: it depends on the text alone.
#[verifier::external_body]
pub(crate) fn parse_engine_dialect(sql: &str) -> (r: Result<GrammarOutput, String>)
    requires
        !parser_may_panic(sql@),
    ensures
        match r {
            Ok(output) => grammar_output(sql@, true) == Ok::<GrammarModel, Seq<char>>(output@),
            Err(message) => grammar_output(sql@, true) == Err::<GrammarModel, Seq<char>>(message@),
        },
{
    match sqlparser::parser::Parser::parse_sql(&sqlparser::dialect::DuckDbDialect {}, sql) {
        Ok(statements) => match serde_json::to_value(&statements) {
            Ok(tree) => Ok(
                GrammarOutput {
                    tree: json_from_value(&tree),
                    texts: statements.iter().map(|statement| statement.to_string()).collect(),
                },
            ),
            Err(error) => Err(error.to_string()),
        },
        Err(error) => Err(error.to_string()),
    }
}

/// Calls `sqlparser::parser::Parser::parse_sql` with `GenericDialect`,
/// serialises the statements with `serde_json::to_value` and writes each
/// with its `Display`. The parser unwraps the identifier after `GRANTED
/// BY` and the name after `RELAY LOGS FOR CHANNEL`, and panics where
/// there is none: a text that may hold one of these is left out. The contract
/// only gives the result its name: it depends on the text alone.
#[verifier::external_body]
pub(crate) fn parse_generic_dialect(sql: &str) -> (r: Result<GrammarOutput, String>)
    requires
        !parser_may_panic(sql@),
    ensures
        match r {
            Ok(output) => grammar_output(sql@, false) == Ok::<GrammarModel, Seq<char>>(output@),
            Err(message) => grammar_output(sql@, false) == Err::<GrammarModel, Seq<char>>(message@),
        },
{
    match sqlparser::parser::Parser::parse_sql(&sqlparser::dialect::GenericDialect {}, sql) {
        Ok(statements) => match serde_json::to_value(&statements) {
            Ok(tree) => Ok(
                GrammarOutput {
                    tree: json_from_value(&tree),
                    texts: statements.iter().map(|statement| statement.to_string()).collect(),
                },
            ),
            Err(error) => Err(error.to_string()),
        },
        Err(error) => Err(error.to_string()),
    }
}

/// Calls `sqlparser::ast::Ident::with_quote`, which panics on any other
/// quote than these four, and writes the identifier with its `Display`.
/// The contract only gives the result its name.
#[verifier::external_body]
pub(crate) fn quote_identifier(quote: char, value: &str) -> (r: String)
    requires
        is_quote(quote),
    ensures
        r@ == quoted_identifier(quote, value@),
{
    sqlparser::ast::Ident::with_quote(quote, value).to_string()
}

/// The characters that open a quoted identifier.
pub open spec fn is_quote(c: char) -> bool {
    c == '\'' || c == '"' || c == '`' || c == '['
}

/// The text of an identifier: its value, in quotes where it has a quote
/// style.
pub open spec fn ident_text(ident: JsonModel) -> Option<Seq<char>> {
    match json_get_string(ident, "value"@) {
        None => None,
        Some(value) => match json_get(ident, "quote_style"@) {
            None => Some(value),
            Some(JsonModel::Null) => Some(value),
            Some(JsonModel::Text(quote)) => if quote.len() == 1 && is_quote(quote[0]) {
                Some(quoted_identifier(quote[0], value))
            } else {
                None
            },
            Some(_) => None,
        },
    }
}

/// The text of a name made of the first `count` identifiers, with a dot
/// between each two.
pub open spec fn object_name_text(parts: Seq<JsonModel>, count: nat) -> Option<Seq<char>>
    decreases count,
{
    if 0 < count <= parts.len() {
        match object_name_text(parts, (count - 1) as nat) {
            None => None,
            Some(before) => match ident_text(parts[count - 1]) {
                None => None,
                Some(text) => if count == 1 {
                    Some(text)
                } else {
                    Some(before + "."@ + text)
                },
            },
        }
    } else {
        Some(Seq::empty())
    }
}

/// The set operator that a name of the general parser stands for.
pub open spec fn operator_named(name: Seq<char>) -> Option<SetOperator> {
    if name == "Union"@ {
        Some(SetOperator::Union)
    } else if name == "Except"@ {
        Some(SetOperator::Except)
    } else if name == "Intersect"@ {
        Some(SetOperator::Intersect)
    } else {
        None
    }
}

/// Whether a set quantifier keeps duplicates.
pub open spec fn quantifier_is_all(name: Seq<char>) -> bool {
    name == "All"@ || name == "AllByName"@
}

/// The from-item that a table factor stands for: a table, a subquery or
/// a join in parentheses. Any other factor names no table.
pub open spec fn table_factor(node: JsonModel) -> Option<FromItemModel>
    decreases node, 0nat,
{
    match json_get(node, "Table"@) {
        Some(table) => match json_get_array(table, "name"@) {
            None => None,
            Some(parts) => match object_name_text(parts, parts.len()) {
                None => None,
                Some(name) => Some(FromItemModel::Table { name }),
            },
        },
        None => match json_get(node, "Derived"@) {
            Some(derived) => match json_get(derived, "subquery"@) {
                None => None,
                Some(subquery) => match query_of(subquery) {
                    None => None,
                    Some(query) => Some(FromItemModel::Derived { subquery: Box::new(query) }),
                },
            },
            None => match json_get(node, "NestedJoin"@) {
                Some(nested) => match json_get(nested, "table_with_joins"@) {
                    None => None,
                    Some(inner) => table_with_joins(inner),
                },
                None => if node is Object {
                    Some(FromItemModel::Other)
                } else {
                    None
                },
            },
        },
    }
}

/// The from-item that joins `first` with the relations of the first
/// `count` joins, one after the other.
pub open spec fn joined(first: FromItemModel, joins: Seq<JsonModel>, count: nat) -> Option<
    FromItemModel,
>
    decreases joins, count,
{
    if 0 < count <= joins.len() {
        match joined(first, joins, (count - 1) as nat) {
            None => None,
            Some(left) => match json_get(joins[count - 1], "relation"@) {
                None => None,
                Some(relation) => match table_factor(relation) {
                    None => None,
                    Some(right) => Some(
                        FromItemModel::Join { left: Box::new(left), right: Box::new(right) },
                    ),
                },
            },
        }
    } else {
        Some(first)
    }
}

/// The from-item that a relation with its joins stands for.
pub open spec fn table_with_joins(node: JsonModel) -> Option<FromItemModel>
    decreases node, 1nat,
{
    match json_get(node, "relation"@) {
        None => None,
        Some(relation) => match table_factor(relation) {
            None => None,
            Some(first) => match json_get(node, "joins"@) {
                Some(JsonModel::Array(joins)) => joined(first, joins, joins.len()),
                _ => None,
            },
        },
    }
}

/// The from-items that the first `count` entries of a `FROM` clause
/// stand for.
pub open spec fn from_list(items: Seq<JsonModel>, count: nat) -> Option<Seq<FromItemModel>>
    decreases items, count,
{
    if 0 < count <= items.len() {
        match from_list(items, (count - 1) as nat) {
            None => None,
            Some(done) => match table_with_joins(items[count - 1]) {
                None => None,
                Some(item) => Some(done.push(item)),
            },
        }
    } else {
        Some(Seq::empty())
    }
}

/// The body that a set expression stands for: a select, a query in
/// parentheses or a set operation. Any other body names no table.
pub open spec fn body_of(node: JsonModel) -> Option<SetExprModel>
    decreases node, 0nat,
{
    match json_get(node, "Select"@) {
        Some(select) => match json_get(select, "from"@) {
            Some(JsonModel::Array(items)) => match from_list(items, items.len()) {
                None => None,
                Some(from) => Some(SetExprModel::Select { from }),
            },
            _ => None,
        },
        None => match json_get(node, "Query"@) {
            Some(query) => match query_of(query) {
                None => None,
                Some(inner) => Some(SetExprModel::Query(Box::new(inner))),
            },
            None => match json_get(node, "SetOperation"@) {
                Some(operation) => match json_get_string(operation, "op"@) {
                    None => None,
                    Some(name) => match operator_named(name) {
                        None => None,
                        Some(op) => match json_get_string(operation, "set_quantifier"@) {
                            None => None,
                            Some(quantifier) => match json_get(operation, "left"@) {
                                None => None,
                                Some(left_node) => match body_of(left_node) {
                                    None => None,
                                    Some(left) => match json_get(operation, "right"@) {
                                        None => None,
                                        Some(right_node) => match body_of(right_node) {
                                            None => None,
                                            Some(right) => Some(
                                                SetExprModel::SetOperation {
                                                    op,
                                                    all: quantifier_is_all(quantifier),
                                                    left: Box::new(left),
                                                    right: Box::new(right),
                                                },
                                            ),
                                        },
                                    },
                                },
                            },
                        },
                    },
                },
                None => if node is Object {
                    Some(SetExprModel::Other)
                } else {
                    None
                },
            },
        },
    }
}

/// The common table expression that a node stands for. Its alias is
/// written as table names are, in quotes where it has a quote style, so
/// that a reference to it is known by its name.
pub open spec fn cte_of(node: JsonModel) -> Option<CteModel>
    decreases node, 0nat,
{
    match json_get(node, "alias"@) {
        None => None,
        Some(alias) => match json_get(alias, "name"@) {
            None => None,
            Some(name) => match ident_text(name) {
                None => None,
                Some(text) => match json_get(node, "query"@) {
                    None => None,
                    Some(query_node) => match query_of(query_node) {
                        None => None,
                        Some(query) => Some(CteModel { alias: text, query }),
                    },
                },
            },
        },
    }
}

/// The common table expressions that the first `count` nodes stand for.
pub open spec fn ctes_of(nodes: Seq<JsonModel>, count: nat) -> Option<Seq<CteModel>>
    decreases nodes, count,
{
    if 0 < count <= nodes.len() {
        match ctes_of(nodes, (count - 1) as nat) {
            None => None,
            Some(done) => match cte_of(nodes[count - 1]) {
                None => None,
                Some(cte) => Some(done.push(cte)),
            },
        }
    } else {
        Some(Seq::empty())
    }
}

/// The common table expressions of a query node: none where it has no
/// `WITH` clause.
pub open spec fn with_of(node: JsonModel) -> Option<Seq<CteModel>>
    decreases node, 0nat,
{
    match json_get(node, "with"@) {
        None => Some(Seq::empty()),
        Some(JsonModel::Null) => Some(Seq::empty()),
        Some(with) => match json_get(with, "cte_tables"@) {
            Some(JsonModel::Array(nodes)) => ctes_of(nodes, nodes.len()),
            _ => None,
        },
    }
}

/// The query that a node stands for.
pub open spec fn query_of(node: JsonModel) -> Option<QueryModel>
    decreases node, 1nat,
{
    match with_of(node) {
        None => None,
        Some(with) => match json_get(node, "body"@) {
            None => None,
            Some(body_node) => match body_of(body_node) {
                None => None,
                Some(body) => Some(QueryModel { with, body }),
            },
        },
    }
}

/// The statement that a node stands for: a query, or a statement that is
/// none.
pub open spec fn grammar_statement(node: JsonModel) -> Option<StatementModel> {
    match json_get(node, "Query"@) {
        Some(query_node) => match query_of(query_node) {
            None => None,
            Some(query) => Some(StatementModel::Query(query)),
        },
        None => Some(StatementModel::Other),
    }
}

/// The statements that the first `count` nodes stand for.
pub open spec fn grammar_statements_from(nodes: Seq<JsonModel>, count: nat) -> Option<
    Seq<StatementModel>,
>
    decreases count,
{
    if 0 < count <= nodes.len() {
        match grammar_statements_from(nodes, (count - 1) as nat) {
            None => None,
            Some(done) => match grammar_statement(nodes[count - 1]) {
                None => None,
                Some(statement) => Some(done.push(statement)),
            },
        }
    } else {
        Some(Seq::empty())
    }
}

/// The statements that a serialised tree of the general parser stands
/// for; nothing where the tree does not have the shape that the parser
/// gives it.
pub open spec fn grammar_statements(tree: JsonModel) -> Option<Seq<StatementModel>> {
    match tree {
        JsonModel::Array(nodes) => grammar_statements_from(nodes, nodes.len()),
        _ => None,
    }
}

proof fn lemma_object_name_stays(parts: Seq<JsonModel>, count: nat, more: nat)
    requires
        count <= more <= parts.len(),
        object_name_text(parts, count) is None,
    ensures
        object_name_text(parts, more) is None,
    decreases more,
{
    if count < more {
        lemma_object_name_stays(parts, count, (more - 1) as nat);
    }
}

proof fn lemma_joined_stays(first: FromItemModel, joins: Seq<JsonModel>, count: nat, more: nat)
    requires
        count <= more <= joins.len(),
        joined(first, joins, count) is None,
    ensures
        joined(first, joins, more) is None,
    decreases more,
{
    if count < more {
        lemma_joined_stays(first, joins, count, (more - 1) as nat);
    }
}

proof fn lemma_from_list_stays(items: Seq<JsonModel>, count: nat, more: nat)
    requires
        count <= more <= items.len(),
        from_list(items, count) is None,
    ensures
        from_list(items, more) is None,
    decreases more,
{
    if count < more {
        lemma_from_list_stays(items, count, (more - 1) as nat);
    }
}

proof fn lemma_ctes_stays(nodes: Seq<JsonModel>, count: nat, more: nat)
    requires
        count <= more <= nodes.len(),
        ctes_of(nodes, count) is None,
    ensures
        ctes_of(nodes, more) is None,
    decreases more,
{
    if count < more {
        lemma_ctes_stays(nodes, count, (more - 1) as nat);
    }
}

proof fn lemma_grammar_statements_stays(nodes: Seq<JsonModel>, count: nat, more: nat)
    requires
        count <= more <= nodes.len(),
        grammar_statements_from(nodes, count) is None,
    ensures
        grammar_statements_from(nodes, more) is None,
    decreases more,
{
    if count < more {
        lemma_grammar_statements_stays(nodes, count, (more - 1) as nat);
    }
}

/// Writes an identifier: its value, in quotes where it has a quote style.
fn identifier(ident: &Json) -> (r: Option<String>)
    ensures
        match r {
            Some(text) => ident_text(ident@) == Some(text@),
            None => ident_text(ident@) is None,
        },
{
    let value = match ident.get_str("value") {
        Some(value) => value,
        None => {
            return None;
        },
    };
    match ident.get("quote_style") {
        None => Some(value.clone()),
        Some(Json::Null) => Some(value.clone()),
        Some(Json::Text(quote)) => {
            if quote.as_str().unicode_len() == 1 {
                let c = quote.as_str().get_char(0);
                if c == '\'' || c == '"' || c == '`' || c == '[' {
                    Some(quote_identifier(c, value.as_str()))
                } else {
                    None
                }
            } else {
                None
            }
        },
        Some(_) => None,
    }
}

/// Writes a name: its identifiers with a dot between each two.
fn object_name(parts: &Vec<Json>) -> (r: Option<String>)
    ensures
        match r {
            Some(text) => object_name_text(models(parts@), parts@.len()) == Some(text@),
            None => object_name_text(models(parts@), parts@.len()) is None,
        },
{
    let mut name = String::new();
    let mut i: usize = 0;
    while i < parts.len()
        invariant
            i <= parts@.len(),
            object_name_text(models(parts@), i as nat) == Some(name@),
        decreases parts@.len() - i,
    {
        match identifier(&parts[i]) {
            Some(text) => {
                if i == 0 {
                    name = text;
                } else {
                    name = join(name.as_str(), ".").concat(text.as_str());
                }
            },
            None => {
                proof {
                    lemma_object_name_stays(models(parts@), (i + 1) as nat, parts@.len());
                }
                return None;
            },
        }
        i += 1;
    }
    Some(name)
}

/// Turns a table factor into a from-item.
fn convert_table_factor(node: &Json) -> (r: Option<FromItem>)
    ensures
        match r {
            Some(item) => table_factor(node@) == Some(item@),
            None => table_factor(node@) is None,
        },
    decreases node, 0nat,
{
    if let Some(table) = node.get("Table") {
        let parts = match table.get_array("name") {
            Some(parts) => parts,
            None => {
                return None;
            },
        };
        return match object_name(parts) {
            Some(name) => Some(FromItem::Table { name }),
            None => None,
        };
    }
    if let Some(derived) = node.get("Derived") {
        let subquery = match derived.get("subquery") {
            Some(subquery) => subquery,
            None => {
                return None;
            },
        };
        proof {
            lemma_get_decreases(*node, "Derived"@);
            lemma_get_decreases(*derived, "subquery"@);
        }
        return match convert_query(subquery) {
            Some(query) => Some(FromItem::Derived { subquery: Box::new(query) }),
            None => None,
        };
    }
    if let Some(nested) = node.get("NestedJoin") {
        let inner = match nested.get("table_with_joins") {
            Some(inner) => inner,
            None => {
                return None;
            },
        };
        proof {
            lemma_get_decreases(*node, "NestedJoin"@);
            lemma_get_decreases(*nested, "table_with_joins"@);
        }
        return convert_table_with_joins(inner);
    }
    if node.is_object() {
        Some(FromItem::Other)
    } else {
        None
    }
}

/// Turns a relation with its joins into a from-item.
fn convert_table_with_joins(node: &Json) -> (r: Option<FromItem>)
    ensures
        match r {
            Some(item) => table_with_joins(node@) == Some(item@),
            None => table_with_joins(node@) is None,
        },
    decreases node, 1nat,
{
    let relation = match node.get("relation") {
        Some(relation) => relation,
        None => {
            return None;
        },
    };
    proof {
        lemma_get_decreases(*node, "relation"@);
        lemma_get_decreases(*node, "joins"@);
    }
    let mut item = match convert_table_factor(relation) {
        Some(item) => item,
        None => {
            return None;
        },
    };
    let joins = match node.get_array("joins") {
        Some(joins) => joins,
        None => {
            return None;
        },
    };
    let ghost first = item@;
    let mut i: usize = 0;
    while i < joins.len()
        invariant
            i <= joins@.len(),
            decreases_to!(*node => Json::Array(*joins)),
            json_get(node@, "relation"@) == Some(relation@),
            table_factor(relation@) == Some(first),
            json_get_array(node@, "joins"@) == Some(models(joins@)),
            joined(first, models(joins@), i as nat) == Some(item@),
        decreases joins@.len() - i,
    {
        let right_node = match joins[i].get("relation") {
            Some(right_node) => right_node,
            None => {
                proof {
                    lemma_joined_stays(first, models(joins@), (i + 1) as nat, joins@.len());
                }
                return None;
            },
        };
        proof {
            lemma_item_decreases(Json::Array(*joins), i as int);
            lemma_get_decreases(joins@[i as int], "relation"@);
        }
        match convert_table_factor(right_node) {
            Some(right) => {
                item = FromItem::Join { left: Box::new(item), right: Box::new(right) };
            },
            None => {
                proof {
                    lemma_joined_stays(first, models(joins@), (i + 1) as nat, joins@.len());
                }
                return None;
            },
        }
        i += 1;
    }
    Some(item)
}

/// Turns a set expression into a query body.
fn convert_body(node: &Json) -> (r: Option<SetExpr>)
    ensures
        match r {
            Some(body) => body_of(node@) == Some(body@),
            None => body_of(node@) is None,
        },
    decreases node, 0nat,
{
    if let Some(select) = node.get("Select") {
        let items = match select.get_array("from") {
            Some(items) => items,
            None => {
                return None;
            },
        };
        proof {
            lemma_get_decreases(*node, "Select"@);
            lemma_get_decreases(*select, "from"@);
        }
        let mut from: Vec<FromItem> = Vec::new();
        let mut i: usize = 0;
        assert(from_items_model(from) =~= Seq::<FromItemModel>::empty());
        while i < items.len()
            invariant
                i <= items@.len(),
                decreases_to!(*node => Json::Array(*items)),
                json_get(node@, "Select"@) == Some(select@),
                json_get_array(select@, "from"@) == Some(models(items@)),
                from_list(models(items@), i as nat) == Some(from_items_model(from)),
            decreases items@.len() - i,
        {
            proof {
                lemma_item_decreases(Json::Array(*items), i as int);
            }
            let ghost done = from_items_model(from);
            match convert_table_with_joins(&items[i]) {
                Some(item) => {
                    from.push(item);
                    assert(from_items_model(from) =~= done.push(item@));
                },
                None => {
                    proof {
                        lemma_from_list_stays(models(items@), (i + 1) as nat, items@.len());
                    }
                    return None;
                },
            }
            i += 1;
        }
        return Some(SetExpr::Select { from });
    }
    if let Some(query) = node.get("Query") {
        proof {
            lemma_get_decreases(*node, "Query"@);
        }
        return match convert_query(query) {
            Some(inner) => Some(SetExpr::Query(Box::new(inner))),
            None => None,
        };
    }
    if let Some(operation) = node.get("SetOperation") {
        let name = match operation.get_str("op") {
            Some(name) => name.as_str(),
            None => {
                return None;
            },
        };
        let op = if text_eq(name, "Union") {
            SetOperator::Union
        } else if text_eq(name, "Except") {
            SetOperator::Except
        } else if text_eq(name, "Intersect") {
            SetOperator::Intersect
        } else {
            return None;
        };
        let quantifier = match operation.get_str("set_quantifier") {
            Some(quantifier) => quantifier.as_str(),
            None => {
                return None;
            },
        };
        let all = text_eq(quantifier, "All") || text_eq(quantifier, "AllByName");
        proof {
            lemma_get_decreases(*node, "SetOperation"@);
            lemma_get_decreases(*operation, "left"@);
            lemma_get_decreases(*operation, "right"@);
        }
        let left = match operation.get("left") {
            Some(left_node) => match convert_body(left_node) {
                Some(left) => left,
                None => {
                    return None;
                },
            },
            None => {
                return None;
            },
        };
        let right = match operation.get("right") {
            Some(right_node) => match convert_body(right_node) {
                Some(right) => right,
                None => {
                    return None;
                },
            },
            None => {
                return None;
            },
        };
        return Some(SetExpr::SetOperation { op, all, left: Box::new(left), right: Box::new(right) });
    }
    if node.is_object() {
        Some(SetExpr::Other)
    } else {
        None
    }
}

/// Turns a node into a common table expression.
fn convert_cte(node: &Json) -> (r: Option<Cte>)
    ensures
        match r {
            Some(cte) => cte_of(node@) == Some(cte@),
            None => cte_of(node@) is None,
        },
    decreases node, 0nat,
{
    let alias = match node.get("alias") {
        Some(alias) => alias,
        None => {
            return None;
        },
    };
    let name = match alias.get("name") {
        Some(name) => name,
        None => {
            return None;
        },
    };
    let text = match identifier(name) {
        Some(text) => text,
        None => {
            return None;
        },
    };
    let query_node = match node.get("query") {
        Some(query_node) => query_node,
        None => {
            return None;
        },
    };
    proof {
        lemma_get_decreases(*node, "query"@);
    }
    match convert_query(query_node) {
        Some(query) => Some(Cte { alias: text, query }),
        None => None,
    }
}

/// Turns the `WITH` clause of a query node into common table
/// expressions.
fn convert_with(node: &Json) -> (r: Option<Vec<Cte>>)
    ensures
        match r {
            Some(ctes) => with_of(node@) == Some(ctes_model(ctes)),
            None => with_of(node@) is None,
        },
    decreases node, 0nat,
{
    let mut ctes: Vec<Cte> = Vec::new();
    assert(ctes_model(ctes) =~= Seq::<CteModel>::empty());
    let with = match node.get("with") {
        Some(with) => with,
        None => {
            return Some(ctes);
        },
    };
    if with.is_null() {
        return Some(ctes);
    }
    let nodes = match with.get_array("cte_tables") {
        Some(nodes) => nodes,
        None => {
            return None;
        },
    };
    proof {
        lemma_get_decreases(*node, "with"@);
        lemma_get_decreases(*with, "cte_tables"@);
    }
    let mut i: usize = 0;
    while i < nodes.len()
        invariant
            i <= nodes@.len(),
            decreases_to!(*node => Json::Array(*nodes)),
            json_get(node@, "with"@) == Some(with@),
            !(with is Null),
            json_get_array(with@, "cte_tables"@) == Some(models(nodes@)),
            ctes_of(models(nodes@), i as nat) == Some(ctes_model(ctes)),
        decreases nodes@.len() - i,
    {
        proof {
            lemma_item_decreases(Json::Array(*nodes), i as int);
        }
        let ghost done = ctes_model(ctes);
        match convert_cte(&nodes[i]) {
            Some(cte) => {
                ctes.push(cte);
                assert(ctes_model(ctes) =~= done.push(cte@));
            },
            None => {
                proof {
                    lemma_ctes_stays(models(nodes@), (i + 1) as nat, nodes@.len());
                }
                return None;
            },
        }
        i += 1;
    }
    Some(ctes)
}

/// Turns a node into a query.
fn convert_query(node: &Json) -> (r: Option<Query>)
    ensures
        match r {
            Some(query) => query_of(node@) == Some(query@),
            None => query_of(node@) is None,
        },
    decreases node, 1nat,
{
    let with = match convert_with(node) {
        Some(with) => with,
        None => {
            return None;
        },
    };
    let body_node = match node.get("body") {
        Some(body_node) => body_node,
        None => {
            return None;
        },
    };
    proof {
        lemma_get_decreases(*node, "body"@);
    }
    match convert_body(body_node) {
        Some(body) => Some(Query { with, body }),
        None => None,
    }
}

/// Turns a node into a statement.
fn convert_grammar_statement(node: &Json) -> (r: Option<Statement>)
    ensures
        match r {
            Some(statement) => grammar_statement(node@) == Some(statement@),
            None => grammar_statement(node@) is None,
        },
{
    match node.get("Query") {
        Some(query_node) => match convert_query(query_node) {
            Some(query) => Some(Statement::Query(query)),
            None => None,
        },
        None => Some(Statement::Other),
    }
}

/// Turns the serialised tree of the general parser into statements;
/// nothing where the tree does not have the shape that the parser gives
/// it.
pub fn convert_grammar_tree(tree: &Json) -> (r: Option<Vec<Statement>>)
    ensures
        match r {
            Some(statements) => grammar_statements(tree@) == Some(statements_model(statements@)),
            None => grammar_statements(tree@) is None,
        },
{
    let nodes = match tree.as_array() {
        Some(nodes) => nodes,
        None => {
            return None;
        },
    };
    let mut statements: Vec<Statement> = Vec::new();
    let mut i: usize = 0;
    assert(statements_model(statements@) =~= Seq::<StatementModel>::empty());
    while i < nodes.len()
        invariant
            i <= nodes@.len(),
            *tree == Json::Array(*nodes),
            json_array(tree@) == Some(models(nodes@)),
            grammar_statements_from(models(nodes@), i as nat) == Some(statements_model(statements@)),
        decreases nodes@.len() - i,
    {
        let ghost done = statements_model(statements@);
        match convert_grammar_statement(&nodes[i]) {
            Some(statement) => {
                statements.push(statement);
                assert(statements_model(statements@) =~= done.push(statement@));
            },
            None => {
                proof {
                    lemma_grammar_statements_stays(models(nodes@), (i + 1) as nat, nodes@.len());
                }
                return None;
            },
        }
        i += 1;
    }
    Some(statements)
}

} // verus!
