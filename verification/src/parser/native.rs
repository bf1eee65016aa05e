//! The adapter for the syntax tree that the database engine's own parser
//! serialises as JSON. It accepts what it understands and fails on
//! everything else, so that nothing a statement reads is lost in silence.

use vstd::prelude::*;
use crate::json::{
    json_get, json_get_array, json_get_bool, json_get_string, json_integer, json_of_text,
    lemma_get_decreases, lemma_item_decreases, models, parse_json, Json, JsonModel,
};
use crate::statement::{
    from_items_model, statements_model, CteModel, FromItem, FromItemModel, Query, QueryModel,
    SetExpr, SetExprModel, SetOperator, Statement, StatementModel,
};
use crate::text::{join, text_eq};

verus! {

/// A field that a node of the tree must have.
#[derive(Debug, Clone, Copy, PartialEq, Eq, Structural)]
pub enum Field {
    Node,
    Type,
    SetopType,
    Left,
    Right,
    SelectList,
    Class,
    Value,
    FunctionName,
    Children,
    ColumnName,
    OperatorType,
    TypeId,
    TableName,
    Subquery,
}

/// The type of a constant.
#[derive(Debug, Clone, Copy, PartialEq, Eq, Structural)]
pub enum ValueKind {
    Integer,
    Varchar,
    Float,
    Boolean,
    Date,
    Timestamp,
    Decimal,
}

/// Why a serialised tree was not accepted.
#[derive(Debug)]
pub enum AstError {
    /// The text is no JSON.
    InvalidJson,
    /// The tree is no JSON object.
    NotAnObject,
    /// The engine reported an error, with this message if it gave one.
    Engine(Option<String>),
    /// The tree has no array of statements.
    MissingStatements,
    /// A node lacks a field, or the field has the wrong shape.
    MissingField(Field),
    /// A constant does not hold what its type promises.
    InvalidValue(ValueKind),
    /// A node of a type that the adapter does not know.
    UnsupportedNodeType(String),
    /// A set operation that the adapter does not know.
    UnsupportedSetOperation(String),
    /// A table reference of a type that the adapter does not know, or of
    /// none.
    UnsupportedTableReference(Option<String>),
    /// A node with common table expressions, which the adapter does not
    /// follow.
    CommonTableExpressions,
}

/// The model of an error of the adapter.
pub ghost enum AstErrorModel {
    InvalidJson,
    NotAnObject,
    Engine(Option<Seq<char>>),
    MissingStatements,
    MissingField(Field),
    InvalidValue(ValueKind),
    UnsupportedNodeType(Seq<char>),
    UnsupportedSetOperation(Seq<char>),
    UnsupportedTableReference(Option<Seq<char>>),
    CommonTableExpressions,
}

impl View for AstError {
    type V = AstErrorModel;

    open spec fn view(&self) -> AstErrorModel {
        match self {
            AstError::InvalidJson => AstErrorModel::InvalidJson,
            AstError::NotAnObject => AstErrorModel::NotAnObject,
            AstError::Engine(Some(message)) => AstErrorModel::Engine(Some(message@)),
            AstError::Engine(None) => AstErrorModel::Engine(None),
            AstError::MissingStatements => AstErrorModel::MissingStatements,
            AstError::MissingField(field) => AstErrorModel::MissingField(*field),
            AstError::InvalidValue(kind) => AstErrorModel::InvalidValue(*kind),
            AstError::UnsupportedNodeType(kind) => AstErrorModel::UnsupportedNodeType(kind@),
            AstError::UnsupportedSetOperation(name) => AstErrorModel::UnsupportedSetOperation(
                name@,
            ),
            AstError::UnsupportedTableReference(Some(kind)) => AstErrorModel::UnsupportedTableReference(
                Some(kind@),
            ),
            AstError::UnsupportedTableReference(None) => AstErrorModel::UnsupportedTableReference(
                None,
            ),
            AstError::CommonTableExpressions => AstErrorModel::CommonTableExpressions,
        }
    }
}

/// The model of an error that may be there.
pub open spec fn error_model(error: Option<AstError>) -> Option<AstErrorModel> {
    match error {
        Some(error) => Some(error@),
        None => None,
    }
}

/// The name of a field, as the tree writes it.
pub open spec fn field_name(field: Field) -> Seq<char> {
    match field {
        Field::Node => "node"@,
        Field::Type => "type"@,
        Field::SetopType => "setop_type"@,
        Field::Left => "left"@,
        Field::Right => "right"@,
        Field::SelectList => "select_list"@,
        Field::Class => "class"@,
        Field::Value => "value"@,
        Field::FunctionName => "function_name"@,
        Field::Children => "children"@,
        Field::ColumnName => "column_name"@,
        Field::OperatorType => "operator_type"@,
        Field::TypeId => "type id"@,
        Field::TableName => "table_name"@,
        Field::Subquery => "subquery"@,
    }
}

/// The name of the type of a constant.
pub open spec fn value_kind_name(kind: ValueKind) -> Seq<char> {
    match kind {
        ValueKind::Integer => "INTEGER"@,
        ValueKind::Varchar => "VARCHAR"@,
        ValueKind::Float => "FLOAT/DOUBLE"@,
        ValueKind::Boolean => "BOOLEAN"@,
        ValueKind::Date => "DATE"@,
        ValueKind::Timestamp => "TIMESTAMP"@,
        ValueKind::Decimal => "DECIMAL"@,
    }
}

/// What the message of an error says.
pub open spec fn ast_error_message(error: AstError) -> Seq<char> {
    match error {
        AstError::InvalidJson => "Failed to parse DuckDB AST JSON"@,
        AstError::NotAnObject => "DuckDB AST is not a valid JSON object"@,
        AstError::Engine(Some(message)) => "DuckDB parser error: "@ + message@,
        AstError::Engine(None) => "DuckDB parser error"@,
        AstError::MissingStatements => "DuckDB AST does not contain statements array"@,
        AstError::MissingField(field) => "DuckDB AST node missing "@ + field_name(field),
        AstError::InvalidValue(kind) => value_kind_name(kind) + " value has the wrong type"@,
        AstError::UnsupportedNodeType(kind) => "Unsupported DuckDB AST node type: "@ + kind@,
        AstError::UnsupportedSetOperation(name) => "Unsupported set operation type: "@ + name@,
        AstError::UnsupportedTableReference(Some(kind)) => "Unsupported table reference type: "@
            + kind@,
        AstError::UnsupportedTableReference(None) => "Table reference missing type"@,
        AstError::CommonTableExpressions => "Common table expressions are not supported"@,
    }
}

impl Field {
    /// The name of the field, as the tree writes it.
    pub fn name(&self) -> (r: &'static str)
        ensures
            r@ == field_name(*self),
    {
        match self {
            Field::Node => "node",
            Field::Type => "type",
            Field::SetopType => "setop_type",
            Field::Left => "left",
            Field::Right => "right",
            Field::SelectList => "select_list",
            Field::Class => "class",
            Field::Value => "value",
            Field::FunctionName => "function_name",
            Field::Children => "children",
            Field::ColumnName => "column_name",
            Field::OperatorType => "operator_type",
            Field::TypeId => "type id",
            Field::TableName => "table_name",
            Field::Subquery => "subquery",
        }
    }
}

impl ValueKind {
    /// The name of the type.
    pub fn name(&self) -> (r: &'static str)
        ensures
            r@ == value_kind_name(*self),
    {
        match self {
            ValueKind::Integer => "INTEGER",
            ValueKind::Varchar => "VARCHAR",
            ValueKind::Float => "FLOAT/DOUBLE",
            ValueKind::Boolean => "BOOLEAN",
            ValueKind::Date => "DATE",
            ValueKind::Timestamp => "TIMESTAMP",
            ValueKind::Decimal => "DECIMAL",
        }
    }
}

impl AstError {
    /// The message of the error.
    pub fn to_string(&self) -> (r: String)
        ensures
            r@ == ast_error_message(*self),
    {
        match self {
            AstError::InvalidJson => "Failed to parse DuckDB AST JSON".to_owned(),
            AstError::NotAnObject => "DuckDB AST is not a valid JSON object".to_owned(),
            AstError::Engine(Some(message)) => join("DuckDB parser error: ", message.as_str()),
            AstError::Engine(None) => "DuckDB parser error".to_owned(),
            AstError::MissingStatements => "DuckDB AST does not contain statements array".to_owned(),
            AstError::MissingField(field) => join("DuckDB AST node missing ", field.name()),
            AstError::InvalidValue(kind) => join(kind.name(), " value has the wrong type"),
            AstError::UnsupportedNodeType(kind) => join(
                "Unsupported DuckDB AST node type: ",
                kind.as_str(),
            ),
            AstError::UnsupportedSetOperation(name) => join(
                "Unsupported set operation type: ",
                name.as_str(),
            ),
            AstError::UnsupportedTableReference(Some(kind)) => join(
                "Unsupported table reference type: ",
                kind.as_str(),
            ),
            AstError::UnsupportedTableReference(None) => "Table reference missing type".to_owned(),
            AstError::CommonTableExpressions => "Common table expressions are not supported".to_owned(),
        }
    }
}

/// What is wrong with a constant's data for the type that its node
/// names, if anything. A type that is not listed accepts any data.
pub open spec fn value_data_error(id: Seq<char>, data: JsonModel) -> Option<AstErrorModel> {
    if id == "INTEGER"@ {
        if json_integer(data) is Some {
            None
        } else {
            Some(AstErrorModel::InvalidValue(ValueKind::Integer))
        }
    } else if id == "VARCHAR"@ {
        if data is Text {
            None
        } else {
            Some(AstErrorModel::InvalidValue(ValueKind::Varchar))
        }
    } else if id == "DOUBLE"@ || id == "FLOAT"@ {
        if data is Number {
            None
        } else {
            Some(AstErrorModel::InvalidValue(ValueKind::Float))
        }
    } else if id == "BOOLEAN"@ {
        if data is Bool {
            None
        } else {
            Some(AstErrorModel::InvalidValue(ValueKind::Boolean))
        }
    } else if id == "DATE"@ {
        if data is Text {
            None
        } else {
            Some(AstErrorModel::InvalidValue(ValueKind::Date))
        }
    } else if id == "TIMESTAMP"@ {
        if data is Text {
            None
        } else {
            Some(AstErrorModel::InvalidValue(ValueKind::Timestamp))
        }
    } else if id == "DECIMAL"@ {
        if data is Number || data is Text {
            None
        } else {
            Some(AstErrorModel::InvalidValue(ValueKind::Decimal))
        }
    } else {
        None
    }
}

/// The name of the type of a constant: the string `id` of its object
/// `type`.
pub open spec fn value_type_id(value: JsonModel) -> Option<Seq<char>> {
    match json_get(value, "type"@) {
        Some(type_node) => json_get_string(type_node, "id"@),
        None => None,
    }
}

/// What is wrong with a constant, if anything. A null constant is fine;
/// any other needs a type name and data that fits it.
pub open spec fn value_error(value: JsonModel) -> Option<AstErrorModel> {
    if json_get_bool(value, "is_null"@) == Some(true) {
        None
    } else {
        match value_type_id(value) {
            None => Some(AstErrorModel::MissingField(Field::TypeId)),
            Some(id) => match json_get(value, "value"@) {
                None => Some(AstErrorModel::MissingField(Field::Value)),
                Some(data) => value_data_error(id, data),
            },
        }
    }
}

/// What is wrong with an expression node, if anything. Constants,
/// function calls, column references and operators are looked into; a
/// node of any other class passes as it is.
pub open spec fn expr_error(node: JsonModel) -> Option<AstErrorModel>
    decreases node,
{
    match json_get_string(node, "class"@) {
        None => Some(AstErrorModel::MissingField(Field::Class)),
        Some(class) => match json_get_string(node, "type"@) {
            None => Some(AstErrorModel::MissingField(Field::Type)),
            Some(kind) => if class == "CONSTANT"@ && kind == "VALUE_CONSTANT"@ {
                match json_get(node, "value"@) {
                    None => Some(AstErrorModel::MissingField(Field::Value)),
                    Some(value) => value_error(value),
                }
            } else if class == "FUNCTION"@ && kind == "FUNCTION"@ {
                match json_get_string(node, "function_name"@) {
                    None => Some(AstErrorModel::MissingField(Field::FunctionName)),
                    Some(_) => match json_get(node, "children"@) {
                        Some(JsonModel::Array(children)) => exprs_error(children, children.len()),
                        _ => Some(AstErrorModel::MissingField(Field::Children)),
                    },
                }
            } else if class == "COLUMN_REF"@ && kind == "COLUMN_REF"@ {
                match json_get_string(node, "column_name"@) {
                    None => Some(AstErrorModel::MissingField(Field::ColumnName)),
                    Some(_) => None,
                }
            } else if class == "OPERATOR"@ && kind == "OPERATOR"@ {
                match json_get_string(node, "operator_type"@) {
                    None => Some(AstErrorModel::MissingField(Field::OperatorType)),
                    Some(_) => match json_get(node, "children"@) {
                        Some(JsonModel::Array(children)) => if children.len() == 1 || children.len()
                            == 2 {
                            exprs_error(children, children.len())
                        } else {
                            None
                        },
                        _ => Some(AstErrorModel::MissingField(Field::Children)),
                    },
                }
            } else {
                None
            },
        },
    }
}

/// The first error among the first `count` expressions of a list.
pub open spec fn exprs_error(nodes: Seq<JsonModel>, count: nat) -> Option<AstErrorModel>
    decreases nodes, count,
{
    if 0 < count <= nodes.len() {
        match exprs_error(nodes, (count - 1) as nat) {
            Some(error) => Some(error),
            None => expr_error(nodes[count - 1]),
        }
    } else {
        None
    }
}

/// What is wrong with an item of a select list, if anything. Constants,
/// function calls and column references are looked into; any other
/// item passes.
pub open spec fn select_item_error(item: JsonModel) -> Option<AstErrorModel> {
    match json_get_string(item, "class"@) {
        None => Some(AstErrorModel::MissingField(Field::Class)),
        Some(class) => match json_get_string(item, "type"@) {
            None => Some(AstErrorModel::MissingField(Field::Type)),
            Some(kind) => if class == "OPERATOR"@ && kind == "OPERATOR"@ {
                None
            } else {
                expr_error(item)
            },
        },
    }
}

/// The first error among the first `count` items of a select list.
pub open spec fn select_items_error(items: Seq<JsonModel>, count: nat) -> Option<AstErrorModel>
    decreases count,
{
    if 0 < count <= items.len() {
        match select_items_error(items, (count - 1) as nat) {
            Some(error) => Some(error),
            None => select_item_error(items[count - 1]),
        }
    } else {
        None
    }
}

/// An error among the first expressions of a list stays the list's error.
proof fn lemma_exprs_error_stays(nodes: Seq<JsonModel>, count: nat, more: nat)
    requires
        count <= more <= nodes.len(),
        exprs_error(nodes, count) is Some,
    ensures
        exprs_error(nodes, more) == exprs_error(nodes, count),
    decreases more,
{
    if count < more {
        lemma_exprs_error_stays(nodes, count, (more - 1) as nat);
    }
}

proof fn lemma_select_items_error_stays(items: Seq<JsonModel>, count: nat, more: nat)
    requires
        count <= more <= items.len(),
        select_items_error(items, count) is Some,
    ensures
        select_items_error(items, more) == select_items_error(items, count),
    decreases more,
{
    if count < more {
        lemma_select_items_error_stays(items, count, (more - 1) as nat);
    }
}

/// Checks a constant.
fn check_value(value: &Json) -> (r: Option<AstError>)
    ensures
        error_model(r) == value_error(value@),
{
    if let Some(true) = value.get_bool("is_null") {
        return None;
    }
    let id = match value.get("type") {
        Some(type_node) => match type_node.get_str("id") {
            Some(id) => id,
            None => {
                return Some(AstError::MissingField(Field::TypeId));
            },
        },
        None => {
            return Some(AstError::MissingField(Field::TypeId));
        },
    };
    let data = match value.get("value") {
        Some(data) => data,
        None => {
            return Some(AstError::MissingField(Field::Value));
        },
    };
    let id = id.as_str();
    if text_eq(id, "INTEGER") {
        if data.as_i64().is_some() {
            None
        } else {
            Some(AstError::InvalidValue(ValueKind::Integer))
        }
    } else if text_eq(id, "VARCHAR") {
        if data.as_str().is_some() {
            None
        } else {
            Some(AstError::InvalidValue(ValueKind::Varchar))
        }
    } else if text_eq(id, "DOUBLE") || text_eq(id, "FLOAT") {
        if data.is_number() {
            None
        } else {
            Some(AstError::InvalidValue(ValueKind::Float))
        }
    } else if text_eq(id, "BOOLEAN") {
        if data.as_bool().is_some() {
            None
        } else {
            Some(AstError::InvalidValue(ValueKind::Boolean))
        }
    } else if text_eq(id, "DATE") {
        if data.as_str().is_some() {
            None
        } else {
            Some(AstError::InvalidValue(ValueKind::Date))
        }
    } else if text_eq(id, "TIMESTAMP") {
        if data.as_str().is_some() {
            None
        } else {
            Some(AstError::InvalidValue(ValueKind::Timestamp))
        }
    } else if text_eq(id, "DECIMAL") {
        if data.is_number() || data.as_str().is_some() {
            None
        } else {
            Some(AstError::InvalidValue(ValueKind::Decimal))
        }
    } else {
        None
    }
}

/// Checks an expression node.
fn check_expr_node(node: &Json) -> (r: Option<AstError>)
    ensures
        error_model(r) == expr_error(node@),
    decreases node,
{
    let class = match node.get_str("class") {
        Some(class) => class.as_str(),
        None => {
            return Some(AstError::MissingField(Field::Class));
        },
    };
    let kind = match node.get_str("type") {
        Some(kind) => kind.as_str(),
        None => {
            return Some(AstError::MissingField(Field::Type));
        },
    };
    if text_eq(class, "CONSTANT") && text_eq(kind, "VALUE_CONSTANT") {
        match node.get("value") {
            Some(value) => check_value(value),
            None => Some(AstError::MissingField(Field::Value)),
        }
    } else if text_eq(class, "FUNCTION") && text_eq(kind, "FUNCTION") {
        if node.get_str("function_name").is_none() {
            return Some(AstError::MissingField(Field::FunctionName));
        }
        match node.get_array("children") {
            Some(children) => {
                proof {
                    lemma_get_decreases(*node, "children"@);
                }
                check_expr_nodes(children, Ghost(*node))
            },
            None => Some(AstError::MissingField(Field::Children)),
        }
    } else if text_eq(class, "COLUMN_REF") && text_eq(kind, "COLUMN_REF") {
        match node.get_str("column_name") {
            Some(_) => None,
            None => Some(AstError::MissingField(Field::ColumnName)),
        }
    } else if text_eq(class, "OPERATOR") && text_eq(kind, "OPERATOR") {
        if node.get_str("operator_type").is_none() {
            return Some(AstError::MissingField(Field::OperatorType));
        }
        match node.get_array("children") {
            Some(children) => {
                if children.len() == 1 || children.len() == 2 {
                    proof {
                        lemma_get_decreases(*node, "children"@);
                    }
                    check_expr_nodes(children, Ghost(*node))
                } else {
                    None
                }
            },
            None => Some(AstError::MissingField(Field::Children)),
        }
    } else {
        None
    }
}

/// Checks the expressions of a list that lies inside `parent`, up to the
/// first error.
fn check_expr_nodes(nodes: &Vec<Json>, Ghost(parent): Ghost<Json>) -> (r: Option<AstError>)
    requires
        decreases_to!(parent => Json::Array(*nodes)),
    ensures
        error_model(r) == exprs_error(models(nodes@), nodes@.len()),
    decreases parent, 0nat,
{
    let mut i: usize = 0;
    while i < nodes.len()
        invariant
            i <= nodes@.len(),
            decreases_to!(parent => Json::Array(*nodes)),
            exprs_error(models(nodes@), i as nat) is None,
        decreases nodes@.len() - i,
    {
        proof {
            lemma_item_decreases(Json::Array(*nodes), i as int);
        }
        match check_expr_node(&nodes[i]) {
            None => {},
            Some(error) => {
                proof {
                    lemma_exprs_error_stays(models(nodes@), (i + 1) as nat, nodes@.len());
                }
                return Some(error);
            },
        }
        i += 1;
    }
    None
}

/// A name with a prefix before it, where the prefix is there and not
/// empty.
pub open spec fn qualified(prefix: Option<Seq<char>>, name: Seq<char>) -> Seq<char> {
    match prefix {
        Some(text) => if text.len() > 0 {
            text + "."@ + name
        } else {
            name
        },
        None => name,
    }
}

/// The qualified name of a base table: its catalog and its schema, where
/// the node names them, before the table's own name.
pub open spec fn base_table_name(node: JsonModel, table: Seq<char>) -> Seq<char> {
    qualified(
        json_get_string(node, "catalog_name"@),
        qualified(json_get_string(node, "schema_name"@), table),
    )
}

/// The set operator that a name stands for.
pub open spec fn set_operator_named(name: Seq<char>) -> Option<SetOperator> {
    if name == "UNION"@ {
        Some(SetOperator::Union)
    } else if name == "EXCEPT"@ {
        Some(SetOperator::Except)
    } else if name == "INTERSECT"@ {
        Some(SetOperator::Intersect)
    } else {
        None
    }
}

/// The from-item that a table reference stands for: a base table, a join
/// of two references, or a subquery. Any other reference is an error.
pub open spec fn table_reference(node: JsonModel) -> Result<FromItemModel, AstErrorModel>
    decreases node, 0nat,
{
    match json_get_string(node, "type"@) {
        None => Err(AstErrorModel::UnsupportedTableReference(None)),
        Some(kind) => if kind == "BASE_TABLE"@ {
            match json_get_string(node, "table_name"@) {
                None => Err(AstErrorModel::MissingField(Field::TableName)),
                Some(table) => Ok(FromItemModel::Table { name: base_table_name(node, table) }),
            }
        } else if kind == "JOIN"@ {
            match json_get(node, "left"@) {
                None => Err(AstErrorModel::MissingField(Field::Left)),
                Some(left_node) => match table_reference(left_node) {
                    Err(error) => Err(error),
                    Ok(left) => match json_get(node, "right"@) {
                        None => Err(AstErrorModel::MissingField(Field::Right)),
                        Some(right_node) => match table_reference(right_node) {
                            Err(error) => Err(error),
                            Ok(right) => Ok(
                                FromItemModel::Join {
                                    left: Box::new(left),
                                    right: Box::new(right),
                                },
                            ),
                        },
                    },
                },
            }
        } else if kind == "SUBQUERY"@ {
            match json_get(node, "subquery"@) {
                None => Err(AstErrorModel::MissingField(Field::Subquery)),
                Some(subquery) => match set_expr(subquery) {
                    Err(error) => Err(error),
                    Ok(body) => Ok(
                        FromItemModel::Derived {
                            subquery: Box::new(QueryModel { with: Seq::empty(), body }),
                        },
                    ),
                },
            }
        } else {
            Err(AstErrorModel::UnsupportedTableReference(Some(kind)))
        },
    }
}

/// The from-items of a select node: none where it has no table reference
/// or an empty one, else the one that the reference stands for.
pub open spec fn from_clause(node: JsonModel) -> Result<Seq<FromItemModel>, AstErrorModel>
    decreases node, 0nat,
{
    match json_get(node, "from_table"@) {
        None => Ok(Seq::empty()),
        Some(reference) => match json_get_string(reference, "type"@) {
            Some(kind) => if kind == "EMPTY"@ {
                Ok(Seq::empty())
            } else {
                match table_reference(reference) {
                    Err(error) => Err(error),
                    Ok(item) => Ok(seq![item]),
                }
            },
            None => match table_reference(reference) {
                Err(error) => Err(error),
                Ok(item) => Ok(seq![item]),
            },
        },
    }
}

/// What is wrong with the expression under a key, if the key is there.
pub open spec fn optional_expr_error(node: JsonModel, key: Seq<char>) -> Option<AstErrorModel> {
    match json_get(node, key) {
        None => None,
        Some(expr) => expr_error(expr),
    }
}

/// What is wrong with the grouping expressions of a select node.
pub open spec fn group_error(node: JsonModel) -> Option<AstErrorModel> {
    match json_get_array(node, "group_expressions"@) {
        None => None,
        Some(groups) => exprs_error(groups, groups.len()),
    }
}

/// What is wrong with the common table expressions of a node. The
/// adapter follows none, so a node may only have an empty map of them,
/// or no map at all.
pub open spec fn cte_error(node: JsonModel) -> Option<AstErrorModel> {
    match json_get(node, "cte_map"@) {
        None => None,
        Some(ctes) => match json_get_array(ctes, "map"@) {
            Some(entries) => if entries.len() == 0 {
                None
            } else {
                Some(AstErrorModel::CommonTableExpressions)
            },
            None => Some(AstErrorModel::CommonTableExpressions),
        },
    }
}

/// The body that a select node stands for. Its common table
/// expressions, its select list, its table reference, its filter, its
/// grouping and its `HAVING` filter are looked at in this order, and the
/// first error is the node's.
pub open spec fn select_body(node: JsonModel) -> Result<SetExprModel, AstErrorModel>
    decreases node, 2nat,
{
    if cte_error(node) is Some {
        Err(cte_error(node)->Some_0)
    } else {
        select_body_without_ctes(node)
    }
}

/// The body that a select node without common table expressions stands
/// for.
pub open spec fn select_body_without_ctes(node: JsonModel) -> Result<SetExprModel, AstErrorModel>
    decreases node, 1nat,
{
    match json_get_array(node, "select_list"@) {
        None => Err(AstErrorModel::MissingField(Field::SelectList)),
        Some(items) => match select_items_error(items, items.len()) {
            Some(error) => Err(error),
            None => match from_clause(node) {
                Err(error) => Err(error),
                Ok(from) => match optional_expr_error(node, "where_clause"@) {
                    Some(error) => Err(error),
                    None => match group_error(node) {
                        Some(error) => Err(error),
                        None => match optional_expr_error(node, "having_clause"@) {
                            Some(error) => Err(error),
                            None => Ok(SetExprModel::Select { from }),
                        },
                    },
                },
            },
        },
    }
}

/// The body that a set operation node stands for.
pub open spec fn set_operation(node: JsonModel) -> Result<SetExprModel, AstErrorModel>
    decreases node, 2nat,
{
    if cte_error(node) is Some {
        Err(cte_error(node)->Some_0)
    } else {
        set_operation_without_ctes(node)
    }
}

/// The body that a set operation node without common table expressions
/// stands for.
pub open spec fn set_operation_without_ctes(node: JsonModel) -> Result<SetExprModel, AstErrorModel>
    decreases node, 1nat,
{
    match json_get_string(node, "setop_type"@) {
        None => Err(AstErrorModel::MissingField(Field::SetopType)),
        Some(name) => match json_get(node, "left"@) {
            None => Err(AstErrorModel::MissingField(Field::Left)),
            Some(left_node) => match json_get(node, "right"@) {
                None => Err(AstErrorModel::MissingField(Field::Right)),
                Some(right_node) => match set_expr(left_node) {
                    Err(error) => Err(error),
                    Ok(left) => match set_expr(right_node) {
                        Err(error) => Err(error),
                        Ok(right) => match set_operator_named(name) {
                            None => Err(AstErrorModel::UnsupportedSetOperation(name)),
                            Some(op) => Ok(
                                SetExprModel::SetOperation {
                                    op,
                                    all: json_get_bool(node, "setop_all"@) == Some(true),
                                    left: Box::new(left),
                                    right: Box::new(right),
                                },
                            ),
                        },
                    },
                },
            },
        },
    }
}

/// The body that a node stands for: that of a select node or of a set
/// operation node. A node of any other type is an error.
pub open spec fn set_expr(node: JsonModel) -> Result<SetExprModel, AstErrorModel>
    decreases node, 3nat,
{
    match json_get_string(node, "type"@) {
        None => Err(AstErrorModel::MissingField(Field::Type)),
        Some(kind) => if kind == "SELECT_NODE"@ {
            select_body(node)
        } else if kind == "SET_OPERATION_NODE"@ {
            set_operation(node)
        } else {
            Err(AstErrorModel::UnsupportedNodeType(kind))
        },
    }
}

/// Turns a table reference into a from-item.
fn convert_table_reference(node: &Json) -> (r: Result<FromItem, AstError>)
    ensures
        match r {
            Ok(item) => table_reference(node@) == Ok::<FromItemModel, AstErrorModel>(item@),
            Err(error) => table_reference(node@) == Err::<FromItemModel, AstErrorModel>(error@),
        },
    decreases node, 0nat,
{
    let kind = match node.get_str("type") {
        Some(kind) => kind,
        None => {
            return Err(AstError::UnsupportedTableReference(None));
        },
    };
    if text_eq(kind.as_str(), "BASE_TABLE") {
        match node.get_str("table_name") {
            Some(table) => {
                let with_schema = qualify(node.get_str("schema_name"), table.as_str());
                let name = qualify(node.get_str("catalog_name"), with_schema.as_str());
                Ok(FromItem::Table { name })
            },
            None => Err(AstError::MissingField(Field::TableName)),
        }
    } else if text_eq(kind.as_str(), "JOIN") {
        let left_node = match node.get("left") {
            Some(left_node) => left_node,
            None => {
                return Err(AstError::MissingField(Field::Left));
            },
        };
        proof {
            lemma_get_decreases(*node, "left"@);
            lemma_get_decreases(*node, "right"@);
        }
        let left = match convert_table_reference(left_node) {
            Ok(left) => left,
            Err(error) => {
                return Err(error);
            },
        };
        let right_node = match node.get("right") {
            Some(right_node) => right_node,
            None => {
                return Err(AstError::MissingField(Field::Right));
            },
        };
        let right = match convert_table_reference(right_node) {
            Ok(right) => right,
            Err(error) => {
                return Err(error);
            },
        };
        Ok(FromItem::Join { left: Box::new(left), right: Box::new(right) })
    } else if text_eq(kind.as_str(), "SUBQUERY") {
        let subquery = match node.get("subquery") {
            Some(subquery) => subquery,
            None => {
                return Err(AstError::MissingField(Field::Subquery));
            },
        };
        proof {
            lemma_get_decreases(*node, "subquery"@);
        }
        match convert_node_to_set_expr(subquery) {
            Ok(body) => {
                let query = Query { with: Vec::new(), body };
                assert(query@.with =~= Seq::<CteModel>::empty());
                Ok(FromItem::Derived { subquery: Box::new(query) })
            },
            Err(error) => Err(error),
        }
    } else {
        Err(AstError::UnsupportedTableReference(Some(kind.clone())))
    }
}

/// Puts a prefix and a dot before a name, where the prefix is there and
/// not empty.
fn qualify(prefix: Option<&String>, name: &str) -> (r: String)
    ensures
        r@ == qualified(
            match prefix {
                Some(text) => Some(text@),
                None => None,
            },
            name@,
        ),
{
    match prefix {
        Some(text) => {
            if text.as_str().unicode_len() > 0 {
                join(text.as_str(), ".").concat(name)
            } else {
                name.to_owned()
            }
        },
        None => name.to_owned(),
    }
}

/// Checks the expression under a key, if the key is there.
fn check_optional_expr(node: &Json, key: &str) -> (r: Option<AstError>)
    ensures
        error_model(r) == optional_expr_error(node@, key@),
{
    match node.get(key) {
        Some(expr) => check_expr_node(expr),
        None => None,
    }
}

/// Checks that a node has no common table expressions.
fn check_ctes(node: &Json) -> (r: Option<AstError>)
    ensures
        error_model(r) == cte_error(node@),
{
    match node.get("cte_map") {
        Some(ctes) => match ctes.get_array("map") {
            Some(entries) => {
                if entries.len() == 0 {
                    None
                } else {
                    Some(AstError::CommonTableExpressions)
                }
            },
            None => Some(AstError::CommonTableExpressions),
        },
        None => None,
    }
}

/// Checks an item of a select list.
fn check_select_list_item(item: &Json) -> (r: Option<AstError>)
    ensures
        error_model(r) == select_item_error(item@),
{
    let class = match item.get_str("class") {
        Some(class) => class.as_str(),
        None => {
            return Some(AstError::MissingField(Field::Class));
        },
    };
    let kind = match item.get_str("type") {
        Some(kind) => kind.as_str(),
        None => {
            return Some(AstError::MissingField(Field::Type));
        },
    };
    if text_eq(class, "OPERATOR") && text_eq(kind, "OPERATOR") {
        None
    } else {
        check_expr_node(item)
    }
}

/// Turns a select node into a query body.
fn convert_select_body(node: &Json) -> (r: Result<SetExpr, AstError>)
    ensures
        match r {
            Ok(body) => select_body(node@) == Ok::<SetExprModel, AstErrorModel>(body@),
            Err(error) => select_body(node@) == Err::<SetExprModel, AstErrorModel>(error@),
        },
    decreases node, 1nat,
{
    match check_ctes(node) {
        None => {},
        Some(error) => {
            return Err(error);
        },
    }
    let items = match node.get_array("select_list") {
        Some(items) => items,
        None => {
            return Err(AstError::MissingField(Field::SelectList));
        },
    };
    let mut i: usize = 0;
    while i < items.len()
        invariant
            i <= items@.len(),
            cte_error(node@) is None,
            json_get_array(node@, "select_list"@) == Some(models(items@)),
            select_items_error(models(items@), i as nat) is None,
        decreases items@.len() - i,
    {
        match check_select_list_item(&items[i]) {
            None => {},
            Some(error) => {
                proof {
                    lemma_select_items_error_stays(models(items@), (i + 1) as nat, items@.len());
                }
                return Err(error);
            },
        }
        i += 1;
    }
    let mut from: Vec<FromItem> = Vec::new();
    match node.get("from_table") {
        Some(reference) => {
            let empty = match reference.get_str("type") {
                Some(kind) => text_eq(kind.as_str(), "EMPTY"),
                None => false,
            };
            if !empty {
                proof {
                    lemma_get_decreases(*node, "from_table"@);
                }
                match convert_table_reference(reference) {
                    Ok(item) => {
                        from.push(item);
                    },
                    Err(error) => {
                        return Err(error);
                    },
                }
            }
        },
        None => {},
    }
    assert(from_clause(node@)
        == Ok::<Seq<FromItemModel>, AstErrorModel>(from_items_model(from))) by {
        assert(from_items_model(from) =~= from_clause(node@)->Ok_0);
    }
    match check_optional_expr(node, "where_clause") {
        None => {},
        Some(error) => {
            return Err(error);
        },
    }
    match node.get_array("group_expressions") {
        Some(groups) => {
            proof {
                lemma_get_decreases(*node, "group_expressions"@);
            }
            match check_expr_nodes(groups, Ghost(*node)) {
                None => {},
                Some(error) => {
                    return Err(error);
                },
            }
        },
        None => {},
    }
    match check_optional_expr(node, "having_clause") {
        None => {},
        Some(error) => {
            return Err(error);
        },
    }
    Ok(SetExpr::Select { from })
}

/// Turns a set operation node into a query body.
fn convert_set_operation(node: &Json) -> (r: Result<SetExpr, AstError>)
    ensures
        match r {
            Ok(body) => set_operation(node@) == Ok::<SetExprModel, AstErrorModel>(body@),
            Err(error) => set_operation(node@) == Err::<SetExprModel, AstErrorModel>(error@),
        },
    decreases node, 1nat,
{
    match check_ctes(node) {
        None => {},
        Some(error) => {
            return Err(error);
        },
    }
    let name = match node.get_str("setop_type") {
        Some(name) => name,
        None => {
            return Err(AstError::MissingField(Field::SetopType));
        },
    };
    let all = match node.get_bool("setop_all") {
        Some(all) => all,
        None => false,
    };
    let left_node = match node.get("left") {
        Some(left_node) => left_node,
        None => {
            return Err(AstError::MissingField(Field::Left));
        },
    };
    let right_node = match node.get("right") {
        Some(right_node) => right_node,
        None => {
            return Err(AstError::MissingField(Field::Right));
        },
    };
    proof {
        lemma_get_decreases(*node, "left"@);
        lemma_get_decreases(*node, "right"@);
    }
    let left = match convert_node_to_set_expr(left_node) {
        Ok(left) => left,
        Err(error) => {
            return Err(error);
        },
    };
    let right = match convert_node_to_set_expr(right_node) {
        Ok(right) => right,
        Err(error) => {
            return Err(error);
        },
    };
    let op = if text_eq(name.as_str(), "UNION") {
        SetOperator::Union
    } else if text_eq(name.as_str(), "EXCEPT") {
        SetOperator::Except
    } else if text_eq(name.as_str(), "INTERSECT") {
        SetOperator::Intersect
    } else {
        return Err(AstError::UnsupportedSetOperation(name.clone()));
    };
    Ok(SetExpr::SetOperation { op, all, left: Box::new(left), right: Box::new(right) })
}

/// Turns a select node or a set operation node into a query body.
fn convert_node_to_set_expr(node: &Json) -> (r: Result<SetExpr, AstError>)
    ensures
        match r {
            Ok(body) => set_expr(node@) == Ok::<SetExprModel, AstErrorModel>(body@),
            Err(error) => set_expr(node@) == Err::<SetExprModel, AstErrorModel>(error@),
        },
    decreases node, 2nat,
{
    match node.get_str("type") {
        Some(kind) => {
            if text_eq(kind.as_str(), "SELECT_NODE") {
                convert_select_body(node)
            } else if text_eq(kind.as_str(), "SET_OPERATION_NODE") {
                convert_set_operation(node)
            } else {
                Err(AstError::UnsupportedNodeType(kind.clone()))
            }
        },
        None => Err(AstError::MissingField(Field::Type)),
    }
}

/// The first error among the expressions of the first `count` entries of
/// an `ORDER BY` modifier.
pub open spec fn orders_error(orders: Seq<JsonModel>, count: nat) -> Option<AstErrorModel>
    decreases count,
{
    if 0 < count <= orders.len() {
        match orders_error(orders, (count - 1) as nat) {
            Some(error) => Some(error),
            None => optional_expr_error(orders[count - 1], "expression"@),
        }
    } else {
        None
    }
}

/// Whether a modifier has the given type.
pub open spec fn is_modifier(modifier: JsonModel, kind: Seq<char>) -> bool {
    json_get_string(modifier, "type"@) matches Some(text) && text == kind
}

/// What is wrong with a modifier as an `ORDER BY` modifier. A modifier
/// of another type, or without an array of orders, is fine.
pub open spec fn order_modifier_error(modifier: JsonModel) -> Option<AstErrorModel> {
    if is_modifier(modifier, "ORDER_MODIFIER"@) {
        match json_get_array(modifier, "orders"@) {
            Some(orders) => orders_error(orders, orders.len()),
            None => None,
        }
    } else {
        None
    }
}

/// The first error among the first `count` modifiers, each taken as an
/// `ORDER BY` modifier.
pub open spec fn order_modifiers_error(modifiers: Seq<JsonModel>, count: nat) -> Option<AstErrorModel>
    decreases count,
{
    if 0 < count <= modifiers.len() {
        match order_modifiers_error(modifiers, (count - 1) as nat) {
            Some(error) => Some(error),
            None => order_modifier_error(modifiers[count - 1]),
        }
    } else {
        None
    }
}

/// The position of the first `LIMIT` modifier at or after `from`; the
/// number of modifiers if there is none.
pub open spec fn limit_modifier_index(modifiers: Seq<JsonModel>, from: int) -> int
    decreases modifiers.len() - from,
{
    if 0 <= from < modifiers.len() {
        if is_modifier(modifiers[from], "LIMIT_MODIFIER"@) {
            from
        } else {
            limit_modifier_index(modifiers, from + 1)
        }
    } else {
        modifiers.len() as int
    }
}

/// What is wrong with the expression under a key of the first `LIMIT`
/// modifier, if there is such a modifier and it has the key.
pub open spec fn limit_error(modifiers: Seq<JsonModel>, key: Seq<char>) -> Option<AstErrorModel> {
    let index = limit_modifier_index(modifiers, 0);
    if 0 <= index < modifiers.len() {
        optional_expr_error(modifiers[index], key)
    } else {
        None
    }
}

/// What is wrong with the modifiers of a select node: the orders first,
/// then the limit, then the offset.
pub open spec fn modifiers_error(node: JsonModel) -> Option<AstErrorModel> {
    match json_get_array(node, "modifiers"@) {
        None => None,
        Some(modifiers) => match order_modifiers_error(modifiers, modifiers.len()) {
            Some(error) => Some(error),
            None => match limit_error(modifiers, "limit"@) {
                Some(error) => Some(error),
                None => limit_error(modifiers, "offset"@),
            },
        },
    }
}

/// The query with this body and no common table expressions.
pub open spec fn plain_query(body: SetExprModel) -> StatementModel {
    StatementModel::Query(QueryModel { with: Seq::empty(), body })
}

/// The statement that a select node stands for.
pub open spec fn select_statement(node: JsonModel) -> Result<StatementModel, AstErrorModel> {
    match set_expr(node) {
        Err(error) => Err(error),
        Ok(body) => match modifiers_error(node) {
            Some(error) => Err(error),
            None => Ok(plain_query(body)),
        },
    }
}

/// The statement that an entry of the statements array stands for. Its
/// node must be a select node or a set operation node.
pub open spec fn statement_of(entry: JsonModel) -> Result<StatementModel, AstErrorModel> {
    match json_get(entry, "node"@) {
        None => Err(AstErrorModel::MissingField(Field::Node)),
        Some(node) => if node is Object {
            match json_get_string(node, "type"@) {
                None => Err(AstErrorModel::MissingField(Field::Type)),
                Some(kind) => if kind == "SET_OPERATION_NODE"@ {
                    match set_operation(node) {
                        Err(error) => Err(error),
                        Ok(body) => Ok(plain_query(body)),
                    }
                } else if kind == "SELECT_NODE"@ {
                    select_statement(node)
                } else {
                    Err(AstErrorModel::UnsupportedNodeType(kind))
                },
            }
        } else {
            Err(AstErrorModel::MissingField(Field::Node))
        },
    }
}

/// The statements that the first `count` entries stand for, or the first
/// error among them.
pub open spec fn statements_of(entries: Seq<JsonModel>, count: nat) -> Result<
    Seq<StatementModel>,
    AstErrorModel,
>
    decreases count,
{
    if 0 < count <= entries.len() {
        match statements_of(entries, (count - 1) as nat) {
            Err(error) => Err(error),
            Ok(done) => match statement_of(entries[count - 1]) {
                Err(error) => Err(error),
                Ok(statement) => Ok(done.push(statement)),
            },
        }
    } else {
        Ok(Seq::empty())
    }
}

/// The statements that a serialised tree stands for. The tree must be an
/// object that reports no error and holds an array of statements, each
/// of which the adapter understands.
pub open spec fn native_statements(ast: JsonModel) -> Result<Seq<StatementModel>, AstErrorModel> {
    if !(ast is Object) {
        Err(AstErrorModel::NotAnObject)
    } else if json_get_bool(ast, "error"@) == Some(true) {
        Err(AstErrorModel::Engine(json_get_string(ast, "error_message"@)))
    } else {
        match json_get_array(ast, "statements"@) {
            None => Err(AstErrorModel::MissingStatements),
            Some(entries) => statements_of(entries, entries.len()),
        }
    }
}

/// The statements that the text of a serialised tree stands for.
pub open spec fn native_statements_of_text(text: Seq<char>) -> Result<
    Seq<StatementModel>,
    AstErrorModel,
> {
    match json_of_text(text) {
        None => Err(AstErrorModel::InvalidJson),
        Some(ast) => native_statements(ast),
    }
}

proof fn lemma_orders_error_stays(orders: Seq<JsonModel>, count: nat, more: nat)
    requires
        count <= more <= orders.len(),
        orders_error(orders, count) is Some,
    ensures
        orders_error(orders, more) == orders_error(orders, count),
    decreases more,
{
    if count < more {
        lemma_orders_error_stays(orders, count, (more - 1) as nat);
    }
}

proof fn lemma_order_modifiers_error_stays(modifiers: Seq<JsonModel>, count: nat, more: nat)
    requires
        count <= more <= modifiers.len(),
        order_modifiers_error(modifiers, count) is Some,
    ensures
        order_modifiers_error(modifiers, more) == order_modifiers_error(modifiers, count),
    decreases more,
{
    if count < more {
        lemma_order_modifiers_error_stays(modifiers, count, (more - 1) as nat);
    }
}

proof fn lemma_statements_error_stays(entries: Seq<JsonModel>, count: nat, more: nat)
    requires
        count <= more <= entries.len(),
        statements_of(entries, count) is Err,
    ensures
        statements_of(entries, more) == statements_of(entries, count),
    decreases more,
{
    if count < more {
        lemma_statements_error_stays(entries, count, (more - 1) as nat);
    }
}

/// Whether the string under `type` of a modifier is the given one.
fn modifier_is(modifier: &Json, kind: &str) -> (r: bool)
    ensures
        r == is_modifier(modifier@, kind@),
{
    match modifier.get_str("type") {
        Some(text) => text_eq(text.as_str(), kind),
        None => false,
    }
}

/// Checks a modifier as an `ORDER BY` modifier.
fn check_order_modifier(modifier: &Json) -> (r: Option<AstError>)
    ensures
        error_model(r) == order_modifier_error(modifier@),
{
    if !modifier_is(modifier, "ORDER_MODIFIER") {
        return None;
    }
    match modifier.get_array("orders") {
        Some(orders) => {
            let mut i: usize = 0;
            while i < orders.len()
                invariant
                    i <= orders@.len(),
                    is_modifier(modifier@, "ORDER_MODIFIER"@),
                    json_get_array(modifier@, "orders"@) == Some(models(orders@)),
                    orders_error(models(orders@), i as nat) is None,
                decreases orders@.len() - i,
            {
                match check_optional_expr(&orders[i], "expression") {
                    None => {},
                    Some(error) => {
                        proof {
                            lemma_orders_error_stays(models(orders@), (i + 1) as nat, orders@.len());
                        }
                        return Some(error);
                    },
                }
                i += 1;
            }
            None
        },
        None => None,
    }
}

/// Checks the expression under a key of the first `LIMIT` modifier.
fn check_limit(modifiers: &Vec<Json>, key: &str) -> (r: Option<AstError>)
    ensures
        error_model(r) == limit_error(models(modifiers@), key@),
{
    let mut i: usize = 0;
    while i < modifiers.len()
        invariant
            i <= modifiers@.len(),
            limit_modifier_index(models(modifiers@), 0) == limit_modifier_index(models(modifiers@), i as int),
        decreases modifiers@.len() - i,
    {
        if modifier_is(&modifiers[i], "LIMIT_MODIFIER") {
            return check_optional_expr(&modifiers[i], key);
        }
        i += 1;
    }
    None
}

/// Checks the modifiers of a select node.
fn check_modifiers(node: &Json) -> (r: Option<AstError>)
    ensures
        error_model(r) == modifiers_error(node@),
{
    let modifiers = match node.get_array("modifiers") {
        Some(modifiers) => modifiers,
        None => {
            return None;
        },
    };
    let mut i: usize = 0;
    while i < modifiers.len()
        invariant
            i <= modifiers@.len(),
            json_get_array(node@, "modifiers"@) == Some(models(modifiers@)),
            order_modifiers_error(models(modifiers@), i as nat) is None,
        decreases modifiers@.len() - i,
    {
        match check_order_modifier(&modifiers[i]) {
            None => {},
            Some(error) => {
                proof {
                    lemma_order_modifiers_error_stays(
                        models(modifiers@),
                        (i + 1) as nat,
                        modifiers@.len(),
                    );
                }
                return Some(error);
            },
        }
        i += 1;
    }
    match check_limit(modifiers, "limit") {
        Some(error) => Some(error),
        None => check_limit(modifiers, "offset"),
    }
}

/// Makes the query with this body and no common table expressions.
fn plain(body: SetExpr) -> (r: Statement)
    ensures
        r@ == plain_query(body@),
{
    let query = Query { with: Vec::new(), body };
    assert(query@.with =~= Seq::<CteModel>::empty());
    Statement::Query(query)
}

/// Turns a select node into a statement.
fn convert_select_node(node: &Json) -> (r: Result<Statement, AstError>)
    ensures
        match r {
            Ok(statement) => select_statement(node@)
                == Ok::<StatementModel, AstErrorModel>(statement@),
            Err(error) => select_statement(node@) == Err::<StatementModel, AstErrorModel>(error@),
        },
{
    let body = match convert_node_to_set_expr(node) {
        Ok(body) => body,
        Err(error) => {
            return Err(error);
        },
    };
    match check_modifiers(node) {
        None => Ok(plain(body)),
        Some(error) => Err(error),
    }
}

/// Turns a set operation node into a statement.
fn convert_set_operation_node(node: &Json) -> (r: Result<Statement, AstError>)
    ensures
        match r {
            Ok(statement) => set_operation(node@) matches Ok(body) && statement@ == plain_query(
                body,
            ),
            Err(error) => set_operation(node@) == Err::<SetExprModel, AstErrorModel>(error@),
        },
{
    match convert_set_operation(node) {
        Ok(body) => Ok(plain(body)),
        Err(error) => Err(error),
    }
}

/// Turns an entry of the statements array into a statement.
fn convert_statement(entry: &Json) -> (r: Result<Statement, AstError>)
    ensures
        match r {
            Ok(statement) => statement_of(entry@)
                == Ok::<StatementModel, AstErrorModel>(statement@),
            Err(error) => statement_of(entry@) == Err::<StatementModel, AstErrorModel>(error@),
        },
{
    let node = match entry.get("node") {
        Some(node) => node,
        None => {
            return Err(AstError::MissingField(Field::Node));
        },
    };
    if !node.is_object() {
        return Err(AstError::MissingField(Field::Node));
    }
    match node.get_str("type") {
        Some(kind) => {
            if text_eq(kind.as_str(), "SET_OPERATION_NODE") {
                convert_set_operation_node(node)
            } else if text_eq(kind.as_str(), "SELECT_NODE") {
                convert_select_node(node)
            } else {
                Err(AstError::UnsupportedNodeType(kind.clone()))
            }
        },
        None => Err(AstError::MissingField(Field::Type)),
    }
}

/// Turns the serialised tree of the engine's parser into statements. The
/// first thing that the adapter does not understand is the error, and
/// then no statement is returned.
pub fn convert_duckdb_ast_to_statements(ast: &Json) -> (r: Result<Vec<Statement>, AstError>)
    ensures
        match r {
            Ok(statements) => native_statements(ast@) == Ok::<Seq<StatementModel>, AstErrorModel>(
                statements_model(statements@),
            ),
            Err(error) => native_statements(ast@)
                == Err::<Seq<StatementModel>, AstErrorModel>(error@),
        },
{
    if !ast.is_object() {
        return Err(AstError::NotAnObject);
    }
    if let Some(true) = ast.get_bool("error") {
        return Err(
            AstError::Engine(
                match ast.get_str("error_message") {
                    Some(message) => Some(message.clone()),
                    None => None,
                },
            ),
        );
    }
    let entries = match ast.get_array("statements") {
        Some(entries) => entries,
        None => {
            return Err(AstError::MissingStatements);
        },
    };
    let mut statements: Vec<Statement> = Vec::new();
    let mut i: usize = 0;
    assert(statements_model(statements@) =~= Seq::<StatementModel>::empty());
    while i < entries.len()
        invariant
            i <= entries@.len(),
            ast is Object,
            json_get_bool(ast@, "error"@) != Some(true),
            json_get_array(ast@, "statements"@) == Some(models(entries@)),
            statements_of(models(entries@), i as nat) == Ok::<Seq<StatementModel>, AstErrorModel>(
                statements_model(statements@),
            ),
        decreases entries@.len() - i,
    {
        let ghost done = statements_model(statements@);
        match convert_statement(&entries[i]) {
            Ok(statement) => {
                statements.push(statement);
                assert(statements_model(statements@) =~= done.push(statement@));
            },
            Err(error) => {
                proof {
                    lemma_statements_error_stays(models(entries@), (i + 1) as nat, entries@.len());
                }
                return Err(error);
            },
        }
        i += 1;
    }
    Ok(statements)
}

/// Reads the text of a serialised tree and turns it into statements.
pub fn parse_with_duckdb_and_convert(ast_json: &str) -> (r: Result<Vec<Statement>, AstError>)
    ensures
        match r {
            Ok(statements) => native_statements_of_text(ast_json@)
                == Ok::<Seq<StatementModel>, AstErrorModel>(statements_model(statements@)),
            Err(error) => native_statements_of_text(ast_json@)
                == Err::<Seq<StatementModel>, AstErrorModel>(error@),
        },
{
    match parse_json(ast_json) {
        Some(ast) => convert_duckdb_ast_to_statements(&ast),
        None => Err(AstError::InvalidJson),
    }
}

} // verus!
