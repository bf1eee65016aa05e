//! The actions that materialise the result of a query as a table, a view
//! or a file.

use vstd::prelude::*;
use crate::config::output::{default_location_of, table_name_placeholder};
use crate::config::{OutputConfig, OutputType};
use crate::text::{join, substitute};

verus! {

/// One thing to be done for a unit.
#[derive(Debug)]
pub enum Action {
    /// Run this statement against the database.
    Execute(String),
    /// See to it that the directory of this output file exists.
    PrepareFile(String),
}

/// The model of an action.
pub ghost enum ActionModel {
    Execute(Seq<char>),
    PrepareFile(Seq<char>),
}

impl View for Action {
    type V = ActionModel;

    open spec fn view(&self) -> ActionModel {
        match self {
            Action::Execute(sql) => ActionModel::Execute(sql@),
            Action::PrepareFile(location) => ActionModel::PrepareFile(location@),
        }
    }
}

/// The models of a list of actions, in order.
pub open spec fn actions_model(actions: Seq<Action>) -> Seq<ActionModel> {
    Seq::new(actions.len(), |i: int| actions[i]@)
}

/// Where the file of a table goes: the configured location with the
/// table's name filled in, or the default location of the output type.
pub open spec fn file_location(config: OutputConfig, table_name: Seq<char>) -> Seq<char> {
    match config.location {
        Some(location) => substitute(location@, table_name_placeholder(), table_name),
        None => default_location_of(config.output_type, table_name),
    }
}

/// The options of the export statement for an output type.
pub open spec fn format_options(output_type: OutputType) -> Seq<char> {
    match output_type {
        OutputType::Csv => "(FORMAT CSV, HEADER)"@,
        OutputType::Json => "(FORMAT JSON)"@,
        _ => "(FORMAT PARQUET)"@,
    }
}

/// The name of the table that holds a query's result until it is
/// exported.
pub open spec fn temp_table(table_name: Seq<char>) -> Seq<char> {
    "temp_"@ + table_name
}

/// The actions that export the result of a query to a file: prepare the
/// file's place, fill a temporary table, copy it to the file, and drop
/// the table unless it is to be kept.
pub open spec fn file_output_actions(
    table_name: Seq<char>,
    sql_query: Seq<char>,
    config: OutputConfig,
) -> Seq<ActionModel> {
    let location = file_location(config, table_name);
    let export = seq![
        ActionModel::PrepareFile(location),
        ActionModel::Execute(
            "CREATE OR REPLACE TABLE "@ + temp_table(table_name) + " AS "@ + sql_query,
        ),
        ActionModel::Execute(
            "COPY (SELECT * FROM "@ + temp_table(table_name) + ") TO '"@ + location + "' "@
                + format_options(config.output_type),
        ),
    ];
    if config.keep_table {
        export
    } else {
        export.push(ActionModel::Execute("DROP TABLE IF EXISTS "@ + temp_table(table_name)))
    }
}

/// The actions that materialise the result of a query as its output
/// configuration asks.
pub open spec fn output_actions(
    table_name: Seq<char>,
    sql_query: Seq<char>,
    config: OutputConfig,
    schema: Seq<char>,
) -> Seq<ActionModel> {
    match config.output_type {
        OutputType::Table => seq![
            ActionModel::Execute(
                "CREATE OR REPLACE TABLE "@ + schema + "."@ + table_name + " AS "@ + sql_query,
            ),
        ],
        OutputType::View => seq![
            ActionModel::Execute(
                "CREATE OR REPLACE VIEW "@ + schema + "."@ + table_name + " AS "@ + sql_query,
            ),
        ],
        _ => file_output_actions(table_name, sql_query, config),
    }
}

/// The actions for the output of a query, by the type of the output.
pub fn handle_output(
    table_name: &str,
    sql_query: &str,
    output_config: &OutputConfig,
    schema: &str,
) -> (r: Vec<Action>)
    ensures
        actions_model(r@) == output_actions(table_name@, sql_query@, *output_config, schema@),
{
    match output_config.output_type {
        OutputType::Table => {
            let mut sql = join("CREATE OR REPLACE TABLE ", schema);
            sql.append(".");
            sql.append(table_name);
            sql.append(" AS ");
            sql.append(sql_query);
            let mut actions: Vec<Action> = Vec::new();
            actions.push(Action::Execute(sql));
            assert(actions_model(actions@) =~= output_actions(
                table_name@,
                sql_query@,
                *output_config,
                schema@,
            ));
            actions
        },
        OutputType::View => {
            let mut sql = join("CREATE OR REPLACE VIEW ", schema);
            sql.append(".");
            sql.append(table_name);
            sql.append(" AS ");
            sql.append(sql_query);
            let mut actions: Vec<Action> = Vec::new();
            actions.push(Action::Execute(sql));
            assert(actions_model(actions@) =~= output_actions(
                table_name@,
                sql_query@,
                *output_config,
                schema@,
            ));
            actions
        },
        _ => handle_file_output(table_name, sql_query, output_config),
    }
}

/// The actions for a file output (Parquet, CSV, JSON).
pub fn handle_file_output(table_name: &str, sql_query: &str, output_config: &OutputConfig) -> (r:
    Vec<Action>)
    ensures
        actions_model(r@) == file_output_actions(table_name@, sql_query@, *output_config),
{
    let location = match output_config.get_location(table_name) {
        Some(location) => location,
        None => output_config.default_location(table_name),
    };
    let temp = join("temp_", table_name);
    let mut create = join("CREATE OR REPLACE TABLE ", temp.as_str());
    create.append(" AS ");
    create.append(sql_query);
    let mut export = join("COPY (SELECT * FROM ", temp.as_str());
    export.append(") TO '");
    export.append(location.as_str());
    export.append("' ");
    match output_config.output_type {
        OutputType::Csv => export.append("(FORMAT CSV, HEADER)"),
        OutputType::Json => export.append("(FORMAT JSON)"),
        _ => export.append("(FORMAT PARQUET)"),
    }
    let mut actions: Vec<Action> = Vec::new();
    actions.push(Action::PrepareFile(location));
    actions.push(Action::Execute(create));
    actions.push(Action::Execute(export));
    if !output_config.keep_table {
        actions.push(Action::Execute(join("DROP TABLE IF EXISTS ", temp.as_str())));
    }
    assert(actions_model(actions@) =~= file_output_actions(
        table_name@,
        sql_query@,
        *output_config,
    ));
    actions
}

/// An action failed: its position among the actions, and the reason.
#[derive(Debug)]
pub struct ActionFailure {
    pub index: usize,
    pub reason: String,
}

/// Carries actions out in order: `perform` is called for one after the
/// other until one fails. The first failure ends it, and the actions
/// after that one are not attempted.
pub fn perform_actions<F: Fn(&Action) -> Option<String>>(actions: &Vec<Action>, perform: F) -> (r:
    Result<(), ActionFailure>)
    requires
        forall|i: int| 0 <= i < actions@.len() ==> call_requires(perform, (&actions@[i],)),
    ensures
        match r {
            Ok(_) => forall|i: int|
                0 <= i < actions@.len() ==> call_ensures(
                    perform,
                    (&#[trigger] actions@[i],),
                    None::<String>,
                ),
            Err(failure) => {
                &&& failure.index < actions@.len()
                &&& call_ensures(
                    perform,
                    (&actions@[failure.index as int],),
                    Some(failure.reason),
                )
                &&& forall|i: int|
                    0 <= i < failure.index ==> call_ensures(
                        perform,
                        (&#[trigger] actions@[i],),
                        None::<String>,
                    )
            },
        },
{
    let mut index: usize = 0;
    while index < actions.len()
        invariant
            index <= actions@.len(),
            forall|i: int| 0 <= i < actions@.len() ==> call_requires(perform, (&actions@[i],)),
            forall|i: int|
                0 <= i < index ==> call_ensures(perform, (&#[trigger] actions@[i],), None::<String>),
        decreases actions@.len() - index,
    {
        match perform(&actions[index]) {
            Some(reason) => {
                return Err(ActionFailure { index, reason });
            },
            None => {},
        }
        index += 1;
    }
    Ok(())
}

} // verus!
