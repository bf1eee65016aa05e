//! SQL transformation orchestration: dependency extraction, execution
//! ordering and execution planning for a workspace of SQL units.

pub mod config;
pub mod executor;
pub mod force;
pub mod graph;
pub mod json;
pub mod names;
pub mod parser;
pub mod statement;
pub mod storage;
pub mod text;

use vstd::prelude::*;
use crate::config::output::default_output_config;
use crate::config::{ModelConfig, OutputConfig};
use crate::executor::output::{actions_model, handle_output, output_actions, Action, ActionModel};
use crate::parser::dependencies::{
    dependency_error_message, get_dependencies, get_execution_order, has_dependency_cycle,
    is_execution_order, is_named_sql_file, on_dependency_cycle, optional_string_text,
    planned_order, scanned,
    scanned_names, unit_kind,
    CycleError, DependencyError, DependencyErrorModel, DependencyMap, SourceFile, UnitKind, UnitModel,
};
use crate::parser::lineage::{diagram, generate_mermaid_diagram};
use crate::parser::sql::{
    grammar_texts, is_select_tree, optional_text, parse_error_message, parse_sql, parsed,
    written_statements, ParseError, ParseErrorModel,
};
use crate::statement::{is_select, statements_model, StatementModel};
use crate::storage::{S3Config, StorageError};
use crate::text::{ends_with, join, text_eq, texts};

verus! {

/// Why a run could not be planned.
#[derive(Debug)]
pub enum RunError {
    /// The dependencies of the workspace could not be had.
    Dependencies(DependencyError),
    /// The units depend on each other in a cycle.
    Cycle(CycleError),
    /// The text of the unit with this file is not among the files.
    MissingSource(String),
    /// The text of the unit of this name does not parse.
    Unit { name: String, error: ParseError },
}

/// The model of a run error.
pub ghost enum RunErrorModel {
    Dependencies(DependencyErrorModel),
    Cycle(Seq<char>),
    MissingSource(Seq<char>),
    Unit { name: Seq<char>, error: ParseErrorModel },
}

impl View for RunError {
    type V = RunErrorModel;

    open spec fn view(&self) -> RunErrorModel {
        match self {
            RunError::Dependencies(error) => RunErrorModel::Dependencies(error@),
            RunError::Cycle(error) => RunErrorModel::Cycle(error.unit@),
            RunError::MissingSource(filename) => RunErrorModel::MissingSource(filename@),
            RunError::Unit { name, error } => RunErrorModel::Unit { name: name@, error: error@ },
        }
    }
}

/// What the message of a run error says.
pub open spec fn run_error_message(error: RunError) -> Seq<char> {
    match error {
        RunError::Dependencies(inner) => dependency_error_message(inner),
        RunError::Cycle(inner) => "Cycle detected in dependency graph at "@ + inner.unit@,
        RunError::MissingSource(filename) => "Failed to read SQL file: "@ + filename@,
        RunError::Unit { name, error } => "Failed to run "@ + name@ + ": "@ + parse_error_message(
            error,
        ),
    }
}

impl RunError {
    /// The message of the error.
    pub fn to_string(&self) -> (r: String)
        ensures
            r@ == run_error_message(*self),
    {
        match self {
            RunError::Dependencies(inner) => inner.to_string(),
            RunError::Cycle(inner) => inner.to_string(),
            RunError::MissingSource(filename) => join(
                "Failed to read SQL file: ",
                filename.as_str(),
            ),
            RunError::Unit { name, error } => {
                let mut message = join("Failed to run ", name.as_str());
                message.append(": ");
                message.append(error.to_string().as_str());
                message
            },
        }
    }
}

/// The plan of a run in dependency order.
#[derive(Debug)]
pub struct RunPlan {
    /// The units of the workspace.
    pub dependencies: DependencyMap,
    /// The names of the units in the order in which they run.
    pub order: Vec<String>,
    /// What is to be done, in order. The first action that fails ends
    /// the run.
    pub actions: Vec<Action>,
    /// The text of the lineage diagram, to be written after the last
    /// action.
    pub lineage: String,
}

/// What is to be done for one unit of a run that takes the units as they
/// come.
#[derive(Debug)]
pub struct ForceUnit {
    /// The name of the unit.
    pub name: String,
    /// The path of its file.
    pub path: String,
    /// Its actions, or why it has none.
    pub actions: Result<Vec<Action>, ParseError>,
}

/// The model of a unit of such a run.
pub ghost struct ForceUnitModel {
    pub name: Seq<char>,
    pub path: Seq<char>,
    pub actions: Result<Seq<ActionModel>, ParseErrorModel>,
}

impl View for ForceUnit {
    type V = ForceUnitModel;

    open spec fn view(&self) -> ForceUnitModel {
        ForceUnitModel {
            name: self.name@,
            path: self.path@,
            actions: match self.actions {
                Ok(actions) => Ok(actions_model(actions@)),
                Err(error) => Err(error@),
            },
        }
    }
}

/// The models of a list of units, in order.
pub open spec fn force_units_model(units: Seq<ForceUnit>) -> Seq<ForceUnitModel> {
    Seq::new(units.len(), |i: int| units[i]@)
}

/// The plan of a run that takes the units as they come, whatever they
/// depend on.
#[derive(Debug)]
pub struct ForcePlan {
    /// What is to be done first. A failure here ends the run.
    pub setup: Vec<Action>,
    /// The units in the order of the scan. A unit that fails is counted,
    /// and the next one is taken.
    pub units: Vec<ForceUnit>,
    /// The units of the workspace, where their dependencies could be
    /// had.
    pub dependencies: Option<DependencyMap>,
    /// The text of the lineage diagram, where there is one to write.
    pub lineage: Option<String>,
}

/// The output configuration of a model configuration, if it has one.
pub open spec fn output_of(config: Option<ModelConfig>) -> Option<OutputConfig> {
    match config {
        Some(config) => config.output,
        None => None,
    }
}

/// The number of SQL files with a name among the first `count` files.
pub open spec fn named_sql_files(files: Seq<SourceFile>, count: nat) -> nat
    decreases count,
{
    if 0 < count <= files.len() {
        named_sql_files(files, (count - 1) as nat) + if is_named_sql_file(files[count - 1]) {
            1nat
        } else {
            0nat
        }
    } else {
        0
    }
}

proof fn lemma_named_sql_files_grow(files: Seq<SourceFile>, count: nat, more: nat)
    requires
        count <= more <= files.len(),
    ensures
        named_sql_files(files, count) <= named_sql_files(files, more),
    decreases more,
{
    if count < more {
        lemma_named_sql_files_grow(files, count, (more - 1) as nat);
    }
}

/// The position of the first file with a path, at or after `from`; the
/// number of files if there is none.
pub open spec fn source_index(files: Seq<SourceFile>, path: Seq<char>, from: int) -> int
    decreases files.len() - from,
{
    if 0 <= from < files.len() {
        if files[from].path@ == path {
            from
        } else {
            source_index(files, path, from + 1)
        }
    } else {
        files.len() as int
    }
}

/// The actions for the first `count` statements of a text with several:
/// the output of each `SELECT`, and every other statement run as it is
/// written.
pub open spec fn statements_actions(
    table_name: Seq<char>,
    statements: Seq<StatementModel>,
    written: Seq<Seq<char>>,
    config: OutputConfig,
    schema: Seq<char>,
    count: nat,
) -> Seq<ActionModel>
    decreases count,
{
    if 0 < count <= statements.len() && count <= written.len() {
        statements_actions(table_name, statements, written, config, schema, (count - 1) as nat)
            + if is_select(statements[count - 1]) {
            output_actions(table_name, written[count - 1], config, schema)
        } else {
            seq![ActionModel::Execute(written[count - 1])]
        }
    } else {
        Seq::empty()
    }
}

/// The actions for the text of a unit. The text is parsed as the
/// dependencies are: the engine's serialised tree counts where it is
/// accepted, else the general parser. A text of one statement is
/// materialised as it stands. Of a text of several, each statement is
/// taken as the general parser writes it back, so such a text needs the
/// general parser to accept it too. An empty text asks for nothing.
pub open spec fn text_actions(
    table_name: Seq<char>,
    sql: Seq<char>,
    dialect: Seq<char>,
    native_ast: Option<Seq<char>>,
    config: OutputConfig,
    schema: Seq<char>,
) -> Result<Seq<ActionModel>, ParseErrorModel> {
    match parsed(sql, dialect, native_ast) {
        Err(error) => Err(error),
        Ok(statements) => if statements.len() > 1 {
            match grammar_texts(sql, dialect) {
                Err(error) => Err(error),
                Ok(written) => if written.len() == statements.len() {
                    Ok(
                        statements_actions(
                            table_name,
                            statements,
                            written,
                            config,
                            schema,
                            statements.len(),
                        ),
                    )
                } else {
                    Err(ParseErrorModel::Tree)
                },
            }
        } else if statements.len() == 1 {
            Ok(output_actions(table_name, sql, config, schema))
        } else {
            Ok(Seq::empty())
        },
    }
}

/// The orchestrator of a workspace of SQL units.
pub struct Crabwalk {
    /// Path to the database file.
    database_path: String,
    /// Path to the SQL folder.
    sql_folder: String,
    /// SQL dialect.
    dialect: String,
    /// Schema name in the database.
    schema: String,
    /// Default output configuration.
    default_output: OutputConfig,
    /// S3 configuration for backup and restore.
    s3_config: Option<S3Config>,
}

impl Crabwalk {
    pub closed spec fn database_path(&self) -> Seq<char> {
        self.database_path@
    }

    pub closed spec fn sql_folder(&self) -> Seq<char> {
        self.sql_folder@
    }

    pub closed spec fn dialect(&self) -> Seq<char> {
        self.dialect@
    }

    pub closed spec fn schema(&self) -> Seq<char> {
        self.schema@
    }

    pub closed spec fn default_output(&self) -> OutputConfig {
        self.default_output
    }

    pub closed spec fn s3_config(&self) -> Option<S3Config> {
        self.s3_config
    }

    /// Create a new instance. Without a default output configuration the
    /// default is a table.
    pub fn new(
        database_path: String,
        sql_folder: String,
        dialect: String,
        schema: String,
        default_output: Option<OutputConfig>,
        s3_config: Option<S3Config>,
    ) -> (r: Self)
        ensures
            r.database_path() == database_path@,
            r.sql_folder() == sql_folder@,
            r.dialect() == dialect@,
            r.schema() == schema@,
            r.default_output() == match default_output {
                Some(output) => output,
                None => default_output_config(),
            },
            r.s3_config() == s3_config,
    {
        Crabwalk {
            database_path,
            sql_folder,
            dialect,
            schema,
            default_output: match default_output {
                Some(output) => output,
                None => OutputConfig::default(),
            },
            s3_config,
        }
    }

    /// Whether the workspace is a single SQL file rather than a folder.
    pub fn is_single_file(&self) -> (r: bool)
        ensures
            r == ".sql"@.is_suffix_of(self.sql_folder()),
    {
        ends_with(self.sql_folder.as_str(), ".sql")
    }

    /// The output configuration for a model: the default, updated from
    /// the model's own where it has one.
    pub fn get_output_config(&self, model_config: Option<&ModelConfig>) -> (r: OutputConfig)
        ensures
            r == merged_output(
                self.default_output(),
                match model_config {
                    Some(config) => config.output,
                    None => None,
                },
            ),
    {
        let mut output_config = self.default_output.duplicate();
        match model_config {
            Some(config) => match &config.output {
                Some(model_output) => {
                    output_config.update_from(model_output);
                },
                None => {},
            },
            None => {},
        }
        output_config
    }

    /// Backs the database up where S3 is configured. Without a
    /// configuration there is nothing to do.
    pub fn backup(&self) -> (r: Result<(), StorageError>)
        ensures
            r is Ok,
    {
        match &self.s3_config {
            Some(s3_config) => crate::storage::backup(self.database_path.as_str(), s3_config),
            None => Ok(()),
        }
    }

    /// Restores the database where S3 is configured. Without a
    /// configuration there is nothing to do.
    pub fn restore(&self, overwrite: bool) -> (r: Result<(), StorageError>)
        ensures
            r is Ok,
    {
        match &self.s3_config {
            Some(s3_config) => crate::storage::restore(
                self.database_path.as_str(),
                s3_config,
                overwrite,
            ),
            None => Ok(()),
        }
    }
}

impl Crabwalk {
    /// The actions that prepare the schema.
    pub open spec fn pre_query_actions(&self) -> Seq<ActionModel> {
        seq![
            ActionModel::Execute("CREATE SCHEMA IF NOT EXISTS "@ + self.schema()),
            ActionModel::Execute("USE "@ + self.schema()),
        ]
    }

    /// The actions for the text of a unit with the output configuration
    /// of its model.
    pub open spec fn unit_actions(
        &self,
        table_name: Seq<char>,
        sql: Seq<char>,
        native_ast: Option<Seq<char>>,
        model: Option<OutputConfig>,
    ) -> Result<Seq<ActionModel>, ParseErrorModel> {
        text_actions(
            table_name,
            sql,
            self.dialect(),
            native_ast,
            merged_output(self.default_output(), model),
            self.schema(),
        )
    }

    /// The actions for one name of the execution order. A name that is no
    /// unit is a source and asks for nothing, and so does a unit whose
    /// file is no SQL file.
    pub open spec fn object_actions(
        &self,
        name: Seq<char>,
        units: Map<Seq<char>, UnitModel>,
        files: Seq<SourceFile>,
    ) -> Result<Seq<ActionModel>, RunErrorModel> {
        if !units.contains_key(name) {
            Ok(Seq::empty())
        } else if ".sql"@.is_suffix_of(units[name].filename) {
            let index = source_index(files, units[name].filename, 0);
            if 0 <= index < files.len() {
                match self.unit_actions(
                    name,
                    files[index].contents@,
                    optional_string_text(files[index].native_ast),
                    output_of(units[name].config),
                ) {
                    Ok(actions) => Ok(actions),
                    Err(error) => Err(RunErrorModel::Unit { name, error }),
                }
            } else {
                Err(RunErrorModel::MissingSource(units[name].filename))
            }
        } else {
            Ok(Seq::empty())
        }
    }

    /// The actions for the first `count` names of the execution order, or
    /// the first error among them.
    pub open spec fn objects_actions(
        &self,
        order: Seq<Seq<char>>,
        units: Map<Seq<char>, UnitModel>,
        files: Seq<SourceFile>,
        count: nat,
    ) -> Result<Seq<ActionModel>, RunErrorModel>
        decreases count,
    {
        if 0 < count <= order.len() {
            match self.objects_actions(order, units, files, (count - 1) as nat) {
                Err(error) => Err(error),
                Ok(done) => match self.object_actions(order[count - 1], units, files) {
                    Err(error) => Err(error),
                    Ok(actions) => Ok(done + actions),
                },
            }
        } else {
            Ok(Seq::empty())
        }
    }

    /// An execution order of the units whose actions end in this error.
    pub open spec fn order_fails(
        &self,
        order: Seq<Seq<char>>,
        units: Map<Seq<char>, UnitModel>,
        files: Seq<SourceFile>,
        error: RunErrorModel,
    ) -> bool {
        &&& is_execution_order(units, order)
        &&& self.objects_actions(order, units, files, order.len()) == Err::<
            Seq<ActionModel>,
            RunErrorModel,
        >(error)
    }

    /// What is planned for a SQL file with a name in a run that takes the
    /// units as they come: the unit of that name and path, with the
    /// actions of the file's own text and configuration.
    pub open spec fn force_unit(&self, file: SourceFile) -> ForceUnitModel {
        ForceUnitModel {
            name: file.stem->Some_0@,
            path: file.path@,
            actions: self.unit_actions(
                file.stem->Some_0@,
                file.contents@,
                optional_string_text(file.native_ast),
                output_of(file.config),
            ),
        }
    }

    /// What is planned for the first `count` files of a run that takes
    /// the units as they come: one unit for each SQL file with a name.
    pub open spec fn force_units(&self, files: Seq<SourceFile>, count: nat) -> Seq<ForceUnitModel>
        decreases count,
    {
        if 0 < count <= files.len() {
            let file = files[count - 1];
            let before = self.force_units(files, (count - 1) as nat);
            if is_named_sql_file(file) {
                before.push(self.force_unit(file))
            } else {
                before
            }
        } else {
            Seq::empty()
        }
    }

    /// In force mode every SQL file of the scan that has a name is
    /// planned exactly once: the plan has as many units as there are such
    /// files, and the unit of each stands at the position that is the
    /// number of such files before it, with the name, the path and the
    /// actions of that file alone. So no file's failure takes another
    /// file's unit away.
    pub proof fn lemma_force_plans_each_file_once(
        &self,
        files: Seq<SourceFile>,
        count: nat,
        index: int,
    )
        requires
            count <= files.len(),
        ensures
            self.force_units(files, count).len() == named_sql_files(files, count),
            0 <= index < count && is_named_sql_file(files[index]) ==> {
                let position = named_sql_files(files, index as nat) as int;
                &&& position < self.force_units(files, count).len()
                &&& self.force_units(files, count)[position] == self.force_unit(files[index])
            },
        decreases count,
    {
        if count > 0 {
            self.lemma_force_plans_each_file_once(files, (count - 1) as nat, index);
            self.lemma_force_plans_each_file_once(files, (count - 1) as nat, count - 1);
            if 0 <= index < count {
                lemma_named_sql_files_grow(files, index as nat, (count - 1) as nat);
            }
        }
    }

    proof fn lemma_objects_error_stays(
        &self,
        order: Seq<Seq<char>>,
        units: Map<Seq<char>, UnitModel>,
        files: Seq<SourceFile>,
        count: nat,
        more: nat,
    )
        requires
            count <= more <= order.len(),
            self.objects_actions(order, units, files, count) is Err,
        ensures
            self.objects_actions(order, units, files, more) == self.objects_actions(
                order,
                units,
                files,
                count,
            ),
        decreases more,
    {
        if count < more {
            self.lemma_objects_error_stays(order, units, files, count, (more - 1) as nat);
        }
    }

    proof fn lemma_objects_error_kind(
        &self,
        order: Seq<Seq<char>>,
        units: Map<Seq<char>, UnitModel>,
        files: Seq<SourceFile>,
        count: nat,
    )
        ensures
            self.objects_actions(order, units, files, count) matches Err(error) ==> error
                is MissingSource || error is Unit,
        decreases count,
    {
        if 0 < count <= order.len() {
            self.lemma_objects_error_kind(order, units, files, (count - 1) as nat);
        }
    }

    /// The actions that set the environment up: the schema is created
    /// where it is missing, and made the default.
    pub fn run_pre_queries(&self) -> (r: Vec<Action>)
        ensures
            actions_model(r@) == self.pre_query_actions(),
    {
        let mut actions: Vec<Action> = Vec::new();
        actions.push(Action::Execute(join("CREATE SCHEMA IF NOT EXISTS ", self.schema.as_str())));
        actions.push(Action::Execute(join("USE ", self.schema.as_str())));
        assert(actions_model(actions@) =~= self.pre_query_actions());
        actions
    }

    /// The actions for the text of one unit, with its output configured
    /// by the default and by the model's own configuration. `native_ast`
    /// is the tree that the engine's own parser serialised for the text,
    /// where the caller has one.
    pub fn run_sql_query(
        &self,
        sql: &str,
        table_name: &str,
        native_ast: Option<&str>,
        model_config: Option<&ModelConfig>,
    ) -> (r: Result<Vec<Action>, ParseError>)
        ensures
            match r {
                Ok(actions) => self.unit_actions(
                    table_name@,
                    sql@,
                    optional_text(native_ast),
                    match model_config {
                        Some(config) => config.output,
                        None => None,
                    },
                ) == Ok::<Seq<ActionModel>, ParseErrorModel>(actions_model(actions@)),
                Err(error) => self.unit_actions(
                    table_name@,
                    sql@,
                    optional_text(native_ast),
                    match model_config {
                        Some(config) => config.output,
                        None => None,
                    },
                ) == Err::<Seq<ActionModel>, ParseErrorModel>(error@),
            },
    {
        let output_config = self.get_output_config(model_config);
        let trees = match parse_sql(sql, self.dialect.as_str(), native_ast) {
            Ok(trees) => trees,
            Err(error) => {
                return Err(error);
            },
        };
        let mut actions: Vec<Action> = Vec::new();
        assert(actions_model(actions@) =~= Seq::<ActionModel>::empty());
        if trees.len() > 1 {
            let written = match written_statements(sql, self.dialect.as_str()) {
                Ok(written) => written,
                Err(error) => {
                    return Err(error);
                },
            };
            if written.len() != trees.len() {
                return Err(ParseError::Tree);
            }
            let mut i: usize = 0;
            while i < trees.len()
                invariant
                    i <= trees@.len(),
                    written@.len() == trees@.len(),
                    actions_model(actions@) == statements_actions(
                        table_name@,
                        statements_model(trees@),
                        texts(written@),
                        output_config,
                        self.schema(),
                        i as nat,
                    ),
                decreases trees@.len() - i,
            {
                let ghost before = actions_model(actions@);
                if is_select_tree(&trees[i]) {
                    let mut more = handle_output(
                        table_name,
                        written[i].as_str(),
                        &output_config,
                        self.schema.as_str(),
                    );
                    let ghost added = actions_model(more@);
                    actions.append(&mut more);
                    assert(actions_model(actions@) =~= before + added);
                } else {
                    let text = written[i].clone();
                    actions.push(Action::Execute(text));
                    assert(actions_model(actions@) =~= before + seq![
                        ActionModel::Execute(texts(written@)[i as int]),
                    ]);
                }
                i += 1;
            }
            Ok(actions)
        } else if trees.len() == 1 {
            Ok(handle_output(table_name, sql, &output_config, self.schema.as_str()))
        } else {
            Ok(actions)
        }
    }

    /// The position of the first file with this path.
    fn find_source(files: &Vec<SourceFile>, path: &str) -> (r: Option<usize>)
        ensures
            match r {
                Some(index) => index == source_index(files@, path@, 0) && index < files@.len(),
                None => source_index(files@, path@, 0) == files@.len(),
            },
    {
        let mut i: usize = 0;
        while i < files.len()
            invariant
                i <= files@.len(),
                source_index(files@, path@, 0) == source_index(files@, path@, i as int),
            decreases files@.len() - i,
        {
            if text_eq(files[i].path.as_str(), path) {
                return Some(i);
            }
            i += 1;
        }
        None
    }

    /// The actions for all objects of the execution order, in that
    /// order. A unit's text is that of the first file with the unit's
    /// path.
    pub fn run_objects(
        &self,
        execution_order: &Vec<String>,
        dependencies: &DependencyMap,
        files: &Vec<SourceFile>,
    ) -> (r: Result<Vec<Action>, RunError>)
        requires
            dependencies.wf(),
        ensures
            match r {
                Ok(actions) => self.objects_actions(
                    texts(execution_order@),
                    dependencies@,
                    files@,
                    execution_order@.len(),
                ) == Ok::<Seq<ActionModel>, RunErrorModel>(actions_model(actions@)),
                Err(error) => self.objects_actions(
                    texts(execution_order@),
                    dependencies@,
                    files@,
                    execution_order@.len(),
                ) == Err::<Seq<ActionModel>, RunErrorModel>(error@),
            },
    {
        let mut actions: Vec<Action> = Vec::new();
        assert(actions_model(actions@) =~= Seq::<ActionModel>::empty());
        let mut i: usize = 0;
        while i < execution_order.len()
            invariant
                dependencies.wf(),
                i <= execution_order@.len(),
                self.objects_actions(texts(execution_order@), dependencies@, files@, i as nat)
                    == Ok::<Seq<ActionModel>, RunErrorModel>(actions_model(actions@)),
            decreases execution_order@.len() - i,
        {
            let name = &execution_order[i];
            assert(texts(execution_order@)[i as int] == name@);
            let ghost before = actions_model(actions@);
            match dependencies.get(name.as_str()) {
                Some(unit) => {
                    if ends_with(unit.filename.as_str(), ".sql") {
                        let index = match Self::find_source(files, unit.filename.as_str()) {
                            Some(index) => index,
                            None => {
                                proof {
                                    self.lemma_objects_error_stays(
                                        texts(execution_order@),
                                        dependencies@,
                                        files@,
                                        (i + 1) as nat,
                                        execution_order@.len(),
                                    );
                                }
                                return Err(RunError::MissingSource(unit.filename.clone()));
                            },
                        };
                        let config = match &unit.config {
                            Some(config) => Some(config),
                            None => None,
                        };
                        let native_ast = match &files[index].native_ast {
                            Some(text) => Some(text.as_str()),
                            None => None,
                        };
                        match self.run_sql_query(
                            files[index].contents.as_str(),
                            name.as_str(),
                            native_ast,
                            config,
                        ) {
                            Ok(mut more) => {
                                let ghost added = actions_model(more@);
                                actions.append(&mut more);
                                assert(actions_model(actions@) =~= before + added);
                            },
                            Err(error) => {
                                proof {
                                    self.lemma_objects_error_stays(
                                        texts(execution_order@),
                                        dependencies@,
                                        files@,
                                        (i + 1) as nat,
                                        execution_order@.len(),
                                    );
                                }
                                return Err(RunError::Unit { name: name.clone(), error });
                            },
                        }
                    } else {
                        assert(actions_model(actions@) =~= before + Seq::<ActionModel>::empty());
                    }
                },
                None => {
                    assert(actions_model(actions@) =~= before + Seq::<ActionModel>::empty());
                },
            }
            i += 1;
        }
        Ok(actions)
    }

    /// Plans the run of the transformation pipeline: the schema first,
    /// then every unit after the units that it reads, then the lineage
    /// diagram. Where the dependencies cannot be had, where they form a
    /// cycle or where a unit's text does not parse, there is no plan.
    pub fn run(&self, files: &Vec<SourceFile>) -> (r: Result<RunPlan, RunError>)
        ensures
            match r {
                Ok(plan) => {
                    &&& plan.dependencies.wf()
                    &&& scanned(files@, self.dialect(), files@.len())
                        == Ok::<Map<Seq<char>, UnitModel>, DependencyErrorModel>(plan.dependencies@)
                    &&& plan.dependencies.names() == scanned_names(files@, files@.len())
                    &&& is_execution_order(plan.dependencies@, texts(plan.order@))
                    &&& planned_order(plan.dependencies@) == Some(texts(plan.order@))
                    &&& self.objects_actions(
                        texts(plan.order@),
                        plan.dependencies@,
                        files@,
                        plan.order@.len(),
                    ) is Ok
                    &&& actions_model(plan.actions@) == self.pre_query_actions()
                        + self.objects_actions(
                        texts(plan.order@),
                        plan.dependencies@,
                        files@,
                        plan.order@.len(),
                    )->Ok_0
                    &&& plan.lineage@ == diagram(&plan.dependencies)
                },
                Err(error) => match error@ {
                    RunErrorModel::Dependencies(inner) => scanned(
                        files@,
                        self.dialect(),
                        files@.len(),
                    ) == Err::<Map<Seq<char>, UnitModel>, DependencyErrorModel>(inner),
                    RunErrorModel::Cycle(unit) => scanned(files@, self.dialect(), files@.len()) is Ok
                        && on_dependency_cycle(
                        scanned(files@, self.dialect(), files@.len())->Ok_0,
                        unit,
                    ) && has_dependency_cycle(
                        scanned(files@, self.dialect(), files@.len())->Ok_0,
                    ),
                    _ => scanned(files@, self.dialect(), files@.len()) is Ok && exists|
                        order: Seq<Seq<char>>,
                    | #[trigger]
                        self.order_fails(
                            order,
                            scanned(files@, self.dialect(), files@.len())->Ok_0,
                            files@,
                            error@,
                        ),
                },
            },
    {
        let dependencies = match get_dependencies(files, self.dialect.as_str()) {
            Ok(dependencies) => dependencies,
            Err(error) => {
                return Err(RunError::Dependencies(error));
            },
        };
        let order = match get_execution_order(&dependencies) {
            Ok(order) => order,
            Err(error) => {
                return Err(RunError::Cycle(error));
            },
        };
        let mut actions = self.run_pre_queries();
        let mut objects = match self.run_objects(&order, &dependencies, files) {
            Ok(objects) => objects,
            Err(error) => {
                proof {
                    self.lemma_objects_error_kind(
                        texts(order@),
                        dependencies@,
                        files@,
                        order@.len(),
                    );
                    assert(self.order_fails(
                        texts(order@),
                        scanned(files@, self.dialect(), files@.len())->Ok_0,
                        files@,
                        error@,
                    ));
                }
                return Err(error);
            },
        };
        let ghost first = actions_model(actions@);
        let ghost second = actions_model(objects@);
        actions.append(&mut objects);
        assert(actions_model(actions@) =~= first + second);
        let lineage = generate_mermaid_diagram(&dependencies);
        Ok(RunPlan { dependencies, order, actions, lineage })
    }

    /// Plans a run in force mode: the schema first, then every SQL file
    /// of the scan that has a name, once and in the order of the scan,
    /// whatever it depends on. A unit whose text does not parse is
    /// planned as failed and the others are planned all the same. The
    /// lineage diagram is planned where the dependencies can be had.
    pub fn run_force(&self, files: &Vec<SourceFile>) -> (r: ForcePlan)
        ensures
            actions_model(r.setup@) == self.pre_query_actions(),
            force_units_model(r.units@) == self.force_units(files@, files@.len()),
            match r.dependencies {
                Some(dependencies) => {
                    &&& dependencies.wf()
                    &&& scanned(files@, self.dialect(), files@.len())
                        == Ok::<Map<Seq<char>, UnitModel>, DependencyErrorModel>(dependencies@)
                    &&& dependencies.names() == scanned_names(files@, files@.len())
                    &&& r.lineage is Some
                    &&& r.lineage->Some_0@ == diagram(&dependencies)
                },
                None => scanned(files@, self.dialect(), files@.len()) is Err && r.lineage is None,
            },
    {
        let setup = self.run_pre_queries();
        let mut units: Vec<ForceUnit> = Vec::new();
        assert(force_units_model(units@) =~= Seq::<ForceUnitModel>::empty());
        let mut i: usize = 0;
        while i < files.len()
            invariant
                i <= files@.len(),
                force_units_model(units@) == self.force_units(files@, i as nat),
            decreases files@.len() - i,
        {
            let file = &files[i];
            let ghost before = force_units_model(units@);
            let extension = match &file.extension {
                Some(text) => Some(text.as_str()),
                None => None,
            };
            match unit_kind(extension) {
                UnitKind::Sql => match &file.stem {
                    Some(stem) => {
                        let config = match &file.config {
                            Some(config) => Some(config),
                            None => None,
                        };
                        let native_ast = match &file.native_ast {
                            Some(text) => Some(text.as_str()),
                            None => None,
                        };
                        let actions = self.run_sql_query(
                            file.contents.as_str(),
                            stem.as_str(),
                            native_ast,
                            config,
                        );
                        let unit = ForceUnit {
                            name: stem.clone(),
                            path: file.path.clone(),
                            actions,
                        };
                        units.push(unit);
                        assert(force_units_model(units@) =~= before.push(unit@));
                    },
                    None => {},
                },
                _ => {},
            }
            i += 1;
        }
        match get_dependencies(files, self.dialect.as_str()) {
            Ok(dependencies) => {
                let lineage = generate_mermaid_diagram(&dependencies);
                ForcePlan { setup, units, dependencies: Some(dependencies), lineage: Some(lineage) }
            },
            Err(_) => ForcePlan { setup, units, dependencies: None, lineage: None },
        }
    }

    /// Generate the lineage diagram only: the dependencies of the files
    /// and the text of their diagram.
    pub fn generate_lineage(&self, files: &Vec<SourceFile>) -> (r: Result<
        (DependencyMap, String),
        DependencyError,
    >)
        ensures
            match r {
                Ok((dependencies, text)) => dependencies.wf() && scanned(
                    files@,
                    self.dialect(),
                    files@.len(),
                ) == Ok::<Map<Seq<char>, UnitModel>, DependencyErrorModel>(dependencies@)
                    && dependencies.names() == scanned_names(files@, files@.len()) && text@
                    == diagram(&dependencies),
                Err(error) => scanned(files@, self.dialect(), files@.len())
                    == Err::<Map<Seq<char>, UnitModel>, DependencyErrorModel>(error@),
            },
    {
        match get_dependencies(files, self.dialect.as_str()) {
            Ok(dependencies) => {
                let text = generate_mermaid_diagram(&dependencies);
                Ok((dependencies, text))
            },
            Err(error) => Err(error),
        }
    }
}

/// A default output configuration, updated from a model's own where it
/// has one: the model's type and its wish to keep the table win, and its
/// location wins where it has one.
pub open spec fn merged_output(default: OutputConfig, model: Option<OutputConfig>) -> OutputConfig {
    match model {
        Some(output) => OutputConfig {
            output_type: output.output_type,
            location: if output.location is Some {
                output.location
            } else {
                default.location
            },
            keep_table: output.keep_table,
        },
        None => default,
    }
}

} // verus!
