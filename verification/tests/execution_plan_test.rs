use crabwalk::config::{ModelConfig, OutputConfig, OutputType};
use crabwalk::executor::output::{handle_file_output, handle_output, perform_actions, Action};
use std::cell::RefCell;
use crabwalk::executor::{env_var_names, placeholder_value, replace_env_vars, EnvVar};
use crabwalk::force::ForceRun;
use crabwalk::parser::dependencies::{DependencyError, DependencyMap, SourceFile};
use crabwalk::storage::S3Config;
use crabwalk::{Crabwalk, RunError};

fn sql_file(name: &str, contents: &str) -> SourceFile {
    SourceFile {
        path: format!("work/{}.sql", name),
        stem: Some(name.to_string()),
        extension: Some("sql".to_string()),
        contents: contents.to_string(),
        native_ast: None,
        config: None,
    }
}

fn orchestrator(default_output: Option<OutputConfig>) -> Crabwalk {
    Crabwalk::new(
        "crabwalk.db".to_string(),
        "work".to_string(),
        "duckdb".to_string(),
        "transform".to_string(),
        default_output,
        None,
    )
}

fn texts(actions: &[Action]) -> Vec<String> {
    actions
        .iter()
        .map(|action| match action {
            Action::Execute(sql) => format!("EXECUTE {}", sql),
            Action::PrepareFile(location) => format!("PREPARE {}", location),
        })
        .collect()
}

#[test]
fn tables_and_views_are_created_in_the_schema() {
    let table = OutputConfig::default();
    assert_eq!(
        texts(&handle_output("orders", "SELECT 1", &table, "transform")),
        vec!["EXECUTE CREATE OR REPLACE TABLE transform.orders AS SELECT 1"]
    );
    let view = OutputConfig::new(OutputType::View, Some("ignored".to_string()), true);
    assert_eq!(
        texts(&handle_output("orders", "SELECT 1", &view, "s")),
        vec!["EXECUTE CREATE OR REPLACE VIEW s.orders AS SELECT 1"]
    );
}

#[test]
fn files_are_exported_through_a_temporary_table() {
    let parquet = OutputConfig::new(OutputType::Parquet, None, false);
    assert_eq!(
        texts(&handle_output("orders", "SELECT 1", &parquet, "transform")),
        vec![
            "PREPARE ./output/orders.parquet",
            "EXECUTE CREATE OR REPLACE TABLE temp_orders AS SELECT 1",
            "EXECUTE COPY (SELECT * FROM temp_orders) TO './output/orders.parquet' (FORMAT PARQUET)",
            "EXECUTE DROP TABLE IF EXISTS temp_orders",
        ]
    );
    let csv = OutputConfig::new(OutputType::Csv, Some("out/{table_name}.csv".to_string()), true);
    assert_eq!(
        texts(&handle_output("orders", "SELECT 2", &csv, "transform")),
        vec![
            "PREPARE out/orders.csv",
            "EXECUTE CREATE OR REPLACE TABLE temp_orders AS SELECT 2",
            "EXECUTE COPY (SELECT * FROM temp_orders) TO 'out/orders.csv' (FORMAT CSV, HEADER)",
        ]
    );
    let json = OutputConfig::new(OutputType::Json, None, false);
    assert_eq!(
        texts(&handle_file_output("t", "SELECT 3", &json))[2],
        "EXECUTE COPY (SELECT * FROM temp_t) TO './output/t.json' (FORMAT JSON)"
    );
    let table = OutputConfig::new(OutputType::Table, None, true);
    assert_eq!(
        texts(&handle_file_output("t", "SELECT 3", &table)),
        vec![
            "PREPARE ",
            "EXECUTE CREATE OR REPLACE TABLE temp_t AS SELECT 3",
            "EXECUTE COPY (SELECT * FROM temp_t) TO '' (FORMAT PARQUET)",
        ]
    );
}

#[test]
fn the_output_of_a_model_is_merged_with_the_default() {
    let crabwalk = orchestrator(Some(OutputConfig::new(
        OutputType::Parquet,
        Some("default/{table_name}.parquet".to_string()),
        true,
    )));
    let merged = crabwalk.get_output_config(None);
    assert_eq!(merged.output_type, OutputType::Parquet);
    assert_eq!(merged.location, Some("default/{table_name}.parquet".to_string()));
    assert!(merged.keep_table);
    let bare = ModelConfig { output: None };
    assert_eq!(crabwalk.get_output_config(Some(&bare)).output_type, OutputType::Parquet);
    let csv = ModelConfig { output: Some(OutputConfig::new(OutputType::Csv, None, false)) };
    let merged = crabwalk.get_output_config(Some(&csv));
    assert_eq!(merged.output_type, OutputType::Csv);
    assert_eq!(merged.location, Some("default/{table_name}.parquet".to_string()));
    assert!(!merged.keep_table);
    let moved = ModelConfig {
        output: Some(OutputConfig::new(OutputType::Json, Some("x.json".to_string()), true)),
    };
    assert_eq!(crabwalk.get_output_config(Some(&moved)).location, Some("x.json".to_string()));
    let plain = orchestrator(None).get_output_config(None);
    assert_eq!(plain.output_type, OutputType::Table);
    assert_eq!(plain.location, None);
    assert!(!plain.keep_table);
}

#[test]
fn the_text_of_a_unit_becomes_its_actions() {
    let crabwalk = orchestrator(None);
    let one = crabwalk.run_sql_query("SELECT  *  FROM a -- as written\n", "m", None, None).unwrap();
    assert_eq!(
        texts(&one),
        vec!["EXECUTE CREATE OR REPLACE TABLE transform.m AS SELECT  *  FROM a -- as written\n"]
    );
    let view = ModelConfig { output: Some(OutputConfig::new(OutputType::View, None, false)) };
    let several = crabwalk
        .run_sql_query("CREATE TABLE x (a INT); select  a from x; (SELECT 1); SELECT 1 UNION SELECT 2", "m", None, Some(&view))
        .unwrap();
    assert_eq!(
        texts(&several),
        vec![
            "EXECUTE CREATE TABLE x (a INT)",
            "EXECUTE CREATE OR REPLACE VIEW transform.m AS SELECT a FROM x",
            "EXECUTE CREATE OR REPLACE VIEW transform.m AS (SELECT 1)",
            "EXECUTE SELECT 1 UNION SELECT 2",
        ]
    );
    assert!(crabwalk.run_sql_query("", "m", None, None).unwrap().is_empty());
    assert!(crabwalk.run_sql_query("  -- nothing here\n", "m", None, None).unwrap().is_empty());
    let error = crabwalk.run_sql_query("SELECT FROM (", "m", None, None).unwrap_err();
    assert!(error.to_string().starts_with("Failed to parse SQL: sql parser error"));
}

#[test]
fn a_run_is_planned_in_dependency_order() {
    let crabwalk = orchestrator(None);
    let mut report = sql_file("report", "SELECT * FROM clean JOIN raw.other ON true");
    report.config = Some(ModelConfig {
        output: Some(OutputConfig::new(OutputType::Csv, None, false)),
    });
    let files = vec![report, sql_file("clean", "SELECT * FROM raw.events")];
    let plan = crabwalk.run(&files).unwrap();
    assert_eq!(plan.order, vec!["clean".to_string(), "report".to_string()]);
    assert_eq!(
        texts(&plan.actions),
        vec![
            "EXECUTE CREATE SCHEMA IF NOT EXISTS transform",
            "EXECUTE USE transform",
            "EXECUTE CREATE OR REPLACE TABLE transform.clean AS SELECT * FROM raw.events",
            "PREPARE ./output/report.csv",
            "EXECUTE CREATE OR REPLACE TABLE temp_report AS SELECT * FROM clean JOIN raw.other ON true",
            "EXECUTE COPY (SELECT * FROM temp_report) TO './output/report.csv' (FORMAT CSV, HEADER)",
            "EXECUTE DROP TABLE IF EXISTS temp_report",
        ]
    );
    assert_eq!(plan.lineage, "graph TD\n    report\n    clean\n    clean --> report\n");
    assert_eq!(plan.dependencies.len(), 2);
    assert_eq!(texts(&crabwalk.run_pre_queries()).len(), 2);
    let empty = crabwalk.run(&Vec::new()).unwrap();
    assert!(empty.order.is_empty());
    assert_eq!(empty.actions.len(), 2);
    assert_eq!(empty.lineage, "graph TD\n");
}

#[test]
fn a_run_is_not_planned_where_it_cannot_succeed() {
    let crabwalk = orchestrator(None);
    let cycle = vec![sql_file("a", "SELECT * FROM b"), sql_file("b", "SELECT * FROM a")];
    match crabwalk.run(&cycle) {
        Err(RunError::Cycle(error)) => assert!(error.to_string().contains("Cycle")),
        other => panic!("unexpected {:?}", other),
    }
    let broken = vec![sql_file("a", "SELECT 1"), sql_file("b", "SELEC")];
    match crabwalk.run(&broken) {
        Err(RunError::Dependencies(DependencyError::Parse { path, .. })) => {
            assert_eq!(path, "work/b.sql")
        }
        other => panic!("unexpected {:?}", other),
    }
    let error = crabwalk.run(&broken).unwrap_err();
    assert!(error.to_string().starts_with("Failed to parse SQL file work/b.sql: "));
    assert!(crabwalk.run(&cycle).unwrap_err().to_string().starts_with("Cycle detected in dependency graph at "));
}

#[test]
fn objects_run_from_the_files_of_their_units() {
    let crabwalk = orchestrator(None);
    let files = vec![sql_file("known", "SELECT 1")];
    let mut dependencies = DependencyMap::new();
    let unit = |filename: &str| crabwalk::parser::dependencies::Dependency {
        deps: crabwalk::names::NameSet::new(),
        filename: filename.to_string(),
        config: None,
    };
    dependencies.insert("known".to_string(), unit("work/known.sql"));
    dependencies.insert("script".to_string(), unit("work/script.py"));
    let order = vec!["source".to_string(), "script".to_string(), "known".to_string()];
    let actions = crabwalk.run_objects(&order, &dependencies, &files).unwrap();
    assert_eq!(texts(&actions), vec!["EXECUTE CREATE OR REPLACE TABLE transform.known AS SELECT 1"]);
    dependencies.insert("lost".to_string(), unit("work/lost.sql"));
    let order = vec!["known".to_string(), "lost".to_string()];
    match crabwalk.run_objects(&order, &dependencies, &files) {
        Err(RunError::MissingSource(filename)) => assert_eq!(filename, "work/lost.sql"),
        other => panic!("unexpected {:?}", other),
    }
    let bad = vec![sql_file("known", "SELECT 1; SELEC")];
    match crabwalk.run_objects(&vec!["known".to_string()], &dependencies, &bad) {
        Err(RunError::Unit { name, error }) => {
            assert_eq!(name, "known");
            assert!(error.to_string().contains("sql parser error"));
        }
        other => panic!("unexpected {:?}", other),
    }
    let error = crabwalk.run_objects(&order, &dependencies, &files).unwrap_err();
    assert_eq!(error.to_string(), "Failed to read SQL file: work/lost.sql");
}

#[test]
fn force_mode_plans_every_unit_once() {
    let crabwalk = orchestrator(None);
    let mut script = sql_file("script", "print()");
    script.extension = Some("py".to_string());
    let mut nameless = sql_file("x", "SELECT 1");
    nameless.stem = None;
    let files = vec![
        sql_file("a", "SELECT * FROM b"),
        script,
        sql_file("broken", "SELEC"),
        nameless,
        sql_file("b", "SELECT * FROM a"),
    ];
    let plan = crabwalk.run_force(&files);
    assert_eq!(texts(&plan.setup), vec!["EXECUTE CREATE SCHEMA IF NOT EXISTS transform", "EXECUTE USE transform"]);
    let names: Vec<&str> = plan.units.iter().map(|unit| unit.name.as_str()).collect();
    assert_eq!(names, vec!["a", "broken", "b"]);
    assert_eq!(plan.units[0].path, "work/a.sql");
    assert_eq!(
        texts(plan.units[0].actions.as_ref().unwrap()),
        vec!["EXECUTE CREATE OR REPLACE TABLE transform.a AS SELECT * FROM b"]
    );
    assert!(plan.units[1].actions.is_err());
    assert!(plan.units[2].actions.is_ok());
    assert!(plan.dependencies.is_none());
    assert!(plan.lineage.is_none());

    let cycle = vec![sql_file("a", "SELECT * FROM b"), sql_file("b", "SELECT * FROM a")];
    let plan = crabwalk.run_force(&cycle);
    assert_eq!(plan.units.len(), 2);
    assert_eq!(plan.lineage, Some("graph TD\n    a\n    b\n    b --> a\n    a --> b\n".to_string()));
    assert!(crabwalk.run_force(&Vec::new()).units.is_empty());
}

#[test]
fn a_force_run_goes_on_after_a_failure() {
    let mut run = ForceRun::new(3);
    assert_eq!(run.next(), Some(0));
    assert!(!run.is_finished());
    assert!(run.record(Some("no such table".to_string())));
    assert_eq!(run.next(), Some(1));
    assert!(run.record(None));
    assert_eq!(run.next(), Some(2));
    assert!(run.record(Some("again".to_string())));
    assert_eq!(run.next(), None);
    assert!(run.is_finished());
    assert!(!run.record(None));
    assert_eq!(run.attempted(), 3);
    assert_eq!(run.failed(), 2);
    assert_eq!(run.succeeded(), 1);
    assert_eq!(run.outcome(0).unwrap().failure, Some("no such table".to_string()));
    assert_eq!(run.outcome(1).unwrap().unit, 1);
    assert_eq!(run.outcome(1).unwrap().failure, None);
    assert!(run.outcome(3).is_none());
    let mut none = ForceRun::new(0);
    assert!(none.is_finished());
    assert_eq!(none.next(), None);
    assert!(!none.record(None));
    assert_eq!(none.succeeded(), 0);
}

#[test]
fn lineage_alone_can_be_generated() {
    let crabwalk = orchestrator(None);
    let files = vec![sql_file("a", "SELECT * FROM b"), sql_file("b", "SELECT 1")];
    let (dependencies, text) = crabwalk.generate_lineage(&files).unwrap();
    assert_eq!(dependencies.len(), 2);
    assert_eq!(text, "graph TD\n    a\n    b\n    b --> a\n");
    assert!(crabwalk.generate_lineage(&vec![sql_file("a", "SELEC")]).is_err());
}

#[test]
fn backup_and_restore_do_nothing_without_storage() {
    let crabwalk = orchestrator(None);
    assert!(crabwalk.backup().is_ok());
    assert!(crabwalk.restore(true).is_ok());
    let config = S3Config::default();
    assert_eq!(config.db_folder_name, "db");
    assert_eq!(config.bucket, "");
    assert!(config.access_key.is_none() && config.endpoint_url.is_none());
    let with_storage = Crabwalk::new(
        "crabwalk.db".to_string(),
        "work".to_string(),
        "duckdb".to_string(),
        "transform".to_string(),
        None,
        Some(config.clone()),
    );
    assert!(with_storage.backup().is_ok());
    assert!(with_storage.restore(false).is_ok());
    assert!(crabwalk::storage::backup("crabwalk.db", &config).is_ok());
    assert!(crabwalk::storage::restore("crabwalk.db", &config, true).is_ok());
}

#[test]
fn placeholders_take_the_values_of_their_variables() {
    let sql = "SELECT * FROM '{{ DATA_DIR }}/x.csv' WHERE a = '{{MODE}}' AND b = '{{ MISSING}}' AND c = '{{ not a name }}' {{DATA_DIR}}";
    assert_eq!(
        env_var_names(sql).unwrap(),
        vec!["DATA_DIR".to_string(), "MODE".to_string(), "MISSING".to_string(), "DATA_DIR".to_string()]
    );
    let env = vec![
        EnvVar { name: "DATA_DIR".to_string(), value: Some("/data".to_string()) },
        EnvVar { name: "MISSING".to_string(), value: None },
        EnvVar { name: "MODE".to_string(), value: Some("".to_string()) },
        EnvVar { name: "DATA_DIR".to_string(), value: Some("later".to_string()) },
    ];
    assert_eq!(
        replace_env_vars(sql, &env).unwrap(),
        "SELECT * FROM '/data/x.csv' WHERE a = '' AND b = '{{MISSING}}' AND c = '{{ not a name }}' /data"
    );
    assert_eq!(replace_env_vars("{{ A }}", &Vec::new()).unwrap(), "{{A}}");
    assert_eq!(replace_env_vars("no placeholder", &env).unwrap(), "no placeholder");
    assert!(env_var_names("SELECT 1").unwrap().is_empty());
    assert_eq!(placeholder_value("DATA_DIR", &env), "/data");
    assert_eq!(placeholder_value("MISSING", &env), "{{MISSING}}");
    assert_eq!(placeholder_value("OTHER", &env), "{{OTHER}}");
    assert_eq!(placeholder_value("MODE", &env), "");
}

#[test]
fn a_force_run_attempts_every_unit_once_whatever_fails() {
    let attempts = RefCell::new(Vec::new());
    let run = ForceRun::run_all(5, |unit| {
        attempts.borrow_mut().push(unit);
        if unit % 2 == 0 {
            Some(format!("unit {} failed", unit))
        } else {
            None
        }
    });
    assert_eq!(*attempts.borrow(), vec![0, 1, 2, 3, 4]);
    assert!(run.is_finished());
    assert_eq!(run.attempted(), 5);
    assert_eq!(run.failed(), 3);
    assert_eq!(run.succeeded(), 2);
    assert_eq!(run.outcome(4).unwrap().failure, Some("unit 4 failed".to_string()));
    assert_eq!(run.outcome(3).unwrap().failure, None);
    let none = ForceRun::run_all(0, |_| Some("never".to_string()));
    assert_eq!(none.attempted(), 0);
}

#[test]
fn actions_stop_at_the_first_failure() {
    let actions = vec![
        Action::Execute("one".to_string()),
        Action::PrepareFile("two".to_string()),
        Action::Execute("three".to_string()),
        Action::Execute("four".to_string()),
    ];
    let seen = RefCell::new(Vec::new());
    let result = perform_actions(&actions, |action| {
        let text = texts(std::slice::from_ref(action)).remove(0);
        seen.borrow_mut().push(text.clone());
        if text == "EXECUTE three" {
            Some("no such table".to_string())
        } else {
            None
        }
    });
    let failure = result.unwrap_err();
    assert_eq!(failure.index, 2);
    assert_eq!(failure.reason, "no such table");
    assert_eq!(*seen.borrow(), vec!["EXECUTE one", "PREPARE two", "EXECUTE three"]);
    assert!(perform_actions(&actions, |_| None).is_ok());
    assert!(perform_actions(&Vec::new(), |_| Some("never".to_string())).is_ok());
}

#[test]
fn a_workspace_can_be_a_single_file() {
    let single = Crabwalk::new(
        "db".to_string(),
        "models/orders.sql".to_string(),
        "DuckDB".to_string(),
        "s".to_string(),
        None,
        None,
    );
    assert!(single.is_single_file());
    assert!(!orchestrator(None).is_single_file());
    assert!(crabwalk::parser::sql::is_duckdb_dialect("DuckDB"));
    assert!(crabwalk::parser::sql::is_duckdb_dialect("duckdb"));
    assert!(!crabwalk::parser::sql::is_duckdb_dialect("duck"));
    let plan = single.run_force(&vec![sql_file("orders", "SELECT 1")]);
    assert_eq!(plan.units.len(), 1);
}

fn engine_tree(table: &str) -> String {
    let truth = "{\"class\":\"CONSTANT\",\"type\":\"VALUE_CONSTANT\",\"value\":{\"type\":{\"id\":\"BOOLEAN\"},\"value\":true}}";
    format!(
        "{{\"error\":false,\"statements\":[{{\"node\":{{\"type\":\"SELECT_NODE\",\"select_list\":[],\"from_table\":{{\"type\":\"BASE_TABLE\",\"table_name\":\"{}\"}},\"where_clause\":{},\"having_clause\":{}}}}}]}}",
        table, truth, truth
    )
}

#[test]
fn a_unit_that_only_the_engine_accepts_is_run_as_written() {
    let crabwalk = orchestrator(None);
    let text = "SELECT FROM (";
    assert!(crabwalk.run_sql_query(text, "m", None, None).is_err());
    let tree = engine_tree("base");
    let actions = crabwalk.run_sql_query(text, "m", Some(&tree), None).unwrap();
    assert_eq!(texts(&actions), vec!["EXECUTE CREATE OR REPLACE TABLE transform.m AS SELECT FROM ("]);
    let mut file = sql_file("m", text);
    file.native_ast = Some(tree);
    let files = vec![file, sql_file("base", "SELECT 1")];
    let plan = crabwalk.run(&files).unwrap();
    assert_eq!(plan.order, vec!["base".to_string(), "m".to_string()]);
    assert_eq!(
        texts(&plan.actions)[3],
        "EXECUTE CREATE OR REPLACE TABLE transform.m AS SELECT FROM ("
    );
    let forced = crabwalk.run_force(&files);
    assert!(forced.units[0].actions.is_ok());
    assert!(forced.units[1].actions.is_ok());
}

#[test]
fn a_text_that_the_grammar_cannot_be_given_is_an_error() {
    let crabwalk = orchestrator(None);
    for text in [
        "GRANT SELECT ON t TO u GRANTED BY 1",
        "revoke select on t from u Granted By",
        "FLUSH RELAY LOGS FOR CHANNEL",
        "SELECT relay FROM channel_stats",
        "SELECT granted FROM t GROUP BY 1",
    ] {
        let error = crabwalk.run_sql_query(text, "m", None, None).unwrap_err();
        assert!(matches!(error, crabwalk::parser::sql::ParseError::Unsupported));
        assert!(crabwalk::parser::sql::parse_sql(text, "generic", None).is_err());
        assert!(crabwalk::parser::sql::parse_with_grammar(text, "duckdb").is_err());
        assert!(crabwalk::parser::sql::written_statements(text, "generic").is_err());
    }
    assert_eq!(
        crabwalk.run_sql_query("select granted by", "m", None, None).unwrap_err().to_string(),
        "Failed to parse SQL: GRANTED BY and FOR CHANNEL are not supported"
    );
    assert!(crabwalk.run_sql_query("GRANT SELECT ON t TO u", "m", None, None).is_ok());
    assert!(crabwalk.run_sql_query("SELECT channel, granted FROM sales", "m", None, None).is_ok());
    assert!(crabwalk::parser::sql::parse_with_grammar("FLUSH RELAY LOGS", "generic").is_ok());
    let tree = engine_tree("channel_stats");
    let actions = crabwalk.run_sql_query("SELECT relay FROM channel_stats", "m", Some(&tree), None).unwrap();
    assert_eq!(actions.len(), 1);
    assert_eq!(
        crabwalk::parser::sql::written_statements("select 1; select  2", "duckdb").unwrap(),
        vec!["SELECT 1".to_string(), "SELECT 2".to_string()]
    );
}
