use crabwalk::parser::dependencies::{
    get_dependencies, get_execution_order, name_collisions, process_sql_file, unit_kind,
    DependencyError, DependencyMap, SourceFile, UnitKind,
};

fn sql_file(dir: &str, name: &str, contents: &str) -> SourceFile {
    SourceFile {
        path: format!("{}/{}.sql", dir, name),
        stem: Some(name.to_string()),
        extension: Some("sql".to_string()),
        contents: format!("{}\n", contents),
        native_ast: None,
        config: None,
    }
}

#[test]
fn test_process_empty_folder() {
    let files: Vec<SourceFile> = Vec::new();

    let result = get_dependencies(&files, "duckdb");
    assert!(result.is_ok(), "Should handle empty folder gracefully");

    let dependencies = result.unwrap();
    assert_eq!(dependencies.len(), 0, "Empty folder should yield no dependencies");
}

#[test]
fn test_process_single_file_without_dependencies() {
    let files = vec![sql_file("/tmp/work", "simple", "SELECT 1 as test")];

    let result = get_dependencies(&files, "duckdb");
    assert!(result.is_ok(), "Should process single file without error");

    let dependencies = result.unwrap();
    assert_eq!(dependencies.len(), 1, "Should have one model");
    assert!(dependencies.contains_key("simple"), "Model name should be derived from filename");

    let deps = dependencies.get("simple").unwrap();
    assert_eq!(deps.deps.len(), 0, "Simple query should have no dependencies");
}

#[test]
fn test_process_file_with_dependencies() {
    let files = vec![
        sql_file("/tmp/work", "source", "SELECT 1 as id, 'test' as name"),
        sql_file("/tmp/work", "dependent", "SELECT * FROM source WHERE id > 0"),
    ];

    let result = get_dependencies(&files, "duckdb");
    assert!(result.is_ok(), "Should process files with dependencies");

    let dependencies = result.unwrap();
    assert_eq!(dependencies.len(), 2, "Should have two models");
    assert!(dependencies.contains_key("source"), "Source model should exist");
    assert!(dependencies.contains_key("dependent"), "Dependent model should exist");

    let source_deps = dependencies.get("source").unwrap();
    assert_eq!(source_deps.deps.len(), 0, "Source should have no dependencies");

    let dependent_deps = dependencies.get("dependent").unwrap();
    assert_eq!(dependent_deps.deps.len(), 1, "Dependent should have one dependency");
    assert!(dependent_deps.deps.contains(&"source".to_string()), "Dependent should depend on source");
}

#[test]
fn test_process_files_with_complex_dependencies() {
    let contents = [
        ("source1", "SELECT 1 as id, 'test1' as name"),
        ("source2", "SELECT 2 as id, 'test2' as name"),
        ("intermediate", "SELECT * FROM source1 JOIN source2 ON source1.id = source2.id"),
        ("final", "SELECT * FROM intermediate WHERE name LIKE '%test%'"),
    ];
    let files: Vec<SourceFile> =
        contents.iter().map(|(name, sql)| sql_file("/tmp/work", name, sql)).collect();

    let result = get_dependencies(&files, "duckdb");
    assert!(result.is_ok(), "Should process complex dependencies");

    let dependencies = result.unwrap();
    assert_eq!(dependencies.len(), 4, "Should have four models");

    let source1_deps = dependencies.get("source1").unwrap();
    assert_eq!(source1_deps.deps.len(), 0, "source1 should have no dependencies");

    let source2_deps = dependencies.get("source2").unwrap();
    assert_eq!(source2_deps.deps.len(), 0, "source2 should have no dependencies");

    let intermediate_deps = dependencies.get("intermediate").unwrap();
    assert_eq!(intermediate_deps.deps.len(), 2, "intermediate should have two dependencies");
    assert!(intermediate_deps.deps.contains(&"source1".to_string()), "intermediate should depend on source1");
    assert!(intermediate_deps.deps.contains(&"source2".to_string()), "intermediate should depend on source2");

    let final_deps = dependencies.get("final").unwrap();
    assert_eq!(final_deps.deps.len(), 1, "final should have one dependency");
    assert!(final_deps.deps.contains(&"intermediate".to_string()), "final should depend on intermediate");
}

#[test]
fn source_and_dependent_are_ordered() {
    let files = vec![
        sql_file("w", "dependent", "SELECT * FROM source"),
        sql_file("w", "source", "SELECT 1 as id"),
    ];
    let dependencies = get_dependencies(&files, "duckdb").unwrap();
    assert!(dependencies.get("source").unwrap().deps.is_empty());
    assert_eq!(dependencies.get("dependent").unwrap().deps.to_vec(), vec!["source".to_string()]);
    let order = get_execution_order(&dependencies).unwrap();
    assert_eq!(order, vec!["source".to_string(), "dependent".to_string()]);
}

#[test]
fn two_units_that_read_each_other_are_a_cycle() {
    let files = vec![
        sql_file("w", "a", "SELECT * FROM b"),
        sql_file("w", "b", "SELECT * FROM a"),
    ];
    let dependencies = get_dependencies(&files, "duckdb").unwrap();
    let result = get_execution_order(&dependencies);
    assert!(result.is_err());
    let error = result.unwrap_err();
    assert!(error.unit == "a" || error.unit == "b");
    assert_eq!(error.to_string(), format!("Cycle detected in dependency graph at {}", error.unit));
}

#[test]
fn a_longer_cycle_is_found_among_other_units() {
    let files = vec![
        sql_file("w", "free", "SELECT 1"),
        sql_file("w", "a", "SELECT * FROM c JOIN free ON true"),
        sql_file("w", "b", "SELECT * FROM a"),
        sql_file("w", "c", "SELECT * FROM b"),
    ];
    let dependencies = get_dependencies(&files, "generic").unwrap();
    let error = get_execution_order(&dependencies).unwrap_err();
    assert!(["a", "b", "c"].contains(&error.unit.as_str()));
}

#[test]
fn empty_workspace_has_an_empty_order() {
    let dependencies = get_dependencies(&Vec::new(), "duckdb").unwrap();
    assert!(dependencies.is_empty());
    let order = get_execution_order(&dependencies).unwrap();
    assert!(order.is_empty());
}

#[test]
fn every_dependency_comes_before_its_dependent() {
    let contents = [
        ("report", "SELECT * FROM orders o JOIN customers c ON o.cid = c.id"),
        ("orders", "SELECT * FROM stg_orders UNION ALL SELECT * FROM stg_returns"),
        ("customers", "SELECT * FROM stg_customers"),
        ("stg_orders", "SELECT * FROM raw.orders"),
        ("stg_returns", "SELECT * FROM raw.returns"),
        ("stg_customers", "WITH x AS (SELECT * FROM raw.customers) SELECT * FROM x"),
    ];
    let files: Vec<SourceFile> = contents.iter().map(|(name, sql)| sql_file("w", name, sql)).collect();
    let dependencies = get_dependencies(&files, "duckdb").unwrap();
    let order = get_execution_order(&dependencies).unwrap();
    assert_eq!(order.len(), 6);
    let position = |name: &str| order.iter().position(|n| n == name).unwrap();
    for name in dependencies.keys() {
        let unit = dependencies.get(&name).unwrap();
        for dependency in unit.deps.to_vec() {
            if dependencies.contains_key(&dependency) {
                assert!(position(&dependency) < position(&name), "{} before {}", dependency, name);
            }
        }
    }
    let again = get_execution_order(&dependencies).unwrap();
    assert_eq!(order, again);
}

#[test]
fn external_dependencies_are_kept_but_order_nothing() {
    let files = vec![
        sql_file("w", "b", "SELECT * FROM raw_events JOIN a ON true"),
        sql_file("w", "a", "SELECT * FROM other_source"),
    ];
    let dependencies = get_dependencies(&files, "duckdb").unwrap();
    let b = dependencies.get("b").unwrap();
    assert!(b.deps.contains("raw_events"));
    assert!(b.deps.contains("a"));
    assert!(!dependencies.contains_key("raw_events"));
    let order = get_execution_order(&dependencies).unwrap();
    assert_eq!(order, vec!["a".to_string(), "b".to_string()]);
}

#[test]
fn a_unit_never_depends_on_itself() {
    let files = vec![sql_file(
        "w",
        "x",
        "WITH x AS (SELECT * FROM base) SELECT * FROM x JOIN other ON true",
    )];
    let dependencies = get_dependencies(&files, "duckdb").unwrap();
    let unit = dependencies.get("x").unwrap();
    assert!(!unit.deps.contains("x"));
    let mut names = unit.deps.to_vec();
    names.sort();
    assert_eq!(names, vec!["base".to_string(), "other".to_string()]);
    assert_eq!(get_execution_order(&dependencies).unwrap(), vec!["x".to_string()]);
}

#[test]
fn a_self_dependency_recorded_by_hand_is_a_cycle() {
    let mut dependencies = DependencyMap::new();
    let mut deps = crabwalk::names::NameSet::new();
    deps.insert("loop".to_string());
    let unit = crabwalk::parser::dependencies::Dependency {
        deps,
        filename: "loop.sql".to_string(),
        config: None,
    };
    assert!(!dependencies.insert("loop".to_string(), unit));
    assert_eq!(get_execution_order(&dependencies).unwrap_err().unit, "loop");
}

#[test]
fn files_that_are_no_sql_are_passed_over() {
    let mut script = sql_file("w", "transform", "import this");
    script.path = "w/transform.py".to_string();
    script.extension = Some("py".to_string());
    let mut readme = sql_file("w", "README", "SELECT * FROM nowhere");
    readme.extension = None;
    let mut upper = sql_file("w", "upper", "SELECT * FROM transform");
    upper.extension = Some("SQL".to_string());
    let files = vec![script, readme, upper];
    let dependencies = get_dependencies(&files, "duckdb").unwrap();
    assert_eq!(dependencies.keys(), vec!["upper".to_string()]);
    assert_eq!(unit_kind(Some("py")), UnitKind::Script);
    assert_eq!(unit_kind(Some("Sql")), UnitKind::Sql);
    assert_eq!(unit_kind(Some("txt")), UnitKind::Other);
    assert_eq!(unit_kind(None), UnitKind::Other);
}

#[test]
fn the_later_file_of_a_name_wins() {
    let files = vec![
        sql_file("w/one", "model", "SELECT * FROM first_source"),
        sql_file("w", "other", "SELECT 1"),
        sql_file("w/two", "model", "SELECT * FROM second_source"),
    ];
    let dependencies = get_dependencies(&files, "duckdb").unwrap();
    assert_eq!(dependencies.len(), 2);
    let unit = dependencies.get("model").unwrap();
    assert_eq!(unit.filename, "w/two/model.sql");
    assert_eq!(unit.deps.to_vec(), vec!["second_source".to_string()]);
    assert_eq!(dependencies.keys(), vec!["model".to_string(), "other".to_string()]);
    assert_eq!(name_collisions(&files), vec![2]);
    let mut more = files;
    more.push(sql_file("w/three", "other", "SELECT 2"));
    more.push(sql_file("w/four", "model", "SELECT 3"));
    let mut script = sql_file("w", "model", "print()");
    script.extension = Some("py".to_string());
    more.push(script);
    assert_eq!(name_collisions(&more), vec![2, 3, 4]);
    assert!(name_collisions(&Vec::new()).is_empty());
}

#[test]
fn a_file_that_does_not_parse_is_the_error() {
    let files = vec![
        sql_file("w", "good", "SELECT 1"),
        sql_file("w", "bad", "SELECT FROM WHERE ("),
        sql_file("w", "never", "SELECT 2"),
    ];
    match get_dependencies(&files, "duckdb") {
        Err(DependencyError::Parse { path, error }) => {
            assert_eq!(path, "w/bad.sql");
            assert!(error.to_string().starts_with("Failed to parse SQL: sql parser error"));
        }
        other => panic!("unexpected: {:?}", other),
    }
}

#[test]
fn a_sql_file_without_a_name_is_the_error() {
    let mut nameless = sql_file("w", "x", "SELECT 1");
    nameless.stem = None;
    nameless.path = "w/.sql".to_string();
    match get_dependencies(&vec![nameless], "duckdb") {
        Err(error) => assert_eq!(error.to_string(), "Failed to get file stem: w/.sql"),
        Ok(_) => panic!("a nameless file was accepted"),
    }
}

#[test]
fn process_sql_file_records_and_replaces() {
    let mut dependencies = DependencyMap::new();
    let replaced = process_sql_file(
        "m",
        "m.sql",
        "SELECT * FROM a; SELECT * FROM b JOIN m ON true",
        "generic",
        None,
        None,
        &mut dependencies,
    )
    .unwrap();
    assert!(!replaced);
    let mut names = dependencies.get("m").unwrap().deps.to_vec();
    names.sort();
    assert_eq!(names, vec!["a".to_string(), "b".to_string()]);
    let replaced =
        process_sql_file("m", "n.sql", "SELECT 1", "generic", None, None, &mut dependencies).unwrap();
    assert!(replaced);
    assert!(dependencies.get("m").unwrap().deps.is_empty());
    let failed =
        process_sql_file("m", "o.sql", "SELEC", "generic", None, None, &mut dependencies);
    assert!(failed.is_err());
    assert_eq!(dependencies.get("m").unwrap().filename, "n.sql");
}

#[test]
fn the_same_units_get_the_same_order_however_they_were_recorded() {
    let contents = [
        ("zeta", "SELECT 1"),
        ("alpha", "SELECT * FROM zeta"),
        ("mid", "SELECT 2"),
        ("beta", "SELECT * FROM mid JOIN zeta ON true JOIN outside ON true"),
        ("solo", "SELECT 3"),
    ];
    let forward: Vec<SourceFile> = contents.iter().map(|(name, sql)| sql_file("w", name, sql)).collect();
    let backward: Vec<SourceFile> =
        contents.iter().rev().map(|(name, sql)| sql_file("elsewhere", name, sql)).collect();
    let first = get_dependencies(&forward, "duckdb").unwrap();
    let second = get_dependencies(&backward, "duckdb").unwrap();
    assert_ne!(first.keys(), second.keys());
    let order = get_execution_order(&first).unwrap();
    assert_eq!(order, get_execution_order(&second).unwrap());
    let position = |name: &str| order.iter().position(|n| n == name).unwrap();
    assert!(position("zeta") < position("alpha"));
    assert!(position("zeta") < position("beta"));
    assert!(position("mid") < position("beta"));
    let mut names = order.clone();
    names.sort();
    assert_eq!(names, vec!["alpha", "beta", "mid", "solo", "zeta"]);
    assert_eq!(crabwalk::names::sorted(&first.keys()), names);
    assert_eq!(crabwalk::names::sorted(&vec!["b".to_string(), "".to_string(), "ab".to_string(), "a".to_string(), "B".to_string(), "\u{e9}".to_string()]), vec!["", "B", "a", "ab", "b", "\u{e9}"]);
    assert!(crabwalk::text::less("a", "ab"));
    assert!(!crabwalk::text::less("ab", "a"));
    assert!(!crabwalk::text::less("a", "a"));
    assert!(crabwalk::text::less("", "a"));
}
