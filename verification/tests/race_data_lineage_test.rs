use crabwalk::parser::dependencies::{
    get_dependencies, get_execution_order, DependencyMap, SourceFile,
};
use crabwalk::parser::lineage::generate_mermaid_diagram;
use crabwalk::Crabwalk;

fn race_file(name: &str, contents: &str) -> SourceFile {
    SourceFile {
        path: format!("examples/race_data/{}.sql", name),
        stem: Some(name.to_string()),
        extension: Some("sql".to_string()),
        contents: contents.to_string(),
        native_ast: None,
        config: None,
    }
}

fn race_data() -> Vec<SourceFile> {
    vec![
        race_file("driver_fact", "SELECT driver, count(*) AS races FROM transform.races GROUP BY driver"),
        race_file("race_summary", "SELECT race_name, count(*) AS n FROM transform.races GROUP BY race_name"),
        race_file("races", "SELECT * FROM read_csv_auto('races.csv')"),
        race_file("sample_parquet", "-- @config: {output: {type: \"parquet\"}}\nSELECT * FROM races LIMIT 10"),
    ]
}

#[test]
fn test_race_data_lineage() {
    let dialect = "duckdb";
    let dependencies_result = get_dependencies(&race_data(), dialect);
    assert!(dependencies_result.is_ok(), "Should extract dependencies without error");

    let dependencies = dependencies_result.unwrap();

    let expected_models = vec!["races", "race_summary", "driver_fact", "sample_parquet"];

    for model in &expected_models {
        assert!(dependencies.contains_key(*model), "Dependencies should include model: {}", model);
    }

    verify_race_dependency(&dependencies, "race_summary", "transform.races");
    verify_race_dependency(&dependencies, "driver_fact", "transform.races");
    verify_race_dependency(&dependencies, "sample_parquet", "races");

    let lineage_content = generate_mermaid_diagram(&dependencies);

    assert!(lineage_content.contains("graph TD"), "Diagram should have the correct header");

    for model in &expected_models {
        assert!(lineage_content.contains(model), "Diagram should contain node: {}", model);
    }
    assert!(lineage_content.contains("races --> sample_parquet"));
    assert_eq!(
        lineage_content,
        "graph TD\n    driver_fact\n    race_summary\n    races\n    sample_parquet\n    races --> sample_parquet\n"
    );
}

#[test]
fn test_race_data_execution_order() {
    let dialect = "duckdb";
    let dependencies = get_dependencies(&race_data(), dialect).unwrap();

    let execution_order_result = get_execution_order(&dependencies);
    assert!(execution_order_result.is_ok(), "Should determine execution order without error");

    let execution_order = execution_order_result.unwrap();

    for model in &["races", "race_summary", "driver_fact", "sample_parquet"] {
        assert!(
            execution_order.contains(&model.to_string()),
            "Execution order should contain model: {}",
            model
        );
    }
    let races = execution_order.iter().position(|n| n == "races").unwrap();
    let sample = execution_order.iter().position(|n| n == "sample_parquet").unwrap();
    assert!(races < sample);
}

#[test]
fn test_race_data_force_mode() {
    let crabwalk = Crabwalk::new(
        "/tmp/test.db".to_string(),
        "examples/race_data".to_string(),
        "duckdb".to_string(),
        "transform".to_string(),
        None,
        None,
    );

    let plan = crabwalk.run_force(&race_data());

    assert_eq!(plan.units.len(), 4, "Force mode should plan every unit");
    assert!(plan.units.iter().all(|unit| unit.actions.is_ok()));
    assert!(plan.dependencies.is_some());
}

fn verify_race_dependency(dependencies: &DependencyMap, model: &str, dependency: &str) {
    if let Some(model_dep) = dependencies.get(model) {
        assert!(
            model_dep.deps.contains(dependency),
            "Model {} should depend on {}", model, dependency
        );
    } else {
        panic!("Model {} not found in dependencies", model);
    }
}
