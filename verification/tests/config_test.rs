use crabwalk::config::{ModelConfig, OutputConfig, OutputType};
use crabwalk::parser::config::{config_directives, merge_model_configs};
use std::str::FromStr;

/// Reads one directive as the configuration of a model, or as nothing
/// where it is no such configuration.
fn read_directive(text: &str) -> Option<ModelConfig> {
    let value: serde_yaml::Value = serde_yaml::from_str(text).ok()?;
    let mapping = value.as_mapping()?;
    let output = match mapping.get("output") {
        None => None,
        Some(serde_yaml::Value::Null) => None,
        Some(output) => {
            let output = output.as_mapping()?;
            let output_type = match output.get("type").or(output.get("output_type")) {
                Some(name) => OutputType::from_str(name.as_str()?).ok().filter(|_| {
                    name.as_str().map(|n| n == n.to_lowercase()).unwrap_or(false)
                })?,
                None => OutputType::default(),
            };
            let location = match output.get("location") {
                None | Some(serde_yaml::Value::Null) => None,
                Some(location) => Some(location.as_str()?.to_string()),
            };
            let keep_table = match output.get("keep_table") {
                None => false,
                Some(keep) => keep.as_bool()?,
            };
            Some(OutputConfig::new(output_type, location, keep_table))
        }
    };
    Some(ModelConfig { output })
}

fn extract_config_from_sql(sql: &str) -> Result<Option<ModelConfig>, String> {
    let directives = config_directives(sql).map_err(|error| error.message)?;
    let read: Vec<Option<ModelConfig>> = directives.iter().map(|text| read_directive(text)).collect();
    Ok(merge_model_configs(&read))
}

#[test]
fn test_output_type_default() {
    // Default value should be Table
    let output_config = OutputConfig::default();
    assert!(matches!(output_config.output_type, OutputType::Table), "Default output type should be Table");
}

#[test]
fn test_model_config_default() {
    // Default ModelConfig should have None for output
    let model_config = ModelConfig::default();
    assert!(model_config.output.is_none(), "Default model config should have None for output");
}

#[test]
fn test_extract_config_from_sql_empty() {
    let sql = "SELECT * FROM test";
    let config = extract_config_from_sql(sql).unwrap();
    assert!(config.is_none(), "SQL without config comment should return None");
}

#[test]
fn test_extract_config_from_sql_with_config() {
    let sql = "-- @config: {output: {type: \"view\"}}\nSELECT * FROM test";
    let config = extract_config_from_sql(sql).unwrap();

    assert!(config.is_some(), "SQL with config comment should parse successfully");

    let model_config = config.unwrap();
    assert!(model_config.output.is_some(), "Config should contain output section");

    let output_config = model_config.output.unwrap();
    assert!(matches!(output_config.output_type, OutputType::View), "Output type should be View");
    assert!(output_config.location.is_none(), "Location should be None");
}

#[test]
fn test_extract_config_with_location() {
    let sql = "-- @config: {output: {type: \"parquet\", location: \"./output/test.parquet\"}}\nSELECT * FROM test";
    let config = extract_config_from_sql(sql).unwrap();

    assert!(config.is_some(), "SQL with config comment should parse successfully");

    let model_config = config.unwrap();
    assert!(model_config.output.is_some(), "Config should contain output section");

    let output_config = model_config.output.unwrap();
    assert!(matches!(output_config.output_type, OutputType::Parquet), "Output type should be Parquet");
    assert_eq!(output_config.location, Some("./output/test.parquet".to_string()), "Location should match");
}

#[test]
fn test_extract_config_with_multiple_comments() {
    let sql = "-- This is a normal comment\n-- @config: {output: {type: \"csv\"}}\n-- Another normal comment\nSELECT * FROM test";
    let config = extract_config_from_sql(sql).unwrap();

    assert!(config.is_some(), "SQL with config comment should parse successfully");

    let model_config = config.unwrap();
    assert!(model_config.output.is_some(), "Config should contain output section");

    let output_config = model_config.output.unwrap();
    assert!(matches!(output_config.output_type, OutputType::Csv), "Output type should be CSV");
}

#[test]
fn test_extract_config_invalid_json() {
    let sql = "-- @config: {output: {type: \"view\", invalid_json}\nSELECT * FROM test";
    let config = extract_config_from_sql(sql).unwrap();

    assert!(config.is_none(), "Invalid JSON should return None");
}

#[test]
fn test_extract_config_invalid_structure() {
    let sql = "-- @config: {other_field: \"value\"}\nSELECT * FROM test";
    let config = extract_config_from_sql(sql).unwrap();

    assert!(config.is_some(), "Valid JSON with invalid structure should parse");
    let model_config = config.unwrap();
    assert!(model_config.output.is_none(), "Output field should be None for invalid structure");
}

#[test]
fn directives_are_found_line_by_line() {
    let sql = "  --   @config:   first one  \r\nSELECT 1 -- @config: not at the start\n--@config:second\n-- @config:\n-- @config: last";
    let found = config_directives(sql).unwrap();
    assert_eq!(found, vec!["first one  ".to_string(), "second".to_string(), "last".to_string()]);
    assert!(config_directives("").unwrap().is_empty());
    assert!(config_directives("\n\n").unwrap().is_empty());
    assert_eq!(config_directives("-- @config: a\r").unwrap(), vec!["a\r".to_string()]);
}

#[test]
fn the_last_directive_with_an_output_decides() {
    let view = ModelConfig { output: Some(OutputConfig::new(OutputType::View, None, false)) };
    let csv = ModelConfig {
        output: Some(OutputConfig::new(OutputType::Csv, Some("x.csv".to_string()), true)),
    };
    let bare = ModelConfig { output: None };
    assert!(merge_model_configs(&vec![]).is_none());
    assert!(merge_model_configs(&vec![None, None]).is_none());
    let merged = merge_model_configs(&vec![Some(view.clone()), None, Some(csv), Some(bare.clone())]);
    let output = merged.unwrap().output.unwrap();
    assert_eq!(output.output_type, OutputType::Csv);
    assert_eq!(output.location, Some("x.csv".to_string()));
    assert!(output.keep_table);
    let merged = merge_model_configs(&vec![None, Some(bare)]);
    assert!(merged.unwrap().output.is_none());
    let merged = merge_model_configs(&vec![Some(view)]);
    assert_eq!(merged.unwrap().output.unwrap().output_type, OutputType::View);
}

#[test]
fn output_types_have_names() {
    let all = [
        (OutputType::Table, "table"),
        (OutputType::View, "view"),
        (OutputType::Parquet, "parquet"),
        (OutputType::Csv, "csv"),
        (OutputType::Json, "json"),
    ];
    for (output_type, name) in all {
        assert_eq!(output_type.to_string(), name);
        assert_eq!(OutputType::parse(name), Ok(output_type));
        assert_eq!(OutputType::parse(&name.to_uppercase()), Ok(output_type));
        assert_eq!(OutputType::from_str(name), Ok(output_type));
    }
    assert_eq!(OutputType::parse("Parquet"), Ok(OutputType::Parquet));
    assert_eq!(OutputType::parse("excel"), Err("Unknown output type: excel".to_string()));
    assert_eq!(OutputType::parse(""), Err("Unknown output type: ".to_string()));
    assert_eq!(OutputType::default(), OutputType::Table);
}

#[test]
fn output_config_is_updated_from_another() {
    let mut config = OutputConfig::new(OutputType::Table, Some("here".to_string()), false);
    config.update_from(&OutputConfig::new(OutputType::Json, None, true));
    assert_eq!(config.output_type, OutputType::Json);
    assert_eq!(config.location, Some("here".to_string()));
    assert!(config.keep_table);
    config.update_from(&OutputConfig::new(OutputType::Csv, Some("there".to_string()), false));
    assert_eq!(config.output_type, OutputType::Csv);
    assert_eq!(config.location, Some("there".to_string()));
    assert!(!config.keep_table);
    let copy = config.duplicate();
    assert_eq!(copy.location, config.location);
}

#[test]
fn locations_are_filled_in() {
    let config = OutputConfig::new(
        OutputType::Parquet,
        Some("./out/{table_name}/{table_name}.parquet".to_string()),
        false,
    );
    assert_eq!(config.get_location("orders"), Some("./out/orders/orders.parquet".to_string()));
    let plain = OutputConfig::new(OutputType::Parquet, Some("./fixed.parquet".to_string()), false);
    assert_eq!(plain.get_location("orders"), Some("./fixed.parquet".to_string()));
    let odd = OutputConfig::new(OutputType::Csv, Some("{table_name{table_name}}".to_string()), false);
    assert_eq!(odd.get_location("{table_name}"), Some("{table_name{table_name}}".to_string()));
    assert_eq!(OutputConfig::default().get_location("orders"), None);
    assert_eq!(config.default_location("orders"), "./output/orders.parquet");
    assert_eq!(OutputConfig::new(OutputType::Csv, None, false).default_location("t"), "./output/t.csv");
    assert_eq!(OutputConfig::new(OutputType::Json, None, false).default_location("t"), "./output/t.json");
    assert_eq!(OutputConfig::new(OutputType::Table, None, false).default_location("t"), "");
    assert_eq!(OutputConfig::new(OutputType::View, None, false).default_location("t"), "");
}
