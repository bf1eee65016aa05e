use crabwalk::names::NameSet;
use crabwalk::parser::dependencies::{Dependency, DependencyMap};
use crabwalk::parser::lineage::{encode_mermaid_diagram, generate_mermaid_diagram};
use std::io::Read;

fn unit(filename: &str, deps: &[&str]) -> Dependency {
    let mut set = NameSet::new();
    for name in deps {
        set.insert(name.to_string());
    }
    Dependency { deps: set, filename: filename.to_string(), config: None }
}

#[test]
fn test_encode_mermaid_diagram() {
    let diagram = "graph TD\n    A --> B";
    let result = encode_mermaid_diagram(diagram);

    assert!(result.is_ok(), "Should encode diagram without error");
    let encoded = result.unwrap();

    assert!(!encoded.is_empty(), "Encoded diagram should not be empty");
}

#[test]
fn an_encoded_diagram_decodes_to_the_editor_state() {
    let diagram = "graph TD\n    \"a\" --> b\\c";
    let encoded = encode_mermaid_diagram(diagram).unwrap();
    let compressed =
        base64::Engine::decode(&base64::engine::general_purpose::URL_SAFE, encoded.as_bytes()).unwrap();
    let mut state = String::new();
    flate2::read::ZlibDecoder::new(&compressed[..]).read_to_string(&mut state).unwrap();
    assert_eq!(
        state,
        "{\"autoSync\":true,\"code\":\"graph TD\\n    \\\"a\\\" --> b\\\\c\",\"mermaid\":{\"theme\":\"default\"},\"updateDiagram\":true}"
    );
    let value: serde_json::Value = serde_json::from_str(&state).unwrap();
    assert_eq!(value["code"].as_str(), Some(diagram));
    assert_eq!(encode_mermaid_diagram(diagram).unwrap(), encoded);
}

fn state_of(diagram: &str) -> String {
    let encoded = encode_mermaid_diagram(diagram).unwrap();
    assert!(encoded.len() % 4 == 0);
    assert!(encoded.chars().all(|c| c.is_ascii_alphanumeric() || c == '-' || c == '_' || c == '='));
    let compressed =
        base64::Engine::decode(&base64::engine::general_purpose::URL_SAFE, encoded.as_bytes()).unwrap();
    let mut state = String::new();
    flate2::read::ZlibDecoder::new(&compressed[..]).read_to_string(&mut state).unwrap();
    state
}

#[test]
fn every_character_of_a_diagram_is_written_as_json() {
    let state = state_of("a\u{1}b\tc\u{8}d\u{c}e\rf\u{1f}g\u{7f}h\u{e9}/");
    assert_eq!(
        state,
        "{\"autoSync\":true,\"code\":\"a\\u0001b\\tc\\bd\\fe\\rf\\u001fg\u{7f}h\u{e9}/\",\"mermaid\":{\"theme\":\"default\"},\"updateDiagram\":true}"
    );
    assert_eq!(state_of(""), "{\"autoSync\":true,\"code\":\"\",\"mermaid\":{\"theme\":\"default\"},\"updateDiagram\":true}");
}

#[test]
fn test_generate_mermaid_diagram_empty() {
    let dependencies = DependencyMap::new();

    let content = generate_mermaid_diagram(&dependencies);
    assert!(content.contains("graph TD"), "Diagram should have correct header");
    assert_eq!(content, "graph TD\n");
}

#[test]
fn test_generate_mermaid_diagram_simple() {
    let mut dependencies = DependencyMap::new();

    dependencies.insert("source".to_string(), unit("source.sql", &[]));
    dependencies.insert("target".to_string(), unit("target.sql", &["source"]));

    let content = generate_mermaid_diagram(&dependencies);

    assert!(content.contains("source"), "Diagram should contain source node");
    assert!(content.contains("target"), "Diagram should contain target node");
    assert!(content.contains("source --> target"), "Diagram should contain the edge");
    assert_eq!(content, "graph TD\n    source\n    target\n    source --> target\n");
}

#[test]
fn test_generate_mermaid_diagram_complex() {
    let mut dependencies = DependencyMap::new();

    for name in &["source1", "source2"] {
        dependencies.insert(name.to_string(), unit(&format!("{}.sql", name), &[]));
    }

    dependencies.insert("intermediate".to_string(), unit("intermediate.sql", &["source1", "source2"]));
    dependencies.insert("final".to_string(), unit("final.sql", &["intermediate"]));

    let content = generate_mermaid_diagram(&dependencies);

    for node in &["source1", "source2", "intermediate", "final"] {
        assert!(content.contains(node), "Diagram should contain {} node", node);
    }

    assert!(content.contains("source1 --> intermediate"), "Diagram should contain edge from source1 to intermediate");
    assert!(content.contains("source2 --> intermediate"), "Diagram should contain edge from source2 to intermediate");
    assert!(content.contains("intermediate --> final"), "Diagram should contain edge from intermediate to final");
}

#[test]
fn a_diagram_has_no_edge_from_an_unknown_table() {
    let mut dependencies = DependencyMap::new();
    dependencies.insert("report".to_string(), unit("report.sql", &["raw.events", "clean", "report"]));
    dependencies.insert("clean".to_string(), unit("clean.sql", &["raw.events"]));
    let content = generate_mermaid_diagram(&dependencies);
    assert_eq!(
        content,
        "graph TD\n    report\n    clean\n    clean --> report\n    report --> report\n"
    );
}

#[test]
fn the_editor_address_carries_the_encoded_diagram() {
    let diagram = "graph TD\n    a --> b\n";
    let url = crabwalk::parser::lineage::mermaid_live_url(diagram).unwrap();
    assert_eq!(url, format!("https://mermaid.live/edit#pako:{}", encode_mermaid_diagram(diagram).unwrap()));
}
