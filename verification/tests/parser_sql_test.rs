use crabwalk::parser::sql::{extract_tables, parse_sql};

#[test]
fn test_parse_simple_sql() {
    let sql = "SELECT * FROM test_table";
    let result = parse_sql(sql, "duckdb", None);
    assert!(result.is_ok(), "Failed to parse simple SQL");
    let statements = result.unwrap();
    assert_eq!(statements.len(), 1, "Should parse into exactly one statement");
}

#[test]
fn test_extract_tables_from_simple_select() {
    let sql = "SELECT * FROM test_table";
    let statements = parse_sql(sql, "duckdb", None).unwrap();
    let tables = extract_tables(&statements[0]);
    assert_eq!(tables.len(), 1, "Should extract exactly one table");
    assert!(tables.contains(&"test_table".to_string()), "Extracted table name should match");
}

#[test]
fn test_extract_tables_from_join() {
    let sql = "SELECT a.*, b.* FROM table_a a JOIN table_b b ON a.id = b.id";
    let statements = parse_sql(sql, "duckdb", None).unwrap();
    let tables = extract_tables(&statements[0]);
    assert_eq!(tables.len(), 2, "Should extract exactly two tables");
    assert!(tables.contains(&"table_a".to_string()), "Should extract table_a");
    assert!(tables.contains(&"table_b".to_string()), "Should extract table_b");
}

#[test]
fn test_parse_complex_sql() {
    let sql = "
        WITH cte_name AS (
            SELECT a.id, b.name 
            FROM table_a a 
            LEFT JOIN table_b b ON a.id = b.id
            WHERE a.value > 10
            GROUP BY a.id, b.name
            HAVING COUNT(*) > 1
            ORDER BY a.id DESC
            LIMIT 100
        )
        SELECT c.*, d.value
        FROM cte_name c
        INNER JOIN table_d d ON c.id = d.id
        UNION ALL
        SELECT e.*, NULL as value
        FROM table_e e
        WHERE e.status = 'active'
    ";

    let result = parse_sql(sql, "duckdb", None);
    assert!(result.is_ok(), "Failed to parse complex SQL");
}

#[test]
fn test_extract_tables_from_complex_sql() {
    let sql = "
        WITH cte_name AS (
            SELECT a.id, b.name 
            FROM table_a a 
            LEFT JOIN table_b b ON a.id = b.id
            WHERE a.value > 10
        )
        SELECT c.*, d.value
        FROM cte_name c
        INNER JOIN table_d d ON c.id = d.id
        UNION ALL
        SELECT e.*, NULL as value
        FROM table_e e
        WHERE e.status = 'active'
    ";

    let statements = parse_sql(sql, "duckdb", None).unwrap();
    let tables = extract_tables(&statements[0]);

    assert!(!tables.is_empty(), "Should extract at least one table");
    println!("Tables found: {:?}", tables);
}

#[test]
fn extract_tables_reads_every_part_of_a_query() {
    let sql = "
        WITH recent AS (SELECT * FROM raw.events e JOIN \"Big Table\" b ON e.id = b.id)
        SELECT * FROM recent r JOIN (SELECT * FROM inner_one) s ON r.id = s.id
        UNION ALL
        SELECT * FROM (other_a a CROSS JOIN other_b b)
        EXCEPT
        (SELECT * FROM last_one)
    ";
    let statements = parse_sql(sql, "generic", None).unwrap();
    assert_eq!(statements.len(), 1);
    let tables = extract_tables(&statements[0]);
    let mut names = tables.to_vec();
    names.sort();
    assert_eq!(
        names,
        vec![
            "\"Big Table\"".to_string(),
            "inner_one".to_string(),
            "last_one".to_string(),
            "other_a".to_string(),
            "other_b".to_string(),
            "raw.events".to_string(),
            "recent".to_string(),
        ]
    );
}

fn sorted_tables(sql: &str, dialect: &str) -> Vec<String> {
    let statements = parse_sql(sql, dialect, None).unwrap();
    let mut names: Vec<String> =
        statements.iter().flat_map(|statement| extract_tables(statement).to_vec()).collect();
    names.sort();
    names.dedup();
    names
}

#[test]
fn extraction_gives_the_same_set_each_time_and_in_any_order() {
    let sql = "SELECT * FROM a JOIN b ON a.id = b.id JOIN (SELECT * FROM c) s ON true UNION SELECT * FROM d, e";
    let statements = parse_sql(sql, "duckdb", None).unwrap();
    let first = extract_tables(&statements[0]).to_vec();
    let second = extract_tables(&statements[0]).to_vec();
    assert_eq!(first, second);
    let swapped = "SELECT * FROM e, d UNION SELECT * FROM (SELECT * FROM c) s JOIN b ON true JOIN a ON a.id = b.id";
    assert_eq!(sorted_tables(sql, "duckdb"), sorted_tables(swapped, "duckdb"));
    assert_eq!(
        sorted_tables(sql, "duckdb"),
        vec!["a".to_string(), "b".to_string(), "c".to_string(), "d".to_string(), "e".to_string()]
    );
    assert_eq!(sorted_tables(sql, "duckdb"), sorted_tables(sql, "generic"));
}

#[test]
fn a_statement_written_back_reads_the_same_tables() {
    let crabwalk = crabwalk::Crabwalk::new(
        "db".to_string(),
        "w".to_string(),
        "duckdb".to_string(),
        "s".to_string(),
        None,
        None,
    );
    let sql = "with  x as (select * from raw.a)\nselect *\nfrom x join \"B\" on true; select 1 from c";
    let actions = crabwalk.run_sql_query(sql, "m", None, None).unwrap();
    let prefix = "CREATE OR REPLACE TABLE s.m AS ";
    let written: Vec<String> = actions
        .iter()
        .map(|action| match action {
            crabwalk::executor::output::Action::Execute(text) => text[prefix.len()..].to_string(),
            other => panic!("unexpected {:?}", other),
        })
        .collect();
    assert_eq!(written.len(), 2);
    assert_eq!(written[0], "WITH x AS (SELECT * FROM raw.a) SELECT * FROM x JOIN \"B\" ON true");
    assert_eq!(sorted_tables(&written.join("; "), "duckdb"), sorted_tables(sql, "duckdb"));
    assert_eq!(
        sorted_tables(sql, "duckdb"),
        vec!["\"B\"".to_string(), "c".to_string(), "raw.a".to_string(), "x".to_string()]
    );
}

#[test]
fn statements_that_are_no_queries_read_nothing() {
    let statements = parse_sql(
        "CREATE TABLE t AS SELECT * FROM a; INSERT INTO t SELECT * FROM b; DROP TABLE t; VALUES (1)",
        "generic",
        None,
    )
    .unwrap();
    assert_eq!(statements.len(), 4);
    for statement in &statements[..3] {
        assert!(extract_tables(statement).is_empty());
        assert!(!crabwalk::parser::sql::is_select_tree(statement));
    }
    assert!(extract_tables(&statements[3]).is_empty());
    assert!(parse_sql("", "duckdb", None).unwrap().is_empty());
}

#[test]
fn a_common_table_expression_does_not_read_itself() {
    let inside = "WITH RECURSIVE r AS (SELECT 1 UNION ALL SELECT * FROM r JOIN base ON true) SELECT 1 FROM other";
    assert_eq!(sorted_tables(inside, "duckdb"), vec!["base".to_string(), "other".to_string()]);
    let outside = "WITH RECURSIVE r AS (SELECT 1 UNION ALL SELECT * FROM r JOIN base ON true) SELECT * FROM r";
    assert_eq!(sorted_tables(outside, "duckdb"), vec!["base".to_string(), "r".to_string()]);
    let chained = "WITH a AS (SELECT * FROM b), b AS (SELECT * FROM a JOIN b ON true) SELECT 1";
    assert_eq!(sorted_tables(chained, "generic"), vec!["a".to_string(), "b".to_string()]);
}

#[test]
fn a_quoted_common_table_expression_does_not_read_itself() {
    let sql = "WITH RECURSIVE \"My Cte\" AS (SELECT 1 UNION ALL SELECT * FROM \"My Cte\" JOIN base ON true) SELECT 1 FROM other";
    assert_eq!(sorted_tables(sql, "duckdb"), vec!["base".to_string(), "other".to_string()]);
    let unquoted = "WITH RECURSIVE r AS (SELECT * FROM \"r\" JOIN base ON true) SELECT 1";
    assert_eq!(sorted_tables(unquoted, "generic"), vec!["\"r\"".to_string(), "base".to_string()]);
}
