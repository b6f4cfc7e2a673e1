use ccsplit::db::{rows_from_matches, begin_sql, create_table_sql, end_sql, insert_row_sql, named_columns, pragma_sql, ImportPlan};

#[test]
fn plan_sql_statements() {
    let plan = match ImportPlan::new("server", r"(?P<date>\S+) (\d+) (?P<level>\w+) (?P<msg>.*)") {
        Ok(p) => p,
        Err(_) => panic!("plan"),
    };
    assert_eq!(plan.table(), "server");
    assert_eq!(plan.columns(), &vec!["date".to_string(), "level".to_string(), "msg".to_string()]);
    assert_eq!(
        plan.create_statement(),
        "DROP TABLE IF EXISTS server;CREATE TABLE server (line_no INTEGER PRIMARY KEY, date STRING, level STRING, msg STRING);"
    );
    assert_eq!(
        plan.insert_statement(),
        "INSERT INTO server (date, level, msg) VALUES (?, ?, ?)"
    );
}

#[test]
fn plan_rows_per_match() {
    let plan = match ImportPlan::new("t", r"(?P<k>[a-z]+)=(?P<v>\d+)?;") {
        Ok(p) => p,
        Err(_) => panic!("plan"),
    };
    let rows = plan.rows("a=1; b=; junk c=33;\nd=4;");
    assert_eq!(
        rows,
        vec![
            vec!["a".to_string(), "1".to_string()],
            vec!["b".to_string(), "".to_string()],
            vec!["c".to_string(), "33".to_string()],
            vec!["d".to_string(), "4".to_string()],
        ]
    );
    assert!(plan.rows("").is_empty());
}

#[test]
fn plan_without_named_groups() {
    let plan = match ImportPlan::new("bare", r"(\d+)") {
        Ok(p) => p,
        Err(_) => panic!("plan"),
    };
    assert_eq!(
        plan.create_statement(),
        "DROP TABLE IF EXISTS bare;CREATE TABLE bare (line_no INTEGER PRIMARY KEY);"
    );
    assert_eq!(plan.insert_statement(), "INSERT INTO bare () VALUES ()");
    assert_eq!(plan.rows("1 2"), vec![Vec::<String>::new(), Vec::new()]);
}

#[test]
fn plan_refuses_bad_pattern() {
    assert!(ImportPlan::new("t", "(?P<a>x").is_err());
}

#[test]
fn sql_builders() {
    let cols = vec!["a".to_string(), "b".to_string()];
    assert_eq!(
        create_table_sql("x", &cols),
        "DROP TABLE IF EXISTS x;CREATE TABLE x (line_no INTEGER PRIMARY KEY, a STRING, b STRING);"
    );
    assert_eq!(insert_row_sql("x", &cols), "INSERT INTO x (a, b) VALUES (?, ?)");
    let names = vec![None, Some("a".to_string()), None, Some("b".to_string())];
    let (c, g) = named_columns(&names);
    assert_eq!(c, cols);
    assert_eq!(g, vec![1, 3]);
    assert_eq!(pragma_sql(), "PRAGMA synchronous = OFF;PRAGMA journal_mode = OFF;");
    assert_eq!(begin_sql(), "BEGIN TRANSACTION;");
    assert_eq!(end_sql(), "END TRANSACTION;");
}

#[test]
fn rows_from_given_matches() {
    let matches = vec![
        vec![Some("a=1".to_string()), Some("a".to_string()), Some("1".to_string())],
        vec![Some("b=".to_string()), Some("b".to_string()), None],
    ];
    assert_eq!(
        rows_from_matches(&vec![2, 1, 7], &matches),
        vec![
            vec!["1".to_string(), "a".to_string(), "".to_string()],
            vec!["".to_string(), "b".to_string(), "".to_string()],
        ]
    );
    assert!(rows_from_matches(&vec![1], &Vec::new()).is_empty());
}
