use wings::aggregate::flatten;
use wings::loader::{join_results, load, FileOutcome};
use wings::metadata::{Metadata, TableMetadata};
use wings::pipeline::{schema_columns, TableLoadError};
use wings::reader::{read_path, DecodeError, FileSource};
use wings::row::Row;
use wings::sink::{LoadOutcome, SinkError};

fn row_of(pairs: &[(&str, &str)]) -> Row {
    let mut row = Row::new();
    for (name, value) in pairs {
        row.insert(name.to_string(), value.to_string());
    }
    row
}

fn cells_of(row: &Row) -> Vec<(String, String)> {
    let mut out = Vec::new();
    for i in 0..row.len() {
        out.push((row.column_at(i), row.value_at(i)));
    }
    out
}

fn file(path: &str, text: &str) -> FileSource {
    FileSource {
        path: path.to_string(),
        extension: Some("csv".to_string()),
        is_file: true,
        contents: text.as_bytes().to_vec(),
    }
}

fn files() -> Vec<FileSource> {
    vec![
        file("data/a.csv", "id,name\n1,Alice\n2,Bob\n"),
        file("data/b.csv", "id,name\n3,Carol\n"),
        file("data/c.csv", "id\n4\n"),
    ]
}

fn table() -> TableMetadata {
    TableMetadata {
        metadata: Metadata {
            name: "people".to_string(),
            format: "csv".to_string(),
            data_path: "data".to_string(),
        },
        schema: row_of(&[("id", "int"), ("name", "text")]),
    }
}

fn side_by_side(files: &[FileSource], format: &str) -> Vec<FileOutcome> {
    files
        .iter()
        .map(|f| FileOutcome { path: f.path.clone(), rows: read_path(f, &format.to_string()) })
        .collect()
}

#[test]
fn joined_outcomes_are_what_the_sequential_load_gives() {
    let sequential = load(files(), "csv".to_string()).ok().unwrap();
    let joined = join_results(side_by_side(&files(), "csv"), "csv".to_string()).ok().unwrap();
    let left: Vec<Vec<_>> = sequential.iter().map(|g| g.iter().map(cells_of).collect()).collect();
    let right: Vec<Vec<_>> = joined.iter().map(|g| g.iter().map(cells_of).collect()).collect();
    assert_eq!(left, right);
    assert_eq!(left.len(), 3);
    assert_eq!(left[0].len(), 2);
}

#[test]
fn outcomes_joined_in_another_order_hold_the_same_rows() {
    let mut reordered = side_by_side(&files(), "csv");
    reordered.reverse();
    let mut one: Vec<_> = flatten(load(files(), "csv".to_string()).ok().unwrap())
        .iter()
        .map(cells_of)
        .collect();
    let mut other: Vec<_> = flatten(join_results(reordered, "csv".to_string()).ok().unwrap())
        .iter()
        .map(cells_of)
        .collect();
    one.sort();
    other.sort();
    assert_eq!(one, other);
    assert_eq!(one.len(), 4);
}

#[test]
fn join_reports_the_first_failure_in_scan_order() {
    let outcomes = vec![
        FileOutcome { path: "a".to_string(), rows: Ok(vec![row_of(&[("id", "1")])]) },
        FileOutcome { path: "b".to_string(), rows: Err(DecodeError::Avro) },
        FileOutcome { path: "c".to_string(), rows: Ok(Vec::new()) },
        FileOutcome { path: "d".to_string(), rows: Err(DecodeError::Csv) },
    ];
    match join_results(outcomes, "avro".to_string()) {
        Ok(_) => panic!("a failure was joined"),
        Err(error) => {
            assert_eq!(error.index, 1);
            assert_eq!(error.path, "b");
            assert_eq!(error.format, "avro");
            assert_eq!(error.cause, DecodeError::Avro);
        }
    }
}

#[test]
fn join_of_nothing_is_no_group() {
    assert!(join_results(Vec::new(), "csv".to_string()).ok().unwrap().is_empty());
}

#[test]
fn schema_columns_are_the_schema_s_names_in_order() {
    assert_eq!(schema_columns(&table()), vec!["id".to_string(), "name".to_string()]);
}

#[test]
fn a_table_is_loaded_from_its_files() {
    match wings::pipeline::load(&table(), true, files(), 3) {
        Ok(LoadOutcome::Insert(plan)) => {
            assert_eq!(plan.statement, "INSERT INTO people (id,name) VALUES (:id,:name)");
            assert_eq!(plan.skipped, 1);
            let sizes: Vec<usize> = plan.batches.iter().map(|b| b.len()).collect();
            assert_eq!(sizes, vec![3]);
            assert_eq!(plan.batches[0][2][1].value, "Carol");
        }
        _ => panic!("nothing was planned"),
    }
}

#[test]
fn a_table_without_rows_has_nothing_to_load() {
    let outcome = wings::pipeline::load(&table(), false, Vec::new(), 3);
    assert!(matches!(outcome, Ok(LoadOutcome::NoRows)));
    let outcome = wings::pipeline::load(&table(), true, vec![file("data/a.csv", "id,name\n")], 3);
    assert!(matches!(outcome, Ok(LoadOutcome::NoRows)));
}

#[test]
fn a_file_that_fails_ends_the_load_of_the_table() {
    let mut all = files();
    all.push(file("data/bad.csv", "id,name\n1\n"));
    match wings::pipeline::load(&table(), true, all, 3) {
        Err(TableLoadError::Decode(error)) => {
            assert_eq!(error.index, 3);
            assert_eq!(error.path, "data/bad.csv");
            assert_eq!(error.cause, DecodeError::Csv);
        }
        _ => panic!("the failure was passed over"),
    }
}

#[test]
fn a_table_that_is_absent_ends_the_load() {
    let outcome = wings::pipeline::load(&table(), false, files(), 3);
    assert!(matches!(outcome, Err(TableLoadError::Sink(SinkError::TableAbsent))));
    let outcome = wings::pipeline::load(&table(), true, files(), 0);
    assert!(matches!(outcome, Err(TableLoadError::Sink(SinkError::EmptyBatch))));
}
