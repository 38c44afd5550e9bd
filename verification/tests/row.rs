use wings::avro_format::{avro_cell, row_from_fields, AvroField};
use wings::csv_format::{row_from_record, rows_from_csv};
use wings::row::{index_of, Row};
use wings::text::join;

fn text(value: &str) -> String {
    value.to_string()
}

fn texts(values: &[&str]) -> Vec<String> {
    values.iter().map(|v| v.to_string()).collect()
}

fn cells(row: &Row) -> Vec<(String, String)> {
    let mut out = Vec::new();
    for i in 0..row.len() {
        out.push((row.column_at(i), row.value_at(i)));
    }
    out
}

fn field(name: &str, is_text: bool, rendered: &str) -> AvroField {
    AvroField { name: text(name), is_text, rendered: text(rendered) }
}

#[test]
fn a_new_row_has_no_column() {
    let row = Row::new();
    assert_eq!(row.len(), 0);
    assert_eq!(row.get(&text("id")), None);
    assert!(!row.contains_key(&text("id")));
    assert_eq!(row.find(&text("id")), None);
}

#[test]
fn a_new_column_goes_to_the_end() {
    let mut row = Row::new();
    row.insert(text("b"), text("2"));
    row.insert(text("a"), text("1"));
    assert_eq!(cells(&row), vec![(text("b"), text("2")), (text("a"), text("1"))]);
    assert_eq!(row.find(&text("a")), Some(1));
    assert!(row.contains_key(&text("b")));
}

#[test]
fn a_column_that_is_there_keeps_its_place_and_takes_the_new_value() {
    let mut row = Row::new();
    row.insert(text("b"), text("2"));
    row.insert(text("a"), text("1"));
    row.insert(text("b"), text("3"));
    assert_eq!(cells(&row), vec![(text("b"), text("3")), (text("a"), text("1"))]);
    assert_eq!(row.get(&text("b")), Some(text("3")));
    assert_eq!(row.len(), 2);
}

#[test]
fn column_names_are_told_apart_by_every_character() {
    let mut row = Row::new();
    row.insert(text("id"), text("1"));
    row.insert(text("ID"), text("2"));
    row.insert(text("id "), text("3"));
    row.insert(text(""), text("4"));
    assert_eq!(row.len(), 4);
    assert_eq!(row.get(&text("")), Some(text("4")));
}

#[test]
fn a_copy_holds_the_same_cells() {
    let mut row = Row::new();
    row.insert(text("id"), text("1"));
    row.insert(text("name"), text("Alice"));
    let mut copy = row.duplicate();
    assert_eq!(cells(&copy), cells(&row));
    copy.insert(text("id"), text("9"));
    assert_eq!(row.get(&text("id")), Some(text("1")));
}

#[test]
fn index_of_finds_the_first_occurrence() {
    let names = texts(&["a", "b", "a"]);
    assert_eq!(index_of(&names, &text("a")), Some(0));
    assert_eq!(index_of(&names, &text("b")), Some(1));
    assert_eq!(index_of(&names, &text("c")), None);
    assert_eq!(index_of(&Vec::new(), &text("a")), None);
}

#[test]
fn join_puts_the_separator_between_each_two() {
    assert_eq!(join(&texts(&["a", "b", "c"]), ","), "a,b,c");
    assert_eq!(join(&texts(&["a"]), ","), "a");
    assert_eq!(join(&Vec::new(), ","), "");
    assert_eq!(join(&texts(&["", ""]), "--"), "--");
}

#[test]
fn a_record_is_zipped_against_the_header_by_place() {
    let row = row_from_record(&texts(&["id", "name"]), &texts(&["1", "Alice"]));
    assert_eq!(cells(&row), vec![(text("id"), text("1")), (text("name"), text("Alice"))]);
}

#[test]
fn a_record_pairs_only_the_fields_that_have_a_name() {
    let row = row_from_record(&texts(&["id"]), &texts(&["1", "Alice"]));
    assert_eq!(cells(&row), vec![(text("id"), text("1"))]);
    let row = row_from_record(&texts(&["id", "name"]), &texts(&["1"]));
    assert_eq!(cells(&row), vec![(text("id"), text("1"))]);
}

#[test]
fn a_record_that_leaves_no_column_gives_no_row() {
    let rows = rows_from_csv(&Vec::new(), &vec![texts(&["1"]), Vec::new()]);
    assert!(rows.is_empty());
    let rows = rows_from_csv(&texts(&["id"]), &vec![texts(&["1"]), Vec::new(), texts(&["2"])]);
    assert_eq!(rows.len(), 2);
    assert_eq!(rows[1].get(&text("id")), Some(text("2")));
}

#[test]
fn a_string_loses_its_first_and_last_character() {
    assert_eq!(avro_cell(true, &text("\"Alice\"")), "Alice");
    assert_eq!(avro_cell(true, &text("\"\"")), "");
    assert_eq!(avro_cell(true, &text("\"")), "");
    assert_eq!(avro_cell(true, &text("")), "");
    assert_eq!(avro_cell(true, &text("\"é日\"")), "é日");
}

#[test]
fn another_value_stands_as_it_is_written() {
    assert_eq!(avro_cell(false, &text("12")), "12");
    assert_eq!(avro_cell(false, &text("null")), "null");
    assert_eq!(avro_cell(false, &text("[1,\"a\"]")), "[1,\"a\"]");
    assert_eq!(avro_cell(false, &text("")), "");
}

#[test]
fn the_members_of_an_entry_become_the_columns_of_a_row() {
    let row = row_from_fields(&vec![
        field("id", false, "1"),
        field("name", true, "\"Alice\""),
        field("id", false, "2"),
    ]);
    assert_eq!(cells(&row), vec![(text("id"), text("2")), (text("name"), text("Alice"))]);
    assert_eq!(row_from_fields(&Vec::new()).len(), 0);
}
