use wings::reader::{choose_decoder, read_path, wants_contents, DecodeError, Decoder, FileSource};
use wings::row::Row;

fn cells(row: &Row) -> Vec<(String, String)> {
    let mut out = Vec::new();
    for i in 0..row.len() {
        out.push((row.column_at(i), row.value_at(i)));
    }
    out
}

fn pair(name: &str, value: &str) -> (String, String) {
    (name.to_string(), value.to_string())
}

fn csv_file(text: &str) -> FileSource {
    FileSource {
        path: "data/people.csv".to_string(),
        extension: Some("csv".to_string()),
        is_file: true,
        contents: text.as_bytes().to_vec(),
    }
}

fn avro_file(contents: Vec<u8>) -> FileSource {
    FileSource {
        path: "data/people.avro".to_string(),
        extension: Some("avro".to_string()),
        is_file: true,
        contents,
    }
}

fn people_container() -> Vec<u8> {
    let schema = apache_avro::Schema::parse_str(
        r#"{"type":"record","name":"person","fields":[
            {"name":"id","type":"long"},
            {"name":"name","type":"string"},
            {"name":"nick","type":["null","string"]},
            {"name":"active","type":"boolean"}]}"#,
    )
    .unwrap();
    let mut writer = apache_avro::Writer::new(&schema, Vec::new()).unwrap();
    let mut first = apache_avro::types::Record::new(&schema).unwrap();
    first.put("id", 1i64);
    first.put("name", "Alice");
    first.put("nick", apache_avro::types::Value::Union(0, Box::new(apache_avro::types::Value::Null)));
    first.put("active", true);
    writer.append_value(first).unwrap();
    let mut second = apache_avro::types::Record::new(&schema).unwrap();
    second.put("id", 2i64);
    second.put("name", "Bo\"b");
    second.put(
        "nick",
        apache_avro::types::Value::Union(
            1,
            Box::new(apache_avro::types::Value::String("bobby".to_string())),
        ),
    );
    second.put("active", false);
    writer.append_value(second).unwrap();
    writer.into_inner().unwrap()
}

#[test]
fn csv_with_header_and_two_rows() {
    let rows = read_path(&csv_file("id,name\n1,Alice\n2,Bob\n"), &"csv".to_string()).unwrap();
    assert_eq!(rows.len(), 2);
    assert_eq!(cells(&rows[0]), vec![pair("id", "1"), pair("name", "Alice")]);
    assert_eq!(cells(&rows[1]), vec![pair("id", "2"), pair("name", "Bob")]);
}

#[test]
fn csv_gives_one_row_for_each_record() {
    let rows = read_path(&csv_file("a,b,c\n1,2,3\n4,5,6\n7,8,9\n,,\n"), &"csv".to_string())
        .unwrap();
    assert_eq!(rows.len(), 4);
    for row in &rows {
        assert!(row.len() >= 1);
        assert!(row.len() <= 3);
    }
    assert_eq!(cells(&rows[3]), vec![pair("a", ""), pair("b", ""), pair("c", "")]);
}

#[test]
fn csv_header_alone_gives_no_row() {
    let rows = read_path(&csv_file("id,name\n"), &"csv".to_string()).unwrap();
    assert!(rows.is_empty());
}

#[test]
fn csv_empty_file_gives_no_row() {
    let rows = read_path(&csv_file(""), &"csv".to_string()).unwrap();
    assert!(rows.is_empty());
}

#[test]
fn csv_repeated_header_name_keeps_the_later_field() {
    let rows = read_path(&csv_file("a,b,a\n1,2,3\n"), &"csv".to_string()).unwrap();
    assert_eq!(rows.len(), 1);
    assert_eq!(cells(&rows[0]), vec![pair("a", "3"), pair("b", "2")]);
}

#[test]
fn csv_quoted_field_keeps_its_comma() {
    let rows = read_path(&csv_file("id,name\n1,\"Smith, Al\"\n"), &"csv".to_string()).unwrap();
    assert_eq!(cells(&rows[0]), vec![pair("id", "1"), pair("name", "Smith, Al")]);
}

#[test]
fn csv_short_record_is_a_decode_error() {
    let outcome = read_path(&csv_file("id,name\n1,Alice\n2\n"), &"csv".to_string());
    assert_eq!(outcome.err(), Some(DecodeError::Csv));
}

#[test]
fn csv_long_record_is_a_decode_error() {
    let outcome = read_path(&csv_file("id,name\n1,Alice,x\n"), &"csv".to_string());
    assert_eq!(outcome.err(), Some(DecodeError::Csv));
}

#[test]
fn csv_bytes_that_are_no_text_are_a_decode_error() {
    let mut source = csv_file("id,name\n");
    source.contents.extend_from_slice(&[0xff, 0xfe, b',', b'x', b'\n']);
    let outcome = read_path(&source, &"csv".to_string());
    assert_eq!(outcome.err(), Some(DecodeError::Csv));
}

#[test]
fn a_directory_gives_no_row() {
    let mut source = csv_file("id,name\n1,Alice\n");
    source.is_file = false;
    assert!(read_path(&source, &"csv".to_string()).unwrap().is_empty());
}

#[test]
fn an_unknown_format_gives_no_row() {
    let source = csv_file("id,name\n1,Alice\n");
    assert!(read_path(&source, &"parquet".to_string()).unwrap().is_empty());
}

#[test]
fn another_extension_gives_no_row() {
    let mut source = csv_file("id,name\n1,Alice\n");
    source.extension = Some("txt".to_string());
    assert!(read_path(&source, &"csv".to_string()).unwrap().is_empty());
    source.extension = Some("avro".to_string());
    assert!(read_path(&source, &"csv".to_string()).unwrap().is_empty());
}

#[test]
fn a_file_without_extension_gives_no_row() {
    let mut source = csv_file("id,name\n1,Alice\n");
    source.extension = None;
    assert!(read_path(&source, &"csv".to_string()).unwrap().is_empty());
    assert!(read_path(&source, &"avro".to_string()).unwrap().is_empty());
}

#[test]
fn decoder_is_chosen_by_format_and_extension() {
    let csv = Some("csv".to_string());
    let avro = Some("avro".to_string());
    assert_eq!(choose_decoder(true, &csv, &"csv".to_string()), Some(Decoder::Csv));
    assert_eq!(choose_decoder(true, &avro, &"avro".to_string()), Some(Decoder::Avro));
    assert_eq!(choose_decoder(true, &csv, &"avro".to_string()), None);
    assert_eq!(choose_decoder(false, &csv, &"csv".to_string()), None);
    assert_eq!(choose_decoder(true, &None, &"csv".to_string()), None);
    assert_eq!(choose_decoder(true, &Some("CSV".to_string()), &"csv".to_string()), None);
    assert!(wants_contents(true, &csv, &"csv".to_string()));
    assert!(!wants_contents(true, &csv, &"json".to_string()));
    assert!(!wants_contents(false, &avro, &"avro".to_string()));
}

#[test]
fn avro_entries_become_rows_of_text() {
    let rows = read_path(&avro_file(people_container()), &"avro".to_string()).unwrap();
    assert_eq!(rows.len(), 2);
    assert_eq!(rows[0].get(&"id".to_string()), Some("1".to_string()));
    assert_eq!(rows[0].get(&"name".to_string()), Some("Alice".to_string()));
    assert_eq!(rows[0].get(&"nick".to_string()), Some("null".to_string()));
    assert_eq!(rows[0].get(&"active".to_string()), Some("true".to_string()));
    assert_eq!(rows[0].len(), 4);
    assert_eq!(rows[1].get(&"id".to_string()), Some("2".to_string()));
    assert_eq!(rows[1].get(&"nick".to_string()), Some("bobby".to_string()));
    assert_eq!(rows[1].get(&"active".to_string()), Some("false".to_string()));
}

#[test]
fn avro_string_loses_only_its_outer_quotes() {
    let rows = read_path(&avro_file(people_container()), &"avro".to_string()).unwrap();
    assert_eq!(rows[1].get(&"name".to_string()), Some("Bo\\\"b".to_string()));
}

#[test]
fn avro_without_a_header_is_a_decode_error() {
    let outcome = read_path(&avro_file(b"not a container".to_vec()), &"avro".to_string());
    assert_eq!(outcome.err(), Some(DecodeError::Avro));
    let outcome = read_path(&avro_file(Vec::new()), &"avro".to_string());
    assert_eq!(outcome.err(), Some(DecodeError::Avro));
}

#[test]
fn avro_cut_short_keeps_the_entries_before_the_cut() {
    let whole = people_container();
    let empty_schema = apache_avro::Schema::parse_str(
        r#"{"type":"record","name":"person","fields":[
            {"name":"id","type":"long"},
            {"name":"name","type":"string"},
            {"name":"nick","type":["null","string"]},
            {"name":"active","type":"boolean"}]}"#,
    )
    .unwrap();
    let header_only = apache_avro::Writer::new(&empty_schema, Vec::new())
        .unwrap()
        .into_inner()
        .unwrap();
    assert!(read_path(&avro_file(header_only), &"avro".to_string()).unwrap().is_empty());
    let mut cut = whole.clone();
    cut.truncate(whole.len() - 5);
    let outcome = read_path(&avro_file(cut), &"avro".to_string());
    assert!(outcome.is_ok());
}

#[test]
fn avro_contents_under_csv_format_give_no_row() {
    let rows = read_path(&avro_file(people_container()), &"csv".to_string()).unwrap();
    assert!(rows.is_empty());
}
