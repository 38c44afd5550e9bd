use wings::metadata::{
    create_table_render, get_metadata_for_display, schema_to_db, Metadata, TableMetadata,
};
use wings::row::Row;

fn sample_table() -> TableMetadata {
    let mut schema = Row::new();
    schema.insert("id".to_string(), "int".to_string());
    schema.insert("name".to_string(), "text".to_string());
    TableMetadata {
        metadata: Metadata {
            name: "test".to_string(),
            format: "csv".to_string(),
            data_path: "/data/test".to_string(),
        },
        schema,
    }
}

#[test]
fn table_metadata_definition() {
    let mut schema = Row::new();
    schema.insert("id".to_string(), "int".to_string());
    schema.insert("name".to_string(), "text".to_string());
    let table_metadata = TableMetadata {
        metadata: Metadata {
            name: "test".to_string(),
            format: "csv".to_string(),
            data_path: String::new(),
        },
        schema,
    };

    let expected_result = "id int null\nname text null".to_string();
    assert_eq!(table_metadata.table_definition(), expected_result)
}

#[test]
fn table_definition_of_an_empty_schema_is_empty() {
    let table_metadata = TableMetadata {
        metadata: Metadata {
            name: "t".to_string(),
            format: "csv".to_string(),
            data_path: String::new(),
        },
        schema: Row::new(),
    };
    assert_eq!(table_metadata.table_definition(), "");
}

#[test]
fn create_statement_lists_the_columns_and_a_closing_column() {
    assert_eq!(
        schema_to_db(&sample_table()),
        "create table if not exists test (\nid int NULL,\nname text NULL,\nend int NULL)"
    );
}

#[test]
fn create_statement_of_an_empty_schema() {
    let table_metadata = TableMetadata {
        metadata: Metadata {
            name: "t".to_string(),
            format: "avro".to_string(),
            data_path: String::new(),
        },
        schema: Row::new(),
    };
    assert_eq!(schema_to_db(&table_metadata), "create table if not exists t (\nend int NULL)");
}

#[test]
fn render_shows_name_path_format_and_columns() {
    assert_eq!(
        create_table_render(sample_table()),
        "Name: test\n--------------------\nMetadata\nPath: /data/test\nFormat: csv\n--------------------\nColumns\nid, int\nname, text"
    );
}

#[test]
fn display_of_a_table_that_is_there() {
    let name = "test".to_string();
    let shown = get_metadata_for_display(&name, Some(sample_table()));
    assert_eq!(shown.ok(), Some(create_table_render(sample_table())));
}

#[test]
fn display_of_a_table_that_is_missing() {
    let name = "orders".to_string();
    match get_metadata_for_display(&name, None) {
        Ok(_) => panic!("a missing table was shown"),
        Err(missing) => assert_eq!(missing.message, "Can't find table orders"),
    }
}
