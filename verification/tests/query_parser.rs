use wings::query_parser::get_tables_from_query;

#[test]
fn got_table_from_query() {
    let query = String::from("select * from test_table where id = 1");
    let result = vec![String::from("test_table")];
    assert_eq!(get_tables_from_query(&query), result);
}

#[test]
fn query_without_from_names_no_table() {
    let query = String::from("select 1");
    assert_eq!(get_tables_from_query(&query), Vec::<String>::new());
}

#[test]
fn query_with_two_from_clauses_names_two_tables() {
    let query = String::from("select * from a join (select * from b) on 1");
    assert_eq!(get_tables_from_query(&query), vec![String::from("a"), String::from("b)")]);
}

#[test]
fn from_at_the_end_names_no_table() {
    let query = String::from("select * from");
    assert_eq!(get_tables_from_query(&query), Vec::<String>::new());
}

#[test]
fn from_inside_a_word_counts_as_a_clause() {
    let query = String::from("select fromage from cheeses");
    assert_eq!(get_tables_from_query(&query), vec![String::new(), String::from("cheeses")]);
}
