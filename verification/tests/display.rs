use wings::display_row::{
    display_rows_from_maps, get_column_display_line, get_column_row, get_data_display_lines,
    get_first_display_line, get_max_widths, get_total_width, render_table, DisplayRow,
};
use wings::row::Row;

fn row_of(pairs: &[(&str, &str)]) -> Row {
    let mut row = Row::new();
    for (name, value) in pairs {
        row.insert(name.to_string(), value.to_string());
    }
    row
}

fn names(list: &[&str]) -> Vec<String> {
    list.iter().map(|n| n.to_string()).collect()
}

fn people() -> Vec<DisplayRow> {
    display_rows_from_maps(vec![
        row_of(&[("id", "1"), ("name", "Alice")]),
        row_of(&[("id", "22"), ("email", "b@x.org")]),
    ])
}

#[test]
fn columns_come_once_in_the_order_of_first_sight() {
    assert_eq!(get_column_row(&people()), names(&["id", "name", "email"]));
    assert_eq!(get_column_row(&Vec::new()), Vec::<String>::new());
}

#[test]
fn widths_are_the_longest_of_name_and_values() {
    let rows = people();
    let columns = get_column_row(&rows);
    assert_eq!(get_max_widths(&rows, &columns), vec![2, 5, 7]);
    assert_eq!(get_max_widths(&rows, &names(&["unknown"])), vec![7]);
}

#[test]
fn widths_count_bytes() {
    let rows = vec![DisplayRow::new(row_of(&[("n", "héé")]))];
    assert_eq!(get_max_widths(&rows, &names(&["n"])), vec![5]);
}

#[test]
fn total_width_adds_the_dividers_between_columns() {
    assert_eq!(get_total_width(&vec![2, 5, 7]), Some(16));
    assert_eq!(get_total_width(&vec![4]), Some(4));
    assert_eq!(get_total_width(&Vec::new()), Some(0));
    assert_eq!(get_total_width(&vec![usize::MAX, 1]), None);
    assert_eq!(get_total_width(&vec![usize::MAX - 1, 1]), None);
    assert_eq!(get_total_width(&vec![usize::MAX - 2, 1]), Some(usize::MAX));
}

#[test]
fn border_has_a_corner_at_each_end() {
    assert_eq!(get_first_display_line(0), "++");
    assert_eq!(get_first_display_line(3), "+---+");
}

#[test]
fn column_line_pads_each_name_to_its_width() {
    assert_eq!(get_column_display_line(&names(&["id", "name"]), &vec![4, 4]), "|id  |name|");
    assert_eq!(get_column_display_line(&names(&["id"]), &vec![1]), "|id|");
    assert_eq!(get_column_display_line(&Vec::new(), &Vec::new()), "|");
}

#[test]
fn data_lines_leave_a_missing_value_blank() {
    let lines = get_data_display_lines(people(), names(&["id", "name", "email"]), vec![2, 5, 7]);
    assert_eq!(lines, "|1 |Alice|       |\n|22|     |b@x.org|\n");
}

#[test]
fn table_is_framed_by_borders() {
    let table = render_table(people()).unwrap();
    assert_eq!(
        table,
        "+----------------+\n\
         |id|name |email  |\n\
         +----------------+\n\
         |1 |Alice|       |\n\
         |22|     |b@x.org|\n\
         +----------------+"
    );
}

#[test]
fn table_of_no_rows_is_two_borders_round_a_divider() {
    assert_eq!(render_table(Vec::new()).unwrap(), "++\n|\n++\n++");
}

#[test]
fn wide_characters_are_padded_by_their_display_width() {
    let rows = vec![DisplayRow::new(row_of(&[("name", "日本")]))];
    let lines = get_data_display_lines(rows, names(&["name"]), vec![6]);
    assert_eq!(lines, "|日本  |\n");
}
