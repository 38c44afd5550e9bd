//! The resolved schema of a table: its name, the format and place of its
//! files, and its columns with their declared types.

use vstd::prelude::*;
use vstd::string::StringExecFns;
use crate::row::{names_of, Row};
use crate::text::{join, joined};

verus! {

/// Where a table's data lies and how it is read.
pub struct Metadata {
    pub name: String,
    pub format: String,
    pub data_path: String,
}

/// A table: its metadata, and its columns in their order, each with its
/// declared type.
pub struct TableMetadata {
    pub metadata: Metadata,
    pub schema: Row,
}

/// A table that was asked for and is not there.
pub struct MissingTable {
    pub message: String,
}

/// The definition of one column: its name, its type, and that it may be
/// null.
pub open spec fn definition_line(name: Seq<char>, declared: Seq<char>) -> Seq<char> {
    name + " "@ + declared + " null"@
}

/// The definitions of the columns, in the columns' order.
pub open spec fn definition_lines(columns: Seq<(Seq<char>, Seq<char>)>) -> Seq<Seq<char>> {
    Seq::new(columns.len(), |i: int| definition_line(columns[i].0, columns[i].1))
}

/// The definition of a table's columns: one line for each column.
pub open spec fn definition(columns: Seq<(Seq<char>, Seq<char>)>) -> Seq<char> {
    joined(definition_lines(columns), "\n"@)
}

/// The clause of one column in the statement that creates the table.
pub open spec fn column_clause(name: Seq<char>, declared: Seq<char>) -> Seq<char> {
    name + " "@ + declared + " NULL,\n"@
}

/// The clauses of the first `n` columns, one after the other.
pub open spec fn column_clauses(columns: Seq<(Seq<char>, Seq<char>)>, n: nat) -> Seq<char>
    decreases n,
{
    if n == 0 {
        Seq::empty()
    } else {
        column_clauses(columns, (n - 1) as nat) + column_clause(columns[n - 1].0, columns[n - 1].1)
    }
}

/// The statement that creates a table unless it is there: the schema's
/// columns in their order, and after them a closing column `end`.
pub open spec fn create_statement(name: Seq<char>, columns: Seq<(Seq<char>, Seq<char>)>) -> Seq<
    char,
> {
    "create table if not exists "@ + name + " (\n"@ + column_clauses(columns, columns.len())
        + "end int NULL"@ + ")"@
}

/// The line that shows one column: its name and its type.
pub open spec fn shown_column(name: Seq<char>, declared: Seq<char>) -> Seq<char> {
    name + ", "@ + declared
}

/// The lines that show the columns, in the columns' order.
pub open spec fn shown_columns(columns: Seq<(Seq<char>, Seq<char>)>) -> Seq<Seq<char>> {
    Seq::new(columns.len(), |i: int| shown_column(columns[i].0, columns[i].1))
}

/// What is shown of a table: its name, the place and format of its data,
/// and its columns.
pub open spec fn shown_table(
    name: Seq<char>,
    data_path: Seq<char>,
    format: Seq<char>,
    columns: Seq<(Seq<char>, Seq<char>)>,
) -> Seq<char> {
    "Name: "@ + name + "\n--------------------\nMetadata\n"@ + "Path: "@ + data_path + "\n"@
        + "Format: "@ + format + "\n--------------------\nColumns\n"@ + joined(
        shown_columns(columns),
        "\n"@,
    )
}

impl TableMetadata {
    /// The table is well formed where its schema is.
    pub open spec fn wf(&self) -> bool {
        self.schema.wf()
    }

    /// The definition of the table's columns: for each column a line with
    /// its name, its type and `null`.
    pub fn table_definition(&self) -> (text: String)
        requires
            self.wf(),
        ensures
            text@ == definition(self.schema.cells()),
    {
        let mut lines: Vec<String> = Vec::new();
        let mut i: usize = 0;
        while i < self.schema.len()
            invariant
                self.schema.wf(),
                i <= self.schema.cells().len(),
                lines@.len() == i,
                forall|j: int|
                    0 <= j < i ==> (#[trigger] lines@[j])@ == definition_line(
                        self.schema.cells()[j].0,
                        self.schema.cells()[j].1,
                    ),
            decreases self.schema.cells().len() - i,
        {
            let mut line = self.schema.column_at(i);
            line.append(" ");
            line.append(self.schema.value_at(i).as_str());
            line.append(" null");
            lines.push(line);
            i += 1;
        }
        assert(names_of(lines@) =~= definition_lines(self.schema.cells()));
        join(&lines, "\n")
    }
}

/// The statement that creates the table of `table_metadata` in the backing
/// store, unless the store has it.
pub fn schema_to_db(table_metadata: &TableMetadata) -> (statement: String)
    requires
        table_metadata.wf(),
    ensures
        statement@ == create_statement(
            table_metadata.metadata.name@,
            table_metadata.schema.cells(),
        ),
{
    let schema = &table_metadata.schema;
    let mut statement = String::from_str("create table if not exists ");
    statement.append(table_metadata.metadata.name.as_str());
    statement.append(" (\n");
    let ghost head = statement@;
    let mut i: usize = 0;
    assert(head + column_clauses(schema.cells(), 0) =~= head);
    while i < schema.len()
        invariant
            schema.wf(),
            i <= schema.cells().len(),
            statement@ == head + column_clauses(schema.cells(), i as nat),
        decreases schema.cells().len() - i,
    {
        let ghost before = column_clauses(schema.cells(), i as nat);
        statement.append(schema.column_at(i).as_str());
        statement.append(" ");
        statement.append(schema.value_at(i).as_str());
        statement.append(" NULL,\n");
        assert(statement@ =~= head + (before + column_clause(
            schema.cells()[i as int].0,
            schema.cells()[i as int].1,
        )));
        i += 1;
    }
    statement.append("end int NULL");
    statement.append(")");
    assert(statement@ =~= create_statement(table_metadata.metadata.name@, schema.cells()));
    statement
}

/// What is shown of a table.
pub fn create_table_render(table_metadata: TableMetadata) -> (text: String)
    requires
        table_metadata.wf(),
    ensures
        text@ == shown_table(
            table_metadata.metadata.name@,
            table_metadata.metadata.data_path@,
            table_metadata.metadata.format@,
            table_metadata.schema.cells(),
        ),
{
    let schema = &table_metadata.schema;
    let mut columns: Vec<String> = Vec::new();
    let mut i: usize = 0;
    while i < schema.len()
        invariant
            schema.wf(),
            i <= schema.cells().len(),
            columns@.len() == i,
            forall|j: int|
                0 <= j < i ==> (#[trigger] columns@[j])@ == shown_column(
                    schema.cells()[j].0,
                    schema.cells()[j].1,
                ),
        decreases schema.cells().len() - i,
    {
        let mut line = schema.column_at(i);
        line.append(", ");
        line.append(schema.value_at(i).as_str());
        columns.push(line);
        i += 1;
    }
    assert(names_of(columns@) =~= shown_columns(schema.cells()));
    let mut text = String::from_str("Name: ");
    text.append(table_metadata.metadata.name.as_str());
    text.append("\n--------------------\nMetadata\n");
    text.append("Path: ");
    text.append(table_metadata.metadata.data_path.as_str());
    text.append("\n");
    text.append("Format: ");
    text.append(table_metadata.metadata.format.as_str());
    text.append("\n--------------------\nColumns\n");
    text.append(join(&columns, "\n").as_str());
    text
}

/// What is shown of the table `name`: `table` is what was found under that
/// name. A table that was not found is an error that names it.
pub fn get_metadata_for_display(name: &String, table: Option<TableMetadata>) -> (shown: Result<
    String,
    MissingTable,
>)
    requires
        match table {
            Some(found) => found.wf(),
            None => true,
        },
    ensures
        match (table, shown) {
            (Some(found), Ok(text)) => text@ == shown_table(
                found.metadata.name@,
                found.metadata.data_path@,
                found.metadata.format@,
                found.schema.cells(),
            ),
            (None, Err(missing)) => missing.message@ == "Can't find table "@ + name@,
            _ => false,
        },
{
    match table {
        Some(found) => Ok(create_table_render(found)),
        None => {
            let mut message = String::from_str("Can't find table ");
            message.append(name.as_str());
            Err(MissingTable { message })
        },
    }
}

} // verus!
