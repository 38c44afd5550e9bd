//! The batch sink: what is sent to the backing store for a sequence of
//! rows. The library plans the statement, the bindings of each row and the
//! batches; the caller holds the connection and sends them.

use vstd::prelude::*;
use vstd::string::StringExecFns;
use crate::csv_format::{all_wf, cells_of};
use crate::row::{lookup, names_of, Row};
use crate::text::{join, joined};

verus! {

/// One bound parameter of an insert: the parameter's name and its value.
pub struct Binding {
    pub parameter: String,
    pub value: String,
}

/// What is sent for a load: the insert statement, the rows to insert as
/// batches of bindings, and the number of rows that were passed over
/// because they lack a column.
pub struct InsertPlan {
    pub statement: String,
    pub batches: Vec<Vec<Vec<Binding>>>,
    pub skipped: usize,
}

/// How a load ends where nothing stands against it.
pub enum LoadOutcome {
    /// There is no row: nothing is sent.
    NoRows,
    /// The rows are sent as planned.
    Insert(InsertPlan),
}

/// Why nothing can be sent.
#[derive(Clone, Copy, Debug, PartialEq, Eq, Structural)]
pub enum SinkError {
    /// The backing store has no table of the target's name.
    TableAbsent,
    /// The batch size is zero.
    EmptyBatch,
}

/// The name of the parameter that stands for `column` in the statement.
pub open spec fn parameter_of(column: Seq<char>) -> Seq<char> {
    ":"@ + column
}

/// The parameters of the columns, in the columns' order.
pub open spec fn parameters(columns: Seq<Seq<char>>) -> Seq<Seq<char>> {
    Seq::new(columns.len(), |i: int| parameter_of(columns[i]))
}

/// The insert statement for a table and its columns.
pub open spec fn insert_statement(table: Seq<char>, columns: Seq<Seq<char>>) -> Seq<char> {
    "INSERT INTO "@ + table + " ("@ + joined(columns, ","@) + ") VALUES ("@ + joined(
        parameters(columns),
        ","@,
    ) + ")"@
}

/// Whether a row has every column of the schema.
pub open spec fn binds(columns: Seq<Seq<char>>, cells: Seq<(Seq<char>, Seq<char>)>) -> bool {
    forall|i: int| 0 <= i < columns.len() ==> lookup(cells, #[trigger] columns[i]).is_some()
}

/// The bindings of a row that has every column: one for each column of the
/// schema, in the schema's order. Columns of the row that the schema does
/// not have are left out.
pub open spec fn bound(columns: Seq<Seq<char>>, cells: Seq<(Seq<char>, Seq<char>)>) -> Seq<
    (Seq<char>, Seq<char>),
> {
    Seq::new(
        columns.len(),
        |i: int| (parameter_of(columns[i]), lookup(cells, columns[i]).unwrap()),
    )
}

/// The bindings of those of the first `n` rows that have every column, in
/// the rows' order.
pub open spec fn bound_rows(
    columns: Seq<Seq<char>>,
    rows: Seq<Seq<(Seq<char>, Seq<char>)>>,
    n: nat,
) -> Seq<Seq<(Seq<char>, Seq<char>)>>
    decreases n,
{
    if n == 0 {
        Seq::empty()
    } else if binds(columns, rows[n - 1]) {
        bound_rows(columns, rows, (n - 1) as nat).push(bound(columns, rows[n - 1]))
    } else {
        bound_rows(columns, rows, (n - 1) as nat)
    }
}

/// The number of those of the first `n` rows that lack a column.
pub open spec fn skipped_rows(
    columns: Seq<Seq<char>>,
    rows: Seq<Seq<(Seq<char>, Seq<char>)>>,
    n: nat,
) -> nat
    decreases n,
{
    if n == 0 {
        0
    } else if binds(columns, rows[n - 1]) {
        skipped_rows(columns, rows, (n - 1) as nat)
    } else {
        skipped_rows(columns, rows, (n - 1) as nat) + 1
    }
}

/// The plain values of the bindings of one row.
pub open spec fn bindings_of(bindings: Seq<Binding>) -> Seq<(Seq<char>, Seq<char>)> {
    Seq::new(bindings.len(), |i: int| (bindings[i].parameter@, bindings[i].value@))
}

/// The plain values of the rows of one batch.
pub open spec fn batch_of(batch: Seq<Vec<Binding>>) -> Seq<Seq<(Seq<char>, Seq<char>)>> {
    Seq::new(batch.len(), |i: int| bindings_of(batch[i]@))
}

/// The plain values of the batches.
pub open spec fn batches_of(batches: Seq<Vec<Vec<Binding>>>) -> Seq<
    Seq<Seq<(Seq<char>, Seq<char>)>>,
> {
    Seq::new(batches.len(), |i: int| batch_of(batches[i]@))
}

/// Whether `plan` is the plan for these rows: the statement is the
/// table's insert statement; the batches hold, in the rows' order, the
/// bindings of the rows that have every column; the other rows are counted
/// as skipped; no batch is empty or over the size, and every batch but the
/// last is full.
pub open spec fn plans(
    plan: InsertPlan,
    table: Seq<char>,
    columns: Seq<Seq<char>>,
    rows: Seq<Seq<(Seq<char>, Seq<char>)>>,
    batch_size: usize,
) -> bool {
    &&& plan.statement@ == insert_statement(table, columns)
    &&& batches_of(plan.batches@).flatten() == bound_rows(columns, rows, rows.len())
    &&& plan.skipped == skipped_rows(columns, rows, rows.len())
    &&& forall|k: int|
        0 <= k < plan.batches@.len() ==> 1 <= (#[trigger] plan.batches@[k])@.len() <= batch_size
    &&& forall|k: int|
        0 <= k < plan.batches@.len() - 1 ==> (#[trigger] plan.batches@[k])@.len() == batch_size
}

/// Whether `outcome` is what the sink comes to for these rows. No row at
/// all is no error, whatever else holds. With rows, a table that is absent
/// is the first error and a batch size of zero the second; else the rows
/// are planned.
pub open spec fn sink_outcome(
    outcome: Result<LoadOutcome, SinkError>,
    table_exists: bool,
    table: Seq<char>,
    columns: Seq<Seq<char>>,
    rows: Seq<Seq<(Seq<char>, Seq<char>)>>,
    batch_size: usize,
) -> bool {
    match outcome {
        Ok(LoadOutcome::NoRows) => rows.len() == 0,
        Ok(LoadOutcome::Insert(plan)) => {
            &&& rows.len() > 0
            &&& table_exists
            &&& batch_size > 0
            &&& plans(plan, table, columns, rows, batch_size)
        },
        Err(SinkError::TableAbsent) => rows.len() > 0 && !table_exists,
        Err(SinkError::EmptyBatch) => rows.len() > 0 && table_exists && batch_size == 0,
    }
}

/// The parameter names for the columns of the schema.
pub fn parameters_for(columns: &Vec<String>) -> (names: Vec<String>)
    ensures
        names_of(names@) == parameters(names_of(columns@)),
{
    let mut names: Vec<String> = Vec::new();
    let mut i: usize = 0;
    while i < columns.len()
        invariant
            i <= columns@.len(),
            names@.len() == i,
            forall|j: int| 0 <= j < i ==> (#[trigger] names@[j])@ == parameter_of(columns@[j]@),
        decreases columns@.len() - i,
    {
        let name = String::from_str(":").concat(columns[i].as_str());
        names.push(name);
        i += 1;
    }
    assert(names_of(names@) =~= parameters(names_of(columns@)));
    names
}

/// The insert statement for a table and the columns of its schema.
pub fn insert_statement_for(table_name: &String, columns: &Vec<String>) -> (statement: String)
    ensures
        statement@ == insert_statement(table_name@, names_of(columns@)),
{
    let names = parameters_for(columns);
    let mut statement = String::from_str("INSERT INTO ");
    statement.append(table_name.as_str());
    statement.append(" (");
    statement.append(join(columns, ",").as_str());
    statement.append(") VALUES (");
    statement.append(join(&names, ",").as_str());
    statement.append(")");
    statement
}

/// The bindings of one row, in the schema's column order; `None` where the
/// row lacks a column of the schema.
pub fn bind_row(columns: &Vec<String>, row: &Row) -> (bindings: Option<Vec<Binding>>)
    requires
        row.wf(),
    ensures
        match bindings {
            Some(list) => binds(names_of(columns@), row.cells()) && bindings_of(list@) == bound(
                names_of(columns@),
                row.cells(),
            ),
            None => !binds(names_of(columns@), row.cells()),
        },
{
    let mut list: Vec<Binding> = Vec::new();
    let mut i: usize = 0;
    while i < columns.len()
        invariant
            row.wf(),
            i <= columns@.len(),
            list@.len() == i,
            forall|j: int|
                0 <= j < i ==> lookup(row.cells(), #[trigger] names_of(columns@)[j]).is_some(),
            forall|j: int|
                0 <= j < i ==> (#[trigger] list@[j]).parameter@ == parameter_of(columns@[j]@)
                    && lookup(row.cells(), columns@[j]@) == Some(list@[j].value@),
        decreases columns@.len() - i,
    {
        match row.get(&columns[i]) {
            Some(value) => {
                let parameter = String::from_str(":").concat(columns[i].as_str());
                list.push(Binding { parameter, value });
            },
            None => {
                assert(names_of(columns@)[i as int] == columns@[i as int]@);
                return None;
            },
        }
        assert(names_of(columns@)[i as int] == columns@[i as int]@);
        i += 1;
    }
    assert(bindings_of(list@) =~= bound(names_of(columns@), row.cells()));
    Some(list)
}

/// Plans the insertion of `rows` into the table `table_name`, whose schema
/// has the columns `columns` in this order.
///
/// No row at all is no error: nothing is sent. Otherwise the table must be
/// there and a batch must have room for a row. A row that lacks a column
/// of the schema is passed over and counted; every other row is bound in
/// the schema's column order. The bound rows stand in the batches in their
/// order; every batch but the last is full, and none is empty.
pub fn load_db(
    table_exists: bool,
    table_name: &String,
    columns: &Vec<String>,
    rows: &Vec<Row>,
    batch_size: usize,
) -> (outcome: Result<LoadOutcome, SinkError>)
    requires
        all_wf(rows@),
    ensures
        sink_outcome(
            outcome,
            table_exists,
            table_name@,
            names_of(columns@),
            cells_of(rows@),
            batch_size,
        ),
{
    if rows.len() == 0 {
        return Ok(LoadOutcome::NoRows);
    }
    if !table_exists {
        return Err(SinkError::TableAbsent);
    }
    if batch_size == 0 {
        return Err(SinkError::EmptyBatch);
    }
    let statement = insert_statement_for(table_name, columns);
    let ghost names = names_of(columns@);
    let ghost cells = cells_of(rows@);
    let mut batches: Vec<Vec<Vec<Binding>>> = Vec::new();
    let mut current: Vec<Vec<Binding>> = Vec::new();
    let mut skipped: usize = 0;
    let mut i: usize = 0;
    assert(batches_of(batches@).flatten() + batch_of(current@) =~= bound_rows(names, cells, 0));
    while i < rows.len()
        invariant
            i <= rows@.len(),
            all_wf(rows@),
            batch_size > 0,
            names == names_of(columns@),
            cells == cells_of(rows@),
            batches_of(batches@).flatten() + batch_of(current@) == bound_rows(
                names,
                cells,
                i as nat,
            ),
            skipped == skipped_rows(names, cells, i as nat),
            skipped <= i,
            current@.len() < batch_size,
            forall|k: int| 0 <= k < batches@.len() ==> (#[trigger] batches@[k])@.len() == batch_size,
        decreases rows@.len() - i,
    {
        assert(cells[i as int] == rows@[i as int].cells());
        match bind_row(columns, &rows[i]) {
            Some(bindings) => {
                let ghost flat = batches_of(batches@).flatten();
                let ghost partial = batch_of(current@);
                current.push(bindings);
                assert(batch_of(current@) =~= partial.push(bindings_of(bindings@)));
                assert(flat + batch_of(current@) =~= (flat + partial).push(bindings_of(bindings@)));
                if current.len() == batch_size {
                    let ghost done = batches_of(batches@);
                    let full = current;
                    current = Vec::new();
                    batches.push(full);
                    proof {
                        assert(batches_of(batches@) =~= done.push(batch_of(full@)));
                        done.lemma_flatten_push(batch_of(full@));
                        assert(batches_of(batches@).flatten() + batch_of(current@)
                            =~= batches_of(batches@).flatten());
                    }
                }
            },
            None => {
                skipped += 1;
            },
        }
        i += 1;
    }
    if current.len() > 0 {
        let ghost done = batches_of(batches@);
        let ghost last = batch_of(current@);
        batches.push(current);
        proof {
            assert(batches_of(batches@) =~= done.push(last));
            done.lemma_flatten_push(last);
        }
    } else {
        assert(batches_of(batches@).flatten() + batch_of(current@) =~= batches_of(
            batches@,
        ).flatten());
    }
    Ok(LoadOutcome::Insert(InsertPlan { statement, batches, skipped }))
}

/// The rows that a plan sends, in the order in which it sends them.
pub open spec fn sent(plan: InsertPlan) -> Seq<Seq<(Seq<char>, Seq<char>)>> {
    batches_of(plan.batches@).flatten()
}

/// Every row is either bound or counted as skipped.
pub proof fn lemma_every_row_accounted(
    columns: Seq<Seq<char>>,
    rows: Seq<Seq<(Seq<char>, Seq<char>)>>,
    n: nat,
)
    ensures
        bound_rows(columns, rows, n).len() + skipped_rows(columns, rows, n) == n,
    decreases n,
{
    if n > 0 {
        lemma_every_row_accounted(columns, rows, (n - 1) as nat);
    }
}

/// A row that lacks a column does not stand in the way of the others: the
/// rows bound among the first `n` are those bound among the rows before
/// the last, and the last where it has every column.
pub proof fn lemma_skipping_keeps_the_rest(
    columns: Seq<Seq<char>>,
    rows: Seq<Seq<(Seq<char>, Seq<char>)>>,
    n: nat,
)
    requires
        n > 0,
    ensures
        !binds(columns, rows[n - 1]) ==> bound_rows(columns, rows, n) == bound_rows(
            columns,
            rows,
            (n - 1) as nat,
        ) && skipped_rows(columns, rows, n) == skipped_rows(columns, rows, (n - 1) as nat) + 1,
        binds(columns, rows[n - 1]) ==> bound_rows(columns, rows, n).last() == bound(
            columns,
            rows[n - 1],
        ),
{
}

/// Two plans for the same rows hold the same statement and send the same
/// rows in the same order: a load that is run again sends every row again.
pub proof fn lemma_plan_repeats(
    first: InsertPlan,
    second: InsertPlan,
    table: Seq<char>,
    columns: Seq<Seq<char>>,
    rows: Seq<Seq<(Seq<char>, Seq<char>)>>,
    batch_size: usize,
)
    requires
        plans(first, table, columns, rows, batch_size),
        plans(second, table, columns, rows, batch_size),
    ensures
        first.statement@ == second.statement@,
        sent(first) == sent(second),
        first.skipped == second.skipped,
{
}

} // verus!
