//! The load of one table: its files decoded, their rows flattened, and
//! the insertion planned.

use vstd::prelude::*;
use crate::aggregate::{flatten, groups_of};
use crate::csv_format::cells_of;
use crate::loader::{group_cells, loaded, LoadError};
use crate::metadata::TableMetadata;
use crate::reader::FileSource;
use crate::row::{keys_of, names_of, Row};
use crate::sink::{load_db, sink_outcome, LoadOutcome, SinkError};

verus! {

/// Why the load of a table failed.
pub enum TableLoadError {
    /// A file could not be decoded.
    Decode(LoadError),
    /// The sink refused the rows.
    Sink(SinkError),
}

/// The cells of the rows of flattened groups are the flattened cells of
/// the groups.
pub proof fn lemma_cells_of_flattened(groups: Seq<Vec<Row>>)
    ensures
        cells_of(groups_of(groups).flatten()) == group_cells(groups).flatten(),
    decreases groups.len(),
{
    if groups.len() == 0 {
        assert(cells_of(groups_of(groups).flatten()) =~= group_cells(groups).flatten());
    } else {
        let rest = groups.drop_first();
        lemma_cells_of_flattened(rest);
        assert(groups_of(groups).drop_first() =~= groups_of(rest));
        assert(group_cells(groups).drop_first() =~= group_cells(rest));
        assert(cells_of(groups_of(groups).flatten()) =~= cells_of(groups[0]@) + cells_of(
            groups_of(rest).flatten(),
        ));
    }
}

/// The names of the schema's columns, in the schema's order.
pub fn schema_columns(table: &TableMetadata) -> (columns: Vec<String>)
    requires
        table.wf(),
    ensures
        names_of(columns@) == keys_of(table.schema.cells()),
{
    let mut columns: Vec<String> = Vec::new();
    let mut i: usize = 0;
    while i < table.schema.len()
        invariant
            table.schema.wf(),
            i <= table.schema.cells().len(),
            columns@.len() == i,
            forall|j: int| 0 <= j < i ==> (#[trigger] columns@[j])@ == table.schema.cells()[j].0,
        decreases table.schema.cells().len() - i,
    {
        columns.push(table.schema.column_at(i));
        i += 1;
    }
    assert(names_of(columns@) =~= keys_of(table.schema.cells()));
    columns
}

/// Loads one table from the files found under its data path. The files
/// are decoded under the table's format, in scan order; the first file
/// that fails ends the load before anything is planned. Otherwise the rows
/// of all files, file after file, are planned for insertion under the
/// schema's columns.
pub fn load(
    table: &TableMetadata,
    table_exists: bool,
    files: Vec<FileSource>,
    batch_size: usize,
) -> (outcome: Result<LoadOutcome, TableLoadError>)
    requires
        table.wf(),
    ensures
        match loaded(files@, table.metadata.format@) {
            Err((index, cause)) => match outcome {
                Err(TableLoadError::Decode(error)) => {
                    &&& error.index == index
                    &&& error.cause == cause
                    &&& error.index < files@.len()
                    &&& error.path@ == files@[index].path@
                    &&& error.format@ == table.metadata.format@
                },
                _ => false,
            },
            Ok(groups) => match outcome {
                Ok(planned) => sink_outcome(
                    Ok(planned),
                    table_exists,
                    table.metadata.name@,
                    keys_of(table.schema.cells()),
                    groups.flatten(),
                    batch_size,
                ),
                Err(TableLoadError::Sink(error)) => sink_outcome(
                    Err(error),
                    table_exists,
                    table.metadata.name@,
                    keys_of(table.schema.cells()),
                    groups.flatten(),
                    batch_size,
                ),
                Err(TableLoadError::Decode(_)) => false,
            },
        },
{
    let columns = schema_columns(table);
    let groups = match crate::loader::load(files, table.metadata.format.clone()) {
        Ok(groups) => groups,
        Err(error) => {
            return Err(TableLoadError::Decode(error));
        },
    };
    proof {
        lemma_cells_of_flattened(groups@);
    }
    let rows = flatten(groups);
    match load_db(table_exists, &table.metadata.name, &columns, &rows, batch_size) {
        Ok(planned) => Ok(planned),
        Err(error) => Err(TableLoadError::Sink(error)),
    }
}

} // verus!
